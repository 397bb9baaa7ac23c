//! The teams that are kept in step, as the configuration names them.
use vstd::prelude::*;

pub mod config;

verus! {

/// Where a team's events live on the platform.
#[derive(Debug, Clone)]
pub struct Spond {
    pub sub_group_id: crate::spond::SubGroupId,
}

/// Where a team's fixtures are listed by the league.
#[derive(Debug, Clone)]
pub struct FullTime {
    pub season_id: crate::full_time::SeasonId,
    pub team: crate::full_time::Team,
}

/// A team that is kept in step.
#[derive(Debug, Clone)]
pub struct Team {
    pub name: String,
    pub full_time: FullTime,
    pub spond: Spond,
}

} // verus!
