//! The teams as the configuration file writes them.
use vstd::prelude::*;

verus! {

/// A team's entry in the league's listing, as configured.
#[derive(Debug, Clone)]
pub struct FullTime {
    pub id: i32,
    pub name: String,
    pub season_id: i32,
}

/// A team's subgroup on the platform, as configured.
#[derive(Debug, Clone)]
pub struct Spond {
    pub sub_group_id: String,
}

/// A team, as configured.
#[derive(Debug, Clone)]
pub struct Team {
    pub name: String,
    pub full_time: FullTime,
    pub spond: Spond,
}

/// All configured teams.
#[derive(Debug, Clone)]
pub struct Teams {
    pub teams: Vec<Team>,
}

impl FullTime {
    /// The team's entry in the league's listing.
    pub fn into_full_time(self) -> (r: crate::team::FullTime)
        ensures
            r.season_id.0 == self.season_id,
            r.team.id.0 == self.id,
            r.team.name@ == self.name@,
    {
        crate::team::FullTime {
            season_id: crate::full_time::SeasonId::new(self.season_id),
            team: crate::full_time::Team {
                id: crate::full_time::TeamId::new(self.id),
                name: crate::full_time::TeamName::new(self.name.as_str()),
            },
        }
    }
}

impl Spond {
    /// The team's subgroup on the platform.
    pub fn into_spond(self) -> (r: crate::team::Spond)
        ensures
            r.sub_group_id@ == self.sub_group_id@,
    {
        crate::team::Spond {
            sub_group_id: crate::spond::SubGroupId::new(self.sub_group_id.as_str()),
        }
    }
}

impl Team {
    /// The team that is kept in step.
    pub fn into_team(self) -> (r: crate::team::Team)
        ensures
            r.name == self.name,
            r.full_time.season_id.0 == self.full_time.season_id,
            r.full_time.team.id.0 == self.full_time.id,
            r.full_time.team.name@ == self.full_time.name@,
            r.spond.sub_group_id@ == self.spond.sub_group_id@,
    {
        crate::team::Team {
            name: self.name,
            full_time: self.full_time.into_full_time(),
            spond: self.spond.into_spond(),
        }
    }
}

} // verus!
