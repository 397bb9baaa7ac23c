use full_time_spond_sync::diff::date_event;
use full_time_spond_sync::diff::plan;
use full_time_spond_sync::diff::Keyed;
use full_time_spond_sync::diff::Planned;
use full_time_spond_sync::full_time::Fixture;
use full_time_spond_sync::full_time::FixtureSide;
use full_time_spond_sync::full_time::FixtureType;
use full_time_spond_sync::full_time::Venue;
use full_time_spond_sync::spond::Location;
use full_time_spond_sync::spond::MatchInfo;
use full_time_spond_sync::spond::MatchType;
use full_time_spond_sync::spond::Spond;
use full_time_spond_sync::spond::SpondId;
use full_time_spond_sync::time::Instant;
use full_time_spond_sync::time::LocalDate;
use full_time_spond_sync::Diff;

const MARCH_2_AT_10: i64 = 1709373600;
const MARCH_2_AT_15: i64 = 1709391600;
const MARCH_9_AT_14_30: i64 = 1709994600;
const MARCH_16_AT_9: i64 = 1710579600;

fn fixture_at(secs: i64, opposition: &str) -> Fixture {
    Fixture {
        typ: FixtureType::League,
        side: FixtureSide::Home,
        date_time: Instant { secs, nanos: 0 },
        opposition: opposition.to_string(),
        venue: Venue::Goals,
    }
}

fn event_at(id: &str, secs: i64, opponent: &str, typ: MatchType) -> Spond {
    Spond {
        id: SpondId(id.to_string()),
        creator_id: SpondId("creator".to_string()),
        owners: vec![],
        heading: format!("U10 - {}", opponent),
        description: None,
        start_timestamp: Instant { secs, nanos: 0 },
        end_timestamp: Instant { secs: secs + 3600, nanos: 0 },
        meetup_timestamp: None,
        meetup_prior: Some(15),
        location: Some(Location::from_full_time_venue(Venue::Goals)),
        match_info: Some(MatchInfo::new("U10".to_string(), opponent.to_string(), typ)),
        match_event: true,
        created_time: Instant { secs: 1700000000, nanos: 0 },
        expired: false,
    }
}

fn nothing() -> Diff {
    Diff { new: vec![], modified: vec![], removed: vec![] }
}

#[test]
fn same_fixture_list_produces_no_diff() {
    let fixtures = vec![];
    let sponds = vec![];
    let diff = Diff::new(fixtures, sponds);
    assert!(
        diff == Diff {
            new: vec!(),
            modified: vec!(),
            removed: vec!()
        }
    )
}

#[test]
fn a_fixture_without_an_event_is_new() {
    let fixture = fixture_at(MARCH_2_AT_10, "Rivals FC");
    let diff = Diff::new(vec![fixture.clone()], vec![]);
    assert_eq!(diff, Diff { new: vec![fixture], modified: vec![], removed: vec![] });
}

#[test]
fn a_fixture_with_its_event_needs_nothing() {
    let fixture = fixture_at(MARCH_2_AT_10, "Rivals FC");
    let event = event_at("e1", MARCH_2_AT_10, "Rivals FC", MatchType::Home);
    assert_eq!(event.to_fixture(), Ok(Some(fixture.clone())));
    assert_eq!(fixture.to_spond_meetup_prior(), event.meetup_prior);
    assert_eq!(Diff::new(vec![fixture], vec![event]), nothing());
}

#[test]
fn an_event_without_a_fixture_is_removed() {
    let event = event_at("e1", MARCH_2_AT_10, "Rivals FC", MatchType::Home);
    let diff = Diff::new(vec![], vec![event.clone()]);
    assert_eq!(diff, Diff { new: vec![], modified: vec![], removed: vec![event] });
}

#[test]
fn reconciling_twice_gives_the_same_difference() {
    let fixtures = vec![
        fixture_at(MARCH_16_AT_9, "Third"),
        fixture_at(MARCH_2_AT_10, "Rivals FC"),
        fixture_at(MARCH_9_AT_14_30, "Second"),
    ];
    let events = vec![
        event_at("e1", MARCH_2_AT_15, "Rivals FC", MatchType::Home),
        event_at("e2", 1711184400, "Gone", MatchType::Away),
    ];
    let first = Diff::new(fixtures.clone(), events.clone());
    let second = Diff::new(fixtures, events);
    assert_eq!(first, second);
    assert_eq!(first.new.len(), 2);
    assert_eq!(first.modified.len(), 1);
    assert_eq!(first.removed.len(), 1);
}

#[test]
fn an_event_at_another_time_of_the_same_day_is_modified() {
    let fixture = fixture_at(MARCH_2_AT_10, "Rivals FC");
    let event = event_at("e1", MARCH_2_AT_15, "Rivals FC", MatchType::Home);
    let diff = Diff::new(vec![fixture.clone()], vec![event.clone()]);
    assert_eq!(diff, Diff { new: vec![], modified: vec![(fixture, event)], removed: vec![] });
}

#[test]
fn an_event_with_another_reminder_is_modified() {
    let fixture = fixture_at(MARCH_2_AT_10, "Rivals FC");
    let mut event = event_at("e1", MARCH_2_AT_10, "Rivals FC", MatchType::Home);
    event.meetup_prior = Some(30);
    let diff = Diff::new(vec![fixture.clone()], vec![event.clone()]);
    assert_eq!(diff.modified, vec![(fixture.clone(), event.clone())]);
    event.meetup_prior = None;
    let diff = Diff::new(vec![fixture.clone()], vec![event.clone()]);
    assert_eq!(diff.modified, vec![(fixture, event)]);
}

#[test]
fn an_event_at_an_unknown_place_is_modified() {
    let fixture = fixture_at(MARCH_2_AT_10, "Rivals FC");
    let mut event = event_at("e1", MARCH_2_AT_10, "Rivals FC", MatchType::Home);
    event.location = None;
    let diff = Diff::new(vec![fixture.clone()], vec![event.clone()]);
    assert_eq!(diff.modified, vec![(fixture.clone(), event.clone())]);
    let mut elsewhere = Location::goals();
    elsewhere.feature = "Wembley".to_string();
    event.location = Some(elsewhere);
    let diff = Diff::new(vec![fixture.clone()], vec![event.clone()]);
    assert_eq!(diff, Diff { new: vec![], modified: vec![(fixture, event)], removed: vec![] });
}

#[test]
fn a_cup_match_away_differs_from_its_own_event() {
    let mut fixture = fixture_at(MARCH_2_AT_10, "Rivals FC");
    fixture.typ = FixtureType::Cup;
    fixture.side = FixtureSide::Away;
    let event = event_at("e1", MARCH_2_AT_10, "Rivals FC", MatchType::Tournament);
    let diff = Diff::new(vec![fixture.clone()], vec![event.clone()]);
    assert_eq!(diff.modified, vec![(fixture.clone(), event.clone())]);
    fixture.side = FixtureSide::Home;
    assert_eq!(Diff::new(vec![fixture], vec![event]), nothing());
}

#[test]
fn events_without_match_information_take_no_part() {
    let fixture = fixture_at(MARCH_2_AT_10, "Rivals FC");
    let mut training = event_at("t1", MARCH_2_AT_15, "Nobody", MatchType::Home);
    training.match_info = None;
    let diff = Diff::new(vec![fixture.clone()], vec![training.clone()]);
    assert_eq!(diff, Diff { new: vec![fixture.clone()], modified: vec![], removed: vec![] });
    assert_eq!(Diff::new(vec![], vec![training.clone()]), nothing());
    let event = event_at("e1", MARCH_2_AT_10, "Rivals FC", MatchType::Home);
    assert_eq!(Diff::new(vec![fixture], vec![event, training]), nothing());
}

#[test]
fn the_last_of_a_day_counts() {
    let morning = fixture_at(MARCH_2_AT_10, "Rivals FC");
    let afternoon = fixture_at(MARCH_2_AT_15, "Others");
    let diff = Diff::new(vec![morning.clone(), afternoon.clone()], vec![]);
    assert_eq!(diff.new, vec![afternoon.clone()]);
    let diff = Diff::new(vec![afternoon.clone(), morning.clone()], vec![]);
    assert_eq!(diff.new, vec![morning.clone()]);
    let first = event_at("e1", MARCH_2_AT_10, "Rivals FC", MatchType::Home);
    let second = event_at("e2", MARCH_2_AT_15, "Others", MatchType::Home);
    let diff = Diff::new(vec![], vec![first.clone(), second.clone()]);
    assert_eq!(diff.removed, vec![second.clone()]);
    let diff = Diff::new(vec![morning], vec![second.clone(), first]);
    assert_eq!(diff, nothing());
}

#[test]
fn the_lists_come_in_ascending_order() {
    let a = fixture_at(MARCH_2_AT_10, "A");
    let b = fixture_at(MARCH_9_AT_14_30, "B");
    let c = fixture_at(MARCH_16_AT_9, "C");
    let diff = Diff::new(vec![c.clone(), a.clone(), b.clone()], vec![]);
    assert_eq!(diff.new, vec![a.clone(), b.clone(), c.clone()]);
    let x = event_at("x", MARCH_2_AT_15, "X", MatchType::Away);
    let y = event_at("y", MARCH_9_AT_14_30 + 60, "Y", MatchType::Away);
    let z = event_at("z", MARCH_16_AT_9 + 60, "Z", MatchType::Away);
    let diff = Diff::new(vec![], vec![z.clone(), x.clone(), y.clone()]);
    assert_eq!(diff.removed, vec![x.clone(), y.clone(), z.clone()]);
    let diff = Diff::new(vec![b.clone(), c.clone(), a.clone()], vec![y.clone(), z.clone(), x.clone()]);
    assert_eq!(diff.modified, vec![(a, x), (b, y), (c, z)]);
    assert_eq!(diff.new, vec![]);
    assert_eq!(diff.removed, vec![]);
}

#[test]
fn a_day_is_a_day_of_the_london_calendar() {
    let late = fixture_at(1719788700, "Late");
    let event = event_at("e1", 1719788700 - 600, "Late", MatchType::Home);
    let diff = Diff::new(vec![late.clone()], vec![event.clone()]);
    assert_eq!(diff, Diff { new: vec![late], modified: vec![], removed: vec![event] });
}

#[test]
fn entries_carry_their_date_and_reminder() {
    let entry = plan(fixture_at(MARCH_2_AT_10, "Rivals FC"));
    assert_eq!(entry.date, LocalDate { year: 2024, month: 3, day: 2 });
    assert_eq!(entry.item.reminder, Some(15));
    let entry = plan(fixture_at(1709337900, "Rivals FC"));
    assert_eq!(entry.date, LocalDate { year: 2024, month: 3, day: 2 });
    assert_eq!(entry.item.reminder, None);
    let dated = date_event(event_at("e1", 1719788700, "Late", MatchType::Home));
    assert_eq!(dated.date, LocalDate { year: 2024, month: 7, day: 1 });
}

#[test]
fn the_difference_between_dated_entries_goes_by_their_dates() {
    let day = |d: u32| LocalDate { year: 2024, month: 3, day: d };
    let source = vec![
        Keyed { date: day(9), item: Planned { fixture: fixture_at(200, "B"), reminder: Some(15) } },
        Keyed { date: day(2), item: Planned { fixture: fixture_at(100, "A"), reminder: None } },
    ];
    let kept = event_at("kept", 100, "A", MatchType::Home);
    let gone = event_at("gone", 300, "C", MatchType::Home);
    let target = vec![
        Keyed { date: day(16), item: gone.clone() },
        Keyed { date: day(2), item: kept.clone() },
    ];
    let diff = Diff::between(source, target);
    assert_eq!(diff.new, vec![fixture_at(200, "B")]);
    assert_eq!(diff.modified, vec![(fixture_at(100, "A"), kept)]);
    assert_eq!(diff.removed, vec![gone]);
}

#[test]
fn a_fixture_at_any_venue_settles_with_its_event() {
    for venue in [Venue::Goals, Venue::WoodfordPark, Venue::KingsAcademy] {
        let mut fixture = fixture_at(MARCH_2_AT_10, "Rivals FC");
        fixture.venue = venue;
        let mut event = event_at("e1", MARCH_2_AT_10, "Rivals FC", MatchType::Home);
        event.location = Some(Location::from_full_time_venue(venue));
        assert_eq!(event.to_fixture(), Ok(Some(fixture.clone())));
        assert_eq!(Diff::new(vec![fixture], vec![event]), nothing());
    }
}
