use full_time_spond_sync::error::ParseError;
use full_time_spond_sync::full_time::parse_fixture;
use full_time_spond_sync::full_time::parse_fixture_time;
use full_time_spond_sync::full_time::parse_fixture_type;
use full_time_spond_sync::full_time::parse_fixtures;
use full_time_spond_sync::full_time::parse_teams;
use full_time_spond_sync::full_time::parse_venue;
use full_time_spond_sync::full_time::try_parse_opposition;
use full_time_spond_sync::full_time::upcoming;
use full_time_spond_sync::full_time::Cell;
use full_time_spond_sync::full_time::Fixture;
use full_time_spond_sync::full_time::FixtureSide;
use full_time_spond_sync::full_time::FixtureType;
use full_time_spond_sync::full_time::SeasonId;
use full_time_spond_sync::full_time::TeamId;
use full_time_spond_sync::full_time::TeamName;
use full_time_spond_sync::full_time::Venue;
use full_time_spond_sync::text::contains_ignoring_case;
use full_time_spond_sync::text::eq_ignoring_case;
use full_time_spond_sync::text::trim;
use full_time_spond_sync::time::parse_london_time;
use full_time_spond_sync::time::Instant;
use full_time_spond_sync::time::LocalDate;

fn plain(text: &str) -> Cell {
    Cell { text: text.to_string(), parts: vec![], links: vec![] }
}

fn timed(date: &str, time: &str) -> Cell {
    Cell {
        text: format!("<span>{}</span><span>{}</span>", date, time),
        parts: vec![date.to_string(), time.to_string()],
        links: vec![],
    }
}

fn linked(name: &str) -> Cell {
    Cell { text: format!("<a>{}</a>", name), parts: vec![], links: vec![name.to_string()] }
}

fn row(code: &str, date: &str, time: &str, home: &str, away: &str, venue: &str) -> Vec<Cell> {
    vec![
        plain(code),
        timed(date, time),
        linked(home),
        plain(""),
        plain("VS"),
        plain(""),
        linked(away),
        plain(venue),
    ]
}

fn our_team() -> TeamName {
    TeamName::new("Woodley United U10")
}

fn at(secs: i64) -> Instant {
    Instant { secs, nanos: 0 }
}

#[test]
fn reads_a_league_home_fixture() {
    let cells = row("L", "02/03/24", "10:00", "Woodley United U10", "Rivals FC", "Goals Reading");
    let fixture = parse_fixture(&cells, &our_team());
    assert_eq!(
        fixture,
        Ok(Fixture {
            typ: FixtureType::League,
            side: FixtureSide::Home,
            date_time: at(1709373600),
            opposition: "Rivals FC".to_string(),
            venue: Venue::Goals,
        })
    );
}

#[test]
fn reads_a_cup_away_fixture_in_summer_time() {
    let cells = row(
        " Cup ",
        " 01/07/24 ",
        " 10:00 ",
        "  Rivals FC ",
        " woodley united u10 ",
        "Woodford Park 3G pitch",
    );
    let fixture = parse_fixture(&cells, &our_team());
    assert_eq!(
        fixture,
        Ok(Fixture {
            typ: FixtureType::Cup,
            side: FixtureSide::Away,
            date_time: at(1719824400),
            opposition: "Rivals FC".to_string(),
            venue: Venue::WoodfordPark,
        })
    );
}

#[test]
fn rejects_a_row_with_seven_cells() {
    let mut cells = row("L", "02/03/24", "10:00", "Woodley United U10", "Rivals FC", "Goals");
    cells.remove(4);
    assert_eq!(cells.len(), 7);
    assert_eq!(parse_fixture(&cells, &our_team()), Err(ParseError::MalformedRow));
    let mut long = row("L", "02/03/24", "10:00", "Woodley United U10", "Rivals FC", "Goals");
    long.push(plain(""));
    assert_eq!(parse_fixture(&long, &our_team()), Err(ParseError::MalformedRow));
    assert_eq!(parse_fixture(&vec![], &our_team()), Err(ParseError::MalformedRow));
}

#[test]
fn rejects_an_unknown_match_type() {
    let cells = row("x", "02/03/24", "10:00", "Woodley United U10", "Rivals FC", "Goals");
    assert_eq!(parse_fixture(&cells, &our_team()), Err(ParseError::UnknownMatchType));
    assert_eq!(parse_fixture_type(&plain("x")), Err(ParseError::UnknownMatchType));
    assert_eq!(parse_fixture_type(&plain("")), Err(ParseError::UnknownMatchType));
    assert_eq!(parse_fixture_type(&plain("league")), Err(ParseError::UnknownMatchType));
}

#[test]
fn rejects_a_date_that_does_not_exist() {
    let cells = row("L", "32/13/24", "10:00", "Woodley United U10", "Rivals FC", "Goals");
    assert_eq!(parse_fixture(&cells, &our_team()), Err(ParseError::BadDateTime));
    assert_eq!(parse_fixture_time(&timed("32/13/24", "10:00")), Err(ParseError::BadDateTime));
    assert_eq!(parse_fixture_time(&timed("02/03/24", "25:00")), Err(ParseError::BadDateTime));
    assert_eq!(parse_fixture_time(&timed("soon", "10:00")), Err(ParseError::BadDateTime));
}

#[test]
fn rejects_a_time_cell_without_two_parts() {
    let one = Cell { text: String::new(), parts: vec!["02/03/24 10:00".to_string()], links: vec![] };
    assert_eq!(parse_fixture_time(&one), Err(ParseError::BadDateTime));
    let three = Cell {
        text: String::new(),
        parts: vec!["02/03/24".to_string(), "10:00".to_string(), "".to_string()],
        links: vec![],
    };
    assert_eq!(parse_fixture_time(&three), Err(ParseError::BadDateTime));
    assert_eq!(parse_fixture_time(&plain("02/03/24 10:00")), Err(ParseError::BadDateTime));
}

#[test]
fn rejects_a_time_in_the_spring_gap_and_one_that_occurs_twice() {
    assert_eq!(parse_fixture_time(&timed("31/03/24", "01:30")), Err(ParseError::BadDateTime));
    assert_eq!(parse_fixture_time(&timed("27/10/24", "01:30")), Err(ParseError::BadDateTime));
    assert_eq!(parse_fixture_time(&timed("31/03/24", "02:00")), Ok(at(1711846800)));
}

#[test]
fn reads_winter_and_summer_times() {
    assert_eq!(parse_fixture_time(&timed("02/03/24", "10:00")), Ok(at(1709373600)));
    assert_eq!(parse_fixture_time(&timed("01/07/24", "00:05")), Ok(at(1719788700)));
    assert_eq!(parse_london_time("02/03/24 00:05", "%d/%m/%y %H:%M"), Some(at(1709337900)));
    assert_eq!(parse_london_time("02/03/24", "%d/%m/%y %H:%M"), None);
}

#[test]
fn reads_match_types_whatever_the_case() {
    assert_eq!(parse_fixture_type(&plain("l")), Ok(FixtureType::League));
    assert_eq!(parse_fixture_type(&plain("L")), Ok(FixtureType::League));
    assert_eq!(parse_fixture_type(&plain(" o\n")), Ok(FixtureType::League));
    assert_eq!(parse_fixture_type(&plain("O")), Ok(FixtureType::League));
    assert_eq!(parse_fixture_type(&plain("cup")), Ok(FixtureType::Cup));
    assert_eq!(parse_fixture_type(&plain("CuP")), Ok(FixtureType::Cup));
}

#[test]
fn rejects_team_cells_without_exactly_one_link() {
    let none = plain("Rivals FC");
    let two = Cell {
        text: String::new(),
        parts: vec![],
        links: vec!["Rivals FC".to_string(), "Others".to_string()],
    };
    assert_eq!(try_parse_opposition(&none, &our_team()), Err(ParseError::BadTeamCell));
    assert_eq!(try_parse_opposition(&two, &our_team()), Err(ParseError::BadTeamCell));
    assert_eq!(
        parse_teams(&none, &linked("Woodley United U10"), &our_team()),
        Err(ParseError::BadTeamCell)
    );
    assert_eq!(
        parse_teams(&linked("Woodley United U10"), &two, &our_team()),
        Err(ParseError::BadTeamCell)
    );
}

#[test]
fn tells_our_team_from_the_opposition() {
    assert_eq!(try_parse_opposition(&linked("WOODLEY united u10"), &our_team()), Ok(None));
    assert_eq!(
        try_parse_opposition(&linked(" Rivals FC "), &our_team()),
        Ok(Some("Rivals FC".to_string()))
    );
    assert_eq!(
        parse_teams(&linked("Woodley United U10"), &linked("Rivals FC"), &our_team()),
        Ok((FixtureSide::Home, "Rivals FC".to_string()))
    );
    assert_eq!(
        parse_teams(&linked("Rivals FC"), &linked("Woodley United U10"), &our_team()),
        Ok((FixtureSide::Away, "Rivals FC".to_string()))
    );
}

#[test]
fn rejects_a_row_where_the_team_is_on_both_sides_or_none() {
    assert_eq!(
        parse_teams(&linked("Woodley United U10"), &linked("Woodley United U10"), &our_team()),
        Err(ParseError::AmbiguousSide)
    );
    assert_eq!(
        parse_teams(&linked("Rivals FC"), &linked("Others"), &our_team()),
        Err(ParseError::AmbiguousSide)
    );
}

#[test]
fn reads_venues_by_keyword() {
    assert_eq!(parse_venue(&plain("Goals Reading")), Ok(Venue::Goals));
    assert_eq!(parse_venue(&plain("at GOALS, pitch 3")), Ok(Venue::Goals));
    assert_eq!(parse_venue(&plain("Woodford Park - 3G")), Ok(Venue::WoodfordPark));
    assert_eq!(parse_venue(&plain("Kings Academy, pitch 2")), Ok(Venue::KingsAcademy));
    assert_eq!(parse_venue(&plain("goals at woodford")), Ok(Venue::Goals));
    assert_eq!(parse_venue(&plain("Wembley")), Err(ParseError::UnknownVenue));
    assert_eq!(parse_venue(&plain("")), Err(ParseError::UnknownVenue));
    assert_eq!(parse_venue(&plain("goal")), Err(ParseError::UnknownVenue));
}

#[test]
fn rejects_an_unknown_venue_in_a_row() {
    let cells = row("L", "02/03/24", "10:00", "Woodley United U10", "Rivals FC", "Wembley");
    assert_eq!(parse_fixture(&cells, &our_team()), Err(ParseError::UnknownVenue));
}

#[test]
fn reports_the_teams_before_the_other_cells() {
    let cells = row("x", "32/13/24", "10:00", "Rivals FC", "Others", "Wembley");
    assert_eq!(parse_fixture(&cells, &our_team()), Err(ParseError::AmbiguousSide));
    let cells = row("x", "32/13/24", "10:00", "Woodley United U10", "Others", "Wembley");
    assert_eq!(parse_fixture(&cells, &our_team()), Err(ParseError::UnknownMatchType));
    let cells = row("l", "32/13/24", "10:00", "Woodley United U10", "Others", "Wembley");
    assert_eq!(parse_fixture(&cells, &our_team()), Err(ParseError::BadDateTime));
}

#[test]
fn reads_a_listing_in_row_order_and_fails_on_the_first_bad_row() {
    let good = vec![
        row("L", "09/03/24", "14:30", "Rivals FC", "Woodley United U10", "Woodford Park"),
        row("O", "02/03/24", "10:00", "Woodley United U10", "Others", "Goals"),
    ];
    let fixtures = parse_fixtures(&good, &our_team()).unwrap();
    assert_eq!(fixtures.len(), 2);
    assert_eq!(fixtures[0].date_time, at(1709994600));
    assert_eq!(fixtures[0].side, FixtureSide::Away);
    assert_eq!(fixtures[1].date_time, at(1709373600));
    assert_eq!(fixtures[1].opposition, "Others");
    assert_eq!(parse_fixtures(&vec![], &our_team()), Ok(vec![]));
    let bad = vec![
        row("L", "09/03/24", "14:30", "Rivals FC", "Woodley United U10", "Woodford Park"),
        row("x", "02/03/24", "10:00", "Woodley United U10", "Others", "Goals"),
        row("L", "02/03/24", "10:00", "Woodley United U10", "Others", "Wembley"),
    ];
    assert_eq!(parse_fixtures(&bad, &our_team()), Err(ParseError::UnknownMatchType));
}

#[test]
fn keeps_the_fixtures_that_are_still_to_come() {
    let fixture = |secs: i64| Fixture {
        typ: FixtureType::League,
        side: FixtureSide::Home,
        date_time: at(secs),
        opposition: "Rivals FC".to_string(),
        venue: Venue::Goals,
    };
    let all = vec![fixture(300), fixture(100), fixture(200), fixture(199)];
    let kept = upcoming(all, &at(200));
    assert_eq!(kept, vec![fixture(300), fixture(200)]);
    let now = Instant { secs: 200, nanos: 1 };
    assert_eq!(upcoming(vec![fixture(200), fixture(201)], &now), vec![fixture(201)]);
    assert_eq!(upcoming(vec![], &now), vec![]);
}

#[test]
fn trims_white_space() {
    assert_eq!(trim("  a b \t\n"), "a b");
    assert_eq!(trim(""), "");
    assert_eq!(trim(" \u{a0}\u{2003} "), "");
    assert_eq!(trim("x"), "x");
    assert_eq!(trim("\u{3000}caf\u{e9} \r"), "caf\u{e9}");
    assert_eq!(trim("\u{200b}x"), "\u{200b}x");
}

#[test]
fn matches_text_whatever_the_case_of_its_letters() {
    assert!(eq_ignoring_case("Coach", "cOACH"));
    assert!(eq_ignoring_case("", ""));
    assert!(!eq_ignoring_case("coach", "coache"));
    assert!(!eq_ignoring_case("coach", "couch"));
    assert!(!eq_ignoring_case("\u{212a}", "k"));
    assert!(contains_ignoring_case("Play at GOALS today", "goals"));
    assert!(contains_ignoring_case("goals", "goals"));
    assert!(contains_ignoring_case("anything", ""));
    assert!(!contains_ignoring_case("goal", "goals"));
    assert!(!contains_ignoring_case("", "goals"));
    assert!(contains_ignoring_case("xxgoalgoals", "GOALS"));
}

#[test]
fn gives_the_london_date_of_an_instant() {
    assert_eq!(at(1709373600).local_date(), LocalDate { year: 2024, month: 3, day: 2 });
    assert_eq!(at(1719788700).local_date(), LocalDate { year: 2024, month: 7, day: 1 });
    assert_eq!(at(1719788700 - 360).local_date(), LocalDate { year: 2024, month: 6, day: 30 });
    assert_eq!(at(0).local_date(), LocalDate { year: 1970, month: 1, day: 1 });
}

#[test]
fn accepts_only_instants_within_its_range() {
    assert_eq!(Instant::new(5, 7), Some(Instant { secs: 5, nanos: 7 }));
    assert_eq!(Instant::new(4_000_000_000_000, 999_999_999).map(|t| t.secs), Some(4_000_000_000_000));
    assert_eq!(Instant::new(4_000_000_000_001, 0), None);
    assert_eq!(Instant::new(-4_000_000_000_001, 0), None);
    assert_eq!(Instant::new(0, 1_000_000_000), None);
    assert!(at(5).is_at_or_after(&at(5)));
    assert!(!at(5).is_at_or_after(&Instant { secs: 5, nanos: 1 }));
    assert_eq!(at(10).plus_match_length(), at(3610));
}

#[test]
fn keeps_identifiers_as_given() {
    assert_eq!(SeasonId::new(7).value(), 7);
    assert_eq!(TeamId::new(-3).value(), -3);
    assert_eq!(TeamName::new("Woodley United U10").0, "Woodley United U10");
    assert_eq!(ParseError::MalformedRow.message(), "Incorrect number of cells in table row.");
}
