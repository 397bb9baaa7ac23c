use full_time_spond_sync::error::ListingError;
use full_time_spond_sync::error::ParseError;
use full_time_spond_sync::full_time::Fixture;
use full_time_spond_sync::full_time::FixtureSide;
use full_time_spond_sync::full_time::FixtureType;
use full_time_spond_sync::full_time::TeamName;
use full_time_spond_sync::full_time::Venue;
use full_time_spond_sync::listing::fixtures_in_tables;
use full_time_spond_sync::listing::upcoming_fixtures;
use full_time_spond_sync::time::Instant;

fn page(tables: &[&str]) -> String {
    let mut html = String::from("<html><head><title>Fixtures</title></head><body><h1>Team</h1>");
    for rows in tables {
        html.push_str("<div class=\"fixtures-table\"><table><thead><tr><th>Type</th>");
        html.push_str("<th>Date</th></tr></thead><tbody>");
        html.push_str(rows);
        html.push_str("</tbody></table></div>");
    }
    html.push_str("<table><tbody><tr><td>another table</td></tr></tbody></table></body></html>");
    html
}

fn markup(code: &str, date: &str, time: &str, home: &str, away: &str, venue: &str) -> String {
    format!(
        "<tr><td> {} </td><td><span> {} </span> <span>{}</span></td>\
         <td><a href=\"/team/1\"> {} </a></td><td></td><td>VS</td><td></td>\
         <td><a href=\"/team/2\">{}</a></td><td>\n {} \n</td></tr>",
        code, date, time, home, away, venue
    )
}

fn club() -> TeamName {
    TeamName::new("Woodley United U10")
}

fn start() -> Instant {
    Instant { secs: 0, nanos: 0 }
}

#[test]
fn reads_cells_by_their_markup_and_links_by_their_text() {
    let rows = markup(
        "<b>L</b>",
        "02/03/24",
        "10:00",
        "Woodley United U10",
        "Rivals &amp; Co",
        "<i>Goals</i> Reading",
    );
    assert_eq!(
        upcoming_fixtures(&page(&[&rows]), &club(), &start()),
        Err(ListingError::Row(ParseError::UnknownMatchType))
    );
    let rows = markup("L", "02/03/24", "10:00", "Woodley United U10", "Rivals &amp; Co", "<i>Goals</i>");
    let fixtures = upcoming_fixtures(&page(&[&rows]), &club(), &start()).unwrap();
    assert_eq!(fixtures.len(), 1);
    assert_eq!(fixtures[0].opposition, "Rivals & Co");
    assert_eq!(fixtures[0].venue, Venue::Goals);
}

#[test]
fn reads_the_fixtures_of_a_page() {
    let rows = [
        markup("L", "09/03/24", "14:30", "Rivals FC", "Woodley United U10", "Woodford Park"),
        markup("Cup", "02/03/24", "10:00", "Woodley United U10", "Others", "Goals Reading"),
    ]
    .concat();
    let fixtures = upcoming_fixtures(&page(&[&rows]), &club(), &start());
    assert_eq!(
        fixtures,
        Ok(vec![
            Fixture {
                typ: FixtureType::League,
                side: FixtureSide::Away,
                date_time: Instant { secs: 1709994600, nanos: 0 },
                opposition: "Rivals FC".to_string(),
                venue: Venue::WoodfordPark,
            },
            Fixture {
                typ: FixtureType::Cup,
                side: FixtureSide::Home,
                date_time: Instant { secs: 1709373600, nanos: 0 },
                opposition: "Others".to_string(),
                venue: Venue::Goals,
            },
        ])
    );
}

#[test]
fn leaves_out_the_fixtures_that_have_started() {
    let rows = [
        markup("L", "09/03/24", "14:30", "Rivals FC", "Woodley United U10", "Woodford Park"),
        markup("Cup", "02/03/24", "10:00", "Woodley United U10", "Others", "Goals Reading"),
    ]
    .concat();
    let now = Instant { secs: 1709373601, nanos: 0 };
    let fixtures = upcoming_fixtures(&page(&[&rows]), &club(), &now).unwrap();
    assert_eq!(fixtures.len(), 1);
    assert_eq!(fixtures[0].opposition, "Rivals FC");
    let now = Instant { secs: 1709373600, nanos: 0 };
    assert_eq!(upcoming_fixtures(&page(&[&rows]), &club(), &now).unwrap().len(), 2);
}

#[test]
fn a_page_without_a_fixture_table_has_no_fixtures() {
    assert_eq!(upcoming_fixtures(&page(&[]), &club(), &start()), Ok(vec![]));
    assert_eq!(upcoming_fixtures("", &club(), &start()), Ok(vec![]));
    assert_eq!(upcoming_fixtures(&page(&[""]), &club(), &start()), Ok(vec![]));
    assert_eq!(fixtures_in_tables(&vec![], &club(), &start()), Ok(vec![]));
}

#[test]
fn a_page_with_two_fixture_tables_is_rejected() {
    let rows = markup("L", "02/03/24", "10:00", "Woodley United U10", "Rivals FC", "Goals Reading");
    let result = upcoming_fixtures(&page(&[&rows, &rows]), &club(), &start());
    assert_eq!(result, Err(ListingError::SeveralTables));
    assert_eq!(
        fixtures_in_tables(&vec![vec![], vec![], vec![]], &club(), &start()),
        Err(ListingError::SeveralTables)
    );
}

#[test]
fn a_bad_row_rejects_the_page() {
    let rows = [
        markup("L", "09/03/24", "14:30", "Rivals FC", "Woodley United U10", "Woodford Park"),
        "<tr><td>L</td><td><span>02/03/24</span><span>10:00</span></td><td></td></tr>".to_string(),
    ]
    .concat();
    let result = upcoming_fixtures(&page(&[&rows]), &club(), &start());
    assert_eq!(result, Err(ListingError::Row(ParseError::MalformedRow)));
    let rows = markup("L", "31/03/24", "01:30", "Rivals FC", "Woodley United U10", "Goals");
    let result = upcoming_fixtures(&page(&[&rows]), &club(), &Instant { secs: 2_000_000_000, nanos: 0 });
    assert_eq!(result, Err(ListingError::Row(ParseError::BadDateTime)));
}

fn teams(home: &str, away: &str) -> String {
    format!(
        "<tr><td>L</td><td><span>09/03/24</span><span>14:30</span></td><td>{}</td>\
         <td></td><td>VS</td><td></td><td>{}</td><td>Goals</td></tr>",
        home, away
    )
}

#[test]
fn counts_the_links_of_a_team_cell() {
    let ours = "<a>Woodley United U10</a>";
    let read = |home: &str, away: &str| upcoming_fixtures(&page(&[&teams(home, away)]), &club(), &start());
    let fixtures = read("<a>Rivals <b>FC</b></a>", ours).unwrap();
    assert_eq!(fixtures.len(), 1);
    assert_eq!(fixtures[0].opposition, "Rivals FC");
    assert_eq!(fixtures[0].side, FixtureSide::Away);
    let fixtures = read(ours, "<a><i>Rivals</i> <b>FC</b></a>").unwrap();
    assert_eq!(fixtures[0].opposition, "Rivals FC");
    assert_eq!(fixtures[0].side, FixtureSide::Home);
    let fixtures = read("<a></a>", ours).unwrap();
    assert_eq!(fixtures[0].opposition, "");
    let bad = Err(ListingError::Row(ParseError::BadTeamCell));
    assert_eq!(read("<a>Rivals FC</a><a></a>", ours), bad);
    assert_eq!(read("<a></a><a>Rivals FC</a>", ours), bad);
    assert_eq!(read("<a>Rivals</a> <a>FC</a>", ours), bad);
    assert_eq!(read("Rivals FC", ours), bad);
    assert_eq!(read(ours, ""), bad);
}
