//! The league's fixture listing: its rows, and the fixtures read from them.
use vstd::prelude::*;
use vstd::string::StringExecFns;

use crate::error::ParseError;
use crate::text::contains_ignoring_case;
use crate::text::eq_ignoring_case;
use crate::text::occurs_ignoring_case;
use crate::text::same_ignoring_case;
use crate::text::trim;
use crate::text::trimmed;
use crate::time::london_time_of;
use crate::time::parse_london_time;
use crate::time::Instant;

verus! {

/// Number of cells in a row of the listing.
pub const ROW_CELLS: usize = 8;

/// Position of the match-type cell in a row.
pub const TYPE_CELL: usize = 0;

/// Position of the date and time cell in a row.
pub const TIME_CELL: usize = 1;

/// Position of the home team's cell in a row.
pub const HOME_CELL: usize = 2;

/// Position of the away team's cell in a row.
pub const AWAY_CELL: usize = 6;

/// Position of the venue cell in a row.
pub const VENUE_CELL: usize = 7;

/// The league's identifier of a season.
#[derive(Debug, Clone, Copy, PartialEq, Eq, Structural)]
pub struct SeasonId(pub i32);

impl SeasonId {
    /// The identifier with the given number.
    pub fn new(x: i32) -> (r: Self)
        ensures
            r.0 == x,
    {
        Self(x)
    }

    /// The number behind the identifier.
    pub fn value(&self) -> (x: i32)
        ensures
            x == self.0,
    {
        self.0
    }
}

/// The league's identifier of a team.
#[derive(Debug, Clone, Copy, PartialEq, Eq, Structural)]
pub struct TeamId(pub i32);

impl TeamId {
    /// The identifier with the given number.
    pub fn new(x: i32) -> (r: Self)
        ensures
            r.0 == x,
    {
        Self(x)
    }

    /// The number behind the identifier.
    pub fn value(&self) -> (x: i32)
        ensures
            x == self.0,
    {
        self.0
    }
}

/// The name under which the league lists the followed team.
#[derive(Debug, Clone, Eq, PartialEq)]
pub struct TeamName(pub String);

impl View for TeamName {
    type V = Seq<char>;

    open spec fn view(&self) -> Seq<char> {
        self.0@
    }
}

impl TeamName {
    /// The name with the given text.
    pub fn new(s: &str) -> (r: Self)
        ensures
            r@ == s@,
    {
        TeamName(String::from_str(s))
    }
}

/// The followed team as the league knows it.
#[derive(Debug, Clone, Eq, PartialEq)]
pub struct Team {
    pub id: TeamId,
    pub name: TeamName,
}

/// The competition a match belongs to.
#[derive(Debug, Clone, Copy, PartialEq, Eq, Structural)]
pub enum FixtureType {
    Cup,
    League,
}

/// The side on which the followed team plays.
#[derive(Copy, Debug, Clone, PartialEq, Eq, Structural)]
pub enum FixtureSide {
    Home,
    Away,
}

/// The grounds on which matches are played.
#[derive(Copy, Debug, Clone, PartialEq, Eq, Structural)]
pub enum Venue {
    Goals,
    KingsAcademy,
    WoodfordPark,
}

/// One match of the followed team.
#[derive(Debug, Clone, PartialEq, Eq)]
pub struct Fixture {
    pub typ: FixtureType,
    pub side: FixtureSide,
    pub date_time: Instant,
    pub opposition: String,
    pub venue: Venue,
}

/// What a [`Fixture`] is, with its text as a sequence of characters.
pub struct FixtureView {
    pub typ: FixtureType,
    pub side: FixtureSide,
    pub date_time: Instant,
    pub opposition: Seq<char>,
    pub venue: Venue,
}

impl View for Fixture {
    type V = FixtureView;

    open spec fn view(&self) -> FixtureView {
        FixtureView {
            typ: self.typ,
            side: self.side,
            date_time: self.date_time,
            opposition: self.opposition@,
            venue: self.venue,
        }
    }
}

impl Fixture {
    /// Whether two fixtures agree in every field.
    pub fn same_as(&self, other: &Fixture) -> (r: bool)
        ensures
            r == (self@ == other@),
    {
        self.typ == other.typ && self.side == other.side && self.date_time == other.date_time
            && self.opposition == other.opposition && self.venue == other.venue
    }
}

/// One cell of a row of the listing: its text, the texts of its parts, and
/// one text for each link in it.
#[derive(Debug, Clone, PartialEq, Eq)]
pub struct Cell {
    pub text: String,
    pub parts: Vec<String>,
    pub links: Vec<String>,
}

/// The format in which the listing writes a date and a time of day.
pub const DATE_TIME_FORMAT: &'static str = "%d/%m/%y %H:%M";

impl Venue {
    /// The word by which the listing names the venue.
    pub open spec fn keyword_text(self) -> Seq<char> {
        match self {
            Venue::Goals => "goals"@,
            Venue::WoodfordPark => "woodford"@,
            Venue::KingsAcademy => "kings academy"@,
        }
    }

    /// The word by which the listing names the venue.
    pub fn keyword(&self) -> (word: &'static str)
        ensures
            word@ == self.keyword_text(),
    {
        match self {
            Venue::Goals => "goals",
            Venue::WoodfordPark => "woodford",
            Venue::KingsAcademy => "kings academy",
        }
    }
}

/// The competition that a match-type code stands for.
pub open spec fn fixture_type_of(text: Seq<char>) -> Result<FixtureType, ParseError> {
    let code = trimmed(text);
    if same_ignoring_case(code, "l"@) || same_ignoring_case(code, "o"@) {
        Ok(FixtureType::League)
    } else if same_ignoring_case(code, "cup"@) {
        Ok(FixtureType::Cup)
    } else {
        Err(ParseError::UnknownMatchType)
    }
}

/// The text that is read as date and time: the two parts, trimmed, with one
/// blank between them.
pub open spec fn date_time_text(date: Seq<char>, time: Seq<char>) -> Seq<char> {
    trimmed(date) + " "@ + trimmed(time)
}

/// What becomes of a date and time cell, given the instant its text denotes.
pub open spec fn fixture_time_from(parts: int, instant: Option<Instant>) -> Result<
    Instant,
    ParseError,
> {
    if parts != 2 {
        Err(ParseError::BadDateTime)
    } else {
        match instant {
            Some(t) => Ok(t),
            None => Err(ParseError::BadDateTime),
        }
    }
}

/// The instant that a date and time cell denotes.
pub open spec fn fixture_time_of(cell: Cell) -> Result<Instant, ParseError> {
    if cell.parts@.len() != 2 {
        Err(ParseError::BadDateTime)
    } else {
        fixture_time_from(
            2,
            london_time_of(
                date_time_text(cell.parts@[0]@, cell.parts@[1]@),
                DATE_TIME_FORMAT@,
            ),
        )
    }
}

/// The name in a team cell, unless it is the followed team's own.
pub open spec fn opposition_of(cell: Cell, team_name: Seq<char>) -> Result<
    Option<Seq<char>>,
    ParseError,
> {
    if cell.links@.len() != 1 {
        Err(ParseError::BadTeamCell)
    } else {
        let name = trimmed(cell.links@[0]@);
        if same_ignoring_case(name, team_name) {
            Ok(None)
        } else {
            Ok(Some(name))
        }
    }
}

/// The side of the followed team and the other team's name, from what the two
/// team cells hold.
pub open spec fn teams_from(
    home: Result<Option<Seq<char>>, ParseError>,
    away: Result<Option<Seq<char>>, ParseError>,
) -> Result<(FixtureSide, Seq<char>), ParseError> {
    match (home, away) {
        (Err(e), _) => Err(e),
        (Ok(_), Err(e)) => Err(e),
        (Ok(Some(opposition)), Ok(None)) => Ok((FixtureSide::Away, opposition)),
        (Ok(None), Ok(Some(opposition))) => Ok((FixtureSide::Home, opposition)),
        _ => Err(ParseError::AmbiguousSide),
    }
}

/// The side of the followed team and the other team's name.
pub open spec fn teams_of(home: Cell, away: Cell, team_name: Seq<char>) -> Result<
    (FixtureSide, Seq<char>),
    ParseError,
> {
    teams_from(opposition_of(home, team_name), opposition_of(away, team_name))
}

/// The venue that a label names: the first, in the order Goals, Woodford
/// Park, Kings Academy, whose word occurs in it.
pub open spec fn venue_of(text: Seq<char>) -> Result<Venue, ParseError> {
    if occurs_ignoring_case(text, Venue::Goals.keyword_text()) {
        Ok(Venue::Goals)
    } else if occurs_ignoring_case(text, Venue::WoodfordPark.keyword_text()) {
        Ok(Venue::WoodfordPark)
    } else if occurs_ignoring_case(text, Venue::KingsAcademy.keyword_text()) {
        Ok(Venue::KingsAcademy)
    } else {
        Err(ParseError::UnknownVenue)
    }
}

/// The fixture that a row holds. Of several faults the first in this order
/// is reported: the row's shape, the teams, the match type, the time, the
/// venue.
pub open spec fn fixture_of(row: Seq<Cell>, team_name: Seq<char>) -> Result<
    FixtureView,
    ParseError,
> {
    if row.len() != ROW_CELLS {
        Err(ParseError::MalformedRow)
    } else {
        match teams_of(row[HOME_CELL as int], row[AWAY_CELL as int], team_name) {
            Err(e) => Err(e),
            Ok((side, opposition)) => match fixture_type_of(row[TYPE_CELL as int].text@) {
                Err(e) => Err(e),
                Ok(typ) => match fixture_time_of(row[TIME_CELL as int]) {
                    Err(e) => Err(e),
                    Ok(date_time) => match venue_of(row[VENUE_CELL as int].text@) {
                        Err(e) => Err(e),
                        Ok(venue) => Ok(
                            FixtureView { typ, side, date_time, opposition, venue },
                        ),
                    },
                },
            },
        }
    }
}

/// The fixtures that the rows hold, in row order, or the fault of the first
/// row that has one.
pub open spec fn fixtures_of(rows: Seq<Vec<Cell>>, team_name: Seq<char>) -> Result<
    Seq<FixtureView>,
    ParseError,
>
    decreases rows.len(),
{
    if rows.len() == 0 {
        Ok(Seq::empty())
    } else {
        match fixtures_of(rows.drop_last(), team_name) {
            Err(e) => Err(e),
            Ok(fixtures) => match fixture_of(rows.last()@, team_name) {
                Err(e) => Err(e),
                Ok(fixture) => Ok(fixtures.push(fixture)),
            },
        }
    }
}

/// What the fixtures are, one by one.
pub open spec fn views_of(fixtures: Seq<Fixture>) -> Seq<FixtureView> {
    Seq::new(fixtures.len(), |i: int| fixtures[i]@)
}

/// The fixtures that start at `now` or later, in their order.
pub open spec fn upcoming_of(fixtures: Seq<Fixture>, now: Instant) -> Seq<Fixture>
    decreases fixtures.len(),
{
    if fixtures.len() == 0 {
        Seq::empty()
    } else if now.le(fixtures.last().date_time) {
        upcoming_of(fixtures.drop_last(), now).push(fixtures.last())
    } else {
        upcoming_of(fixtures.drop_last(), now)
    }
}

/// Reads the competition from a match-type cell.
pub fn parse_fixture_type(cell: &Cell) -> (r: Result<FixtureType, ParseError>)
    ensures
        r == fixture_type_of(cell.text@),
{
    let code = trim(cell.text.as_str());
    if eq_ignoring_case(code.as_str(), "l") || eq_ignoring_case(code.as_str(), "o") {
        Ok(FixtureType::League)
    } else if eq_ignoring_case(code.as_str(), "cup") {
        Ok(FixtureType::Cup)
    } else {
        Err(ParseError::UnknownMatchType)
    }
}

/// Decides what a date and time cell with `parts` parts gives, once its text
/// has been read.
pub fn fixture_time_result(parts: usize, instant: Option<Instant>) -> (r: Result<
    Instant,
    ParseError,
>)
    ensures
        r == fixture_time_from(parts as int, instant),
{
    if parts != 2 {
        Err(ParseError::BadDateTime)
    } else {
        match instant {
            Some(t) => Ok(t),
            None => Err(ParseError::BadDateTime),
        }
    }
}

/// Reads the instant of a match from a date and time cell.
pub fn parse_fixture_time(cell: &Cell) -> (r: Result<Instant, ParseError>)
    ensures
        r == fixture_time_of(*cell),
        r is Ok ==> r->Ok_0.wf(),
{
    if cell.parts.len() != 2 {
        return Err(ParseError::BadDateTime);
    }
    let mut text = trim(cell.parts[0].as_str());
    text.append(" ");
    let time = trim(cell.parts[1].as_str());
    text.append(time.as_str());
    fixture_time_result(2, parse_london_time(text.as_str(), DATE_TIME_FORMAT))
}

/// Reads the name in a team cell; `None` where it is the followed team's own.
pub fn try_parse_opposition(cell: &Cell, team_name: &TeamName) -> (r: Result<
    Option<String>,
    ParseError,
>)
    ensures
        match (r, opposition_of(*cell, team_name@)) {
            (Ok(Some(name)), Ok(Some(text))) => name@ == text,
            (Ok(None), Ok(None)) => true,
            (Err(e), Err(f)) => e == f,
            _ => false,
        },
{
    if cell.links.len() != 1 {
        return Err(ParseError::BadTeamCell);
    }
    let name = trim(cell.links[0].as_str());
    if eq_ignoring_case(name.as_str(), team_name.0.as_str()) {
        Ok(None)
    } else {
        Ok(Some(name))
    }
}

/// Decides the side and the opposition from what the two team cells hold.
pub fn teams_result(
    home: Result<Option<String>, ParseError>,
    away: Result<Option<String>, ParseError>,
) -> (r: Result<(FixtureSide, String), ParseError>)
    ensures
        match (r, teams_from(name_view(home), name_view(away))) {
            (Ok((side, name)), Ok((s, text))) => side == s && name@ == text,
            (Err(e), Err(f)) => e == f,
            _ => false,
        },
{
    match (home, away) {
        (Err(e), _) => Err(e),
        (Ok(_), Err(e)) => Err(e),
        (Ok(Some(opposition)), Ok(None)) => Ok((FixtureSide::Away, opposition)),
        (Ok(None), Ok(Some(opposition))) => Ok((FixtureSide::Home, opposition)),
        _ => Err(ParseError::AmbiguousSide),
    }
}

/// What a parsed team cell is, with its text as a sequence of characters.
pub open spec fn name_view(cell: Result<Option<String>, ParseError>) -> Result<
    Option<Seq<char>>,
    ParseError,
> {
    match cell {
        Ok(Some(name)) => Ok(Some(name@)),
        Ok(None) => Ok(None),
        Err(e) => Err(e),
    }
}

/// Reads the side of the followed team and the other team's name.
pub fn parse_teams(home: &Cell, away: &Cell, team_name: &TeamName) -> (r: Result<
    (FixtureSide, String),
    ParseError,
>)
    ensures
        match (r, teams_of(*home, *away, team_name@)) {
            (Ok((side, name)), Ok((s, text))) => side == s && name@ == text,
            (Err(e), Err(f)) => e == f,
            _ => false,
        },
{
    let home_name = try_parse_opposition(home, team_name);
    let away_name = try_parse_opposition(away, team_name);
    teams_result(home_name, away_name)
}

/// Reads the venue from a venue cell.
pub fn parse_venue(cell: &Cell) -> (r: Result<Venue, ParseError>)
    ensures
        r == venue_of(cell.text@),
{
    let label = cell.text.as_str();
    if contains_ignoring_case(label, Venue::Goals.keyword()) {
        Ok(Venue::Goals)
    } else if contains_ignoring_case(label, Venue::WoodfordPark.keyword()) {
        Ok(Venue::WoodfordPark)
    } else if contains_ignoring_case(label, Venue::KingsAcademy.keyword()) {
        Ok(Venue::KingsAcademy)
    } else {
        Err(ParseError::UnknownVenue)
    }
}

/// Reads one fixture from a row of the listing.
pub fn parse_fixture(row: &Vec<Cell>, team_name: &TeamName) -> (r: Result<Fixture, ParseError>)
    ensures
        match (r, fixture_of(row@, team_name@)) {
            (Ok(fixture), Ok(view)) => fixture@ == view && fixture.date_time.wf(),
            (Err(e), Err(f)) => e == f,
            _ => false,
        },
{
    if row.len() != ROW_CELLS {
        return Err(ParseError::MalformedRow);
    }
    let (side, opposition) = match parse_teams(&row[HOME_CELL], &row[AWAY_CELL], team_name) {
        Ok(teams) => teams,
        Err(e) => { return Err(e); },
    };
    let typ = match parse_fixture_type(&row[TYPE_CELL]) {
        Ok(typ) => typ,
        Err(e) => { return Err(e); },
    };
    let date_time = match parse_fixture_time(&row[TIME_CELL]) {
        Ok(date_time) => date_time,
        Err(e) => { return Err(e); },
    };
    let venue = match parse_venue(&row[VENUE_CELL]) {
        Ok(venue) => venue,
        Err(e) => { return Err(e); },
    };
    Ok(Fixture { typ, side, date_time, opposition, venue })
}

/// Reads the fixtures of a listing, one per row and in row order. The first
/// row that cannot be read rejects the listing.
pub fn parse_fixtures(rows: &Vec<Vec<Cell>>, team_name: &TeamName) -> (r: Result<
    Vec<Fixture>,
    ParseError,
>)
    ensures
        match (r, fixtures_of(rows@, team_name@)) {
            (Ok(fixtures), Ok(views)) => views_of(fixtures@) == views && forall|i: int|
                0 <= i < fixtures.len() ==> (#[trigger] fixtures[i]).date_time.wf(),
            (Err(e), Err(f)) => e == f,
            _ => false,
        },
{
    let mut fixtures: Vec<Fixture> = Vec::new();
    let mut i: usize = 0;
    while i < rows.len()
        invariant
            i <= rows.len(),
            fixtures_of(rows@.take(i as int), team_name@) is Ok,
            fixtures_of(rows@.take(i as int), team_name@)->Ok_0 =~= views_of(fixtures@),
            forall|k: int| 0 <= k < fixtures.len() ==> (#[trigger] fixtures[k]).date_time.wf(),
        decreases rows.len() - i,
    {
        assert(rows@.take(i + 1).drop_last() == rows@.take(i as int));
        match parse_fixture(&rows[i], team_name) {
            Ok(fixture) => {
                assert(views_of(fixtures@.push(fixture)) == views_of(fixtures@).push(fixture@));
                fixtures.push(fixture);
            },
            Err(e) => {
                proof {
                    lemma_first_fault_stays(rows@, team_name@, i + 1);
                }
                return Err(e);
            },
        }
        i += 1;
    }
    assert(rows@.take(i as int) == rows@);
    Ok(fixtures)
}

/// A listing whose first `upto` rows are rejected is rejected for the same fault.
pub proof fn lemma_first_fault_stays(rows: Seq<Vec<Cell>>, team_name: Seq<char>, upto: int)
    requires
        0 <= upto <= rows.len(),
        fixtures_of(rows.take(upto), team_name) is Err,
    ensures
        fixtures_of(rows, team_name) == fixtures_of(rows.take(upto), team_name),
    decreases rows.len() - upto,
{
    if upto == rows.len() {
        assert(rows.take(upto) == rows);
    } else {
        assert(rows.take(upto + 1).drop_last() == rows.take(upto));
        lemma_first_fault_stays(rows, team_name, upto + 1);
    }
}

/// Keeps the fixtures that start at `now` or later.
pub fn upcoming(fixtures: Vec<Fixture>, now: &Instant) -> (r: Vec<Fixture>)
    ensures
        r@ == upcoming_of(fixtures@, *now),
        forall|k: int| 0 <= k < r.len() ==> fixtures@.contains(#[trigger] r@[k]),
{
    let mut kept: Vec<Fixture> = Vec::new();
    let ghost all = fixtures@;
    for fixture in it: fixtures
        invariant
            it.seq() == all,
            kept@ == upcoming_of(all.take(it.index() as int), *now),
            forall|k: int| 0 <= k < kept.len() ==> all.contains(#[trigger] kept@[k]),
    {
        assert(all.take(it.index() + 1).drop_last() == all.take(it.index() as int));
        if fixture.date_time.is_at_or_after(now) {
            assert(all[it.index() as int] == fixture);
            kept.push(fixture);
        }
    }
    assert(all.take(all.len() as int) == all);
    kept
}

/// Extraction rejects whatever it cannot read: a row that is accepted has
/// eight cells, names the followed team on exactly one side, and has a
/// known match type, a readable time and a known venue, which are those of
/// the fixture.
pub proof fn lemma_accepted_row_is_well_formed(row: Seq<Cell>, team_name: Seq<char>)
    requires
        fixture_of(row, team_name) is Ok,
    ensures
        row.len() == ROW_CELLS,
        teams_of(row[HOME_CELL as int], row[AWAY_CELL as int], team_name) == Ok::<
            (FixtureSide, Seq<char>),
            ParseError,
        >((fixture_of(row, team_name)->Ok_0.side, fixture_of(row, team_name)->Ok_0.opposition)),
        fixture_type_of(row[TYPE_CELL as int].text@) == Ok::<FixtureType, ParseError>(
            fixture_of(row, team_name)->Ok_0.typ,
        ),
        fixture_time_of(row[TIME_CELL as int]) == Ok::<Instant, ParseError>(
            fixture_of(row, team_name)->Ok_0.date_time,
        ),
        venue_of(row[VENUE_CELL as int].text@) == Ok::<Venue, ParseError>(
            fixture_of(row, team_name)->Ok_0.venue,
        ),
{
}

} // verus!
