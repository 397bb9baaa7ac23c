//! The league's page: finding the fixture table in it and reading its rows.
use vstd::prelude::*;

use crate::error::ListingError;
use crate::error::ParseError;
use crate::full_time::fixtures_of;
use crate::full_time::parse_fixtures;
use crate::full_time::upcoming;
use crate::full_time::upcoming_of;
use crate::full_time::views_of;
use crate::full_time::Cell;
use crate::full_time::Fixture;
use crate::full_time::FixtureView;
use crate::full_time::TeamName;
use crate::time::Instant;

verus! {

/// Finds the fixture tables of a page.
pub const TABLE_SELECTOR: &'static str = "div.fixtures-table table";

/// Finds the rows of a table.
pub const ROW_SELECTOR: &'static str = "tbody tr";

/// Finds the cells of a row.
pub const CELL_SELECTOR: &'static str = "td";

/// Finds the parts of a cell.
pub const PART_SELECTOR: &'static str = "span";

/// Finds the links of a cell.
pub const LINK_SELECTOR: &'static str = "a";

/// A parsed page, as scraper holds it.
#[verifier::external_type_specification]
#[verifier::external_body]
pub struct ExHtml(scraper::Html);

/// An element of a parsed page, as scraper refers to it.
#[verifier::external_type_specification]
#[verifier::external_body]
pub struct ExElementRef<'a>(scraper::ElementRef<'a>);

/// A parsed selector, as scraper holds it.
#[verifier::external_type_specification]
#[verifier::external_body]
pub struct ExSelector(scraper::Selector);

/// The page that scraper makes of a text.
pub uninterp spec fn page_of(html: Seq<char>) -> scraper::Html;

/// The selector that scraper makes of a text, where it understands it.
pub uninterp spec fn selector_of(css: Seq<char>) -> Option<scraper::Selector>;

/// The page that an element belongs to.
pub uninterp spec fn home_of(element: scraper::ElementRef) -> scraper::Html;

/// The place of an element in its page: the positions among their
/// siblings, from the root downwards, of the nodes that lead to it.
pub uninterp spec fn place_of(element: scraper::ElementRef) -> Seq<int>;

/// The places of the elements of a page that a selector matches, in the
/// order in which scraper yields them.
pub uninterp spec fn places_on(page: scraper::Html, selector: scraper::Selector) -> Seq<Seq<int>>;

/// The places of the elements below the element at `place` that a selector
/// matches, in the order in which scraper yields them.
pub uninterp spec fn places_below(
    page: scraper::Html,
    place: Seq<int>,
    selector: scraper::Selector,
) -> Seq<Seq<int>>;

/// The inner markup of the element at `place`, as scraper writes it.
pub uninterp spec fn markup_at(page: scraper::Html, place: Seq<int>) -> Seq<char>;

/// The pieces of text in the element at `place`, in document order.
pub uninterp spec fn pieces_at(page: scraper::Html, place: Seq<int>) -> Seq<Seq<char>>;

/// The elements are those of `page` at `places`, one by one.
pub open spec fn stand_at(
    elements: Seq<scraper::ElementRef>,
    page: scraper::Html,
    places: Seq<Seq<int>>,
) -> bool {
    &&& elements.len() == places.len()
    &&& forall|i: int|
        0 <= i < elements.len() ==> home_of(#[trigger] elements[i]) == page && place_of(
            elements[i],
        ) == places[i]
}

/// The texts as sequences of characters.
pub open spec fn texts_view(texts: Seq<String>) -> Seq<Seq<char>> {
    Seq::new(texts.len(), |i: int| texts[i]@)
}

/// Calls `scraper::Html::parse_document`. The contract only names the page.
#[verifier::external_body]
fn parse_page(html: &str) -> (page: scraper::Html)
    ensures
        page == page_of(html@),
{
    scraper::Html::parse_document(html)
}

/// Calls `scraper::Selector::parse`. The contract only names the selector;
/// `None` where scraper does not understand the text.
#[verifier::external_body]
fn parse_selector(css: &str) -> (selector: Option<scraper::Selector>)
    ensures
        selector == selector_of(css@),
{
    scraper::Selector::parse(css).ok()
}

/// Calls `scraper::Html::select` and collects the elements in the order in
/// which scraper yields them. The contract names their places: each
/// element belongs to the page and stands at the place of its turn.
#[verifier::external_body]
fn select_in_page<'a>(page: &'a scraper::Html, selector: &scraper::Selector) -> (found: Vec<
    scraper::ElementRef<'a>,
>)
    ensures
        found@.len() == places_on(*page, *selector).len(),
        forall|i: int|
            0 <= i < found@.len() ==> home_of(#[trigger] found@[i]) == *page && place_of(found@[i])
                == places_on(*page, *selector)[i],
{
    page.select(selector).collect()
}

/// Calls `scraper::ElementRef::select` and collects the elements in the
/// order in which scraper yields them. The contract names their places:
/// each element belongs to the page of the given one and stands at the
/// place of its turn.
#[verifier::external_body]
fn select_in_element<'a>(element: &scraper::ElementRef<'a>, selector: &scraper::Selector) -> (found:
    Vec<scraper::ElementRef<'a>>)
    ensures
        found@.len() == places_below(home_of(*element), place_of(*element), *selector).len(),
        forall|i: int|
            0 <= i < found@.len() ==> home_of(#[trigger] found@[i]) == home_of(*element)
                && place_of(found@[i]) == places_below(
                home_of(*element),
                place_of(*element),
                *selector,
            )[i],
{
    element.select(selector).collect()
}

/// Calls `scraper::ElementRef::inner_html`. The contract only names the text.
#[verifier::external_body]
fn inner_html(element: &scraper::ElementRef) -> (text: String)
    ensures
        text@ == markup_at(home_of(*element), place_of(*element)),
{
    element.inner_html()
}

/// Calls `scraper::ElementRef::text` and collects the pieces of text in
/// document order. The contract only names the pieces.
#[verifier::external_body]
fn text_pieces(element: &scraper::ElementRef) -> (pieces: Vec<String>)
    ensures
        texts_view(pieces@) == pieces_at(home_of(*element), place_of(*element)),
{
    element.text().map(|piece| piece.to_owned()).collect()
}

/// The fixtures that start at `now` or later, in their order.
pub open spec fn upcoming_views(fixtures: Seq<FixtureView>, now: Instant) -> Seq<FixtureView>
    decreases fixtures.len(),
{
    if fixtures.len() == 0 {
        Seq::empty()
    } else if now.le(fixtures.last().date_time) {
        upcoming_views(fixtures.drop_last(), now).push(fixtures.last())
    } else {
        upcoming_views(fixtures.drop_last(), now)
    }
}

/// What becomes of the fixture tables of a page: no table gives no fixture,
/// one table gives the fixtures of its rows that start at `now` or later,
/// and several tables are rejected.
pub open spec fn listing_of(tables: Seq<Vec<Vec<Cell>>>, team_name: Seq<char>, now: Instant) -> Result<
    Seq<FixtureView>,
    ListingError,
> {
    if tables.len() == 0 {
        Ok(Seq::empty())
    } else if tables.len() > 1 {
        Err(ListingError::SeveralTables)
    } else {
        match fixtures_of(tables[0]@, team_name) {
            Err(e) => Err(ListingError::Row(e)),
            Ok(fixtures) => Ok(upcoming_views(fixtures, now)),
        }
    }
}

/// Whether a result is what [`listing_of`] says of the tables.
pub open spec fn listing_matches(
    r: Result<Vec<Fixture>, ListingError>,
    tables: Seq<Vec<Vec<Cell>>>,
    team_name: Seq<char>,
    now: Instant,
) -> bool {
    match (r, listing_of(tables, team_name, now)) {
        (Ok(fixtures), Ok(views)) => views_of(fixtures@) == views,
        (Err(e), Err(f)) => e == f,
        _ => false,
    }
}

/// Keeping the upcoming fixtures and then looking at what they are gives the
/// same as looking first and keeping then.
pub proof fn lemma_upcoming_views(fixtures: Seq<Fixture>, now: Instant)
    ensures
        views_of(upcoming_of(fixtures, now)) == upcoming_views(views_of(fixtures), now),
    decreases fixtures.len(),
{
    if fixtures.len() == 0 {
        assert(views_of(upcoming_of(fixtures, now)) =~= Seq::<FixtureView>::empty());
    } else {
        let before = fixtures.drop_last();
        lemma_upcoming_views(before, now);
        assert(views_of(fixtures).drop_last() =~= views_of(before));
        assert(views_of(fixtures).last() == fixtures.last()@);
        if now.le(fixtures.last().date_time) {
            assert(views_of(upcoming_of(before, now).push(fixtures.last())) =~= views_of(
                upcoming_of(before, now),
            ).push(fixtures.last()@));
        }
    }
}

/// Reads the upcoming fixtures from the fixture tables found in a page.
pub fn fixtures_in_tables(tables: &Vec<Vec<Vec<Cell>>>, team_name: &TeamName, now: &Instant) -> (r:
    Result<Vec<Fixture>, ListingError>)
    ensures
        listing_matches(r, tables@, team_name@, *now),
        r is Ok ==> forall|k: int| 0 <= k < r->Ok_0.len() ==> (#[trigger] r->Ok_0@[k]).date_time.wf(),
{
    if tables.len() == 0 {
        let none: Vec<Fixture> = Vec::new();
        assert(views_of(none@) =~= Seq::<FixtureView>::empty());
        return Ok(none);
    }
    if tables.len() > 1 {
        return Err(ListingError::SeveralTables);
    }
    match parse_fixtures(&tables[0], team_name) {
        Err(e) => Err(ListingError::Row(e)),
        Ok(fixtures) => {
            let ghost all = fixtures@;
            let kept = upcoming(fixtures, now);
            proof {
                lemma_upcoming_views(all, *now);
            }
            assert forall|k: int| 0 <= k < kept.len() implies (#[trigger] kept@[k]).date_time.wf() by {
                assert(all.contains(kept@[k]));
            }
            Ok(kept)
        },
    }
}

/// What a [`Cell`] is, with its texts as sequences of characters.
pub struct CellView {
    pub text: Seq<char>,
    pub parts: Seq<Seq<char>>,
    pub links: Seq<Seq<char>>,
}

/// What a cell is.
pub open spec fn cell_view(cell: Cell) -> CellView {
    CellView { text: cell.text@, parts: texts_view(cell.parts@), links: texts_view(cell.links@) }
}

/// What the cells of a row are.
pub open spec fn row_view(cells: Seq<Cell>) -> Seq<CellView> {
    Seq::new(cells.len(), |i: int| cell_view(cells[i]))
}

/// What the rows of a table are.
pub open spec fn table_view(rows: Seq<Vec<Cell>>) -> Seq<Seq<CellView>> {
    Seq::new(rows.len(), |i: int| row_view(rows[i]@))
}

/// What the tables of a page are.
pub open spec fn tables_view(tables: Seq<Vec<Vec<Cell>>>) -> Seq<Seq<Seq<CellView>>> {
    Seq::new(tables.len(), |i: int| table_view(tables[i]@))
}

/// The inner markup of the elements of a page at the given places.
pub open spec fn markups_at(page: scraper::Html, places: Seq<Seq<int>>) -> Seq<Seq<char>> {
    Seq::new(places.len(), |i: int| markup_at(page, places[i]))
}

/// The pieces of a text put together, in their order.
pub open spec fn joined(pieces: Seq<Seq<char>>) -> Seq<char>
    decreases pieces.len(),
{
    if pieces.len() == 0 {
        Seq::empty()
    } else {
        joined(pieces.drop_last()) + pieces.last()
    }
}

/// The text of the element at `place`: its pieces of text put together.
pub open spec fn text_at(page: scraper::Html, place: Seq<int>) -> Seq<char> {
    joined(pieces_at(page, place))
}

/// The texts of the elements of a page at the given places.
pub open spec fn texts_at(page: scraper::Html, places: Seq<Seq<int>>) -> Seq<Seq<char>> {
    Seq::new(places.len(), |i: int| text_at(page, places[i]))
}

/// The cell that the element at `place` is read as: its inner markup, the
/// inner markup of each part in it, and the text of each link in it.
pub open spec fn cell_at(page: scraper::Html, place: Seq<int>, by: Selectors) -> CellView {
    CellView {
        text: markup_at(page, place),
        parts: markups_at(page, places_below(page, place, by.parts)),
        links: texts_at(page, places_below(page, place, by.links)),
    }
}

/// The cells that the row at `place` is read as.
pub open spec fn cells_at(page: scraper::Html, place: Seq<int>, by: Selectors) -> Seq<CellView> {
    let found = places_below(page, place, by.cells);
    Seq::new(found.len(), |i: int| cell_at(page, found[i], by))
}

/// The rows that the table at `place` is read as.
pub open spec fn rows_at(page: scraper::Html, place: Seq<int>, by: Selectors) -> Seq<
    Seq<CellView>,
> {
    let found = places_below(page, place, by.rows);
    Seq::new(found.len(), |i: int| cells_at(page, found[i], by))
}

/// The fixture tables that a page is read as.
pub open spec fn tables_on(page: scraper::Html, by: Selectors) -> Seq<Seq<Seq<CellView>>> {
    let found = places_on(page, by.tables);
    Seq::new(found.len(), |i: int| rows_at(page, found[i], by))
}

/// The selectors by which a page is searched, where scraper understands
/// all of them.
pub open spec fn selectors_read() -> Option<Selectors> {
    if selector_of(TABLE_SELECTOR@) is Some && selector_of(ROW_SELECTOR@) is Some && selector_of(
        CELL_SELECTOR@,
    ) is Some && selector_of(PART_SELECTOR@) is Some && selector_of(LINK_SELECTOR@) is Some {
        Some(
            Selectors {
                tables: selector_of(TABLE_SELECTOR@)->Some_0,
                rows: selector_of(ROW_SELECTOR@)->Some_0,
                cells: selector_of(CELL_SELECTOR@)->Some_0,
                parts: selector_of(PART_SELECTOR@)->Some_0,
                links: selector_of(LINK_SELECTOR@)->Some_0,
            },
        )
    } else {
        None
    }
}

/// The fixture tables that a text is read as: for each table that the page
/// made of the text holds, its rows, and for each row its cells. `None`
/// where a selector is not understood.
pub open spec fn tables_read(html: Seq<char>) -> Option<Seq<Seq<Seq<CellView>>>> {
    match selectors_read() {
        Some(by) => Some(tables_on(page_of(html), by)),
        None => None,
    }
}

/// The inner markup of each element.
fn markup_of(elements: &Vec<scraper::ElementRef>) -> (texts: Vec<String>)
    ensures
        texts.len() == elements.len(),
        forall|k: int|
            0 <= k < texts.len() ==> (#[trigger] texts@[k])@ == markup_at(
                home_of(elements@[k]),
                place_of(elements@[k]),
            ),
{
    let mut texts: Vec<String> = Vec::new();
    let mut i: usize = 0;
    while i < elements.len()
        invariant
            i <= elements.len(),
            texts.len() == i,
            forall|k: int|
                0 <= k < i ==> (#[trigger] texts@[k])@ == markup_at(
                    home_of(elements@[k]),
                    place_of(elements@[k]),
                ),
        decreases elements.len() - i,
    {
        texts.push(inner_html(&elements[i]));
        i += 1;
    }
    texts
}

/// Puts the pieces of a text together.
fn join(pieces: &Vec<String>) -> (text: String)
    ensures
        text@ == joined(texts_view(pieces@)),
{
    let mut text = String::new();
    let mut i: usize = 0;
    assert(texts_view(pieces@).take(0) =~= Seq::<Seq<char>>::empty());
    while i < pieces.len()
        invariant
            i <= pieces.len(),
            text@ == joined(texts_view(pieces@).take(i as int)),
        decreases pieces.len() - i,
    {
        proof {
            let all = texts_view(pieces@);
            assert(all.take(i + 1).drop_last() == all.take(i as int));
            assert(all.take(i + 1).last() == pieces@[i as int]@);
        }
        text.append(pieces[i].as_str());
        i += 1;
    }
    assert(texts_view(pieces@).take(i as int) == texts_view(pieces@));
    text
}

/// The text of each element, in order: its pieces of text put together.
fn texts_of(elements: &Vec<scraper::ElementRef>) -> (texts: Vec<String>)
    ensures
        texts.len() == elements.len(),
        forall|k: int|
            0 <= k < texts.len() ==> (#[trigger] texts@[k])@ == text_at(
                home_of(elements@[k]),
                place_of(elements@[k]),
            ),
{
    let mut texts: Vec<String> = Vec::new();
    let mut i: usize = 0;
    while i < elements.len()
        invariant
            i <= elements.len(),
            texts.len() == i,
            forall|k: int|
                0 <= k < i ==> (#[trigger] texts@[k])@ == text_at(
                    home_of(elements@[k]),
                    place_of(elements@[k]),
                ),
        decreases elements.len() - i,
    {
        let pieces = text_pieces(&elements[i]);
        texts.push(join(&pieces));
        i += 1;
    }
    texts
}

/// The selectors by which a page is searched.
pub struct Selectors {
    pub tables: scraper::Selector,
    pub rows: scraper::Selector,
    pub cells: scraper::Selector,
    pub parts: scraper::Selector,
    pub links: scraper::Selector,
}

/// Parses the selectors; `None` where one of them is not understood.
fn selectors() -> (by: Option<Selectors>)
    ensures
        by == selectors_read(),
{
    Some(
        Selectors {
            tables: parse_selector(TABLE_SELECTOR)?,
            rows: parse_selector(ROW_SELECTOR)?,
            cells: parse_selector(CELL_SELECTOR)?,
            parts: parse_selector(PART_SELECTOR)?,
            links: parse_selector(LINK_SELECTOR)?,
        },
    )
}

/// Reads a cell: its markup, the markup of its parts, the text of each link.
fn read_cell(cell: &scraper::ElementRef, by: &Selectors) -> (read: Cell)
    ensures
        cell_view(read) == cell_at(home_of(*cell), place_of(*cell), *by),
{
    let ghost page = home_of(*cell);
    let ghost place = place_of(*cell);
    let parts = select_in_element(cell, &by.parts);
    let links = select_in_element(cell, &by.links);
    let read = Cell { text: inner_html(cell), parts: markup_of(&parts), links: texts_of(&links) };
    proof {
        assert(texts_view(read.parts@) =~= markups_at(page, places_below(page, place, by.parts)));
        assert(texts_view(read.links@) =~= texts_at(page, places_below(page, place, by.links)));
    }
    read
}

/// Reads the cells of a row.
fn read_cells(row: &scraper::ElementRef, by: &Selectors) -> (cells: Vec<Cell>)
    ensures
        row_view(cells@) == cells_at(home_of(*row), place_of(*row), *by),
{
    let ghost page = home_of(*row);
    let ghost places = places_below(page, place_of(*row), by.cells);
    let found = select_in_element(row, &by.cells);
    let mut cells: Vec<Cell> = Vec::new();
    let mut i: usize = 0;
    while i < found.len()
        invariant
            i <= found.len(),
            cells.len() == i,
            stand_at(found@, page, places),
            forall|k: int| 0 <= k < i ==> cell_view(#[trigger] cells@[k]) == cell_at(page, places[k], *by),
        decreases found.len() - i,
    {
        cells.push(read_cell(&found[i], by));
        i += 1;
    }
    assert(row_view(cells@) =~= cells_at(page, place_of(*row), *by));
    cells
}

/// Reads the rows of a table.
fn read_rows(table: &scraper::ElementRef, by: &Selectors) -> (rows: Vec<Vec<Cell>>)
    ensures
        table_view(rows@) == rows_at(home_of(*table), place_of(*table), *by),
{
    let ghost page = home_of(*table);
    let ghost places = places_below(page, place_of(*table), by.rows);
    let found = select_in_element(table, &by.rows);
    let mut rows: Vec<Vec<Cell>> = Vec::new();
    let mut i: usize = 0;
    while i < found.len()
        invariant
            i <= found.len(),
            rows.len() == i,
            stand_at(found@, page, places),
            forall|k: int| 0 <= k < i ==> row_view((#[trigger] rows@[k])@) == cells_at(page, places[k], *by),
        decreases found.len() - i,
    {
        rows.push(read_cells(&found[i], by));
        i += 1;
    }
    assert(table_view(rows@) =~= rows_at(page, place_of(*table), *by));
    rows
}

/// Reads the fixture tables of a page: for each table its rows, for each row
/// its cells. `None` where a selector is not understood.
fn read_tables(html: &str) -> (read: Option<Vec<Vec<Vec<Cell>>>>)
    ensures
        match (read, tables_read(html@)) {
            (Some(tables), Some(views)) => tables_view(tables@) == views,
            (None, None) => true,
            _ => false,
        },
{
    let by = selectors()?;
    let page = parse_page(html);
    let ghost places = places_on(page, by.tables);
    let found = select_in_page(&page, &by.tables);
    let mut tables: Vec<Vec<Vec<Cell>>> = Vec::new();
    let mut i: usize = 0;
    while i < found.len()
        invariant
            i <= found.len(),
            tables.len() == i,
            stand_at(found@, page, places),
            forall|k: int|
                0 <= k < i ==> table_view((#[trigger] tables@[k])@) == rows_at(page, places[k], by),
        decreases found.len() - i,
    {
        tables.push(read_rows(&found[i], &by));
        i += 1;
    }
    assert(tables_view(tables@) =~= tables_on(page, by));
    Some(tables)
}

/// Reads the upcoming fixtures of a team from the league's page: the
/// result is what [`listing_of`] says of tables that are what the page is
/// read as. `BadSelector` comes exactly where a selector is not understood.
pub fn upcoming_fixtures(html: &str, team_name: &TeamName, now: &Instant) -> (r: Result<
    Vec<Fixture>,
    ListingError,
>)
    ensures
        match tables_read(html@) {
            None => r == Err::<Vec<Fixture>, ListingError>(ListingError::BadSelector),
            Some(views) => exists|tables: Seq<Vec<Vec<Cell>>>|
                tables_view(tables) == views && #[trigger] listing_matches(
                    r,
                    tables,
                    team_name@,
                    *now,
                ),
        },
        r is Ok ==> forall|k: int| 0 <= k < r->Ok_0.len() ==> (#[trigger] r->Ok_0@[k]).date_time.wf(),
{
    match read_tables(html) {
        None => Err(ListingError::BadSelector),
        Some(tables) => {
            let r = fixtures_in_tables(&tables, team_name, now);
            assert(tables_view(tables@) == tables_read(html@)->Some_0 && listing_matches(
                r,
                tables@,
                team_name@,
                *now,
            ));
            r
        },
    }
}

} // verus!
