//! Reconciliation: what has to be created, updated and deleted on the
//! platform so that its calendar shows the league's fixtures.
//!
//! A fixture and an event belong together when they fall on the same local
//! calendar date. Of several fixtures, or several events, on one date the
//! last one listed counts. Events without match information take no part.
use vstd::prelude::*;
use vstd::seq_lib::to_multiset_contains;

use itertools::Itertools;

use crate::full_time::Fixture;
use crate::full_time::FixtureView;
use crate::error::ParseError;
use crate::mapper::meetup_prior_of;
use crate::mapper::read_back;
use crate::spond::Spond;
use crate::time::london_date_of;
use crate::time::Instant;
use crate::time::LocalDate;

verus! {

/// An item together with the local calendar date it falls on.
pub struct Keyed<T> {
    pub date: LocalDate,
    pub item: T,
}

/// A fixture together with the reminder that its event should carry.
pub struct Planned {
    pub fixture: Fixture,
    pub reminder: Option<u16>,
}

/// What has to be done on the platform: fixtures without an event, fixtures
/// whose event differs from them, and events without a fixture.
#[derive(Debug, Clone, PartialEq, Eq)]
pub struct Diff {
    pub new: Vec<Fixture>,
    pub modified: Vec<(Fixture, Spond)>,
    pub removed: Vec<Spond>,
}

/// Something that happens at an instant, by which it is ordered.
pub trait Timed {
    /// The instant at which it happens.
    spec fn instant(&self) -> Instant;

    /// The pair by which instants are ordered.
    fn sort_key(&self) -> (key: (i64, u32))
        ensures
            key == (self.instant().secs, self.instant().nanos),
    ;
}

impl Timed for Fixture {
    open spec fn instant(&self) -> Instant {
        self.date_time
    }

    fn sort_key(&self) -> (key: (i64, u32)) {
        self.date_time.sort_key()
    }
}

impl Timed for Spond {
    open spec fn instant(&self) -> Instant {
        self.start_timestamp
    }

    fn sort_key(&self) -> (key: (i64, u32)) {
        self.start_timestamp.sort_key()
    }
}

impl Timed for Planned {
    open spec fn instant(&self) -> Instant {
        self.fixture.date_time
    }

    fn sort_key(&self) -> (key: (i64, u32)) {
        self.fixture.date_time.sort_key()
    }
}

impl Timed for (Fixture, Spond) {
    open spec fn instant(&self) -> Instant {
        self.0.date_time
    }

    fn sort_key(&self) -> (key: (i64, u32)) {
        self.0.date_time.sort_key()
    }
}

/// The item at `i` is the one that counts for its date: none after it falls
/// on the same date.
pub open spec fn counts<T>(items: Seq<Keyed<T>>, i: int) -> bool {
    &&& 0 <= i < items.len()
    &&& forall|j: int| i < j < items.len() ==> (#[trigger] items[j]).date != items[i].date
}

/// Some item falls on `date`.
pub open spec fn has_date<T>(items: Seq<Keyed<T>>, date: LocalDate) -> bool {
    exists|i: int| 0 <= i < items.len() && (#[trigger] items[i]).date == date
}

/// No two items fall on the same date.
pub open spec fn one_per_date<T>(items: Seq<Keyed<T>>) -> bool {
    forall|a: int, b: int|
        0 <= a < b < items.len() ==> (#[trigger] items[a]).date != (#[trigger] items[b]).date
}

/// The events that carry match information, in their order.
pub open spec fn matches_of(target: Seq<Keyed<Spond>>) -> Seq<Keyed<Spond>>
    decreases target.len(),
{
    if target.len() == 0 {
        Seq::empty()
    } else if target.last().item.match_info is Some {
        matches_of(target.drop_last()).push(target.last())
    } else {
        matches_of(target.drop_last())
    }
}

/// Items that happen at the same instant fall on the same date.
pub open spec fn dated_by_start<T: Timed>(items: Seq<Keyed<T>>) -> bool {
    forall|a: int, b: int|
        0 <= a < items.len() && 0 <= b < items.len() && (#[trigger] items[a]).item.instant() == (
        #[trigger] items[b]).item.instant() ==> items[a].date == items[b].date
}

/// The event shows the fixture as it is planned: read back it equals the
/// fixture, and it carries the planned reminder. An event that cannot be
/// read back, for want of a known location, never does.
pub open spec fn unchanged(planned: Planned, spond: Spond) -> bool {
    &&& read_back(spond) == Ok::<Option<FixtureView>, ParseError>(Some(planned.fixture@))
    &&& planned.reminder == spond.meetup_prior
}

/// The fixture counts for its date and no event falls on that date.
pub open spec fn is_new(source: Seq<Keyed<Planned>>, events: Seq<Keyed<Spond>>, fixture: Fixture) -> bool {
    exists|i: int|
        #![trigger source[i]]
        counts(source, i) && !has_date(events, source[i].date) && source[i].item.fixture == fixture
}

/// The fixture and the event count for the same date, and the event does
/// not show the fixture as planned.
pub open spec fn is_modified(
    source: Seq<Keyed<Planned>>,
    events: Seq<Keyed<Spond>>,
    pair: (Fixture, Spond),
) -> bool {
    exists|i: int, j: int|
        #![trigger source[i], events[j]]
        counts(source, i) && counts(events, j) && source[i].date == events[j].date && !unchanged(
            source[i].item,
            events[j].item,
        ) && pair == (source[i].item.fixture, events[j].item)
}

/// The event counts for its date and no fixture falls on that date.
pub open spec fn is_removed(source: Seq<Keyed<Planned>>, events: Seq<Keyed<Spond>>, spond: Spond) -> bool {
    exists|j: int|
        #![trigger events[j]]
        counts(events, j) && !has_date(source, events[j].date) && events[j].item == spond
}

/// The items come in strictly ascending order of their instants.
pub open spec fn ascending<T: Timed>(items: Seq<T>) -> bool {
    forall|a: int, b: int|
        0 <= a < b < items.len() ==> (#[trigger] items[a]).instant().lt(
            (#[trigger] items[b]).instant(),
        )
}

/// Whether `diff` is the difference between the fixtures `source` and the
/// events `target`: each list holds exactly what belongs in it, in ascending
/// order of the fixture's instant (for events without a fixture, of the
/// event's start).
pub open spec fn is_diff(source: Seq<Keyed<Planned>>, target: Seq<Keyed<Spond>>, diff: Diff) -> bool {
    let events = matches_of(target);
    &&& forall|f: Fixture| #[trigger] diff.new@.contains(f) <==> is_new(source, events, f)
    &&& forall|p: (Fixture, Spond)| #[trigger]
        diff.modified@.contains(p) <==> is_modified(source, events, p)
    &&& forall|s: Spond| #[trigger] diff.removed@.contains(s) <==> is_removed(source, events, s)
    &&& ascending(diff.new@)
    &&& ascending(diff.modified@)
    &&& ascending(diff.removed@)
}

/// Whether some item falls on `date`.
fn falls_on<T>(items: &Vec<Keyed<T>>, date: LocalDate) -> (r: Option<usize>)
    ensures
        r is Some <==> has_date(items@, date),
        r is Some ==> r->Some_0 < items.len() && items@[r->Some_0 as int].date == date,
{
    let mut i: usize = 0;
    while i < items.len()
        invariant
            i <= items.len(),
            forall|k: int| 0 <= k < i ==> (#[trigger] items@[k]).date != date,
        decreases items.len() - i,
    {
        if items[i].date == date {
            return Some(i);
        }
        i += 1;
    }
    None
}

/// The entry is one of those that count for their date, at `from` or later.
pub open spec fn counted<T>(items: Seq<Keyed<T>>, from: int, entry: Keyed<T>) -> bool {
    exists|i: int| from <= i && counts(items, i) && #[trigger] items[i] == entry
}

/// Keeps, for each date, the item that counts for it.
fn latest<T>(items: Vec<Keyed<T>>) -> (kept: Vec<Keyed<T>>)
    ensures
        one_per_date(kept@),
        forall|e: Keyed<T>| #[trigger] kept@.contains(e) <==> counted(items@, 0, e),
        forall|date: LocalDate| has_date(kept@, date) <==> has_date(items@, date),
{
    let ghost all = items@;
    let mut items = items;
    let mut kept: Vec<Keyed<T>> = Vec::new();
    while items.len() > 0
        invariant
            items.len() <= all.len(),
            items@ == all.take(items.len() as int),
            one_per_date(kept@),
            forall|k: int|
                0 <= k < kept.len() ==> counted(all, items.len() as int, #[trigger] kept@[k]),
            forall|i: int|
                items.len() <= i && counts(all, i) ==> kept@.contains(#[trigger] all[i]),
            forall|i: int|
                items.len() <= i < all.len() ==> has_date(kept@, (#[trigger] all[i]).date),
        decreases items.len(),
    {
        let ghost n = items.len() - 1;
        let ghost before = kept@;
        let entry = items.pop().unwrap();
        assert(entry == all[n]);
        if falls_on(&kept, entry.date).is_none() {
            assert(counts(all, n)) by {
                assert forall|j: int| n < j < all.len() implies (#[trigger] all[j]).date
                    != all[n].date by {
                    assert(has_date(before, all[j].date));
                }
            }
            kept.push(entry);
            assert(kept@.last() == all[n]);
            assert forall|k: int| 0 <= k < kept.len() implies counted(all, n, #[trigger] kept@[k]) by {
                if k < before.len() {
                    assert(kept@[k] == before[k]);
                    assert(counted(all, n + 1, before[k]));
                    let i = choose|i: int|
                        n + 1 <= i && counts(all, i) && #[trigger] all[i] == before[k];
                    assert(n <= i && counts(all, i) && all[i] == kept@[k]);
                } else {
                    assert(n <= n && counts(all, n) && all[n] == kept@[k]);
                }
            }
            assert forall|i: int| n <= i && counts(all, i) implies kept@.contains(
                #[trigger] all[i],
            ) by {
                if i == n {
                    assert(kept@[kept.len() - 1] == all[n]);
                } else {
                    assert(before.contains(all[i]));
                    let k = choose|k: int| 0 <= k < before.len() && before[k] == all[i];
                    assert(kept@[k] == all[i]);
                }
            }
            assert forall|i: int| n <= i < all.len() implies has_date(
                kept@,
                (#[trigger] all[i]).date,
            ) by {
                if i == n {
                    assert(kept@[kept.len() - 1].date == all[n].date);
                } else {
                    assert(has_date(before, all[i].date));
                    let k = choose|k: int|
                        0 <= k < before.len() && (#[trigger] before[k]).date == all[i].date;
                    assert(kept@[k].date == all[i].date);
                }
            }
            assert(one_per_date(kept@)) by {
                assert forall|a: int, b: int| 0 <= a < b < kept.len() implies (#[trigger] kept@[a]).date
                    != (#[trigger] kept@[b]).date by {
                    assert(kept@[a] == before[a]);
                    if b < before.len() {
                        assert(kept@[b] == before[b]);
                    }
                }
            }
        } else {
            assert(!counts(all, n)) by {
                let k = choose|k: int|
                    0 <= k < before.len() && (#[trigger] before[k]).date == all[n].date;
                assert(counted(all, n + 1, before[k]));
                let i = choose|i: int|
                    n + 1 <= i && counts(all, i) && #[trigger] all[i] == before[k];
                assert(all[i].date == all[n].date);
            }
            assert forall|k: int| 0 <= k < kept.len() implies counted(all, n, #[trigger] kept@[k]) by {
                assert(counted(all, n + 1, kept@[k]));
                let i = choose|i: int|
                    n + 1 <= i && counts(all, i) && #[trigger] all[i] == kept@[k];
                assert(n <= i && counts(all, i) && all[i] == kept@[k]);
            }
        }
        assert(items@ == all.take(n));
    }
    assert forall|e: Keyed<T>| #[trigger] kept@.contains(e) implies counted(all, 0, e) by {
        let k = choose|k: int| 0 <= k < kept.len() && kept@[k] == e;
        assert(counted(all, 0, kept@[k]));
    }
    assert forall|e: Keyed<T>| counted(all, 0, e) implies #[trigger] kept@.contains(e) by {
        let i = choose|i: int| 0 <= i && counts(all, i) && #[trigger] all[i] == e;
        assert(kept@.contains(all[i]));
    }
    assert forall|date: LocalDate| has_date(kept@, date) <==> has_date(all, date) by {
        if has_date(kept@, date) {
            let k = choose|k: int| 0 <= k < kept.len() && (#[trigger] kept@[k]).date == date;
            assert(counted(all, 0, kept@[k]));
            let i = choose|i: int| 0 <= i && counts(all, i) && #[trigger] all[i] == kept@[k];
            assert(all[i].date == date);
        }
        if has_date(all, date) {
            let i = choose|i: int| 0 <= i < all.len() && (#[trigger] all[i]).date == date;
            assert(has_date(kept@, all[i].date));
        }
    }
    kept
}

/// No two items happen at the same instant.
pub open spec fn distinct_instants<T: Timed>(items: Seq<T>) -> bool {
    forall|a: int, b: int|
        0 <= a < b < items.len() ==> (#[trigger] items[a]).instant() != (#[trigger] items[b]).instant()
}

/// The items that happen at `instant`, in their order.
pub open spec fn at_instant<T: Timed>(items: Seq<T>, instant: Instant) -> Seq<T> {
    items.filter(|item: T| item.instant() == instant)
}

/// Calls itertools' `Itertools::sorted_by_key` on the items, with the pair
/// of seconds and nanoseconds of each item's instant as the key. The
/// contract states what that method documents: the result holds the same
/// items, each as often as before, in ascending order of the key, and items
/// with equal keys keep their order.
#[verifier::external_body]
fn sorted_by_instant<T: Timed>(items: Vec<T>) -> (sorted: Vec<T>)
    ensures
        sorted@.to_multiset() == items@.to_multiset(),
        forall|a: int, b: int|
            0 <= a < b < sorted.len() ==> (#[trigger] sorted@[a]).instant().le(
                (#[trigger] sorted@[b]).instant(),
            ),
        forall|instant: Instant| #[trigger]
            at_instant(sorted@, instant) == at_instant(items@, instant),
{
    items.into_iter().sorted_by_key(|item| item.sort_key()).collect()
}

/// Puts items that happen at different instants in ascending order.
fn in_order<T: Timed>(items: Vec<T>) -> (sorted: Vec<T>)
    requires
        distinct_instants(items@),
    ensures
        ascending(sorted@),
        forall|x: T| #[trigger] sorted@.contains(x) <==> items@.contains(x),
{
    let ghost before = items@;
    let sorted = sorted_by_instant(items);
    proof {
        assert forall|x: T| #[trigger] sorted@.contains(x) <==> before.contains(x) by {
            to_multiset_contains(sorted@, x);
            to_multiset_contains(before, x);
        }
        assert(before.no_duplicates());
        before.lemma_multiset_has_no_duplicates();
        sorted@.lemma_multiset_has_no_duplicates_conv();
        assert forall|a: int, b: int| 0 <= a < b < sorted.len() implies (#[trigger] sorted@[a]).instant().lt(
            (#[trigger] sorted@[b]).instant(),
        ) by {
            assert(sorted@[a] != sorted@[b]);
            assert(sorted@.contains(sorted@[a]));
            assert(sorted@.contains(sorted@[b]));
            let p = choose|p: int| 0 <= p < before.len() && before[p] == sorted@[a];
            let q = choose|q: int| 0 <= q < before.len() && before[q] == sorted@[b];
            assert(p != q);
            if p < q {
                assert(before[p].instant() != before[q].instant());
            } else {
                assert(before[q].instant() != before[p].instant());
            }
        }
    }
    sorted
}

/// The fixture is planned for a date on which no event falls.
pub open spec fn is_unmatched(
    source: Seq<Keyed<Planned>>,
    upto: int,
    events: Seq<Keyed<Spond>>,
    fixture: Fixture,
) -> bool {
    exists|a: int|
        0 <= a < upto && !has_date(events, (#[trigger] source[a]).date) && source[a].item.fixture
            == fixture
}

/// The fixture and the event fall on the same date, and the event does not
/// show the fixture as planned.
pub open spec fn is_changed(
    source: Seq<Keyed<Planned>>,
    upto: int,
    events: Seq<Keyed<Spond>>,
    pair: (Fixture, Spond),
) -> bool {
    exists|a: int, b: int|
        #![trigger source[a], events[b]]
        0 <= a < upto && 0 <= b < events.len() && source[a].date == events[b].date && !unchanged(
            source[a].item,
            events[b].item,
        ) && pair == (source[a].item.fixture, events[b].item)
}

/// The event falls on a date for which no fixture is planned.
pub open spec fn is_left(source: Seq<Keyed<Planned>>, upto: int, events: Seq<Keyed<Spond>>, entry: Keyed<Spond>) -> bool {
    &&& events.contains(entry)
    &&& forall|a: int| 0 <= a < upto ==> (#[trigger] source[a]).date != entry.date
}

/// Whether the event shows the fixture as planned.
fn is_unchanged(planned: &Planned, spond: &Spond) -> (r: bool)
    ensures
        r == unchanged(*planned, *spond),
{
    match spond.to_fixture() {
        Ok(Some(shown)) => shown.same_as(&planned.fixture) && planned.reminder == spond.meetup_prior,
        _ => false,
    }
}

/// Without one of its entries, a list with one entry per date holds exactly
/// the entries that fall on other dates.
proof fn lemma_remove_keeps_others<T>(items: Seq<Keyed<T>>, j: int)
    requires
        one_per_date(items),
        0 <= j < items.len(),
    ensures
        one_per_date(items.remove(j)),
        forall|e: Keyed<T>| #[trigger]
            items.remove(j).contains(e) <==> items.contains(e) && e.date != items[j].date,
{
    let rest = items.remove(j);
    assert forall|a: int, b: int| 0 <= a < b < rest.len() implies (#[trigger] rest[a]).date
        != (#[trigger] rest[b]).date by {
        let a0 = if a < j { a } else { a + 1 };
        let b0 = if b < j { b } else { b + 1 };
        assert(rest[a] == items[a0] && rest[b] == items[b0]);
    }
    assert forall|e: Keyed<T>| #[trigger] rest.contains(e) implies items.contains(e) && e.date
        != items[j].date by {
        let k = choose|k: int| 0 <= k < rest.len() && rest[k] == e;
        let k0 = if k < j { k } else { k + 1 };
        assert(items[k0] == e);
        if k0 < j {
            assert(items[k0].date != items[j].date);
        } else {
            assert(items[j].date != items[k0].date);
        }
    }
    assert forall|e: Keyed<T>| items.contains(e) && e.date != items[j].date implies #[trigger] rest.contains(e) by {
        let k0 = choose|k: int| 0 <= k < items.len() && items[k] == e;
        let k = if k0 < j { k0 } else { k0 - 1 };
        assert(rest[k] == e);
    }
}

/// Two entries of a list with one entry per date that fall on one date are
/// the same entry.
proof fn lemma_same_date_same_entry<T>(items: Seq<Keyed<T>>, a: int, b: int)
    requires
        one_per_date(items),
        0 <= a < items.len(),
        0 <= b < items.len(),
        items[a].date == items[b].date,
    ensures
        a == b,
{
    if a < b {
        assert(items[a].date != items[b].date);
    } else if b < a {
        assert(items[b].date != items[a].date);
    }
}

/// Sorts fixtures and events that each have one entry per date into those
/// without an event, those whose event differs, and the events without a
/// fixture.
fn classify(sources: Vec<Keyed<Planned>>, events: Vec<Keyed<Spond>>) -> (r: (
    Vec<Fixture>,
    Vec<(Fixture, Spond)>,
    Vec<Keyed<Spond>>,
))
    requires
        one_per_date(sources@),
        one_per_date(events@),
        dated_by_start(sources@),
    ensures
        forall|f: Fixture| #[trigger]
            r.0@.contains(f) <==> is_unmatched(sources@, sources.len() as int, events@, f),
        forall|p: (Fixture, Spond)| #[trigger]
            r.1@.contains(p) <==> is_changed(sources@, sources.len() as int, events@, p),
        forall|e: Keyed<Spond>| #[trigger]
            r.2@.contains(e) <==> is_left(sources@, sources.len() as int, events@, e),
        distinct_instants(r.0@),
        distinct_instants(r.1@),
        one_per_date(r.2@),
{
    let ghost s0 = sources@;
    let ghost t0 = events@;
    let mut events = events;
    let mut new: Vec<Fixture> = Vec::new();
    let mut modified: Vec<(Fixture, Spond)> = Vec::new();
    assert forall|e: Keyed<Spond>| #[trigger] events@.contains(e) <==> is_left(s0, 0, t0, e) by {}
    for planned in it: sources
        invariant
            it.seq() == s0,
            one_per_date(s0),
            one_per_date(t0),
            dated_by_start(s0),
            one_per_date(events@),
            forall|e: Keyed<Spond>| #[trigger]
                events@.contains(e) <==> is_left(s0, it.index() as int, t0, e),
            forall|f: Fixture| #[trigger]
                new@.contains(f) <==> is_unmatched(s0, it.index() as int, t0, f),
            forall|p: (Fixture, Spond)| #[trigger]
                modified@.contains(p) <==> is_changed(s0, it.index() as int, t0, p),
            distinct_instants(new@),
            distinct_instants(modified@),
    {
        let ghost a = it.index() as int;
        let ghost old_events = events@;
        let ghost old_new = new@;
        let ghost old_modified = modified@;
        assert(planned == s0[a]);
        let found = falls_on(&events, planned.date);
        match found {
            None => {
                proof {
                    if has_date(t0, s0[a].date) {
                        let b = choose|b: int|
                            0 <= b < t0.len() && (#[trigger] t0[b]).date == s0[a].date;
                        assert(t0.contains(t0[b]));
                        assert forall|k: int| 0 <= k < a implies (#[trigger] s0[k]).date
                            != t0[b].date by {
                            assert(s0[k].date != s0[a].date);
                        }
                        assert(is_left(s0, a, t0, t0[b]));
                        assert(old_events.contains(t0[b]));
                        let k = choose|k: int| 0 <= k < old_events.len() && old_events[k] == t0[b];
                        assert(old_events[k].date == s0[a].date);
                        assert(false);
                    }
                    assert forall|k: int| 0 <= k < old_new.len() implies (#[trigger] old_new[k]).date_time
                        != planned.item.fixture.date_time by {
                        assert(old_new.contains(old_new[k]));
                        assert(is_unmatched(s0, a, t0, old_new[k]));
                        let c = choose|c: int|
                            0 <= c < a && !has_date(t0, (#[trigger] s0[c]).date)
                                && s0[c].item.fixture == old_new[k];
                        assert(s0[c].date != s0[a].date);
                    }
                }
                new.push(planned.item.fixture);
                proof {
                    assert forall|f: Fixture| #[trigger] new@.contains(f) <==> is_unmatched(
                        s0,
                        a + 1,
                        t0,
                        f,
                    ) by {
                        if new@.contains(f) {
                            let k = choose|k: int| 0 <= k < new@.len() && new@[k] == f;
                            if k < old_new.len() {
                                assert(old_new[k] == f);
                                assert(old_new.contains(f));
                                assert(is_unmatched(s0, a, t0, f));
                                let c = choose|c: int|
                                    0 <= c < a && !has_date(t0, (#[trigger] s0[c]).date)
                                        && s0[c].item.fixture == f;
                                assert(0 <= c < a + 1 && !has_date(t0, s0[c].date)
                                    && s0[c].item.fixture == f);
                            } else {
                                assert(0 <= a < a + 1 && !has_date(t0, s0[a].date)
                                    && s0[a].item.fixture == f);
                            }
                        }
                        if is_unmatched(s0, a + 1, t0, f) {
                            let c = choose|c: int|
                                0 <= c < a + 1 && !has_date(t0, (#[trigger] s0[c]).date)
                                    && s0[c].item.fixture == f;
                            if c < a {
                                assert(is_unmatched(s0, a, t0, f));
                                assert(old_new.contains(f));
                                let k = choose|k: int| 0 <= k < old_new.len() && old_new[k] == f;
                                assert(new@[k] == f);
                            } else {
                                assert(new@[new@.len() - 1] == f);
                            }
                        }
                    }
                    assert forall|p: (Fixture, Spond)| #[trigger]
                        modified@.contains(p) <==> is_changed(s0, a + 1, t0, p) by {
                        if is_changed(s0, a + 1, t0, p) {
                            let (c, b) = choose|c: int, b: int|
                                #![trigger s0[c], t0[b]]
                                0 <= c < a + 1 && 0 <= b < t0.len() && s0[c].date == t0[b].date
                                    && !unchanged(s0[c].item, t0[b].item) && p == (
                                    s0[c].item.fixture,
                                    t0[b].item,
                                );
                            assert(c < a);
                            assert(is_changed(s0, a, t0, p));
                        }
                        if is_changed(s0, a, t0, p) {
                            let (c, b) = choose|c: int, b: int|
                                #![trigger s0[c], t0[b]]
                                0 <= c < a && 0 <= b < t0.len() && s0[c].date == t0[b].date
                                    && !unchanged(s0[c].item, t0[b].item) && p == (
                                    s0[c].item.fixture,
                                    t0[b].item,
                                );
                            assert(0 <= c < a + 1 && 0 <= b < t0.len() && s0[c].date == t0[b].date
                                && !unchanged(s0[c].item, t0[b].item) && p == (
                                s0[c].item.fixture,
                                t0[b].item,
                            ));
                        }
                    }
                    assert forall|e: Keyed<Spond>| #[trigger]
                        events@.contains(e) <==> is_left(s0, a + 1, t0, e) by {
                        if events@.contains(e) {
                            assert(is_left(s0, a, t0, e));
                            let k = choose|k: int| 0 <= k < events@.len() && events@[k] == e;
                            assert(events@[k].date != s0[a].date);
                        }
                    }
                }
            },
            Some(j) => {
                let entry = events.remove(j);
                let differs = !is_unchanged(&planned.item, &entry.item);
                proof {
                    lemma_remove_keeps_others(old_events, j as int);
                    assert(old_events.contains(entry));
                    assert(is_left(s0, a, t0, entry));
                    let b = choose|b: int| 0 <= b < t0.len() && t0[b] == entry;
                    assert(t0[b].date == s0[a].date);
                    assert(has_date(t0, s0[a].date));
                    assert forall|e: Keyed<Spond>| #[trigger]
                        events@.contains(e) <==> is_left(s0, a + 1, t0, e) by {
                        if is_left(s0, a + 1, t0, e) {
                            assert(is_left(s0, a, t0, e));
                            assert(s0[a].date != e.date);
                        }
                        if events@.contains(e) {
                            assert(is_left(s0, a, t0, e));
                        }
                    }
                    assert forall|f: Fixture| #[trigger] new@.contains(f) <==> is_unmatched(
                        s0,
                        a + 1,
                        t0,
                        f,
                    ) by {
                        if is_unmatched(s0, a + 1, t0, f) {
                            let c = choose|c: int|
                                0 <= c < a + 1 && !has_date(t0, (#[trigger] s0[c]).date)
                                    && s0[c].item.fixture == f;
                            assert(c < a);
                            assert(is_unmatched(s0, a, t0, f));
                        }
                        if is_unmatched(s0, a, t0, f) {
                            let c = choose|c: int|
                                0 <= c < a && !has_date(t0, (#[trigger] s0[c]).date)
                                    && s0[c].item.fixture == f;
                            assert(0 <= c < a + 1 && !has_date(t0, s0[c].date)
                                && s0[c].item.fixture == f);
                        }
                    }
                    assert forall|k: int| 0 <= k < old_modified.len() implies (#[trigger] old_modified[k]).0.date_time
                        != planned.item.fixture.date_time by {
                        assert(old_modified.contains(old_modified[k]));
                        assert(is_changed(s0, a, t0, old_modified[k]));
                        let (c, d) = choose|c: int, d: int|
                            #![trigger s0[c], t0[d]]
                            0 <= c < a && 0 <= d < t0.len() && s0[c].date == t0[d].date
                                && !unchanged(s0[c].item, t0[d].item) && old_modified[k] == (
                                s0[c].item.fixture,
                                t0[d].item,
                            );
                        assert(s0[c].date != s0[a].date);
                    }
                }
                if differs {
                    modified.push((planned.item.fixture, entry.item));
                }
                proof {
                    let b = choose|b: int| 0 <= b < t0.len() && t0[b] == entry;
                    let pair = (s0[a].item.fixture, t0[b].item);
                    assert forall|p: (Fixture, Spond)| #[trigger]
                        modified@.contains(p) <==> is_changed(s0, a + 1, t0, p) by {
                        if modified@.contains(p) {
                            let k = choose|k: int| 0 <= k < modified@.len() && modified@[k] == p;
                            if k < old_modified.len() {
                                assert(old_modified[k] == p);
                                assert(old_modified.contains(p));
                                assert(is_changed(s0, a, t0, p));
                                let (c, d) = choose|c: int, d: int|
                                    #![trigger s0[c], t0[d]]
                                    0 <= c < a && 0 <= d < t0.len() && s0[c].date == t0[d].date
                                        && !unchanged(s0[c].item, t0[d].item) && p == (
                                        s0[c].item.fixture,
                                        t0[d].item,
                                    );
                                assert(0 <= c < a + 1 && 0 <= d < t0.len() && s0[c].date
                                    == t0[d].date && !unchanged(s0[c].item, t0[d].item) && p == (
                                    s0[c].item.fixture,
                                    t0[d].item,
                                ));
                            } else {
                                assert(p == pair);
                                assert(0 <= a < a + 1 && 0 <= b < t0.len() && s0[a].date
                                    == t0[b].date && !unchanged(s0[a].item, t0[b].item) && p == (
                                    s0[a].item.fixture,
                                    t0[b].item,
                                ));
                            }
                        }
                        if is_changed(s0, a + 1, t0, p) {
                            let (c, d) = choose|c: int, d: int|
                                #![trigger s0[c], t0[d]]
                                0 <= c < a + 1 && 0 <= d < t0.len() && s0[c].date == t0[d].date
                                    && !unchanged(s0[c].item, t0[d].item) && p == (
                                    s0[c].item.fixture,
                                    t0[d].item,
                                );
                            if c < a {
                                assert(is_changed(s0, a, t0, p));
                                assert(old_modified.contains(p));
                                let k = choose|k: int|
                                    0 <= k < old_modified.len() && old_modified[k] == p;
                                assert(modified@[k] == p);
                            } else {
                                lemma_same_date_same_entry(t0, b, d);
                                assert(differs);
                                assert(modified@[modified@.len() - 1] == p);
                            }
                        }
                    }
                }
            },
        }
    }
    (new, modified, events)
}

/// An entry of the events with match information is one of the events.
proof fn lemma_matches_are_events(target: Seq<Keyed<Spond>>, entry: Keyed<Spond>)
    requires
        matches_of(target).contains(entry),
    ensures
        target.contains(entry),
    decreases target.len(),
{
    if target.len() > 0 {
        let k = choose|k: int| 0 <= k < matches_of(target).len() && matches_of(target)[k] == entry;
        let before = matches_of(target.drop_last());
        if k < before.len() {
            assert(before[k] == entry);
            assert(before.contains(entry));
            lemma_matches_are_events(target.drop_last(), entry);
            let i = choose|i: int| 0 <= i < target.drop_last().len() && target.drop_last()[i] == entry;
            assert(target[i] == entry);
        } else {
            assert(target[target.len() - 1] == entry);
        }
    }
}

/// Part of a list that is dated by start is dated by start.
proof fn lemma_part_dated_by_start<T: Timed>(all: Seq<Keyed<T>>, part: Seq<Keyed<T>>)
    requires
        dated_by_start(all),
        forall|k: int| 0 <= k < part.len() ==> all.contains(#[trigger] part[k]),
    ensures
        dated_by_start(part),
{
    assert forall|a: int, b: int|
        0 <= a < part.len() && 0 <= b < part.len() && (#[trigger] part[a]).item.instant() == (
        #[trigger] part[b]).item.instant() implies part[a].date == part[b].date by {
        assert(all.contains(part[a]));
        assert(all.contains(part[b]));
        let i = choose|i: int| 0 <= i < all.len() && all[i] == part[a];
        let j = choose|j: int| 0 <= j < all.len() && all[j] == part[b];
        assert(all[i].item.instant() == all[j].item.instant());
    }
}

/// Keeps the events that carry match information.
fn with_match_info(target: Vec<Keyed<Spond>>) -> (events: Vec<Keyed<Spond>>)
    ensures
        events@ == matches_of(target@),
{
    let ghost all = target@;
    let mut events: Vec<Keyed<Spond>> = Vec::new();
    for entry in it: target
        invariant
            it.seq() == all,
            events@ == matches_of(all.take(it.index() as int)),
    {
        assert(all.take(it.index() + 1).drop_last() == all.take(it.index() as int));
        if entry.item.match_info.is_some() {
            events.push(entry);
        }
    }
    assert(all.take(all.len() as int) == all);
    events
}

/// The items without their dates.
fn items_of<T>(entries: Vec<Keyed<T>>) -> (items: Vec<T>)
    ensures
        items.len() == entries.len(),
        forall|k: int| 0 <= k < items.len() ==> #[trigger] items@[k] == entries@[k].item,
{
    let ghost all = entries@;
    let mut items: Vec<T> = Vec::new();
    for entry in it: entries
        invariant
            it.seq() == all,
            items.len() == it.index(),
            forall|k: int| 0 <= k < items.len() ==> #[trigger] items@[k] == all[k].item,
    {
        items.push(entry.item);
    }
    items
}

impl Diff {
    /// The difference between fixtures and events that come with their
    /// dates and planned reminders.
    pub fn between(source: Vec<Keyed<Planned>>, target: Vec<Keyed<Spond>>) -> (diff: Diff)
        requires
            dated_by_start(source@),
            dated_by_start(target@),
        ensures
            is_diff(source@, target@, diff),
    {
        let ghost events = matches_of(target@);
        let sources = latest(source);
        let matches = with_match_info(target);
        let targets = latest(matches);
        proof {
            assert forall|k: int| 0 <= k < sources.len() implies source@.contains(
                #[trigger] sources@[k],
            ) by {
                assert(sources@.contains(sources@[k]));
                assert(counted(source@, 0, sources@[k]));
            }
            lemma_part_dated_by_start(source@, sources@);
            assert forall|k: int| 0 <= k < targets.len() implies target@.contains(
                #[trigger] targets@[k],
            ) by {
                assert(targets@.contains(targets@[k]));
                assert(counted(events, 0, targets@[k]));
                assert(events.contains(targets@[k]));
                lemma_matches_are_events(target@, targets@[k]);
            }
            lemma_part_dated_by_start(target@, targets@);
        }
        let ghost kept_sources = sources@;
        let ghost kept_targets = targets@;
        let (new, modified, left) = classify(sources, targets);
        let ghost left_entries = left@;
        let removed = items_of(left);
        proof {
            assert forall|k: int| 0 <= k < left_entries.len() implies kept_targets.contains(
                #[trigger] left_entries[k],
            ) by {
                assert(left_entries.contains(left_entries[k]));
            }
            lemma_part_dated_by_start(kept_targets, left_entries);
            assert forall|a: int, b: int| 0 <= a < b < removed.len() implies (#[trigger] removed@[a]).instant()
                != (#[trigger] removed@[b]).instant() by {
                assert(left_entries[a].date != left_entries[b].date);
            }
            assert forall|f: Fixture| #[trigger] new@.contains(f) <==> is_new(source@, events, f) by {
                if new@.contains(f) {
                    let a = choose|a: int|
                        0 <= a < kept_sources.len() && !has_date(
                            kept_targets,
                            (#[trigger] kept_sources[a]).date,
                        ) && kept_sources[a].item.fixture == f;
                    assert(kept_sources.contains(kept_sources[a]));
                    assert(counted(source@, 0, kept_sources[a]));
                    let i = choose|i: int|
                        0 <= i && counts(source@, i) && #[trigger] source@[i] == kept_sources[a];
                    assert(counts(source@, i) && !has_date(events, source@[i].date)
                        && source@[i].item.fixture == f);
                }
                if is_new(source@, events, f) {
                    let i = choose|i: int|
                        #![trigger source@[i]]
                        counts(source@, i) && !has_date(events, source@[i].date)
                            && source@[i].item.fixture == f;
                    assert(counted(source@, 0, source@[i]));
                    assert(kept_sources.contains(source@[i]));
                    let a = choose|a: int| 0 <= a < kept_sources.len() && kept_sources[a] == source@[i];
                    assert(0 <= a < kept_sources.len() && !has_date(kept_targets, kept_sources[a].date)
                        && kept_sources[a].item.fixture == f);
                }
            }
            assert forall|p: (Fixture, Spond)| #[trigger]
                modified@.contains(p) <==> is_modified(source@, events, p) by {
                if modified@.contains(p) {
                    let (a, b) = choose|a: int, b: int|
                        #![trigger kept_sources[a], kept_targets[b]]
                        0 <= a < kept_sources.len() && 0 <= b < kept_targets.len()
                            && kept_sources[a].date == kept_targets[b].date && !unchanged(
                            kept_sources[a].item,
                            kept_targets[b].item,
                        ) && p == (kept_sources[a].item.fixture, kept_targets[b].item);
                    assert(kept_sources.contains(kept_sources[a]));
                    assert(counted(source@, 0, kept_sources[a]));
                    assert(kept_targets.contains(kept_targets[b]));
                    assert(counted(events, 0, kept_targets[b]));
                    let i = choose|i: int|
                        0 <= i && counts(source@, i) && #[trigger] source@[i] == kept_sources[a];
                    let j = choose|j: int|
                        0 <= j && counts(events, j) && #[trigger] events[j] == kept_targets[b];
                    assert(counts(source@, i) && counts(events, j) && source@[i].date
                        == events[j].date && !unchanged(source@[i].item, events[j].item) && p == (
                        source@[i].item.fixture,
                        events[j].item,
                    ));
                }
                if is_modified(source@, events, p) {
                    let (i, j) = choose|i: int, j: int|
                        #![trigger source@[i], events[j]]
                        counts(source@, i) && counts(events, j) && source@[i].date == events[j].date
                            && !unchanged(source@[i].item, events[j].item) && p == (
                            source@[i].item.fixture,
                            events[j].item,
                        );
                    assert(counted(source@, 0, source@[i]));
                    assert(counted(events, 0, events[j]));
                    assert(kept_sources.contains(source@[i]));
                    assert(kept_targets.contains(events[j]));
                    let a = choose|a: int| 0 <= a < kept_sources.len() && kept_sources[a] == source@[i];
                    let b = choose|b: int| 0 <= b < kept_targets.len() && kept_targets[b] == events[j];
                    assert(0 <= a < kept_sources.len() && 0 <= b < kept_targets.len()
                        && kept_sources[a].date == kept_targets[b].date && !unchanged(
                        kept_sources[a].item,
                        kept_targets[b].item,
                    ) && p == (kept_sources[a].item.fixture, kept_targets[b].item));
                }
            }
            assert forall|s: Spond| #[trigger] removed@.contains(s) <==> is_removed(
                source@,
                events,
                s,
            ) by {
                if removed@.contains(s) {
                    let k = choose|k: int| 0 <= k < removed@.len() && removed@[k] == s;
                    let e = left_entries[k];
                    assert(left_entries.contains(e));
                    assert(is_left(kept_sources, kept_sources.len() as int, kept_targets, e));
                    assert(counted(events, 0, e));
                    let j = choose|j: int| 0 <= j && counts(events, j) && #[trigger] events[j] == e;
                    if has_date(source@, e.date) {
                        assert(has_date(kept_sources, e.date));
                        let a = choose|a: int|
                            0 <= a < kept_sources.len() && (#[trigger] kept_sources[a]).date == e.date;
                        assert(false);
                    }
                    assert(counts(events, j) && !has_date(source@, events[j].date)
                        && events[j].item == s);
                }
                if is_removed(source@, events, s) {
                    let j = choose|j: int|
                        #![trigger events[j]]
                        counts(events, j) && !has_date(source@, events[j].date) && events[j].item
                            == s;
                    let e = events[j];
                    assert(counted(events, 0, e));
                    assert(kept_targets.contains(e));
                    assert forall|a: int| 0 <= a < kept_sources.len() implies (#[trigger] kept_sources[a]).date
                        != e.date by {
                        if kept_sources[a].date == e.date {
                            assert(has_date(kept_sources, e.date));
                        }
                    }
                    assert(is_left(kept_sources, kept_sources.len() as int, kept_targets, e));
                    assert(left_entries.contains(e));
                    let k = choose|k: int| 0 <= k < left_entries.len() && left_entries[k] == e;
                    assert(removed@[k] == s);
                }
            }
        }
        Diff { new: in_order(new), modified: in_order(modified), removed: in_order(removed) }
    }
}

/// Every fixture of the difference is one this library computes with.
pub open spec fn well_timed(diff: Diff) -> bool {
    &&& forall|i: int| 0 <= i < diff.new@.len() ==> (#[trigger] diff.new@[i]).date_time.wf()
    &&& forall|i: int|
        0 <= i < diff.modified@.len() ==> (#[trigger] diff.modified@[i]).0.date_time.wf()
}

/// A fixture with its London date and the reminder planned for it.
pub open spec fn planned_of(fixture: Fixture) -> Keyed<Planned> {
    Keyed {
        date: london_date_of(fixture.date_time.secs),
        item: Planned { fixture, reminder: meetup_prior_of(fixture.date_time) },
    }
}

/// An event with the London date of its start.
pub open spec fn dated_event(spond: Spond) -> Keyed<Spond> {
    Keyed { date: london_date_of(spond.start_timestamp.secs), item: spond }
}

/// The fixtures, each with its London date and planned reminder.
pub open spec fn source_entries(fixtures: Seq<Fixture>) -> Seq<Keyed<Planned>> {
    Seq::new(fixtures.len(), |i: int| planned_of(fixtures[i]))
}

/// The events, each with the London date of its start.
pub open spec fn target_entries(sponds: Seq<Spond>) -> Seq<Keyed<Spond>> {
    Seq::new(sponds.len(), |i: int| dated_event(sponds[i]))
}

/// Attaches to a fixture its London date and the reminder planned for it.
pub fn plan(fixture: Fixture) -> (entry: Keyed<Planned>)
    requires
        fixture.date_time.wf(),
    ensures
        entry == planned_of(fixture),
{
    let date = fixture.date_time.local_date();
    let reminder = fixture.to_spond_meetup_prior();
    Keyed { date, item: Planned { fixture, reminder } }
}

/// Attaches to an event the London date of its start.
pub fn date_event(spond: Spond) -> (entry: Keyed<Spond>)
    requires
        spond.start_timestamp.wf(),
    ensures
        entry == dated_event(spond),
{
    let date = spond.start_timestamp.local_date();
    Keyed { date, item: spond }
}

impl Diff {
    /// The difference between the league's fixtures and the platform's
    /// events, each keyed by the London date on which it starts.
    pub fn new(fixtures: Vec<Fixture>, sponds: Vec<Spond>) -> (diff: Diff)
        requires
            forall|i: int| 0 <= i < fixtures.len() ==> (#[trigger] fixtures@[i]).date_time.wf(),
            forall|i: int| 0 <= i < sponds.len() ==> (#[trigger] sponds@[i]).start_timestamp.wf(),
        ensures
            is_diff(source_entries(fixtures@), target_entries(sponds@), diff),
            well_timed(diff),
    {
        let ghost all_fixtures = fixtures@;
        let ghost all_sponds = sponds@;
        let mut source: Vec<Keyed<Planned>> = Vec::new();
        for fixture in it: fixtures
            invariant
                it.seq() == all_fixtures,
                forall|i: int|
                    0 <= i < all_fixtures.len() ==> (#[trigger] all_fixtures[i]).date_time.wf(),
                source@ == source_entries(all_fixtures.take(it.index() as int)),
        {
            let ghost done = it.index() as int;
            assert(all_fixtures[done].date_time.wf());
            source.push(plan(fixture));
            assert(source@ =~= source_entries(all_fixtures.take(done + 1)));
        }
        let mut target: Vec<Keyed<Spond>> = Vec::new();
        for spond in it: sponds
            invariant
                it.seq() == all_sponds,
                forall|i: int|
                    0 <= i < all_sponds.len() ==> (#[trigger] all_sponds[i]).start_timestamp.wf(),
                target@ == target_entries(all_sponds.take(it.index() as int)),
        {
            let ghost done = it.index() as int;
            assert(all_sponds[done].start_timestamp.wf());
            target.push(date_event(spond));
            assert(target@ =~= target_entries(all_sponds.take(done + 1)));
        }
        assert(all_fixtures.take(all_fixtures.len() as int) == all_fixtures);
        assert(all_sponds.take(all_sponds.len() as int) == all_sponds);
        let ghost entries = source@;
        let ghost events = matches_of(target@);
        let diff = Diff::between(source, target);
        proof {
            assert forall|i: int| 0 <= i < diff.new@.len() implies (#[trigger] diff.new@[i]).date_time.wf() by {
                assert(diff.new@.contains(diff.new@[i]));
                assert(is_new(entries, events, diff.new@[i]));
            }
            assert forall|i: int| 0 <= i < diff.modified@.len() implies (#[trigger] diff.modified@[i]).0.date_time.wf() by {
                assert(diff.modified@.contains(diff.modified@[i]));
                assert(is_modified(entries, events, diff.modified@[i]));
            }
        }
        diff
    }
}

/// Between no fixtures and no events nothing has to be done.
pub proof fn lemma_nothing_to_reconcile(diff: Diff)
    requires
        is_diff(Seq::empty(), Seq::empty(), diff),
    ensures
        diff.new@.len() == 0,
        diff.modified@.len() == 0,
        diff.removed@.len() == 0,
{
    let source = Seq::<Keyed<Planned>>::empty();
    let events = matches_of(Seq::<Keyed<Spond>>::empty());
    if diff.new@.len() > 0 {
        assert(diff.new@.contains(diff.new@[0]));
        assert(is_new(source, events, diff.new@[0]));
    }
    if diff.modified@.len() > 0 {
        assert(diff.modified@.contains(diff.modified@[0]));
        assert(is_modified(source, events, diff.modified@[0]));
    }
    if diff.removed@.len() > 0 {
        assert(diff.removed@.contains(diff.removed@[0]));
        assert(is_removed(source, events, diff.removed@[0]));
    }
}

/// Two lists in strictly ascending order that hold the same items are the
/// same list.
pub proof fn lemma_ascending_is_determined<T: Timed>(first: Seq<T>, second: Seq<T>)
    requires
        ascending(first),
        ascending(second),
        forall|x: T| first.contains(x) <==> second.contains(x),
    ensures
        first == second,
    decreases first.len(),
{
    if first.len() == 0 {
        if second.len() > 0 {
            assert(second.contains(second[0]));
        }
        assert(first =~= second);
    } else if second.len() == 0 {
        assert(first.contains(first[0]));
    } else {
        let m = first.len() - 1;
        let n = second.len() - 1;
        assert(first.contains(first[m]));
        assert(second.contains(second[n]));
        let j = choose|j: int| 0 <= j < second.len() && second[j] == first[m];
        let i = choose|i: int| 0 <= i < first.len() && first[i] == second[n];
        if j < n {
            assert(second[j].instant().lt(second[n].instant()));
            if i < m {
                assert(first[i].instant().lt(first[m].instant()));
            }
        }
        assert(first[m] == second[n]);
        let a = first.drop_last();
        let b = second.drop_last();
        assert forall|x: T| a.contains(x) <==> b.contains(x) by {
            if a.contains(x) {
                let k = choose|k: int| 0 <= k < a.len() && a[k] == x;
                assert(first[k] == x);
                assert(first.contains(x));
                assert(first[k].instant().lt(first[m].instant()));
                let l = choose|l: int| 0 <= l < second.len() && second[l] == x;
                assert(l < n);
                assert(b[l] == x);
            }
            if b.contains(x) {
                let l = choose|l: int| 0 <= l < b.len() && b[l] == x;
                assert(second[l] == x);
                assert(second.contains(x));
                assert(second[l].instant().lt(second[n].instant()));
                let k = choose|k: int| 0 <= k < first.len() && first[k] == x;
                assert(k < m);
                assert(a[k] == x);
            }
        }
        assert(ascending(a)) by {
            assert forall|p: int, q: int| 0 <= p < q < a.len() implies (#[trigger] a[p]).instant().lt(
                (#[trigger] a[q]).instant(),
            ) by {
                assert(a[p] == first[p] && a[q] == first[q]);
            }
        }
        assert(ascending(b)) by {
            assert forall|p: int, q: int| 0 <= p < q < b.len() implies (#[trigger] b[p]).instant().lt(
                (#[trigger] b[q]).instant(),
            ) by {
                assert(b[p] == second[p] && b[q] == second[q]);
            }
        }
        lemma_ascending_is_determined(a, b);
        assert(first =~= a.push(first[m]));
        assert(second =~= b.push(second[n]));
    }
}

/// Reconciling the same fixtures and events again gives the same
/// difference: the inputs determine each of the three lists.
pub proof fn lemma_diff_is_determined(
    source: Seq<Keyed<Planned>>,
    target: Seq<Keyed<Spond>>,
    first: Diff,
    second: Diff,
)
    requires
        is_diff(source, target, first),
        is_diff(source, target, second),
    ensures
        first.new@ == second.new@,
        first.modified@ == second.modified@,
        first.removed@ == second.removed@,
{
    let events = matches_of(target);
    assert forall|f: Fixture| first.new@.contains(f) <==> second.new@.contains(f) by {
        assert(first.new@.contains(f) <==> is_new(source, events, f));
        assert(second.new@.contains(f) <==> is_new(source, events, f));
    }
    lemma_ascending_is_determined(first.new@, second.new@);
    assert forall|p: (Fixture, Spond)|
        first.modified@.contains(p) <==> second.modified@.contains(p) by {
        assert(first.modified@.contains(p) <==> is_modified(source, events, p));
        assert(second.modified@.contains(p) <==> is_modified(source, events, p));
    }
    lemma_ascending_is_determined(first.modified@, second.modified@);
    assert forall|s: Spond| first.removed@.contains(s) <==> second.removed@.contains(s) by {
        assert(first.removed@.contains(s) <==> is_removed(source, events, s));
        assert(second.removed@.contains(s) <==> is_removed(source, events, s));
    }
    lemma_ascending_is_determined(first.removed@, second.removed@);
}

/// A list in strictly ascending order whose only member is `item` is that
/// one item.
proof fn lemma_only_member<T: Timed>(items: Seq<T>, item: T)
    requires
        ascending(items),
        forall|x: T| items.contains(x) <==> x == item,
    ensures
        items == seq![item],
{
    assert(items.contains(item));
    if items.len() >= 2 {
        assert(items.contains(items[0]));
        assert(items.contains(items[1]));
        assert(items[0].instant().lt(items[1].instant()));
    }
    assert(items.contains(items[0]));
    assert(items =~= seq![item]);
}

/// A list without members is empty.
proof fn lemma_no_member<T>(items: Seq<T>)
    requires
        forall|x: T| !items.contains(x),
    ensures
        items.len() == 0,
{
    if items.len() > 0 {
        assert(items.contains(items[0]));
    }
}

/// With one fixture and no events, the fixture is new and nothing else has
/// to be done.
pub proof fn lemma_lone_fixture_is_new(fixture: Keyed<Planned>, diff: Diff)
    requires
        is_diff(seq![fixture], Seq::empty(), diff),
    ensures
        diff.new@ == seq![fixture.item.fixture],
        diff.modified@.len() == 0,
        diff.removed@.len() == 0,
{
    let source = seq![fixture];
    let events = matches_of(Seq::<Keyed<Spond>>::empty());
    assert(counts(source, 0));
    assert forall|f: Fixture| diff.new@.contains(f) <==> f == fixture.item.fixture by {
        if f == fixture.item.fixture {
            assert(counts(source, 0) && !has_date(events, source[0].date) && source[0].item.fixture
                == f);
        }
        assert(diff.new@.contains(f) <==> is_new(source, events, f));
    }
    lemma_only_member(diff.new@, fixture.item.fixture);
    assert forall|p: (Fixture, Spond)| !diff.modified@.contains(p) by {
        assert(diff.modified@.contains(p) <==> is_modified(source, events, p));
    }
    lemma_no_member(diff.modified@);
    assert forall|s: Spond| !diff.removed@.contains(s) by {
        assert(diff.removed@.contains(s) <==> is_removed(source, events, s));
    }
    lemma_no_member(diff.removed@);
}

/// With no fixtures and one event that carries match information, the event
/// is removed and nothing else has to be done.
pub proof fn lemma_lone_event_is_removed(event: Keyed<Spond>, diff: Diff)
    requires
        event.item.match_info is Some,
        is_diff(Seq::empty(), seq![event], diff),
    ensures
        diff.new@.len() == 0,
        diff.modified@.len() == 0,
        diff.removed@ == seq![event.item],
{
    let source = Seq::<Keyed<Planned>>::empty();
    let target = seq![event];
    let events = matches_of(target);
    assert(target.drop_last() =~= Seq::<Keyed<Spond>>::empty());
    assert(matches_of(target.drop_last()).len() == 0);
    assert(target.last() == event);
    assert(events =~= seq![event]);
    assert(counts(events, 0));
    assert forall|s: Spond| diff.removed@.contains(s) <==> s == event.item by {
        if s == event.item {
            assert(counts(events, 0) && !has_date(source, events[0].date) && events[0].item == s);
        }
        assert(diff.removed@.contains(s) <==> is_removed(source, events, s));
    }
    lemma_only_member(diff.removed@, event.item);
    assert forall|f: Fixture| !diff.new@.contains(f) by {
        assert(diff.new@.contains(f) <==> is_new(source, events, f));
    }
    lemma_no_member(diff.new@);
    assert forall|p: (Fixture, Spond)| !diff.modified@.contains(p) by {
        assert(diff.modified@.contains(p) <==> is_modified(source, events, p));
    }
    lemma_no_member(diff.modified@);
}

/// With one fixture and one event on the same date, where the event shows
/// the fixture as planned, nothing has to be done.
pub proof fn lemma_settled_pair_needs_nothing(
    fixture: Keyed<Planned>,
    event: Keyed<Spond>,
    diff: Diff,
)
    requires
        fixture.date == event.date,
        unchanged(fixture.item, event.item),
        is_diff(seq![fixture], seq![event], diff),
    ensures
        diff.new@.len() == 0,
        diff.modified@.len() == 0,
        diff.removed@.len() == 0,
{
    let source = seq![fixture];
    let target = seq![event];
    let events = matches_of(target);
    assert(event.item.match_info is Some);
    assert(target.drop_last() =~= Seq::<Keyed<Spond>>::empty());
    assert(matches_of(target.drop_last()).len() == 0);
    assert(target.last() == event);
    assert(events =~= seq![event]);
    assert(events[0].date == fixture.date);
    assert(source[0].date == event.date);
    assert(has_date(events, fixture.date));
    assert(has_date(source, event.date));
    assert forall|f: Fixture| !diff.new@.contains(f) by {
        assert(diff.new@.contains(f) <==> is_new(source, events, f));
    }
    lemma_no_member(diff.new@);
    assert forall|p: (Fixture, Spond)| !diff.modified@.contains(p) by {
        assert(diff.modified@.contains(p) <==> is_modified(source, events, p));
    }
    lemma_no_member(diff.modified@);
    assert forall|s: Spond| !diff.removed@.contains(s) by {
        assert(diff.removed@.contains(s) <==> is_removed(source, events, s));
    }
    lemma_no_member(diff.removed@);
}

/// The items by date: each date with the item listed last for it.
pub open spec fn by_date<T>(items: Seq<Keyed<T>>) -> Map<LocalDate, T>
    decreases items.len(),
{
    if items.len() == 0 {
        Map::empty()
    } else {
        by_date(items.drop_last()).insert(items.last().date, items.last().item)
    }
}

/// The map of items by date knows exactly the dates on which an item falls.
pub proof fn lemma_by_date_knows_the_dates<T>(items: Seq<Keyed<T>>, date: LocalDate)
    ensures
        by_date(items).dom().contains(date) <==> has_date(items, date),
    decreases items.len(),
{
    if items.len() > 0 {
        let before = items.drop_last();
        lemma_by_date_knows_the_dates(before, date);
        if has_date(items, date) {
            let i = choose|i: int| 0 <= i < items.len() && (#[trigger] items[i]).date == date;
            if i < before.len() {
                assert(before[i].date == date);
            }
        }
        if has_date(before, date) {
            let i = choose|i: int| 0 <= i < before.len() && (#[trigger] before[i]).date == date;
            assert(items[i].date == date);
        }
        if date == items.last().date {
            assert(items[items.len() - 1].date == date);
        }
    }
}

/// Filling a map date by date, later items replacing earlier ones, keeps
/// for each date the item that counts for it.
pub proof fn lemma_by_date_holds_what_counts<T>(items: Seq<Keyed<T>>, i: int)
    requires
        counts(items, i),
    ensures
        by_date(items).dom().contains(items[i].date),
        by_date(items)[items[i].date] == items[i].item,
    decreases items.len(),
{
    let before = items.drop_last();
    if i < before.len() {
        assert(items[items.len() - 1].date != items[i].date);
        assert(counts(before, i)) by {
            assert forall|j: int| i < j < before.len() implies (#[trigger] before[j]).date
                != before[i].date by {
                assert(items[j].date != items[i].date);
            }
        }
        lemma_by_date_holds_what_counts(before, i);
        assert(before[i] == items[i]);
    }
}

} // verus!
