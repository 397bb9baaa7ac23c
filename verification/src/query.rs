//! The query by which the platform is asked for events.
use vstd::prelude::*;
use vstd::string::StringExecFns;

use crate::spond::GetSpondsRequest;
use crate::spond::Order;
use crate::time::Instant;

verus! {

/// The text of an instant in the format of RFC 3339, as chrono writes it.
pub uninterp spec fn rfc3339_of(secs: i64, nanos: u32) -> Seq<char>;

/// Calls `chrono::DateTime::to_rfc3339` on the instant, which
/// `chrono::DateTime::from_timestamp` turns into a date and time. The
/// contract only names the text; an instant this library computes with is
/// inside chrono's range, so the call returns.
#[verifier::external_body]
fn rfc3339(instant: Instant) -> (text: String)
    requires
        instant.wf(),
    ensures
        text@ == rfc3339_of(instant.secs, instant.nanos),
{
    chrono::DateTime::from_timestamp(instant.secs, instant.nanos).unwrap().to_rfc3339()
}

/// The word for a truth value.
pub open spec fn bool_text(value: bool) -> Seq<char> {
    if value {
        "true"@
    } else {
        "false"@
    }
}

/// The numeral of a number below ten.
pub open spec fn digit_text(digit: nat) -> Seq<char> {
    if digit == 0 {
        "0"@
    } else if digit == 1 {
        "1"@
    } else if digit == 2 {
        "2"@
    } else if digit == 3 {
        "3"@
    } else if digit == 4 {
        "4"@
    } else if digit == 5 {
        "5"@
    } else if digit == 6 {
        "6"@
    } else if digit == 7 {
        "7"@
    } else if digit == 8 {
        "8"@
    } else {
        "9"@
    }
}

/// The decimal numeral of a number.
pub open spec fn decimal_text(number: nat) -> Seq<char>
    decreases number,
{
    if number < 10 {
        digit_text(number)
    } else {
        decimal_text(number / 10) + digit_text(number % 10)
    }
}

/// The view of an optional text.
pub open spec fn text_view(text: Option<String>) -> Option<Seq<char>> {
    match text {
        Some(t) => Some(t@),
        None => None,
    }
}

/// The entry of a query for a key: none where there is no value.
pub open spec fn entry(key: Seq<char>, value: Option<Seq<char>>) -> Seq<(Seq<char>, Seq<char>)> {
    match value {
        Some(v) => seq![(key, v)],
        None => Seq::empty(),
    }
}

/// The keys and values of a query, as sequences of characters.
pub open spec fn pairs_view(pairs: Seq<(&'static str, String)>) -> Seq<(Seq<char>, Seq<char>)> {
    Seq::new(pairs.len(), |i: int| (pairs[i].0@, pairs[i].1@))
}

/// The text of an optional instant.
pub open spec fn stamp_text(instant: Option<Instant>) -> Option<Seq<char>> {
    match instant {
        Some(t) => Some(rfc3339_of(t.secs, t.nanos)),
        None => None,
    }
}

/// The query that asks for the events a request describes: one entry for
/// each setting, in a fixed order, and none for a setting that is absent.
pub open spec fn query_of(request: GetSpondsRequest) -> Seq<(Seq<char>, Seq<char>)> {
    Seq::empty() + entry("addProfileInfo"@, Some(bool_text(request.add_profile_info))) + entry(
        "excludeAvailability"@,
        Some(bool_text(request.exclude_availability)),
    ) + entry("excludeRepeating"@, Some(bool_text(request.exclude_repeating))) + entry(
        "groupId"@,
        match request.group_id {
            Some(id) => Some(id@),
            None => None,
        },
    ) + entry("includeComments"@, Some(bool_text(request.include_comments))) + entry(
        "includeHidden"@,
        Some(bool_text(request.include_hidden)),
    ) + entry("match"@, Some(bool_text(request.mtch))) + entry(
        "max"@,
        match request.max {
            Some(max) => Some(decimal_text(max as nat)),
            None => None,
        },
    ) + entry(
        "order"@,
        match request.order {
            Some(order) => Some(order.word()),
            None => None,
        },
    ) + entry("minStartTimestamp"@, stamp_text(request.min_start_timestamp)) + entry(
        "maxStartTimestamp"@,
        stamp_text(request.max_start_timestamp),
    ) + entry("scheduled"@, Some(bool_text(request.scheduled))) + entry(
        "subGroupId"@,
        match request.sub_group_id {
            Some(id) => Some(id@),
            None => None,
        },
    )
}

/// Writes a truth value as a word.
pub fn bool_to_text(value: bool) -> (text: String)
    ensures
        text@ == bool_text(value),
{
    if value {
        String::from_str("true")
    } else {
        String::from_str("false")
    }
}

/// The numeral of a number below ten.
fn digit_to_text(digit: u32) -> (text: &'static str)
    requires
        digit < 10,
    ensures
        text@ == digit_text(digit as nat),
{
    if digit == 0 {
        "0"
    } else if digit == 1 {
        "1"
    } else if digit == 2 {
        "2"
    } else if digit == 3 {
        "3"
    } else if digit == 4 {
        "4"
    } else if digit == 5 {
        "5"
    } else if digit == 6 {
        "6"
    } else if digit == 7 {
        "7"
    } else if digit == 8 {
        "8"
    } else {
        "9"
    }
}

/// Writes a number as a decimal numeral.
pub fn number_to_text(number: u32) -> (text: String)
    ensures
        text@ == decimal_text(number as nat),
    decreases number,
{
    if number < 10 {
        String::from_str(digit_to_text(number))
    } else {
        let mut text = number_to_text(number / 10);
        text.append(digit_to_text(number % 10));
        text
    }
}

/// Adds the entry for a key to a query.
fn add_entry(pairs: &mut Vec<(&'static str, String)>, key: &'static str, value: Option<String>)
    ensures
        pairs_view(final(pairs)@) == pairs_view(old(pairs)@) + entry(key@, text_view(value)),
{
    match value {
        Some(text) => {
            pairs.push((key, text));
            assert(pairs_view(pairs@) =~= pairs_view(old(pairs)@) + entry(
                key@,
                text_view(value),
            ));
        },
        None => {
            assert(pairs_view(pairs@) =~= pairs_view(old(pairs)@) + entry(
                key@,
                text_view(value),
            ));
        },
    }
}

/// Writes an optional instant in the format of RFC 3339.
fn stamp(instant: Option<Instant>) -> (text: Option<String>)
    requires
        instant is Some ==> instant->Some_0.wf(),
    ensures
        text_view(text) == stamp_text(instant),
{
    match instant {
        Some(t) => Some(rfc3339(t)),
        None => None,
    }
}

impl GetSpondsRequest {
    /// The instants of the request are ones this library computes with.
    pub open spec fn well_timed(self) -> bool {
        &&& self.min_start_timestamp is Some ==> self.min_start_timestamp->Some_0.wf()
        &&& self.max_start_timestamp is Some ==> self.max_start_timestamp->Some_0.wf()
    }

    /// The query that asks the platform for the events of this request.
    pub fn query(&self) -> (pairs: Vec<(&'static str, String)>)
        requires
            self.well_timed(),
        ensures
            pairs_view(pairs@) == query_of(*self),
    {
        let mut pairs: Vec<(&'static str, String)> = Vec::new();
        assert(pairs_view(pairs@) =~= Seq::empty());
        add_entry(&mut pairs, "addProfileInfo", Some(bool_to_text(self.add_profile_info)));
        add_entry(&mut pairs, "excludeAvailability", Some(bool_to_text(self.exclude_availability)));
        add_entry(&mut pairs, "excludeRepeating", Some(bool_to_text(self.exclude_repeating)));
        let group_id = match &self.group_id {
            Some(id) => Some(id.0.clone()),
            None => None,
        };
        add_entry(&mut pairs, "groupId", group_id);
        add_entry(&mut pairs, "includeComments", Some(bool_to_text(self.include_comments)));
        add_entry(&mut pairs, "includeHidden", Some(bool_to_text(self.include_hidden)));
        add_entry(&mut pairs, "match", Some(bool_to_text(self.mtch)));
        let max = match self.max {
            Some(max) => Some(number_to_text(max)),
            None => None,
        };
        add_entry(&mut pairs, "max", max);
        let order = match self.order {
            Some(order) => Some(String::from(order)),
            None => None,
        };
        add_entry(&mut pairs, "order", order);
        add_entry(&mut pairs, "minStartTimestamp", stamp(self.min_start_timestamp));
        add_entry(&mut pairs, "maxStartTimestamp", stamp(self.max_start_timestamp));
        add_entry(&mut pairs, "scheduled", Some(bool_to_text(self.scheduled)));
        let sub_group_id = match &self.sub_group_id {
            Some(id) => Some(id.0.clone()),
            None => None,
        };
        add_entry(&mut pairs, "subGroupId", sub_group_id);
        pairs
    }
}

} // verus!
