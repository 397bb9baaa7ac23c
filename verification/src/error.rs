//! The ways in which a listing, an event or a roster can be rejected.
use vstd::prelude::*;

verus! {

/// Why a row of the listing, or the venue of an event, was rejected.
#[derive(Clone, Copy, Debug, PartialEq, Eq, Structural)]
pub enum ParseError {
    /// The row does not have the expected number of cells.
    MalformedRow,
    /// The match-type code is none of the known ones.
    UnknownMatchType,
    /// The date and time are missing, unreadable, or no single local time.
    BadDateTime,
    /// A team cell does not hold exactly one link.
    BadTeamCell,
    /// The followed team plays on both sides or on neither.
    AmbiguousSide,
    /// The venue is none of the known ones.
    UnknownVenue,
}

/// Why a listing was rejected.
#[derive(Clone, Copy, Debug, PartialEq, Eq, Structural)]
pub enum ListingError {
    /// The page holds more than one fixture table.
    SeveralTables,
    /// A selector by which the page is searched was not understood.
    BadSelector,
    /// A row of the table was rejected.
    Row(ParseError),
}

/// Why a roster cannot supply what an event needs.
#[derive(Clone, Copy, Debug, PartialEq, Eq, Structural)]
pub enum ValidationError {
    /// The roster has no subgroup with the wanted identifier.
    UnknownSubGroup,
    /// The roster has no coach role.
    MissingCoachRole,
}

impl ParseError {
    /// A sentence for the error.
    pub fn message(&self) -> (text: &'static str)
        ensures
            text@ == self.message_text(),
    {
        match self {
            ParseError::MalformedRow => "Incorrect number of cells in table row.",
            ParseError::UnknownMatchType => "Unknown fixture type.",
            ParseError::BadDateTime => "Not a valid London date and time.",
            ParseError::BadTeamCell => "Expected a single anchor tag when parsing team name.",
            ParseError::AmbiguousSide => "Team wasn't listed as either home or away for this fixture.",
            ParseError::UnknownVenue => "Unknown venue.",
        }
    }

    /// The sentence that [`ParseError::message`] returns.
    pub open spec fn message_text(self) -> Seq<char> {
        match self {
            ParseError::MalformedRow => "Incorrect number of cells in table row."@,
            ParseError::UnknownMatchType => "Unknown fixture type."@,
            ParseError::BadDateTime => "Not a valid London date and time."@,
            ParseError::BadTeamCell => "Expected a single anchor tag when parsing team name."@,
            ParseError::AmbiguousSide => "Team wasn't listed as either home or away for this fixture."@,
            ParseError::UnknownVenue => "Unknown venue."@,
        }
    }
}

impl ValidationError {
    /// A sentence for the error.
    pub fn message(&self) -> (text: &'static str)
        ensures
            text@ == self.message_text(),
    {
        match self {
            ValidationError::UnknownSubGroup => "The group has no such subgroup.",
            ValidationError::MissingCoachRole => "The group has no coach role.",
        }
    }

    /// The sentence that [`ValidationError::message`] returns.
    pub open spec fn message_text(self) -> Seq<char> {
        match self {
            ValidationError::UnknownSubGroup => "The group has no such subgroup."@,
            ValidationError::MissingCoachRole => "The group has no coach role."@,
        }
    }
}

} // verus!
