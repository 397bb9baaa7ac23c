//! The team-event platform's schema: rosters, events, and the table of
//! locations that stand for the known venues.
use vstd::prelude::*;
use vstd::string::StringExecFns;

use crate::error::ParseError;
use crate::full_time::Venue;
use crate::time::Instant;

verus! {

/// What a user signs in with.
#[derive(Debug)]
pub struct UserCredentials {
    pub email: String,
    pub password: String,
}

/// What the platform hands out on signing in.
#[derive(Debug)]
pub struct UserSession {
    pub login_token: String,
    pub password_token: String,
}

/// The direction in which a list of events is ordered.
#[derive(Debug, Clone, Copy, PartialEq, Eq, Structural)]
pub enum Order {
    Asc,
    Desc,
}

impl Order {
    /// The word the platform uses for the direction.
    pub open spec fn word(self) -> Seq<char> {
        match self {
            Order::Asc => "asc"@,
            Order::Desc => "desc"@,
        }
    }
}

impl From<Order> for String {
    /// The word the platform uses for the direction.
    fn from(order: Order) -> (word: String)
        ensures
            word@ == order.word(),
    {
        match order {
            Order::Asc => String::from_str("asc"),
            Order::Desc => String::from_str("desc"),
        }
    }
}

/// A text has no constructor in specifications: what `from` returns is said
/// by its own contract, over the view of the text.
impl vstd::std_specs::convert::FromSpecImpl<Order> for String {
    open spec fn obeys_from_spec() -> bool {
        false
    }

    open spec fn from_spec(order: Order) -> String {
        arbitrary()
    }
}

/// The platform's identifier of a user profile.
#[derive(Debug, PartialEq, Eq)]
pub struct UserId(pub String);

impl View for UserId {
    type V = Seq<char>;

    open spec fn view(&self) -> Seq<char> {
        self.0@
    }
}

impl Clone for UserId {
    fn clone(&self) -> (r: Self)
        ensures
            r == *self,
    {
        UserId(self.0.clone())
    }
}

/// The platform's identifier of a guardian.
#[derive(Debug, PartialEq, Eq)]
pub struct GuardianId(pub String);

impl View for GuardianId {
    type V = Seq<char>;

    open spec fn view(&self) -> Seq<char> {
        self.0@
    }
}

impl Clone for GuardianId {
    fn clone(&self) -> (r: Self)
        ensures
            r == *self,
    {
        GuardianId(self.0.clone())
    }
}

/// The platform's identifier of a role.
#[derive(Debug, PartialEq, Eq)]
pub struct RoleId(pub String);

impl View for RoleId {
    type V = Seq<char>;

    open spec fn view(&self) -> Seq<char> {
        self.0@
    }
}

impl Clone for RoleId {
    fn clone(&self) -> (r: Self)
        ensures
            r == *self,
    {
        RoleId(self.0.clone())
    }
}

impl RoleId {
    /// Whether two identifiers are the same text.
    pub fn is(&self, other: &RoleId) -> (r: bool)
        ensures
            r == (self@ == other@),
    {
        self.0 == other.0
    }
}

/// The platform's identifier of a member of a group.
#[derive(Debug, PartialEq, Eq)]
pub struct GroupMemberId(pub String);

impl View for GroupMemberId {
    type V = Seq<char>;

    open spec fn view(&self) -> Seq<char> {
        self.0@
    }
}

impl Clone for GroupMemberId {
    fn clone(&self) -> (r: Self)
        ensures
            r == *self,
    {
        GroupMemberId(self.0.clone())
    }
}

/// The platform's identifier of a subgroup.
#[derive(Debug, PartialEq, Eq)]
pub struct SubGroupId(pub String);

impl View for SubGroupId {
    type V = Seq<char>;

    open spec fn view(&self) -> Seq<char> {
        self.0@
    }
}

impl Clone for SubGroupId {
    fn clone(&self) -> (r: Self)
        ensures
            r == *self,
    {
        SubGroupId(self.0.clone())
    }
}

impl SubGroupId {
    /// The identifier with the given text.
    pub fn new(s: &str) -> (r: Self)
        ensures
            r@ == s@,
    {
        Self(String::from_str(s))
    }

    /// Whether two identifiers are the same text.
    pub fn is(&self, other: &SubGroupId) -> (r: bool)
        ensures
            r == (self@ == other@),
    {
        self.0 == other.0
    }
}

/// The platform's identifier of a group.
#[derive(Debug, PartialEq, Eq)]
pub struct GroupId(pub String);

impl View for GroupId {
    type V = Seq<char>;

    open spec fn view(&self) -> Seq<char> {
        self.0@
    }
}

impl Clone for GroupId {
    fn clone(&self) -> (r: Self)
        ensures
            r == *self,
    {
        GroupId(self.0.clone())
    }
}

impl GroupId {
    /// The identifier with the given text.
    pub fn new(s: &str) -> (r: Self)
        ensures
            r@ == s@,
    {
        Self(String::from_str(s))
    }
}

/// The platform's identifier of an event.
#[derive(Debug, PartialEq, Eq)]
pub struct SpondId(pub String);

impl View for SpondId {
    type V = Seq<char>;

    open spec fn view(&self) -> Seq<char> {
        self.0@
    }
}

impl Clone for SpondId {
    fn clone(&self) -> (r: Self)
        ensures
            r == *self,
    {
        SpondId(self.0.clone())
    }
}

/// A user's profile.
#[derive(Clone, Debug, PartialEq, Eq)]
pub struct UserProfile {
    pub id: UserId,
    pub contact_method: String,
    pub first_name: String,
    pub last_name: String,
    pub image_url: Option<String>,
    pub email: Option<String>,
    pub phone_number: Option<String>,
    pub unable_to_reach: bool,
}

/// A guardian of a member.
#[derive(Clone, Debug, PartialEq, Eq)]
pub struct Guardian {
    pub id: GuardianId,
    pub profile: Option<UserProfile>,
    pub first_name: String,
    pub last_name: String,
    pub email: Option<String>,
    pub phone_number: Option<String>,
}

/// What a role allows.
#[derive(Clone, Copy, Debug, PartialEq, Eq, Structural)]
pub enum Permission {
    Members,
    Admins,
    Settings,
    Events,
    Posts,
    Polls,
    Payments,
    Chat,
    Files,
    FundRaisers,
}

/// A role that members of a group can hold.
#[derive(Clone, Debug, PartialEq, Eq)]
pub struct Role {
    pub id: RoleId,
    pub name: String,
    pub permissions: Vec<Permission>,
}

/// A member of a group.
#[derive(Clone, Debug, PartialEq, Eq)]
pub struct GroupMember {
    pub id: GroupMemberId,
    pub profile: Option<UserProfile>,
    pub first_name: String,
    pub last_name: String,
    pub created_time: Instant,
    pub guardians: Vec<Guardian>,
    pub sub_groups: Vec<SubGroupId>,
    pub respondent: bool,
    pub roles: Option<Vec<RoleId>>,
}

/// A subgroup of a group: one team.
#[derive(Debug, Clone, PartialEq, Eq)]
pub struct SubGroup {
    pub id: SubGroupId,
    pub name: String,
    pub color: String,
}

/// A group with its roster.
#[derive(Debug, Clone, PartialEq, Eq)]
pub struct Group {
    pub id: GroupId,
    pub contact_person: UserProfile,
    pub name: String,
    pub activity: String,
    pub created_time: Instant,
    pub members: Vec<GroupMember>,
    pub sub_groups: Vec<SubGroup>,
    pub roles: Vec<Role>,
}

/// What is asked of the platform when events are listed.
#[derive(Debug)]
pub struct GetSpondsRequest {
    pub add_profile_info: bool,
    pub exclude_availability: bool,
    pub exclude_repeating: bool,
    pub group_id: Option<GroupId>,
    pub include_comments: bool,
    pub include_hidden: bool,
    pub mtch: bool,
    pub max: Option<u32>,
    pub order: Option<Order>,
    pub min_start_timestamp: Option<Instant>,
    pub max_start_timestamp: Option<Instant>,
    pub scheduled: bool,
    pub sub_group_id: Option<SubGroupId>,
}

/// The kinds of entry the platform knows.
#[derive(Debug, Clone, Copy, PartialEq, Eq, Structural)]
pub enum SpondType {
    Event,
}

/// An invitee's answer.
#[derive(Clone, Copy, Debug, PartialEq, Eq, Structural)]
pub enum Response {
    Accepted,
    Declined,
    Unanswered,
}

/// An owner of an event that is to be created.
#[derive(Clone, Debug, PartialEq, Eq)]
pub struct Owner {
    pub id: UserId,
}

/// An owner of an event, with the owner's answer.
#[derive(Clone, Debug, PartialEq, Eq)]
pub struct OwnerResponse {
    pub id: UserId,
    pub response: Response,
}

/// A decimal number: `mantissa` divided by ten to the power `scale`.
#[derive(Clone, Copy, Debug, PartialEq, Eq, Structural)]
pub struct Coordinate {
    pub mantissa: i64,
    pub scale: u32,
}

/// A place on the platform's map.
#[derive(Clone, Debug, PartialEq, Eq)]
pub struct Location {
    pub feature: String,
    pub address: String,
    pub latitude: Coordinate,
    pub longitude: Coordinate,
}

/// What a [`Location`] is, with its texts as sequences of characters.
pub struct LocationView {
    pub feature: Seq<char>,
    pub address: Seq<char>,
    pub latitude: Coordinate,
    pub longitude: Coordinate,
}

impl View for Location {
    type V = LocationView;

    open spec fn view(&self) -> LocationView {
        LocationView {
            feature: self.feature@,
            address: self.address@,
            latitude: self.latitude,
            longitude: self.longitude,
        }
    }
}

/// How the platform classes a match.
#[derive(Clone, Copy, Debug, PartialEq, Eq, Structural)]
pub enum MatchType {
    Home,
    Away,
    Tournament,
}

/// What makes an event a match.
#[derive(Clone, Debug, PartialEq, Eq)]
pub struct MatchInfo {
    pub team_name: String,
    pub opponent_name: String,
    pub team_colour: Option<String>,
    pub opponent_colour: Option<String>,
    pub typ: MatchType,
    pub scores_set: bool,
    pub scores_set_ever: bool,
    pub team_score: Option<u8>,
    pub opponent_score: Option<u8>,
    pub scores_public: bool,
    pub scores_final: bool,
}

impl MatchInfo {
    /// The match information of an event that has just been planned: no
    /// colours, no scores yet, scores public once set.
    pub fn new(team_name: String, opponent_name: String, typ: MatchType) -> (info: Self)
        ensures
            info == (MatchInfo {
                team_name,
                opponent_name,
                team_colour: None,
                opponent_colour: None,
                typ,
                scores_set: false,
                scores_set_ever: false,
                team_score: None,
                opponent_score: None,
                scores_public: true,
                scores_final: false,
            }),
    {
        Self {
            team_name,
            opponent_name,
            team_colour: None,
            opponent_colour: None,
            typ,
            scores_set: false,
            scores_set_ever: false,
            team_score: None,
            opponent_score: None,
            scores_public: true,
            scores_final: false,
        }
    }
}

/// An entry on the platform's calendar.
#[derive(Debug, Clone, PartialEq, Eq)]
pub struct Spond {
    pub id: SpondId,
    pub creator_id: SpondId,
    pub owners: Vec<OwnerResponse>,
    pub heading: String,
    pub description: Option<String>,
    pub start_timestamp: Instant,
    pub end_timestamp: Instant,
    pub meetup_timestamp: Option<Instant>,
    pub meetup_prior: Option<u16>,
    pub location: Option<Location>,
    pub match_info: Option<MatchInfo>,
    pub match_event: bool,
    pub created_time: Instant,
    pub expired: bool,
}

/// Who sees an event.
#[derive(Debug, Clone, Copy, PartialEq, Eq, Structural)]
pub enum Visibility {
    Invitees,
}

/// Whether the platform reminds invitees by itself.
#[derive(Debug, Clone, Copy, PartialEq, Eq, Structural)]
pub enum AutoReminderType {
    Disabled,
}

/// A file attached to an event.
#[derive(Debug, Clone, Copy, PartialEq, Eq, Structural)]
pub struct Attachment {}

/// The kind of an entry that is to be created.
#[derive(Debug, Clone, Copy, PartialEq, Eq, Structural)]
pub enum Type {
    Event,
}

/// The group, and the subgroups of it, that an event is for.
#[derive(Debug, Clone, PartialEq, Eq)]
pub struct RecipientGroup {
    pub id: GroupId,
    pub sub_groups: Vec<SubGroupId>,
}

/// Who is invited to an event.
#[derive(Debug, Clone, PartialEq, Eq)]
pub struct Recipients {
    pub group_members: Vec<GroupMemberId>,
    pub group: RecipientGroup,
}

/// What is sent to the platform to create an event.
#[derive(Debug, Clone)]
pub struct CreateSpondRequest {
    pub heading: String,
    pub spond_type: SpondType,
    pub start_timestamp: Instant,
    pub end_timestamp: Instant,
    pub open_ended: bool,
    pub comments_disabled: bool,
    pub meetup_prior: Option<u16>,
    pub max_accepted: u32,
    pub rsvp_date: Option<crate::time::LocalDate>,
    pub location: Option<Location>,
    pub owners: Vec<Owner>,
    pub visibility: Visibility,
    pub participants_hidden: bool,
    pub auto_reminder_type: AutoReminderType,
    pub match_info: Option<MatchInfo>,
    pub auto_accept: bool,
    pub attachments: Vec<Attachment>,
    pub typ: Type,
    pub recipients: Recipients,
}

/// Name of the Goals ground on the platform's map.
pub const GOALS_NAME: &'static str = "Goals Reading";

/// Name of the Woodford Park pitch on the platform's map.
pub const WOODFORD_PARK_NAME: &'static str = "Woodford Park - 3G";

/// Street address of the Goals ground.
pub const GOALS_ADDRESS: &'static str = "Woodlands Avenue, Woodley, Reading";

/// Street address of the Woodford Park pitch.
pub const WOODFORD_PARK_ADDRESS: &'static str =
    "Woodford Park Leisure Centre, Haddon Dr, Woodley, Reading, RG5 4LY";

/// Name of the Kings Academy pitch on the platform's map.
pub const KINGS_ACADEMY_NAME: &'static str = "Kings Academy";

/// Address of the Kings Academy pitch. No street address is known for this
/// ground; the record repeats its name.
pub const KINGS_ACADEMY_ADDRESS: &'static str = "Kings Academy";

/// Latitude of the Goals ground, in millionths of a degree.
pub const GOALS_LATITUDE: i64 = 51_453_648;

/// Longitude of the Goals ground, in ten-millionths of a degree.
pub const GOALS_LONGITUDE: i64 = -9_185_121;

/// Latitude of the Woodford Park pitch, in millionths of a degree.
pub const WOODFORD_PARK_LATITUDE: i64 = 51_457_008;

/// Longitude of the Woodford Park pitch, in ten-millionths of a degree.
pub const WOODFORD_PARK_LONGITUDE: i64 = -9_058_048;

/// Latitude of the Kings Academy pitch, in whole degrees. No position is
/// known for this ground; the record holds zero.
pub const KINGS_ACADEMY_LATITUDE: i64 = 0;

/// Longitude of the Kings Academy pitch, in whole degrees. No position is
/// known for this ground; the record holds zero.
pub const KINGS_ACADEMY_LONGITUDE: i64 = 0;

/// The location record of a venue. Both directions of the venue table are
/// read from this one function.
pub open spec fn record_of(venue: Venue) -> LocationView {
    match venue {
        Venue::Goals => LocationView {
            feature: GOALS_NAME@,
            address: GOALS_ADDRESS@,
            latitude: Coordinate { mantissa: GOALS_LATITUDE, scale: 6 },
            longitude: Coordinate { mantissa: GOALS_LONGITUDE, scale: 7 },
        },
        Venue::WoodfordPark => LocationView {
            feature: WOODFORD_PARK_NAME@,
            address: WOODFORD_PARK_ADDRESS@,
            latitude: Coordinate { mantissa: WOODFORD_PARK_LATITUDE, scale: 6 },
            longitude: Coordinate { mantissa: WOODFORD_PARK_LONGITUDE, scale: 7 },
        },
        Venue::KingsAcademy => LocationView {
            feature: KINGS_ACADEMY_NAME@,
            address: KINGS_ACADEMY_ADDRESS@,
            latitude: Coordinate { mantissa: KINGS_ACADEMY_LATITUDE, scale: 0 },
            longitude: Coordinate { mantissa: KINGS_ACADEMY_LONGITUDE, scale: 0 },
        },
    }
}

/// Whether the location record of `venue` carries the name `feature`.
pub open spec fn is_named(venue: Venue, feature: Seq<char>) -> bool {
    record_of(venue).feature == feature
}

/// The venue whose location record has the given name: the first, in the
/// order Goals, Woodford Park, Kings Academy.
pub open spec fn venue_named(feature: Seq<char>) -> Result<Venue, ParseError> {
    if is_named(Venue::Goals, feature) {
        Ok(Venue::Goals)
    } else if is_named(Venue::WoodfordPark, feature) {
        Ok(Venue::WoodfordPark)
    } else if is_named(Venue::KingsAcademy, feature) {
        Ok(Venue::KingsAcademy)
    } else {
        Err(ParseError::UnknownVenue)
    }
}

/// What an optional location is, with its texts as sequences of characters.
pub open spec fn location_view(location: Option<Location>) -> Option<LocationView> {
    match location {
        Some(l) => Some(l@),
        None => None,
    }
}

impl Location {
    /// The venue that this location stands for.
    pub fn to_full_time_venue(&self) -> (r: Result<Venue, ParseError>)
        ensures
            r == venue_named(self.feature@),
    {
        if Self::names(Venue::Goals, &self.feature) {
            Ok(Venue::Goals)
        } else if Self::names(Venue::WoodfordPark, &self.feature) {
            Ok(Venue::WoodfordPark)
        } else if Self::names(Venue::KingsAcademy, &self.feature) {
            Ok(Venue::KingsAcademy)
        } else {
            Err(ParseError::UnknownVenue)
        }
    }

    /// Whether the record of `venue` carries the name `feature`.
    fn names(venue: Venue, feature: &String) -> (r: bool)
        ensures
            r == is_named(venue, feature@),
    {
        Self::from_full_time_venue(venue).feature == *feature
    }

    /// The location record of the Goals ground.
    pub fn goals() -> (r: Self)
        ensures
            r@ == record_of(Venue::Goals),
    {
        Self {
            feature: String::from_str(GOALS_NAME),
            address: String::from_str(GOALS_ADDRESS),
            latitude: Coordinate { mantissa: GOALS_LATITUDE, scale: 6 },
            longitude: Coordinate { mantissa: GOALS_LONGITUDE, scale: 7 },
        }
    }

    /// The location record of the Woodford Park pitch.
    pub fn woodford_park() -> (r: Self)
        ensures
            r@ == record_of(Venue::WoodfordPark),
    {
        Self {
            feature: String::from_str(WOODFORD_PARK_NAME),
            address: String::from_str(WOODFORD_PARK_ADDRESS),
            latitude: Coordinate { mantissa: WOODFORD_PARK_LATITUDE, scale: 6 },
            longitude: Coordinate { mantissa: WOODFORD_PARK_LONGITUDE, scale: 7 },
        }
    }

    /// The location record of the Kings Academy pitch.
    pub fn kings_academy() -> (r: Self)
        ensures
            r@ == record_of(Venue::KingsAcademy),
    {
        Self {
            feature: String::from_str(KINGS_ACADEMY_NAME),
            address: String::from_str(KINGS_ACADEMY_ADDRESS),
            latitude: Coordinate { mantissa: KINGS_ACADEMY_LATITUDE, scale: 0 },
            longitude: Coordinate { mantissa: KINGS_ACADEMY_LONGITUDE, scale: 0 },
        }
    }

    /// The location record of a venue.
    pub fn from_full_time_venue(venue: Venue) -> (r: Self)
        ensures
            r@ == record_of(venue),
    {
        match venue {
            Venue::Goals => Self::goals(),
            Venue::WoodfordPark => Self::woodford_park(),
            Venue::KingsAcademy => Self::kings_academy(),
        }
    }
}

/// No two venues have location records of the same name.
pub proof fn lemma_venue_names_differ(first: Venue, second: Venue)
    requires
        first != second,
    ensures
        record_of(first).feature != record_of(second).feature,
{
    reveal_strlit("Goals Reading");
    reveal_strlit("Woodford Park - 3G");
    reveal_strlit("Kings Academy");
    assert(GOALS_NAME@.len() != WOODFORD_PARK_NAME@.len());
    assert(KINGS_ACADEMY_NAME@.len() != WOODFORD_PARK_NAME@.len());
    assert(GOALS_NAME@[0] != KINGS_ACADEMY_NAME@[0]);
}

/// Looking up the record of a venue and then the venue of that record's name
/// gives the venue back.
pub proof fn lemma_venue_table_round_trip(venue: Venue)
    ensures
        venue_named(record_of(venue).feature) == Ok::<Venue, ParseError>(venue),
{
    if venue != Venue::Goals {
        lemma_venue_names_differ(Venue::Goals, venue);
    }
    if venue == Venue::KingsAcademy {
        lemma_venue_names_differ(Venue::WoodfordPark, venue);
    }
}

/// Largest number of events asked for at once.
pub const PAGE_SIZE: u32 = 100;

impl GetSpondsRequest {
    /// What is asked to list the matches of a subgroup that start at `now` or
    /// later: at most one page, in ascending order, hidden events included,
    /// and no repetitions of recurring events.
    pub fn upcoming_matches(group_id: &GroupId, sub_group_id: &SubGroupId, now: Instant) -> (r: Self)
        ensures
            r.add_profile_info == false,
            r.exclude_availability == true,
            r.exclude_repeating == true,
            r.include_comments == false,
            r.include_hidden == true,
            r.group_id == Some(*group_id),
            r.mtch == true,
            r.min_start_timestamp == Some(now),
            r.max_start_timestamp is None,
            r.scheduled == false,
            r.max == Some(PAGE_SIZE),
            r.order == Some(Order::Asc),
            r.sub_group_id == Some(*sub_group_id),
    {
        GetSpondsRequest {
            add_profile_info: false,
            exclude_availability: true,
            exclude_repeating: true,
            include_comments: false,
            include_hidden: true,
            group_id: Some(group_id.clone()),
            mtch: true,
            min_start_timestamp: Some(now),
            max_start_timestamp: None,
            scheduled: false,
            max: Some(PAGE_SIZE),
            order: Some(Order::Asc),
            sub_group_id: Some(sub_group_id.clone()),
        }
    }
}

} // verus!
