//! The mapping between fixtures and the platform's events, in both directions.
use vstd::prelude::*;
use vstd::string::StringExecFns;

use crate::error::ParseError;
use crate::error::ValidationError;
use crate::full_time::Fixture;
use crate::full_time::FixtureSide;
use crate::full_time::FixtureType;
use crate::full_time::FixtureView;
use crate::spond::location_view;
use crate::spond::record_of;
use crate::spond::venue_named;
use crate::spond::AutoReminderType;
use crate::spond::CreateSpondRequest;
use crate::spond::Group;
use crate::spond::GroupMember;
use crate::spond::GroupMemberId;
use crate::spond::Location;
use crate::spond::MatchInfo;
use crate::spond::MatchType;
use crate::spond::Owner;
use crate::spond::RecipientGroup;
use crate::spond::Recipients;
use crate::spond::Role;
use crate::spond::RoleId;
use crate::spond::Spond;
use crate::spond::SpondType;
use crate::spond::SubGroup;
use crate::spond::SubGroupId;
use crate::spond::Type;
use crate::spond::Visibility;
use crate::text::eq_ignoring_case;
use crate::text::same_ignoring_case;
use crate::time::dates_around_reminder;
use crate::time::reminder_dates;
use crate::time::Instant;
use crate::time::LocalDate;
use crate::time::MATCH_SECS;

verus! {

/// Minutes before the start of a match at which the team meets.
pub const REMINDER_MINUTES: u16 = 15;

/// Name of the role whose holders own the events.
pub const COACH_ROLE: &'static str = "coach";

/// What stands between the team's name and the opposition in a heading.
pub const HEADING_SEPARATOR: &'static str = " - ";

/// How the platform classes a match of the given competition and side.
pub open spec fn match_type_of(typ: FixtureType, side: FixtureSide) -> MatchType {
    match typ {
        FixtureType::Cup => MatchType::Tournament,
        FixtureType::League => match side {
            FixtureSide::Home => MatchType::Home,
            FixtureSide::Away => MatchType::Away,
        },
    }
}

/// The competition and side that an event's match type is read as. A
/// tournament match is always read as played at home.
pub open spec fn kind_of(typ: MatchType) -> (FixtureType, FixtureSide) {
    match typ {
        MatchType::Tournament => (FixtureType::Cup, FixtureSide::Home),
        MatchType::Home => (FixtureType::League, FixtureSide::Home),
        MatchType::Away => (FixtureType::League, FixtureSide::Away),
    }
}

/// The reminder of a match, given the local date on which the meeting time
/// falls and the local date of the match: none where the two differ.
pub open spec fn reminder_from(meeting: LocalDate, start: LocalDate) -> Option<u16> {
    if meeting != start {
        None
    } else {
        Some(REMINDER_MINUTES)
    }
}

/// The reminder of a match that starts at `start`.
pub open spec fn meetup_prior_of(start: Instant) -> Option<u16> {
    let dates = reminder_dates(start, REMINDER_MINUTES);
    reminder_from(dates.0, dates.1)
}

/// The match information of a newly planned match.
pub open spec fn planned_match(team_name: String, opponent_name: String, typ: MatchType) -> MatchInfo {
    MatchInfo {
        team_name,
        opponent_name,
        team_colour: None,
        opponent_colour: None,
        typ,
        scores_set: false,
        scores_set_ever: false,
        team_score: None,
        opponent_score: None,
        scores_public: true,
        scores_final: false,
    }
}

/// The fixture that an event stands for: none without match information; an
/// error where the location is absent or not in the venue table.
pub open spec fn read_back(spond: Spond) -> Result<Option<FixtureView>, ParseError> {
    match spond.match_info {
        None => Ok(None),
        Some(info) => match spond.location {
            None => Err(ParseError::UnknownVenue),
            Some(location) => match venue_named(location.feature@) {
                Err(e) => Err(e),
                Ok(venue) => Ok(
                    Some(
                        FixtureView {
                            typ: kind_of(info.typ).0,
                            side: kind_of(info.typ).1,
                            date_time: spond.start_timestamp,
                            opposition: info.opponent_name@,
                            venue,
                        },
                    ),
                ),
            },
        },
    }
}

/// Computes [`reminder_from`].
pub fn reminder_between(meeting: LocalDate, start: LocalDate) -> (r: Option<u16>)
    ensures
        r == reminder_from(meeting, start),
{
    if meeting != start {
        None
    } else {
        Some(REMINDER_MINUTES)
    }
}

/// Computes [`kind_of`].
pub fn fixture_kind(typ: MatchType) -> (r: (FixtureType, FixtureSide))
    ensures
        r == kind_of(typ),
{
    match typ {
        MatchType::Tournament => (FixtureType::Cup, FixtureSide::Home),
        MatchType::Home => (FixtureType::League, FixtureSide::Home),
        MatchType::Away => (FixtureType::League, FixtureSide::Away),
    }
}

impl Spond {
    /// Reads the fixture that this event stands for.
    pub fn to_fixture(&self) -> (r: Result<Option<Fixture>, ParseError>)
        ensures
            match (r, read_back(*self)) {
                (Ok(Some(fixture)), Ok(Some(view))) => fixture@ == view,
                (Ok(None), Ok(None)) => true,
                (Err(e), Err(f)) => e == f,
                _ => false,
            },
    {
        match &self.match_info {
            None => Ok(None),
            Some(info) => {
                let venue = match &self.location {
                    None => { return Err(ParseError::UnknownVenue); },
                    Some(location) => match location.to_full_time_venue() {
                        Ok(venue) => venue,
                        Err(e) => { return Err(e); },
                    },
                };
                let (typ, side) = fixture_kind(info.typ);
                Ok(
                    Some(
                        Fixture {
                            typ,
                            side,
                            date_time: self.start_timestamp,
                            opposition: info.opponent_name.clone(),
                            venue,
                        },
                    ),
                )
            },
        }
    }
}

impl Fixture {
    /// The instant at which the event starts.
    pub fn to_spond_start_time(&self) -> (r: Instant)
        ensures
            r == self.date_time,
    {
        self.date_time
    }

    /// The instant at which the event ends: one hour after its start.
    pub fn to_spond_end_time(&self) -> (r: Instant)
        requires
            self.date_time.wf(),
        ensures
            r.secs == self.date_time.secs + MATCH_SECS,
            r.nanos == self.date_time.nanos,
    {
        self.date_time.plus_match_length()
    }

    /// The minutes before the start at which the team meets; none where that
    /// moment falls on the day before, by the local calendar.
    pub fn to_spond_meetup_prior(&self) -> (r: Option<u16>)
        requires
            self.date_time.wf(),
        ensures
            r == meetup_prior_of(self.date_time),
    {
        let dates = dates_around_reminder(&self.date_time, REMINDER_MINUTES);
        reminder_between(dates.0, dates.1)
    }

    /// How the platform classes this match.
    pub fn to_spond_match_type(&self) -> (r: MatchType)
        ensures
            r == match_type_of(self.typ, self.side),
    {
        match self.typ {
            FixtureType::Cup => MatchType::Tournament,
            FixtureType::League => match self.side {
                FixtureSide::Home => MatchType::Home,
                FixtureSide::Away => MatchType::Away,
            },
        }
    }

    /// The match information of the event for this fixture.
    pub fn to_spond_match_info(&self, sub_group: &SubGroup) -> (info: MatchInfo)
        ensures
            info == planned_match(
                sub_group.name,
                self.opposition,
                match_type_of(self.typ, self.side),
            ),
    {
        MatchInfo::new(
            sub_group.name.clone(),
            self.opposition.clone(),
            self.to_spond_match_type(),
        )
    }
}

/// Reading back the match type of a league match gives its competition and side.
pub proof fn lemma_league_kind_round_trip(side: FixtureSide)
    ensures
        kind_of(match_type_of(FixtureType::League, side)) == (FixtureType::League, side),
{
}

/// Reading back the match type of a cup match gives a home match, whatever
/// side the team played on.
pub proof fn lemma_cup_kind_reads_home(side: FixtureSide)
    ensures
        kind_of(match_type_of(FixtureType::Cup, side)) == (FixtureType::Cup, FixtureSide::Home),
{
}

/// Every match type is the one given to the competition and side it is read as.
pub proof fn lemma_match_type_round_trip(typ: MatchType)
    ensures
        match_type_of(kind_of(typ).0, kind_of(typ).1) == typ,
{
}

/// The first subgroup with the given identifier.
pub open spec fn first_sub_group(sub_groups: Seq<SubGroup>, id: Seq<char>) -> Option<SubGroup>
    decreases sub_groups.len(),
{
    if sub_groups.len() == 0 {
        None
    } else if sub_groups[0].id@ == id {
        Some(sub_groups[0])
    } else {
        first_sub_group(sub_groups.drop_first(), id)
    }
}

/// The first role that is named "coach", whatever the case of the letters.
pub open spec fn first_coach_role(roles: Seq<Role>) -> Option<Role>
    decreases roles.len(),
{
    if roles.len() == 0 {
        None
    } else if same_ignoring_case(roles[0].name@, COACH_ROLE@) {
        Some(roles[0])
    } else {
        first_coach_role(roles.drop_first())
    }
}

/// Whether the identifier is among those of the subgroups.
pub open spec fn has_sub_group(ids: Seq<SubGroupId>, id: Seq<char>) -> bool {
    exists|k: int| 0 <= k < ids.len() && (#[trigger] ids[k])@ == id
}

/// Whether the identifier is among those of the roles.
pub open spec fn has_role(ids: Seq<RoleId>, id: Seq<char>) -> bool {
    exists|k: int| 0 <= k < ids.len() && (#[trigger] ids[k])@ == id
}

/// Whether a member owns the events of a subgroup: a member of it who holds
/// the role and has a profile.
pub open spec fn is_owner(member: GroupMember, sub_group: Seq<char>, role: Seq<char>) -> bool {
    &&& has_sub_group(member.sub_groups@, sub_group)
    &&& member.roles is Some
    &&& has_role(member.roles->Some_0@, role)
    &&& member.profile is Some
}

/// Whether a member is invited to the events of a subgroup: a member of it
/// who answers invitations.
pub open spec fn is_invited(member: GroupMember, sub_group: Seq<char>) -> bool {
    has_sub_group(member.sub_groups@, sub_group) && member.respondent
}

/// The owners of an event, in roster order.
pub open spec fn owners_of(members: Seq<GroupMember>, sub_group: Seq<char>, role: Seq<char>) -> Seq<
    Owner,
>
    decreases members.len(),
{
    if members.len() == 0 {
        Seq::empty()
    } else {
        let before = owners_of(members.drop_last(), sub_group, role);
        if is_owner(members.last(), sub_group, role) {
            before.push(Owner { id: members.last().profile->Some_0.id })
        } else {
            before
        }
    }
}

/// The members invited to an event, in roster order.
pub open spec fn invited_of(members: Seq<GroupMember>, sub_group: Seq<char>) -> Seq<GroupMemberId>
    decreases members.len(),
{
    if members.len() == 0 {
        Seq::empty()
    } else {
        let before = invited_of(members.drop_last(), sub_group);
        if is_invited(members.last(), sub_group) {
            before.push(members.last().id)
        } else {
            before
        }
    }
}

/// The heading of the event for a match.
pub open spec fn heading_of(team_name: Seq<char>, opposition: Seq<char>) -> Seq<char> {
    team_name + HEADING_SEPARATOR@ + opposition
}

/// Whether `request` is what creates the event for `fixture`, for the
/// subgroup `sub_group` of `group` whose events the holders of `role` own.
pub open spec fn is_request_for(
    request: CreateSpondRequest,
    fixture: Fixture,
    group: Group,
    sub_group: SubGroup,
    role: Role,
) -> bool {
    &&& request.heading@ == heading_of(sub_group.name@, fixture.opposition@)
    &&& request.spond_type == SpondType::Event
    &&& request.start_timestamp == fixture.date_time
    &&& request.end_timestamp.secs == fixture.date_time.secs + MATCH_SECS
    &&& request.end_timestamp.nanos == fixture.date_time.nanos
    &&& request.open_ended == false
    &&& request.comments_disabled == false
    &&& request.meetup_prior == meetup_prior_of(fixture.date_time)
    &&& request.max_accepted == 0
    &&& request.rsvp_date is None
    &&& location_view(request.location) == Some(record_of(fixture.venue))
    &&& request.owners@ == owners_of(group.members@, sub_group.id@, role.id@)
    &&& request.visibility == Visibility::Invitees
    &&& request.participants_hidden == false
    &&& request.auto_reminder_type == AutoReminderType::Disabled
    &&& request.match_info == Some(
        planned_match(
            sub_group.name,
            fixture.opposition,
            match_type_of(fixture.typ, fixture.side),
        ),
    )
    &&& request.auto_accept == false
    &&& request.attachments@.len() == 0
    &&& request.typ == Type::Event
    &&& request.recipients.group_members@ == invited_of(group.members@, sub_group.id@)
    &&& request.recipients.group.id == group.id
    &&& request.recipients.group.sub_groups@ == seq![sub_group.id]
}

/// Whether `updated` is `spond` brought in line with `fixture`: start, end,
/// reminder, match information and location are the fixture's, and every
/// other field is kept.
pub open spec fn is_update_of(updated: Spond, spond: Spond, fixture: Fixture, sub_group: SubGroup) -> bool {
    &&& updated.start_timestamp == fixture.date_time
    &&& updated.end_timestamp.secs == fixture.date_time.secs + MATCH_SECS
    &&& updated.end_timestamp.nanos == fixture.date_time.nanos
    &&& updated.meetup_prior == meetup_prior_of(fixture.date_time)
    &&& updated.match_info == Some(
        planned_match(
            sub_group.name,
            fixture.opposition,
            match_type_of(fixture.typ, fixture.side),
        ),
    )
    &&& location_view(updated.location) == Some(record_of(fixture.venue))
    &&& updated.id == spond.id
    &&& updated.creator_id == spond.creator_id
    &&& updated.owners == spond.owners
    &&& updated.heading == spond.heading
    &&& updated.description == spond.description
    &&& updated.meetup_timestamp == spond.meetup_timestamp
    &&& updated.match_event == spond.match_event
    &&& updated.created_time == spond.created_time
    &&& updated.expired == spond.expired
}

/// Finds the first subgroup with the given identifier.
pub fn find_sub_group<'a>(sub_groups: &'a Vec<SubGroup>, id: &SubGroupId) -> (r: Option<
    &'a SubGroup,
>)
    ensures
        r is Some <==> first_sub_group(sub_groups@, id@) is Some,
        r is Some ==> *r->Some_0 == first_sub_group(sub_groups@, id@)->Some_0,
{
    let mut i: usize = 0;
    assert(sub_groups@.subrange(0, sub_groups.len() as int) == sub_groups@);
    while i < sub_groups.len()
        invariant
            i <= sub_groups.len(),
            first_sub_group(sub_groups@, id@) == first_sub_group(
                sub_groups@.subrange(i as int, sub_groups.len() as int),
                id@,
            ),
        decreases sub_groups.len() - i,
    {
        let ghost rest = sub_groups@.subrange(i as int, sub_groups.len() as int);
        assert(rest.drop_first() == sub_groups@.subrange(i + 1, sub_groups.len() as int));
        assert(rest[0] == sub_groups@[i as int]);
        if sub_groups[i].id.is(id) {
            return Some(&sub_groups[i]);
        }
        i += 1;
    }
    None
}

/// Finds the first role that is named "coach".
pub fn find_coach_role<'a>(roles: &'a Vec<Role>) -> (r: Option<&'a Role>)
    ensures
        r is Some <==> first_coach_role(roles@) is Some,
        r is Some ==> *r->Some_0 == first_coach_role(roles@)->Some_0,
{
    let mut i: usize = 0;
    assert(roles@.subrange(0, roles.len() as int) == roles@);
    while i < roles.len()
        invariant
            i <= roles.len(),
            first_coach_role(roles@) == first_coach_role(
                roles@.subrange(i as int, roles.len() as int),
            ),
        decreases roles.len() - i,
    {
        let ghost rest = roles@.subrange(i as int, roles.len() as int);
        assert(rest.drop_first() == roles@.subrange(i + 1, roles.len() as int));
        assert(rest[0] == roles@[i as int]);
        if eq_ignoring_case(roles[i].name.as_str(), COACH_ROLE) {
            return Some(&roles[i]);
        }
        i += 1;
    }
    None
}

/// Whether a member belongs to the subgroup.
pub fn in_sub_group(member: &GroupMember, id: &SubGroupId) -> (r: bool)
    ensures
        r == has_sub_group(member.sub_groups@, id@),
{
    let mut i: usize = 0;
    while i < member.sub_groups.len()
        invariant
            i <= member.sub_groups.len(),
            forall|k: int| 0 <= k < i ==> (#[trigger] member.sub_groups@[k])@ != id@,
        decreases member.sub_groups.len() - i,
    {
        if member.sub_groups[i].is(id) {
            return true;
        }
        i += 1;
    }
    false
}

/// Whether a member holds the role.
pub fn holds_role(member: &GroupMember, id: &RoleId) -> (r: bool)
    ensures
        r == (member.roles is Some && has_role(member.roles->Some_0@, id@)),
{
    match &member.roles {
        None => false,
        Some(roles) => {
            let mut i: usize = 0;
            while i < roles.len()
                invariant
                    i <= roles.len(),
                    member.roles is Some,
                    roles@ == member.roles->Some_0@,
                    forall|k: int| 0 <= k < i ==> (#[trigger] roles@[k])@ != id@,
                decreases roles.len() - i,
            {
                if roles[i].is(id) {
                    assert(member.roles->Some_0@[i as int]@ == id@);
                    return true;
                }
                i += 1;
            }
            false
        },
    }
}

/// The owners of the events of a subgroup: its members who hold the role,
/// each by the identifier of the member's profile.
pub fn owners(members: &Vec<GroupMember>, sub_group: &SubGroupId, role: &RoleId) -> (r: Vec<Owner>)
    ensures
        r@ == owners_of(members@, sub_group@, role@),
{
    let mut found: Vec<Owner> = Vec::new();
    let mut i: usize = 0;
    while i < members.len()
        invariant
            i <= members.len(),
            found@ == owners_of(members@.take(i as int), sub_group@, role@),
        decreases members.len() - i,
    {
        assert(members@.take(i + 1).drop_last() == members@.take(i as int));
        let member = &members[i];
        if in_sub_group(member, sub_group) && holds_role(member, role) {
            match &member.profile {
                Some(profile) => {
                    found.push(Owner { id: profile.id.clone() });
                },
                None => {},
            }
        }
        i += 1;
    }
    assert(members@.take(i as int) == members@);
    found
}

/// The members of a subgroup who answer invitations.
pub fn invited(members: &Vec<GroupMember>, sub_group: &SubGroupId) -> (r: Vec<GroupMemberId>)
    ensures
        r@ == invited_of(members@, sub_group@),
{
    let mut found: Vec<GroupMemberId> = Vec::new();
    let mut i: usize = 0;
    while i < members.len()
        invariant
            i <= members.len(),
            found@ == invited_of(members@.take(i as int), sub_group@),
        decreases members.len() - i,
    {
        assert(members@.take(i + 1).drop_last() == members@.take(i as int));
        let member = &members[i];
        if in_sub_group(member, sub_group) && member.respondent {
            found.push(member.id.clone());
        }
        i += 1;
    }
    assert(members@.take(i as int) == members@);
    found
}

impl Fixture {
    /// What is sent to the platform to create the event for this fixture.
    pub fn to_create_spond_request(&self, group: &Group, sub_group_id: &SubGroupId) -> (r: Result<
        CreateSpondRequest,
        ValidationError,
    >)
        requires
            self.date_time.wf(),
        ensures
            match r {
                Ok(request) => {
                    &&& first_sub_group(group.sub_groups@, sub_group_id@) is Some
                    &&& first_coach_role(group.roles@) is Some
                    &&& is_request_for(
                        request,
                        *self,
                        *group,
                        first_sub_group(group.sub_groups@, sub_group_id@)->Some_0,
                        first_coach_role(group.roles@)->Some_0,
                    )
                },
                Err(ValidationError::UnknownSubGroup) => first_sub_group(
                    group.sub_groups@,
                    sub_group_id@,
                ) is None,
                Err(ValidationError::MissingCoachRole) => {
                    &&& first_sub_group(group.sub_groups@, sub_group_id@) is Some
                    &&& first_coach_role(group.roles@) is None
                },
            },
    {
        let sub_group = match find_sub_group(&group.sub_groups, sub_group_id) {
            Some(sub_group) => sub_group,
            None => { return Err(ValidationError::UnknownSubGroup); },
        };
        let coach_role = match find_coach_role(&group.roles) {
            Some(role) => role,
            None => { return Err(ValidationError::MissingCoachRole); },
        };
        let mut heading = sub_group.name.clone();
        heading.append(HEADING_SEPARATOR);
        heading.append(self.opposition.as_str());
        let mut sub_groups: Vec<SubGroupId> = Vec::new();
        sub_groups.push(sub_group.id.clone());
        Ok(
            CreateSpondRequest {
                heading,
                spond_type: SpondType::Event,
                start_timestamp: self.to_spond_start_time(),
                end_timestamp: self.to_spond_end_time(),
                meetup_prior: self.to_spond_meetup_prior(),
                open_ended: false,
                comments_disabled: false,
                max_accepted: 0,
                rsvp_date: None,
                location: Some(Location::from_full_time_venue(self.venue)),
                owners: owners(&group.members, &sub_group.id, &coach_role.id),
                visibility: Visibility::Invitees,
                participants_hidden: false,
                auto_reminder_type: AutoReminderType::Disabled,
                match_info: Some(self.to_spond_match_info(sub_group)),
                auto_accept: false,
                attachments: Vec::new(),
                typ: Type::Event,
                recipients: Recipients {
                    group_members: invited(&group.members, &sub_group.id),
                    group: RecipientGroup { id: group.id.clone(), sub_groups },
                },
            },
        )
    }
}

impl Spond {
    /// Brings this event in line with a fixture: start, end, reminder, match
    /// information and location become the fixture's; the rest stays.
    pub fn modify(self, fixture: &Fixture, group: &Group, sub_group_id: &SubGroupId) -> (r: Result<
        Spond,
        ValidationError,
    >)
        requires
            fixture.date_time.wf(),
        ensures
            match r {
                Ok(updated) => {
                    &&& first_sub_group(group.sub_groups@, sub_group_id@) is Some
                    &&& is_update_of(
                        updated,
                        self,
                        *fixture,
                        first_sub_group(group.sub_groups@, sub_group_id@)->Some_0,
                    )
                },
                Err(e) => {
                    &&& e == ValidationError::UnknownSubGroup
                    &&& first_sub_group(group.sub_groups@, sub_group_id@) is None
                },
            },
    {
        let sub_group = match find_sub_group(&group.sub_groups, sub_group_id) {
            Some(sub_group) => sub_group,
            None => { return Err(ValidationError::UnknownSubGroup); },
        };
        Ok(
            Spond {
                id: self.id,
                creator_id: self.creator_id,
                owners: self.owners,
                heading: self.heading,
                description: self.description,
                start_timestamp: fixture.to_spond_start_time(),
                end_timestamp: fixture.to_spond_end_time(),
                meetup_timestamp: self.meetup_timestamp,
                meetup_prior: fixture.to_spond_meetup_prior(),
                location: Some(Location::from_full_time_venue(fixture.venue)),
                match_info: Some(fixture.to_spond_match_info(sub_group)),
                match_event: self.match_event,
                created_time: self.created_time,
                expired: self.expired,
            },
        )
    }
}

/// Whether an event shows what a request asked for, in the fields from
/// which a fixture is read back.
pub open spec fn shows(event: Spond, request: CreateSpondRequest) -> bool {
    &&& event.start_timestamp == request.start_timestamp
    &&& event.match_info == request.match_info
    &&& location_view(event.location) == location_view(request.location)
}

/// A league fixture is read back, from an event that shows what its request
/// asked for, as a fixture equal to it.
pub proof fn lemma_league_round_trip(
    fixture: Fixture,
    group: Group,
    sub_group: SubGroup,
    role: Role,
    request: CreateSpondRequest,
    event: Spond,
)
    requires
        fixture.typ == FixtureType::League,
        is_request_for(request, fixture, group, sub_group, role),
        shows(event, request),
    ensures
        read_back(event) == Ok::<Option<FixtureView>, ParseError>(Some(fixture@)),
{
    crate::spond::lemma_venue_table_round_trip(fixture.venue);
}

/// A cup fixture is read back, from an event that shows what its request
/// asked for, as a home match: equal to the fixture in every field but the
/// side.
pub proof fn lemma_cup_round_trip_reads_home(
    fixture: Fixture,
    group: Group,
    sub_group: SubGroup,
    role: Role,
    request: CreateSpondRequest,
    event: Spond,
)
    requires
        fixture.typ == FixtureType::Cup,
        is_request_for(request, fixture, group, sub_group, role),
        shows(event, request),
    ensures
        read_back(event) == Ok::<Option<FixtureView>, ParseError>(
            Some(
                FixtureView {
                    typ: FixtureType::Cup,
                    side: FixtureSide::Home,
                    date_time: fixture.date_time,
                    opposition: fixture.opposition@,
                    venue: fixture.venue,
                },
            ),
        ),
        fixture.side == FixtureSide::Away ==> read_back(event) != Ok::<
            Option<FixtureView>,
            ParseError,
        >(Some(fixture@)),
{
    crate::spond::lemma_venue_table_round_trip(fixture.venue);
}

} // verus!
