use full_time_spond_sync::error::ValidationError;
use full_time_spond_sync::full_time::Fixture;
use full_time_spond_sync::full_time::FixtureSide;
use full_time_spond_sync::full_time::FixtureType;
use full_time_spond_sync::full_time::Venue;
use full_time_spond_sync::query::bool_to_text;
use full_time_spond_sync::query::number_to_text;
use full_time_spond_sync::spond::GetSpondsRequest;
use full_time_spond_sync::spond::Group;
use full_time_spond_sync::spond::GroupId;
use full_time_spond_sync::spond::Location;
use full_time_spond_sync::spond::MatchInfo;
use full_time_spond_sync::spond::MatchType;
use full_time_spond_sync::spond::Order;
use full_time_spond_sync::spond::Role;
use full_time_spond_sync::spond::RoleId;
use full_time_spond_sync::spond::Spond;
use full_time_spond_sync::spond::SpondId;
use full_time_spond_sync::spond::SubGroup;
use full_time_spond_sync::spond::SubGroupId;
use full_time_spond_sync::spond::UserId;
use full_time_spond_sync::spond::UserProfile;
use full_time_spond_sync::sync::operations;
use full_time_spond_sync::sync::Operation;
use full_time_spond_sync::time::Instant;
use full_time_spond_sync::Diff;
use full_time_spond_sync::SyncType;

fn planned(secs: i64, opposition: &str) -> Fixture {
    Fixture {
        typ: FixtureType::League,
        side: FixtureSide::Home,
        date_time: Instant { secs, nanos: 0 },
        opposition: opposition.to_string(),
        venue: Venue::Goals,
    }
}

fn scheduled(id: &str, secs: i64, opponent: &str) -> Spond {
    Spond {
        id: SpondId(id.to_string()),
        creator_id: SpondId("creator".to_string()),
        owners: vec![],
        heading: format!("U10 - {}", opponent),
        description: None,
        start_timestamp: Instant { secs, nanos: 0 },
        end_timestamp: Instant { secs: secs + 3600, nanos: 0 },
        meetup_timestamp: None,
        meetup_prior: Some(15),
        location: Some(Location::goals()),
        match_info: Some(MatchInfo::new("U10".to_string(), opponent.to_string(), MatchType::Home)),
        match_event: true,
        created_time: Instant { secs: 1700000000, nanos: 0 },
        expired: false,
    }
}

fn small_group(with_coach: bool) -> Group {
    Group {
        id: GroupId::new("club"),
        contact_person: UserProfile {
            id: UserId("contact".to_string()),
            contact_method: "app".to_string(),
            first_name: "First".to_string(),
            last_name: "Last".to_string(),
            image_url: None,
            email: None,
            phone_number: None,
            unable_to_reach: false,
        },
        name: "Club".to_string(),
        activity: "football".to_string(),
        created_time: Instant { secs: 1500000000, nanos: 0 },
        members: vec![],
        sub_groups: vec![SubGroup {
            id: SubGroupId::new("u10"),
            name: "U10".to_string(),
            color: "blue".to_string(),
        }],
        roles: if with_coach {
            vec![Role { id: RoleId("r".to_string()), name: "coach".to_string(), permissions: vec![] }]
        } else {
            vec![]
        },
    }
}

#[test]
fn lists_creations_then_updates_then_deletions() {
    let diff = Diff {
        new: vec![planned(1709373600, "A"), planned(1709994600, "B")],
        modified: vec![(planned(1710579600, "C"), scheduled("e3", 1710583200, "C"))],
        removed: vec![scheduled("e4", 1711184400, "D"), scheduled("e5", 1711789200, "E")],
    };
    let plan = operations(diff, &small_group(true), &SubGroupId::new("u10")).unwrap();
    assert_eq!(plan.len(), 5);
    match &plan[0] {
        Operation::Create(request) => assert_eq!(request.heading, "U10 - A"),
        _ => panic!("expected a creation"),
    }
    match &plan[1] {
        Operation::Create(request) => assert_eq!(request.heading, "U10 - B"),
        _ => panic!("expected a creation"),
    }
    match &plan[2] {
        Operation::Update(event) => {
            assert_eq!(event.id, SpondId("e3".to_string()));
            assert_eq!(event.start_timestamp, Instant { secs: 1710579600, nanos: 0 });
        },
        _ => panic!("expected an update"),
    }
    match &plan[3] {
        Operation::Delete(id) => assert_eq!(*id, SpondId("e4".to_string())),
        _ => panic!("expected a deletion"),
    }
    match &plan[4] {
        Operation::Delete(id) => assert_eq!(*id, SpondId("e5".to_string())),
        _ => panic!("expected a deletion"),
    }
}

#[test]
fn consults_the_roster_only_where_it_is_needed() {
    let deletions = Diff { new: vec![], modified: vec![], removed: vec![scheduled("e4", 1711184400, "D")] };
    let plan = operations(deletions, &small_group(false), &SubGroupId::new("u12")).unwrap();
    assert_eq!(plan.len(), 1);
    let updates = Diff {
        new: vec![],
        modified: vec![(planned(1710579600, "C"), scheduled("e3", 1710583200, "C"))],
        removed: vec![],
    };
    assert_eq!(operations(updates.clone(), &small_group(false), &SubGroupId::new("u10")).unwrap().len(), 1);
    let failed = operations(updates, &small_group(true), &SubGroupId::new("u12"));
    assert_eq!(failed.err(), Some(ValidationError::UnknownSubGroup));
    let creations = Diff { new: vec![planned(1709373600, "A")], modified: vec![], removed: vec![] };
    let failed = operations(creations.clone(), &small_group(false), &SubGroupId::new("u10"));
    assert_eq!(failed.err(), Some(ValidationError::MissingCoachRole));
    let failed = operations(creations, &small_group(false), &SubGroupId::new("u12"));
    assert_eq!(failed.err(), Some(ValidationError::UnknownSubGroup));
    let nothing = Diff { new: vec![], modified: vec![], removed: vec![] };
    assert!(operations(nothing, &small_group(false), &SubGroupId::new("u12")).unwrap().is_empty());
}

#[test]
fn asks_for_the_upcoming_matches_of_a_subgroup() {
    let now = Instant { secs: 1709373600, nanos: 5 };
    let request = GetSpondsRequest::upcoming_matches(&GroupId::new("club"), &SubGroupId::new("u10"), now);
    assert!(!request.add_profile_info);
    assert!(request.exclude_availability);
    assert!(request.exclude_repeating);
    assert!(!request.include_comments);
    assert!(request.include_hidden);
    assert_eq!(request.group_id, Some(GroupId::new("club")));
    assert!(request.mtch);
    assert_eq!(request.max, Some(100));
    assert_eq!(request.order, Some(Order::Asc));
    assert_eq!(request.min_start_timestamp, Some(now));
    assert_eq!(request.max_start_timestamp, None);
    assert!(!request.scheduled);
    assert_eq!(request.sub_group_id, Some(SubGroupId::new("u10")));
    assert_ne!(SyncType::Dry, SyncType::Real);
}

#[test]
fn writes_the_query_for_the_upcoming_matches() {
    let now = Instant { secs: 1709373600, nanos: 0 };
    let request = GetSpondsRequest::upcoming_matches(&GroupId::new("club"), &SubGroupId::new("u10"), now);
    let query = request.query();
    let expected = vec![
        ("addProfileInfo", "false"),
        ("excludeAvailability", "true"),
        ("excludeRepeating", "true"),
        ("groupId", "club"),
        ("includeComments", "false"),
        ("includeHidden", "true"),
        ("match", "true"),
        ("max", "100"),
        ("order", "asc"),
        ("minStartTimestamp", "2024-03-02T10:00:00+00:00"),
        ("scheduled", "false"),
        ("subGroupId", "u10"),
    ];
    assert_eq!(query.len(), expected.len());
    for (pair, (key, value)) in query.iter().zip(expected) {
        assert_eq!(pair.0, key);
        assert_eq!(pair.1, value);
    }
}

#[test]
fn leaves_absent_settings_out_of_the_query() {
    let request = GetSpondsRequest {
        add_profile_info: true,
        exclude_availability: false,
        exclude_repeating: false,
        group_id: None,
        include_comments: true,
        include_hidden: false,
        mtch: false,
        max: None,
        order: Some(Order::Desc),
        min_start_timestamp: None,
        max_start_timestamp: Some(Instant { secs: 1719788700, nanos: 500_000_000 }),
        scheduled: true,
        sub_group_id: None,
    };
    let query = request.query();
    let expected = vec![
        ("addProfileInfo", "true"),
        ("excludeAvailability", "false"),
        ("excludeRepeating", "false"),
        ("includeComments", "true"),
        ("includeHidden", "false"),
        ("match", "false"),
        ("order", "desc"),
        ("maxStartTimestamp", "2024-06-30T23:05:00.500+00:00"),
        ("scheduled", "true"),
    ];
    assert_eq!(query.len(), expected.len());
    for (pair, (key, value)) in query.iter().zip(expected) {
        assert_eq!(pair.0, key);
        assert_eq!(pair.1, value);
    }
}

#[test]
fn writes_numbers_and_truth_values() {
    assert_eq!(number_to_text(0), "0");
    assert_eq!(number_to_text(7), "7");
    assert_eq!(number_to_text(10), "10");
    assert_eq!(number_to_text(100), "100");
    assert_eq!(number_to_text(90817), "90817");
    assert_eq!(number_to_text(4294967295), "4294967295");
    assert_eq!(bool_to_text(true), "true");
    assert_eq!(bool_to_text(false), "false");
}
