use league_store::error::Error;
use league_store::ids::{generate_uuid, IdAllocator};
use league_store::models::{
    AddMemberPayload, AssignCoachPayload, CreateTeamPayload, MatchResult, MatchResultPayload,
    RegisterUserPayload, ScheduleMatchPayload, SportType, UpdateUserPayload, UserRole,
};
use league_store::store::{first_name_match, validate_email_uniqueness, Store};
use league_store::text::{decimal, join2, join3, validate_email_format};

fn reg(name: &str, email: &str, role: UserRole) -> RegisterUserPayload {
    RegisterUserPayload {
        name: name.to_string(),
        email: email.to_string(),
        address: "1 Main St".to_string(),
        role,
    }
}

fn team(name: &str, sport_type: SportType) -> CreateTeamPayload {
    CreateTeamPayload { name: name.to_string(), sport_type }
}

fn schedule(home: u64, away: u64, sport_type: SportType, date: &str) -> ScheduleMatchPayload {
    ScheduleMatchPayload {
        home_team_id: home,
        away_team_id: away,
        sport_type,
        scheduled_date: date.to_string(),
    }
}

fn result_for(match_id: u64, winner: u64, a: u32, b: u32) -> MatchResultPayload {
    MatchResultPayload {
        match_id,
        result: MatchResult {
            winner_team_id: winner,
            score_team_a: a,
            score_team_b: b,
            notes: "final".to_string(),
        },
    }
}

fn is_conflict<T>(r: &Result<T, Error>) -> bool {
    matches!(r, Err(Error::Error { .. }))
}

fn is_not_found<T>(r: &Result<T, Error>) -> bool {
    matches!(r, Err(Error::NotFound { .. }))
}

fn is_invalid<T>(r: &Result<T, Error>) -> bool {
    matches!(r, Err(Error::InvalidPayload { .. }))
}

#[test]
fn register_assigns_first_id_and_owner() {
    let mut s = Store::new();
    let u = s.register_user(reg("A", "a@x.com", UserRole::Player), "caller-1".to_string()).unwrap();
    assert_eq!(u.id, 0);
    assert_eq!(u.owner, "caller-1");
    assert_eq!(u.email, "a@x.com");
    assert_eq!(s.get_user(0).unwrap().name, "A");
}

#[test]
fn scenario_register_team_and_member() {
    // One allocator serves every collection: the team gets the identifier
    // after the user's.
    let mut s = Store::new();
    let a = s.register_user(reg("A", "a@x.com", UserRole::Player), "p".to_string()).unwrap();
    assert_eq!(a.id, 0);
    let t = s.create_team(team("Eagles", SportType::Football)).unwrap();
    assert_eq!(t.id, 1);
    assert!(t.members.is_empty());
    let t = s.add_member_to_team(AddMemberPayload { team_id: 1, member_id: 0 }).unwrap();
    assert_eq!(t.members, vec![0]);
    let missing = s.add_member_to_team(AddMemberPayload { team_id: 2, member_id: 0 });
    assert!(is_not_found(&missing));
    let dup = s.register_user(reg("B", "a@x.com", UserRole::Coach), "q".to_string());
    assert!(is_conflict(&dup));
}

#[test]
fn second_registration_with_same_email_conflicts() {
    let mut s = Store::new();
    assert!(s.register_user(reg("A", "same@mail.org", UserRole::Player), "p".to_string()).is_ok());
    let r = s.register_user(reg("Other", "same@mail.org", UserRole::Administrator), "q".to_string());
    assert!(is_conflict(&r));
    assert_eq!(s.get_all_users().unwrap().len(), 1);
}

#[test]
fn register_rejects_missing_fields() {
    let mut s = Store::new();
    assert!(is_invalid(&s.register_user(reg("", "a@x.com", UserRole::Player), "p".to_string())));
    assert!(is_invalid(&s.register_user(reg("A", "", UserRole::Player), "p".to_string())));
    let mut p = reg("A", "a@x.com", UserRole::Player);
    p.address = String::new();
    assert!(is_invalid(&s.register_user(p, "p".to_string())));
    assert!(is_conflict(&s.get_all_users()));
}

#[test]
fn register_rejects_bad_email_shape() {
    let mut s = Store::new();
    for bad in ["plain", "a@b", "@x.com", "a@.com", "a b@x.com", "a@x.", "a@x.c om"] {
        let r = s.register_user(reg("A", bad, UserRole::Player), "p".to_string());
        assert!(is_invalid(&r), "{} accepted", bad);
    }
    assert!(s.register_user(reg("A", "a.b@c.d.e", UserRole::Player), "p".to_string()).is_ok());
}

#[test]
fn email_format_check() {
    assert!(validate_email_format("user@example.com").is_ok());
    assert!(validate_email_format("x@y.z").is_ok());
    assert!(validate_email_format("x@y").is_err());
    assert!(validate_email_format("x\t@y.z").is_err());
    assert!(validate_email_format("").is_err());
}

#[test]
fn email_uniqueness_check() {
    let mut s = Store::new();
    s.register_user(reg("A", "a@x.com", UserRole::Player), "p".to_string()).unwrap();
    assert!(validate_email_uniqueness(&s.users, &"a@x.com".to_string()).is_err());
    assert!(validate_email_uniqueness(&s.users, &"A@x.com".to_string()).is_ok());
}

#[test]
fn update_user_rules() {
    let mut s = Store::new();
    s.register_user(reg("A", "a@x.com", UserRole::Player), "p".to_string()).unwrap();
    s.register_user(reg("B", "b@x.com", UserRole::Player), "q".to_string()).unwrap();
    let missing = s.update_user(
        UpdateUserPayload {
            id: 9,
            name: "Z".to_string(),
            email: "z@x.com".to_string(),
            address: "x".to_string(),
            role: UserRole::Coach,
        },
        "r".to_string(),
    );
    assert!(is_not_found(&missing));
    let taken = s.update_user(
        UpdateUserPayload {
            id: 0,
            name: "A".to_string(),
            email: "b@x.com".to_string(),
            address: "x".to_string(),
            role: UserRole::Coach,
        },
        "r".to_string(),
    );
    assert!(is_conflict(&taken));
    let bad = s.update_user(
        UpdateUserPayload {
            id: 0,
            name: "A".to_string(),
            email: "bad".to_string(),
            address: "x".to_string(),
            role: UserRole::Coach,
        },
        "r".to_string(),
    );
    assert!(is_invalid(&bad));
    let u = s
        .update_user(
            UpdateUserPayload {
                id: 0,
                name: "A2".to_string(),
                email: "a@x.com".to_string(),
                address: "elsewhere".to_string(),
                role: UserRole::Coach,
            },
            "r".to_string(),
        )
        .unwrap();
    assert_eq!(u.id, 0);
    assert_eq!(u.owner, "r");
    let stored = s.get_user(0).unwrap();
    assert_eq!(stored.name, "A2");
    assert_eq!(stored.address, "elsewhere");
    assert_eq!(stored.role, UserRole::Coach);
    assert_eq!(s.get_all_users().unwrap().len(), 2);
}

#[test]
fn get_user_missing_is_not_found() {
    let s = Store::new();
    assert!(is_not_found(&s.get_user(0)));
}

#[test]
fn lookups_by_owner_and_name() {
    let mut s = Store::new();
    s.register_user(reg("Alice", "a@x.com", UserRole::Player), "p".to_string()).unwrap();
    s.register_user(reg("Bob", "b@x.com", UserRole::Player), "q".to_string()).unwrap();
    s.register_user(reg("Carol", "c@x.com", UserRole::Player), "q".to_string()).unwrap();
    assert_eq!(s.get_user_by_owner(&"q".to_string()).unwrap().name, "Bob");
    assert!(is_not_found(&s.get_user_by_owner(&"z".to_string())));
    assert_eq!(s.get_user_by_name(&"ALICE".to_string()).unwrap().id, 0);
    assert_eq!(s.get_user_by_name(&"carol".to_string()).unwrap().id, 2);
    assert!(is_not_found(&s.get_user_by_name(&"Dave".to_string())));
}

#[test]
fn first_name_match_finds_first() {
    let names = vec!["x".to_string(), "y".to_string(), "y".to_string()];
    assert_eq!(first_name_match(&names, &"y".to_string()), Some(1));
    assert_eq!(first_name_match(&names, &"z".to_string()), None);
}

#[test]
fn get_all_users_on_empty_store_fails() {
    let s = Store::new();
    let r = s.get_all_users();
    assert!(is_conflict(&r));
    if let Err(e) = r {
        assert_eq!(e.message(), "No users found");
    }
}

#[test]
fn create_team_rules() {
    let mut s = Store::new();
    assert!(is_invalid(&s.create_team(team("", SportType::Golf))));
    assert!(is_conflict(&s.get_all_teams()));
    let t = s.create_team(team("Hawks", SportType::Golf)).unwrap();
    assert_eq!(t.id, 0);
    assert_eq!(t.sport_type, SportType::Golf);
    assert_eq!(s.get_team(0).unwrap().name, "Hawks");
    assert!(is_not_found(&s.get_team(1)));
    assert_eq!(s.get_all_teams().unwrap().len(), 1);
}

#[test]
fn add_member_rules() {
    let mut s = Store::new();
    s.register_user(reg("P", "p@x.com", UserRole::Player), "p".to_string()).unwrap(); // 0
    s.register_user(reg("C", "c@x.com", UserRole::Coach), "c".to_string()).unwrap(); // 1
    s.create_team(team("T1", SportType::Rugby)).unwrap(); // 2
    s.create_team(team("T2", SportType::Rugby)).unwrap(); // 3
    assert!(is_not_found(&s.add_member_to_team(AddMemberPayload { team_id: 2, member_id: 7 })));
    assert!(is_conflict(&s.add_member_to_team(AddMemberPayload { team_id: 2, member_id: 1 })));
    assert!(s.add_member_to_team(AddMemberPayload { team_id: 2, member_id: 0 }).is_ok());
    assert!(is_conflict(&s.add_member_to_team(AddMemberPayload { team_id: 2, member_id: 0 })));
    assert!(is_conflict(&s.add_member_to_team(AddMemberPayload { team_id: 3, member_id: 0 })));
    assert!(s.get_team(3).unwrap().members.is_empty());
}

#[test]
fn assign_coach_rules() {
    let mut s = Store::new();
    s.register_user(reg("P", "p@x.com", UserRole::Player), "p".to_string()).unwrap(); // 0
    s.register_user(reg("C", "c@x.com", UserRole::Coach), "c".to_string()).unwrap(); // 1
    s.create_team(team("T1", SportType::Hockey)).unwrap(); // 2
    s.create_team(team("T2", SportType::Hockey)).unwrap(); // 3
    assert!(is_not_found(&s.assign_coach(AssignCoachPayload { team_id: 9, coach_id: 1 })));
    assert!(is_not_found(&s.assign_coach(AssignCoachPayload { team_id: 2, coach_id: 9 })));
    assert!(is_conflict(&s.assign_coach(AssignCoachPayload { team_id: 2, coach_id: 0 })));
    let t = s.assign_coach(AssignCoachPayload { team_id: 2, coach_id: 1 }).unwrap();
    assert_eq!(t.coaches, vec![1]);
    assert!(is_conflict(&s.assign_coach(AssignCoachPayload { team_id: 3, coach_id: 1 })));
}

#[test]
fn schedule_match_rejects_same_team() {
    let mut s = Store::new();
    let r = s.schedule_match(schedule(0, 0, SportType::Football, "2024-01-01"));
    assert!(is_not_found(&r));
    s.create_team(team("T", SportType::Football)).unwrap();
    let r = s.schedule_match(schedule(0, 0, SportType::Football, "2024-01-01"));
    assert!(is_conflict(&r));
    if let Err(e) = r {
        assert!(e.message().contains("cannot be the same team"));
    }
}

#[test]
fn schedule_match_rules_and_snapshots() {
    let mut s = Store::new();
    s.register_user(reg("P", "p@x.com", UserRole::Player), "p".to_string()).unwrap(); // 0
    s.create_team(team("Home", SportType::Tennis)).unwrap(); // 1
    s.create_team(team("Away", SportType::Tennis)).unwrap(); // 2
    assert!(is_invalid(&s.schedule_match(schedule(1, 2, SportType::Tennis, ""))));
    assert!(is_not_found(&s.schedule_match(schedule(1, 5, SportType::Tennis, "2024-05-01"))));
    assert!(is_not_found(&s.schedule_match(schedule(5, 2, SportType::Tennis, "2024-05-01"))));
    let m = s.schedule_match(schedule(1, 2, SportType::Tennis, "2024-05-01")).unwrap();
    assert_eq!(m.id, 3);
    assert_eq!(m.home_team.name, "Home");
    assert_eq!(m.away_team.id, 2);
    assert!(m.result.is_none());
    s.add_member_to_team(AddMemberPayload { team_id: 1, member_id: 0 }).unwrap();
    assert!(s.get_match(3).unwrap().home_team.members.is_empty());
    assert_eq!(s.get_team(1).unwrap().members, vec![0]);
}

#[test]
fn match_result_is_written_once() {
    let mut s = Store::new();
    s.create_team(team("A", SportType::Cricket)).unwrap(); // 0
    s.create_team(team("B", SportType::Cricket)).unwrap(); // 1
    s.schedule_match(schedule(0, 1, SportType::Cricket, "2024-02-02")).unwrap(); // 2
    assert!(is_not_found(&s.submit_match_result(result_for(9, 0, 1, 0))));
    let m = s.submit_match_result(result_for(2, 0, 3, 1)).unwrap();
    assert_eq!(m.result.as_ref().unwrap().score_team_a, 3);
    let again = s.submit_match_result(result_for(2, 1, 0, 5));
    assert!(is_conflict(&again));
    let stored = s.get_match(2).unwrap().result.unwrap();
    assert_eq!(stored.winner_team_id, 0);
    assert_eq!(stored.score_team_b, 1);
}

#[test]
fn match_queries() {
    let mut s = Store::new();
    assert!(is_conflict(&s.get_all_matches()));
    assert!(is_not_found(&s.get_match(0)));
    s.create_team(team("A", SportType::Football)).unwrap(); // 0
    s.create_team(team("B", SportType::Football)).unwrap(); // 1
    s.create_team(team("C", SportType::Basketball)).unwrap(); // 2
    s.schedule_match(schedule(0, 1, SportType::Football, "2024-03-01")).unwrap(); // 3
    s.schedule_match(schedule(2, 0, SportType::Basketball, "2024-03-02")).unwrap(); // 4
    s.schedule_match(schedule(1, 2, SportType::Football, "2024-03-01")).unwrap(); // 5
    assert_eq!(s.get_all_matches().unwrap().len(), 3);
    let ids: Vec<u64> = s.get_matches_by_team(0).unwrap().iter().map(|m| m.id).collect();
    assert_eq!(ids, vec![3, 4]);
    let ids: Vec<u64> = s.get_matches_by_team(2).unwrap().iter().map(|m| m.id).collect();
    assert_eq!(ids, vec![4, 5]);
    assert!(is_conflict(&s.get_matches_by_team(7)));
    let ids: Vec<u64> =
        s.get_matches_by_sport_type(SportType::Football).unwrap().iter().map(|m| m.id).collect();
    assert_eq!(ids, vec![3, 5]);
    assert!(is_conflict(&s.get_matches_by_sport_type(SportType::Golf)));
    let ids: Vec<u64> =
        s.get_matches_by_date(&"2024-03-01".to_string()).unwrap().iter().map(|m| m.id).collect();
    assert_eq!(ids, vec![3, 5]);
    assert!(is_conflict(&s.get_matches_by_date(&"2025-01-01".to_string())));
}

#[test]
fn allocator_is_monotonic_across_restart() {
    let mut ids = IdAllocator::new();
    let mut seen = Vec::new();
    for _ in 0..5 {
        seen.push(generate_uuid(&mut ids));
    }
    assert_eq!(seen, vec![0, 1, 2, 3, 4]);
    let saved = ids.saved();
    let mut resumed = IdAllocator::resume(saved);
    let next = generate_uuid(&mut resumed);
    assert_eq!(next, 5);
    assert_eq!(generate_uuid(&mut resumed), 6);
}

#[test]
fn store_ids_shared_across_collections() {
    let mut s = Store::new();
    let u = s.register_user(reg("A", "a@x.com", UserRole::Player), "p".to_string()).unwrap();
    let t = s.create_team(team("T", SportType::Badminton)).unwrap();
    let t2 = s.create_team(team("U", SportType::Badminton)).unwrap();
    let m = s.schedule_match(schedule(t.id, t2.id, SportType::Badminton, "2024-06-06")).unwrap();
    assert!(u.id < t.id && t.id < t2.id && t2.id < m.id);
}

#[test]
fn enum_defaults() {
    assert_eq!(UserRole::default(), UserRole::Player);
    assert_eq!(SportType::default(), SportType::Football);
    assert_eq!(
        league_store::models::TournamentStructure::default(),
        league_store::models::TournamentStructure::RoundRobin
    );
}

#[test]
fn email_with_two_at_signs_is_rejected() {
    assert!(validate_email_format("a@b@c.com").is_err());
    assert_eq!(validate_email_format("a@b@c.com").unwrap_err(), "Invalid email format");
    let mut s = Store::new();
    let r = s.register_user(reg("A", "a@b@c.com", UserRole::Player), "p".to_string());
    assert!(is_invalid(&r));
}

#[test]
fn error_messages_are_fixed() {
    let mut s = Store::new();
    s.create_team(team("A", SportType::Football)).unwrap(); // 0
    s.create_team(team("B", SportType::Football)).unwrap(); // 1
    let same = s.schedule_match(schedule(0, 0, SportType::Football, "2024-06-01")).unwrap_err();
    assert_eq!(same.message(), "Home team and away team cannot be the same team");
    s.schedule_match(schedule(0, 1, SportType::Football, "2024-06-01")).unwrap();
    assert_eq!(s.get_matches_by_team(9).unwrap_err().message(), "No matches found for this team");
    assert_eq!(
        s.get_matches_by_sport_type(SportType::Golf).unwrap_err().message(),
        "No matches found for this sport type"
    );
    assert_eq!(
        s.get_matches_by_date(&"1999-01-01".to_string()).unwrap_err().message(),
        "No matches found for this date"
    );
    s.register_user(reg("A", "a@x.com", UserRole::Player), "p".to_string()).unwrap();
    assert_eq!(
        validate_email_uniqueness(&s.users, &"a@x.com".to_string()).unwrap_err(),
        "User with this email already exists"
    );
}

#[test]
fn member_of_another_team_is_a_conflict() {
    let mut s = Store::new();
    s.register_user(reg("P", "p@x.com", UserRole::Player), "p".to_string()).unwrap(); // 0
    s.create_team(team("T1", SportType::Golf)).unwrap(); // 1
    s.create_team(team("T2", SportType::Golf)).unwrap(); // 2
    s.add_member_to_team(AddMemberPayload { team_id: 1, member_id: 0 }).unwrap();
    let r = s.add_member_to_team(AddMemberPayload { team_id: 2, member_id: 0 }).unwrap_err();
    assert_eq!(r.message(), "Member is already part of a team");
}

#[test]
fn restore_accepts_saved_store_and_resumes_counter() {
    let mut s = Store::new();
    s.register_user(reg("P", "p@x.com", UserRole::Player), "p".to_string()).unwrap(); // 0
    s.create_team(team("T1", SportType::Golf)).unwrap(); // 1
    s.create_team(team("T2", SportType::Golf)).unwrap(); // 2
    s.add_member_to_team(AddMemberPayload { team_id: 1, member_id: 0 }).unwrap();
    s.schedule_match(schedule(1, 2, SportType::Golf, "2024-01-01")).unwrap(); // 3
    let saved = s.ids.saved();
    let mut r = Store::restore(saved, s.users.clone(), s.teams.clone(), s.matches.clone()).unwrap();
    assert_eq!(r.get_team(1).unwrap().members, vec![0]);
    let t = r.create_team(team("T3", SportType::Golf)).unwrap();
    assert_eq!(t.id, 4);
}

#[test]
fn restore_rejects_broken_parts() {
    let mut s = Store::new();
    s.register_user(reg("P", "p@x.com", UserRole::Player), "p".to_string()).unwrap(); // 0
    s.register_user(reg("Q", "q@x.com", UserRole::Player), "q".to_string()).unwrap(); // 1
    s.create_team(team("T1", SportType::Golf)).unwrap(); // 2
    s.create_team(team("T2", SportType::Golf)).unwrap(); // 3
    // counter not above every id
    assert!(Store::restore(3, s.users.clone(), s.teams.clone(), s.matches.clone()).is_none());
    // duplicate email
    let mut users = s.users.clone();
    users[1].email = "p@x.com".to_string();
    assert!(Store::restore(4, users, s.teams.clone(), s.matches.clone()).is_none());
    // one player in two teams
    let mut teams = s.teams.clone();
    teams[0].members.push(0);
    teams[1].members.push(0);
    assert!(Store::restore(4, s.users.clone(), teams, s.matches.clone()).is_none());
    // member naming no user
    let mut teams = s.teams.clone();
    teams[0].members.push(7);
    assert!(Store::restore(4, s.users.clone(), teams, s.matches.clone()).is_none());
    // ids out of order
    let mut users = s.users.clone();
    users.swap(0, 1);
    assert!(Store::restore(4, users, s.teams.clone(), s.matches.clone()).is_none());
    assert!(Store::restore(4, s.users.clone(), s.teams.clone(), s.matches.clone()).is_some());
}

#[test]
fn decimal_writes_digits() {
    assert_eq!(decimal(0), "0");
    assert_eq!(decimal(7), "7");
    assert_eq!(decimal(10), "10");
    assert_eq!(decimal(1234567890), "1234567890");
    assert_eq!(decimal(u64::MAX), u64::MAX.to_string());
    assert_eq!(join3("a", "b", "c"), "abc");
    assert_eq!(join2("a", ""), "a");
}

#[test]
fn not_found_messages_name_the_key() {
    let mut s = Store::new();
    assert_eq!(s.get_user(42).unwrap_err().message(), "User with ID 42 not found");
    assert_eq!(s.get_team(7).unwrap_err().message(), "Team with ID 7 not found");
    assert_eq!(s.get_match(9).unwrap_err().message(), "Match with ID 9 not found");
    assert_eq!(
        s.submit_match_result(result_for(13, 0, 0, 0)).unwrap_err().message(),
        "Match with ID 13 not found"
    );
    assert_eq!(
        s.get_user_by_owner(&"abc-def".to_string()).unwrap_err().message(),
        "User not found for caller: abc-def"
    );
    assert_eq!(
        s.get_user_by_name(&"Zed".to_string()).unwrap_err().message(),
        "User with name Zed not found"
    );
    s.create_team(team("T", SportType::Football)).unwrap(); // 0
    assert_eq!(
        s.add_member_to_team(AddMemberPayload { team_id: 0, member_id: 5 }).unwrap_err().message(),
        "Member with ID 5 not found"
    );
    assert_eq!(
        s.assign_coach(AssignCoachPayload { team_id: 0, coach_id: 6 }).unwrap_err().message(),
        "Coach with ID 6 not found"
    );
    assert_eq!(
        s.add_member_to_team(AddMemberPayload { team_id: 3, member_id: 5 }).unwrap_err().message(),
        "Team not found"
    );
    assert_eq!(
        s.schedule_match(schedule(4, 0, SportType::Football, "2024-01-01")).unwrap_err().message(),
        "Home team not found"
    );
    assert_eq!(
        s.schedule_match(schedule(0, 4, SportType::Football, "2024-01-01")).unwrap_err().message(),
        "Away team not found"
    );
}
