use interaction::registry::AdmissionError;
use interaction::registry::CreateRoomForm;
use interaction::registry::RoomRegistry;
use interaction::room::Role;

fn plain_form(username: &str, role: &str, max_controllers: usize, max_doers: usize) -> CreateRoomForm {
    CreateRoomForm {
        username: username.to_string(),
        role: role.to_string(),
        max_controllers,
        max_doers,
        password: None,
    }
}

#[test]
fn capacity_scenario_one_seat_per_role() {
    let mut reg = RoomRegistry::new();
    let id = reg
        .create(&plain_form("alice", "controller", 1, 1))
        .expect("creation with a non-blank name succeeds");
    assert_eq!(id.len(), 36);

    let a = reg.join(&id, Role::Controller, "alice", &None);
    assert!(a.is_ok());

    let b = reg.join(&id, Role::Controller, "bob", &None);
    assert!(matches!(b, Err(AdmissionError::RoleAtCapacity)));

    let c = reg.join(&id, Role::Doer, "bob", &None);
    assert!(c.is_ok());

    assert_eq!(reg.member_count(&id, Role::Controller), Some(1));
    assert_eq!(reg.member_count(&id, Role::Doer), Some(1));
}

#[test]
fn join_unknown_room_is_not_found() {
    let mut reg = RoomRegistry::new();
    let r = reg.join("no-such-room", Role::Doer, "alice", &None);
    assert!(matches!(r, Err(AdmissionError::NotFound)));
}

#[test]
fn blank_username_is_rejected_everywhere() {
    let mut reg = RoomRegistry::new();
    assert!(matches!(
        reg.create(&plain_form("   ", "doer", 2, 2)),
        Err(AdmissionError::EmptyUsername)
    ));
    let id = reg.create(&plain_form("alice", "doer", 2, 2)).unwrap();
    let r = reg.join(&id, Role::Doer, " \t ", &None);
    assert!(matches!(r, Err(AdmissionError::EmptyUsername)));
}

#[test]
fn password_room_refuses_absent_and_wrong_admits_exact() {
    let mut reg = RoomRegistry::new();
    let mut form = plain_form("alice", "controller", 2, 2);
    form.password = Some("sesame".to_string());
    let id = reg.create(&form).unwrap();

    let absent = reg.join(&id, Role::Doer, "bob", &None);
    assert!(matches!(absent, Err(AdmissionError::WrongPassword)));

    let wrong = reg.join(&id, Role::Doer, "bob", &Some("sesam".to_string()));
    assert!(matches!(wrong, Err(AdmissionError::WrongPassword)));

    let right = reg.join(&id, Role::Doer, "bob", &Some("sesame".to_string()));
    assert!(right.is_ok());
}

#[test]
fn blank_password_at_creation_means_open_room() {
    let mut reg = RoomRegistry::new();
    let mut form = plain_form("alice", "doer", 2, 2);
    form.password = Some("   ".to_string());
    let id = reg.create(&form).unwrap();
    let r = reg.join(&id, Role::Doer, "bob", &None);
    assert!(r.is_ok());
    let listed = reg.list(Role::Doer);
    assert_eq!(listed.len(), 1);
    assert!(!listed[0].locked);
}

#[test]
fn open_room_ignores_a_supplied_password() {
    let mut reg = RoomRegistry::new();
    let id = reg.create(&plain_form("alice", "doer", 2, 2)).unwrap();
    let r = reg.join(&id, Role::Doer, "bob", &Some("whatever".to_string()));
    assert!(r.is_ok());
}

#[test]
fn last_member_leaving_collects_the_room() {
    let mut reg = RoomRegistry::new();
    let id = reg.create(&plain_form("alice", "controller", 1, 1)).unwrap();
    let adm = reg.join(&id, Role::Controller, "alice", &None).unwrap();
    assert!(reg.has_room(&id));
    reg.disconnect(&id, adm.connection_id, "alice");
    assert!(!reg.has_room(&id));
}

#[test]
fn room_stays_while_someone_remains() {
    let mut reg = RoomRegistry::new();
    let id = reg.create(&plain_form("alice", "controller", 1, 1)).unwrap();
    let a = reg.join(&id, Role::Controller, "alice", &None).unwrap();
    let b = reg.join(&id, Role::Doer, "bob", &None).unwrap();
    reg.disconnect(&id, a.connection_id, "alice");
    assert!(reg.has_room(&id));
    assert_eq!(reg.member_count(&id, Role::Controller), Some(0));
    reg.disconnect(&id, b.connection_id, "bob");
    assert!(!reg.has_room(&id));
}

#[test]
fn permanent_room_survives_emptying_and_stays_joinable() {
    let mut reg = RoomRegistry::new();
    reg.add_permanent("lobby", "The Lobby", 4, 4, None);
    let adm = reg.join("lobby", Role::Doer, "alice", &None).unwrap();
    reg.disconnect("lobby", adm.connection_id, "alice");
    assert!(reg.has_room("lobby"));
    let listed = reg.list(Role::Doer);
    assert_eq!(listed.len(), 1);
    assert_eq!(listed[0].id, "lobby");
    assert!(reg.join("lobby", Role::Doer, "bob", &None).is_ok());
}

#[test]
fn full_room_is_not_listed_for_that_role() {
    let mut reg = RoomRegistry::new();
    let id = reg.create(&plain_form("alice", "controller", 1, 3)).unwrap();
    reg.join(&id, Role::Controller, "alice", &None).unwrap();
    let for_controllers = reg.list(Role::Controller);
    assert!(for_controllers.is_empty());
    let for_doers = reg.list(Role::Doer);
    assert_eq!(for_doers.len(), 1);
    assert_eq!(for_doers[0].controller_count, 1);
    assert_eq!(for_doers[0].max_controllers, 1);
}

#[test]
fn listing_is_newest_first() {
    let mut reg = RoomRegistry::new();
    let first = reg.create(&plain_form("alice", "controller", 2, 2)).unwrap();
    let second = reg.create(&plain_form("bob", "doer", 2, 2)).unwrap();
    let third = reg.create(&plain_form("carol", "doer", 2, 2)).unwrap();
    let listed = reg.list(Role::Doer);
    assert_eq!(listed.len(), 3);
    for w in listed.windows(2) {
        assert!(w[0].created_at >= w[1].created_at);
        if w[0].created_at == w[1].created_at {
            // Ties keep registry order: the earlier-created room first.
            let order = [first.clone(), second.clone(), third.clone()];
            let lhs = order.iter().position(|x| *x == w[0].id).unwrap();
            let rhs = order.iter().position(|x| *x == w[1].id).unwrap();
            assert!(lhs < rhs);
        }
    }
    assert_eq!(listed[0].label, "Doer Room");
    // The creation-time label is a clock reading, eight characters
    // in the HH:MM:SS shape.
    let stamp = listed[0].created_label.as_bytes();
    assert_eq!(stamp.len(), 8);
    assert_eq!(stamp[2], b':');
    assert_eq!(stamp[5], b':');
}

#[test]
fn creator_role_names_the_room_label() {
    let mut reg = RoomRegistry::new();
    let id = reg.create(&plain_form("alice", "CONTROLLER", 1, 1)).unwrap();
    let listed = reg.list(Role::Doer);
    assert_eq!(listed.len(), 1);
    assert_eq!(listed[0].id, id);
    assert_eq!(listed[0].label, "Controller Room");
}
