use interaction::commands;
use interaction::commands::InteractionState;
use interaction::ext;
use interaction::ext::Received;
use interaction::room::Role;
use interaction::session;
use interaction::session::ChatAction;
use interaction::session::SessionDuty;
use interaction::session::SessionEvent;
use interaction::session::SessionPhase;

fn next_message(rx: &mut tokio::sync::broadcast::Receiver<String>) -> String {
    match ext::receive_now(rx) {
        Received::Message(m) => m,
        other => panic!("expected a message, got {:?}", other),
    }
}

fn assert_nothing(rx: &mut tokio::sync::broadcast::Receiver<String>) {
    assert!(matches!(ext::receive_now(rx), Received::Nothing));
}

#[test]
fn escaped_chat_reaches_existing_subscribers_only() {
    let mut state = InteractionState::new();
    let form = interaction::registry::CreateRoomForm {
        username: "alice".to_string(),
        role: "controller".to_string(),
        max_controllers: 2,
        max_doers: 2,
        password: None,
    };
    let id = state.rooms.create(&form).unwrap();

    let mut a = state.rooms.join(&id, Role::Controller, "alice", &None).unwrap();
    assert_eq!(
        next_message(&mut a.receiver),
        "<div hx-swap-oob=\"beforeend:#chat-container\"><div class=\"system-msg\" \
style=\"color: #b58900; font-style: italic;\">alice (Controller) joined.</div></div>"
    );

    let mut b = state.rooms.join(&id, Role::Doer, "bob", &None).unwrap();
    next_message(&mut a.receiver); // bob's joined notice
    next_message(&mut b.receiver); // bob's own joined notice
    assert_nothing(&mut b.receiver);

    let sent = state
        .rooms
        .send_chat(&id, "alice", "<script>hi</script>")
        .expect("the room exists");
    let expected = "<div hx-swap-oob=\"beforeend:#chat-container\"><div class=\"message\">\
<span class=\"sender\" style=\"font-weight: bold; color: #268bd2;\">alice: </span>\
<span>&lt;script&gt;hi&lt;/script&gt;</span></div></div>";
    assert_eq!(sent, expected);
    assert_eq!(next_message(&mut b.receiver), expected);
    assert_eq!(next_message(&mut a.receiver), expected);

    // A subscriber that arrives only after the send never sees it.
    let mut c = state.rooms.join(&id, Role::Doer, "carol", &None).unwrap();
    let first = next_message(&mut c.receiver);
    assert!(first.contains("carol (Doer) joined."));
    assert_nothing(&mut c.receiver);
}

#[test]
fn signal_updates_publish_both_views() {
    let mut state = InteractionState::new();
    state.rooms.add_permanent("studio", "Studio", 2, 2, None);
    let mut a = state.rooms.join("studio", Role::Doer, "alice", &None).unwrap();
    assert_eq!(a.color, "#808080");
    next_message(&mut a.receiver); // joined notice

    let (circle, panel) = state.rooms.apply_signal("studio", "#dc322f").unwrap();
    assert_eq!(next_message(&mut a.receiver), circle);
    assert_eq!(next_message(&mut a.receiver), panel);
    assert!(circle.contains("background-color: #dc322f;"));
    assert!(panel.contains("btn-red active"));

    // The new color is what the next admission reports.
    let b = state.rooms.join("studio", Role::Controller, "bob", &None).unwrap();
    assert_eq!(b.color, "#dc322f");
}

#[test]
fn countdown_dispatch_never_blocks_chat() {
    let mut state = InteractionState::new();
    commands::register_all(&mut state);
    state.rooms.add_permanent("den", "Den", 2, 2, None);
    let mut a = state.rooms.join("den", Role::Controller, "alice", &None).unwrap();
    let mut b = state.rooms.join("den", Role::Doer, "bob", &None).unwrap();
    next_message(&mut a.receiver);
    next_message(&mut a.receiver);
    next_message(&mut b.receiver);

    // Alice triggers the countdown: dispatch only resolves the handler
    // and computes its plan; nothing is published yet.
    let actions = session::classify_frame("/countdown 3 done", "");
    let (name, args) = match actions.chat {
        Some(ChatAction::Command { name, args }) => (name, args),
        other => panic!("expected a command, got {:?}", other),
    };
    let slot = state.commands.lookup(&name);
    assert_eq!(slot, Some(0));
    let plan = commands::countdown_plan(&args);
    let bus = state.rooms.command_channel("den").unwrap();

    // A plain chat line from bob is delivered before any tick ran.
    state.rooms.send_chat("den", "bob", "still with you?").unwrap();
    let chat = next_message(&mut a.receiver);
    assert!(chat.contains("still with you?"));
    assert_eq!(next_message(&mut b.receiver), chat);

    // The countdown then publishes its plan on its own schedule.
    ext::publish(&bus, plan.start.clone());
    assert_eq!(next_message(&mut a.receiver), plan.start);
}

#[test]
fn late_countdown_publishes_outlive_the_room() {
    let mut state = InteractionState::new();
    commands::register_all(&mut state);
    let form = interaction::registry::CreateRoomForm {
        username: "alice".to_string(),
        role: "doer".to_string(),
        max_controllers: 1,
        max_doers: 1,
        password: None,
    };
    let id = state.rooms.create(&form).unwrap();
    let a = state.rooms.join(&id, Role::Doer, "alice", &None).unwrap();
    let bus = state.rooms.command_channel(&id).unwrap();
    let plan = commands::countdown_plan(&vec!["2".to_string()]);

    // The last member disconnects while the command still runs: the
    // room is collected on the spot.
    drop(a.receiver);
    state.rooms.disconnect(&id, a.connection_id, "alice");
    assert!(!state.rooms.has_room(&id));

    // The command's remaining publishes land on a bus with no
    // subscribers: no error, nobody reached.
    assert_eq!(ext::publish(&bus, plan.start.clone()), 0);
    for t in &plan.ticks {
        assert_eq!(ext::publish(&bus, t.clone()), 0);
    }
    assert_eq!(ext::publish(&bus, plan.finish.clone()), 0);
}

#[test]
fn session_machine_cleans_up_exactly_once() {
    let p0 = SessionPhase::Connecting;
    let (p1, d1) = session::session_step(p0, SessionEvent::Granted);
    assert_eq!((p1, d1), (SessionPhase::Admitted, SessionDuty::SpawnTasks));
    let (p2, d2) = session::session_step(p1, SessionEvent::Started);
    assert_eq!((p2, d2), (SessionPhase::Active, SessionDuty::Nothing));
    let (p3, d3) = session::session_step(p2, SessionEvent::TaskEnded);
    assert_eq!((p3, d3), (SessionPhase::Terminating, SessionDuty::CancelPeer));
    // The losing task also ends; that must not trigger a second path.
    let (p3b, d3b) = session::session_step(p3, SessionEvent::TaskEnded);
    assert_eq!((p3b, d3b), (SessionPhase::Terminating, SessionDuty::Nothing));
    let (p4, d4) = session::session_step(p3b, SessionEvent::PeerStopped);
    assert_eq!((p4, d4), (SessionPhase::Closed, SessionDuty::Cleanup));
    // Closed is terminal and silent.
    for e in [
        SessionEvent::Granted,
        SessionEvent::Refused,
        SessionEvent::Started,
        SessionEvent::TaskEnded,
        SessionEvent::PeerStopped,
    ] {
        assert_eq!(
            session::session_step(p4, e),
            (SessionPhase::Closed, SessionDuty::Nothing)
        );
    }
}

#[test]
fn refused_admission_closes_without_a_session() {
    let (p, d) = session::session_step(SessionPhase::Connecting, SessionEvent::Refused);
    assert_eq!((p, d), (SessionPhase::Closed, SessionDuty::RejectAndClose));
}

#[test]
fn upgrade_parameters_are_checked_before_admission() {
    let ok = session::prepare_ws(&interaction::registry::WsParams {
        role: "CONTROLLER".to_string(),
        username: "  alice  ".to_string(),
    });
    match ok {
        Ok((role, name)) => {
            assert_eq!(role, Role::Controller);
            assert_eq!(name, "alice");
        }
        Err(_) => panic!("a trimmed non-blank name is accepted"),
    }
    let refused = session::prepare_ws(&interaction::registry::WsParams {
        role: "doer".to_string(),
        username: "   ".to_string(),
    });
    assert!(matches!(
        refused,
        Err(interaction::registry::AdmissionError::EmptyUsername)
    ));
}

#[test]
fn uploads_publish_prerendered_fragments() {
    let mut state = InteractionState::new();
    state.rooms.add_permanent("shed", "Shed", 2, 2, None);
    let mut a = state.rooms.join("shed", Role::Doer, "alice", &None).unwrap();
    next_message(&mut a.receiver);
    let body = "Shared file: <a href=\"data:text/plain;base64,aGk=\" download=\"hi.txt\" \
style=\"color: #268bd2;\">hi.txt</a>";
    let sent = state.rooms.publish_fragment("shed", "alice", body).unwrap();
    assert!(sent.contains(body));
    assert_eq!(next_message(&mut a.receiver), sent);
    assert!(state.rooms.publish_fragment("gone", "alice", body).is_none());
}

#[test]
fn slow_subscribers_lose_oldest_messages_and_never_block_senders() {
    let mut state = InteractionState::new();
    state.rooms.add_permanent("busy", "Busy", 2, 2, None);
    let _member = state.rooms.join("busy", Role::Doer, "alice", &None).unwrap();
    let mut slow = state.rooms.subscribe("busy").expect("the room exists");

    // Publishing far past the buffer size never blocks or fails.
    for i in 0..300 {
        let sent = state.rooms.send_chat("busy", "alice", &format!("note {i}"));
        assert!(sent.is_some());
    }

    // The slow subscriber lost the oldest messages, keeps the newest,
    // and stays subscribed.
    assert!(matches!(ext::receive_now(&mut slow), Received::Lagged(_)));
    let mut kept = 0;
    loop {
        match ext::receive_now(&mut slow) {
            Received::Message(m) => {
                assert!(m.contains("note "));
                kept += 1;
            }
            Received::Nothing => break,
            other => panic!("unexpected outcome {:?}", other),
        }
    }
    assert!(kept > 0);
    assert!(kept < 300);
    assert!(matches!(ext::receive_now(&mut slow), Received::Nothing));
}
