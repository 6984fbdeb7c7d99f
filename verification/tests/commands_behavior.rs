use interaction::commands;
use interaction::commands::InteractionState;
use interaction::session;
use interaction::session::ChatAction;

fn classify_chat(line: &str) -> Option<ChatAction> {
    session::classify_frame(line, "").chat
}

#[test]
fn command_lines_are_split_on_whitespace() {
    match classify_chat("/countdown 3 done") {
        Some(ChatAction::Command { name, args }) => {
            assert_eq!(name, "countdown");
            assert_eq!(args, vec!["3".to_string(), "done".to_string()]);
        }
        other => panic!("expected a command, got {:?}", other),
    }
}

#[test]
fn command_lines_are_trimmed_first() {
    match classify_chat("   /countdown   7   ") {
        Some(ChatAction::Command { name, args }) => {
            assert_eq!(name, "countdown");
            assert_eq!(args, vec!["7".to_string()]);
        }
        other => panic!("expected a command, got {:?}", other),
    }
}

#[test]
fn bare_sigil_names_the_empty_command() {
    match classify_chat("/ 3") {
        Some(ChatAction::Command { name, args }) => {
            assert_eq!(name, "");
            assert_eq!(args, vec!["3".to_string()]);
        }
        other => panic!("expected a command, got {:?}", other),
    }
}

#[test]
fn plain_text_is_said_trimmed() {
    match classify_chat("  hello there  ") {
        Some(ChatAction::Say { text }) => assert_eq!(text, "hello there"),
        other => panic!("expected chat, got {:?}", other),
    }
}

#[test]
fn empty_fields_ask_nothing() {
    let r = session::classify_frame("", "");
    assert!(r.chat.is_none());
    assert!(r.signal.is_none());
}

#[test]
fn signal_field_is_passed_through() {
    let r = session::classify_frame("", "#b58900");
    assert!(r.chat.is_none());
    assert_eq!(r.signal.as_deref(), Some("#b58900"));
}

#[test]
fn unknown_commands_resolve_to_nothing() {
    let mut state = InteractionState::new();
    commands::register_all(&mut state);
    assert_eq!(state.commands.lookup("countdown"), Some(0));
    assert_eq!(state.commands.lookup("fly"), None);
    assert_eq!(state.commands.lookup(""), None);
}

#[test]
fn countdown_plan_counts_down_from_its_argument() {
    let args = vec!["3".to_string(), "done".to_string()];
    let plan = commands::countdown_plan(&args);
    assert_eq!(plan.seconds, 3);
    assert_eq!(
        plan.start,
        "<div hx-swap-oob=\"beforeend:#chat-container\"><div class=\"system-msg\">\
Starting countdown from 3...</div></div>"
    );
    assert_eq!(
        plan.ticks,
        vec![
            "<div hx-swap-oob=\"beforeend:#chat-container\"><div class=\"system-msg\">... 3</div></div>"
                .to_string(),
            "<div hx-swap-oob=\"beforeend:#chat-container\"><div class=\"system-msg\">... 2</div></div>"
                .to_string(),
            "<div hx-swap-oob=\"beforeend:#chat-container\"><div class=\"system-msg\">... 1</div></div>"
                .to_string(),
        ]
    );
    assert_eq!(
        plan.finish,
        "<div hx-swap-oob=\"beforeend:#chat-container\"><div class=\"system-msg\" \
style=\"color: #dc322f; font-weight: bold;\">done</div></div>"
    );
}

#[test]
fn countdown_duration_is_clamped_and_defaulted() {
    assert_eq!(commands::countdown_plan(&Vec::new()).seconds, 5);
    assert_eq!(commands::countdown_plan(&vec!["abc".to_string()]).seconds, 5);
    assert_eq!(commands::countdown_plan(&vec!["0".to_string()]).seconds, 1);
    assert_eq!(commands::countdown_plan(&vec!["100".to_string()]).seconds, 60);
    assert_eq!(commands::countdown_plan(&vec!["+4".to_string()]).seconds, 4);
    assert_eq!(
        commands::countdown_plan(&vec!["99999999999999999999".to_string()]).seconds,
        5
    );
}

#[test]
fn countdown_shout_joins_the_remaining_words() {
    let plan = commands::countdown_plan(&vec![
        "2".to_string(),
        "go".to_string(),
        "fast".to_string(),
    ]);
    assert!(plan.finish.contains(">go fast</div>"));
    let fallback = commands::countdown_plan(&vec!["2".to_string()]);
    assert!(fallback.finish.contains(">guacamole</div>"));
}

#[test]
fn numbers_parse_like_the_standard_reader() {
    assert_eq!(interaction::text::parse_u64("0"), Some(0));
    assert_eq!(interaction::text::parse_u64("007"), Some(7));
    assert_eq!(interaction::text::parse_u64("+3"), Some(3));
    assert_eq!(interaction::text::parse_u64("18446744073709551615"), Some(u64::MAX));
    assert_eq!(interaction::text::parse_u64("18446744073709551616"), None);
    assert_eq!(interaction::text::parse_u64(""), None);
    assert_eq!(interaction::text::parse_u64("+"), None);
    assert_eq!(interaction::text::parse_u64("3a"), None);
    assert_eq!(interaction::text::parse_u64("-3"), None);
}
