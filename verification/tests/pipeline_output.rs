use interaction::pipeline;
use interaction::room::Role;
use interaction::utils;

#[test]
fn markup_delimiters_are_escaped() {
    assert_eq!(
        pipeline::escape_markup("<script>hi</script>"),
        "&lt;script&gt;hi&lt;/script&gt;"
    );
    assert_eq!(pipeline::escape_markup("plain"), "plain");
    assert_eq!(pipeline::escape_markup(""), "");
    assert_eq!(pipeline::escape_markup("a < b > c"), "a &lt; b &gt; c");
}

#[test]
fn link_text_is_wrapped() {
    assert_eq!(
        pipeline::linkify("http://x".to_string()),
        "<a href=\"http://x\" target=\"_blank\" style=\"color: #268bd2;\">http://x</a>"
    );
    assert_eq!(pipeline::linkify("see http://x".to_string()), "see http://x");
    assert_eq!(pipeline::linkify("hello".to_string()), "hello");
}

#[test]
fn chat_fragment_has_sender_and_body() {
    let expected = "<div hx-swap-oob=\"beforeend:#chat-container\"><div class=\"message\">\
<span class=\"sender\" style=\"font-weight: bold; color: #268bd2;\">alice: </span>\
<span>&lt;script&gt;hi&lt;/script&gt;</span></div></div>";
    assert_eq!(pipeline::render_chat("alice", "<script>hi</script>"), expected);
}

#[test]
fn notices_are_system_fragments() {
    assert_eq!(
        pipeline::joined_notice("alice", Role::Controller),
        "<div hx-swap-oob=\"beforeend:#chat-container\"><div class=\"system-msg\" \
style=\"color: #b58900; font-style: italic;\">alice (Controller) joined.</div></div>"
    );
    assert_eq!(
        pipeline::left_notice("bob"),
        "<div hx-swap-oob=\"beforeend:#chat-container\"><div class=\"system-msg\" \
style=\"color: #b58900; font-style: italic;\">bob left.</div></div>"
    );
}

#[test]
fn signal_circle_carries_the_color() {
    let s = pipeline::signal_circle("#dc322f", true);
    assert_eq!(
        s,
        "<div id=\"signal-circle\" style=\"width: 200px; height: 200px; border-radius: 50%; \
background-color: #dc322f; margin: 0 auto; transition: background-color 0.3s;\" \
hx-swap-oob=\"true\"></div>"
    );
    let inline = pipeline::signal_circle("#808080", false);
    assert!(!inline.contains("hx-swap-oob"));
    assert!(inline.contains("background-color: #808080;"));
}

#[test]
fn controller_panel_marks_the_active_color() {
    let p = pipeline::controller_panel("#859900", true);
    assert!(p.starts_with(
        "<div id=\"view-controller\" style=\"text-align: center; margin-bottom: 20px;\" \
hx-swap-oob=\"true\"><form hx-ws=\"send\" style=\"display: inline-block;\">"
    ));
    assert!(p.contains(
        "<button class=\"color-btn btn-green active\" name=\"signal\" value=\"#859900\">Green</button>"
    ));
    assert!(p.contains(
        "<button class=\"color-btn btn-red \" name=\"signal\" value=\"#dc322f\">Red</button>"
    ));
    assert!(p.ends_with("</form></div>"));
}

#[test]
fn room_view_encodes_the_username_in_the_socket_url() {
    let v = pipeline::render_room_view("room-1", Role::Doer, "alice liddell", "#808080");
    assert!(v.contains("ws-connect=\"/ws/interaction/room-1?role=Doer&username=alice%20liddell\""));
    assert_eq!(
        urlencoding::encode("alice liddell"),
        "alice%20liddell"
    );
    assert!(v.contains("<div id=\"view-doer\""));
    assert!(!v.contains("<div id=\"view-controller\""));
    assert!(v.contains("Connected as alice liddell."));
    assert!(v.contains("hx-post=\"/interaction/upload/room-1\""));
}

#[test]
fn room_view_shows_the_controller_surface_to_controllers() {
    let v = pipeline::render_room_view("room-2", Role::Controller, "bob", "#268bd2");
    assert!(v.contains("<div id=\"view-controller\""));
    assert!(!v.contains("<div id=\"view-doer\""));
    assert!(v.contains(
        "<button class=\"color-btn btn-blue active\" name=\"signal\" value=\"#268bd2\">Blue</button>"
    ));
}

#[test]
fn password_prompt_carries_the_join_parameters() {
    let p = pipeline::render_password_prompt("room-3", "doer", "alice", None);
    assert!(p.contains("<h3>Password Required</h3>"));
    assert!(p.contains("name=\"room_id\" value=\"room-3\""));
    assert!(p.contains("name=\"role\" value=\"doer\""));
    assert!(p.contains("name=\"username\" value=\"alice\""));
    assert!(!p.contains("Incorrect password"));

    let q = pipeline::render_password_prompt("room-3", "doer", "alice", Some("Incorrect password"));
    assert!(q.contains("<p style='color: #dc322f;'>Incorrect password</p>"));
}

#[test]
fn empty_listing_has_its_own_notice() {
    let html = pipeline::render_room_list("alice", Role::Doer, &Vec::new());
    assert_eq!(html, "<p>No rooms available.</p>");
}

#[test]
fn address_form_follows_the_scope() {
    assert_eq!(utils::format_address("localhost", "10.0.0.2", 8080), "127.0.0.1:8080");
    assert_eq!(utils::format_address(" Local ", "10.0.0.2", 8080), "127.0.0.1:8080");
    assert_eq!(utils::format_address("lan", "10.0.0.2", 443), "10.0.0.2:443");
    assert_eq!(utils::format_address("PROD", "10.0.0.2", 80), "[::]:80");
    assert_eq!(utils::format_address("production", "10.0.0.2", 80), "[::]:80");
    assert_eq!(utils::format_address("public", "10.0.0.2", 80), "[::]:80");
    assert_eq!(utils::format_address("sideways", "10.0.0.2", 80), "127.0.0.1:80");
}

#[test]
fn media_files_are_told_apart_by_extension() {
    assert!(utils::is_image_file("cat.png"));
    assert!(utils::is_image_file("cat.webp"));
    assert!(utils::is_image_file("drawing.ai"));
    assert!(!utils::is_image_file("cat.mp4"));
    assert!(utils::is_video_file("cat.mp4"));
    assert!(utils::is_video_file("cat.ogg"));
    assert!(!utils::is_video_file("cat.gif"));
    assert_eq!(utils::get_video_mime_type("a.mp4"), "mp4");
    assert_eq!(utils::get_video_mime_type("a.mkv"), "mp4");
    assert_eq!(utils::get_video_mime_type("a.webm"), "webm");
    assert_eq!(utils::get_video_mime_type("a.ogg"), "ogg");
    assert_eq!(utils::get_video_mime_type("a.txt"), "unknown");
}

#[test]
fn upload_limit_reads_numbers_and_names_the_fallback() {
    let some: Option<u64> = Some(1000);
    assert_eq!(interaction::limits::parse_upload_limit(&some), Ok(1000usize));
    let none: Option<u64> = None;
    assert_eq!(interaction::limits::parse_upload_limit(&none), Err("default"));
}
