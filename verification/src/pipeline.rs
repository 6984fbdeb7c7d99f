//! The message pipeline: escapes raw chat text, wraps links, and
//! renders every outbound fragment — chat lines, system notices and
//! the two signal views — in the engine's one wire convention,
//! fragments patched out-of-band into named containers.

use vstd::prelude::*;

use crate::ext;
use crate::room::Role;
use crate::room::role_label;
use crate::text;

verus! {

/// How one character of chat text reaches the wire: the markup
/// delimiters are escaped, everything else passes through.
pub open spec fn escape_char(c: char) -> Seq<char> {
    if c == '<' {
        "&lt;"@
    } else if c == '>' {
        "&gt;"@
    } else {
        seq![c]
    }
}

/// Chat text with `<` and `>` escaped.
pub open spec fn escape_spec(s: Seq<char>) -> Seq<char>
    decreases s.len(),
{
    if s.len() == 0 {
        Seq::empty()
    } else {
        escape_spec(s.drop_last()) + escape_char(s.last())
    }
}

/// Escapes `<` and `>` in chat text.
pub fn escape_markup(s: &str) -> (r: String)
    ensures
        r@ == escape_spec(s@),
{
    let n = s.unicode_len();
    let mut out = String::new();
    let mut i: usize = 0;
    while i < n
        invariant
            i <= n,
            n == s@.len(),
            out@ == escape_spec(s@.take(i as int)),
        decreases n - i,
    {
        let c = s.get_char(i);
        if c == '<' {
            out.append("&lt;");
        } else if c == '>' {
            out.append("&gt;");
        } else {
            text::push_char(&mut out, c);
        }
        proof {
            assert(s@.take(i + 1).drop_last() =~= s@.take(i as int));
            assert(s@.take(i + 1).last() == s@[i as int]);
            assert(seq![s@[i as int]] =~= Seq::empty().push(s@[i as int]));
        }
        i = i + 1;
    }
    proof {
        assert(s@.take(n as int) =~= s@);
    }
    out
}

/// Text that looks like a link is wrapped as one; everything else is
/// left alone.
pub open spec fn linkify_spec(s: Seq<char>) -> Seq<char> {
    if text::starts_with_spec(s, "http"@) {
        "<a href=\""@ + s + "\" target=\"_blank\" style=\"color: #268bd2;\">"@ + s + "</a>"@
    } else {
        s
    }
}

/// Wraps `s` as a clickable link when it starts with `http`.
pub fn linkify(s: String) -> (r: String)
    ensures
        r@ == linkify_spec(s@),
{
    if text::str_starts_with(s.as_str(), "http") {
        let mut out = String::new();
        out.append("<a href=\"");
        out.append(s.as_str());
        out.append("\" target=\"_blank\" style=\"color: #268bd2;\">");
        out.append(s.as_str());
        out.append("</a>");
        proof {
            assert(out@ =~= linkify_spec(s@));
        }
        out
    } else {
        s
    }
}

/// The renderable body of one chat line: escaped, then link-wrapped.
pub open spec fn chat_body_spec(t: Seq<char>) -> Seq<char> {
    linkify_spec(escape_spec(t))
}

/// A chat fragment: the sender's name and the prepared body, tagged
/// for append-only insertion into the chat container.
pub open spec fn chat_fragment_spec(user: Seq<char>, body: Seq<char>) -> Seq<char> {
    "<div hx-swap-oob=\"beforeend:#chat-container\"><div class=\"message\"><span class=\"sender\" style=\"font-weight: bold; color: #268bd2;\">"@
        + user + ": </span><span>"@ + body + "</span></div></div>"@
}

/// Wraps an already-prepared body and its sender into a chat fragment.
pub fn chat_fragment(username: &str, body: &str) -> (r: String)
    ensures
        r@ == chat_fragment_spec(username@, body@),
{
    let mut out = String::new();
    out.append(
        "<div hx-swap-oob=\"beforeend:#chat-container\"><div class=\"message\"><span class=\"sender\" style=\"font-weight: bold; color: #268bd2;\">",
    );
    out.append(username);
    out.append(": </span><span>");
    out.append(body);
    out.append("</span></div></div>");
    proof {
        assert(out@ =~= chat_fragment_spec(username@, body@));
    }
    out
}

/// A whole chat line, from raw trimmed text to wire fragment.
pub fn render_chat(username: &str, text_line: &str) -> (r: String)
    ensures
        r@ == chat_fragment_spec(username@, chat_body_spec(text_line@)),
{
    let body = linkify(escape_markup(text_line));
    chat_fragment(username, body.as_str())
}

/// A system notice: visually distinct, same append mechanism as chat.
pub open spec fn system_fragment_spec(text_line: Seq<char>) -> Seq<char> {
    "<div hx-swap-oob=\"beforeend:#chat-container\"><div class=\"system-msg\" style=\"color: #b58900; font-style: italic;\">"@
        + text_line + "</div></div>"@
}

/// Wraps `text_line` as a system notice fragment.
pub fn system_fragment(text_line: &str) -> (r: String)
    ensures
        r@ == system_fragment_spec(text_line@),
{
    let mut out = String::new();
    out.append(
        "<div hx-swap-oob=\"beforeend:#chat-container\"><div class=\"system-msg\" style=\"color: #b58900; font-style: italic;\">",
    );
    out.append(text_line);
    out.append("</div></div>");
    proof {
        assert(out@ =~= system_fragment_spec(text_line@));
    }
    out
}

/// The wording of the notice broadcast when a member is admitted.
pub open spec fn joined_text_spec(user: Seq<char>, role: Role) -> Seq<char> {
    user + " ("@ + role_label(role) + ") joined."@
}

/// The notice broadcast when a member is admitted.
pub fn joined_notice(username: &str, role: Role) -> (r: String)
    ensures
        r@ == system_fragment_spec(joined_text_spec(username@, role)),
{
    let mut t = String::new();
    t.append(username);
    t.append(" (");
    t.append(role.as_str());
    t.append(") joined.");
    proof {
        assert(t@ =~= joined_text_spec(username@, role));
    }
    system_fragment(t.as_str())
}

/// The wording of the notice broadcast when a member leaves.
pub open spec fn left_text_spec(user: Seq<char>) -> Seq<char> {
    user + " left."@
}

/// The notice broadcast when a member leaves.
pub fn left_notice(username: &str) -> (r: String)
    ensures
        r@ == system_fragment_spec(left_text_spec(username@)),
{
    let mut t = String::new();
    t.append(username);
    t.append(" left.");
    system_fragment(t.as_str())
}

/// The passive signal view: a circle filled with the current color.
/// With `oob` set it is tagged to replace the one already on
/// subscribers' clients.
pub open spec fn signal_circle_spec(color: Seq<char>, oob: bool) -> Seq<char> {
    "<div id=\"signal-circle\" style=\"width: 200px; height: 200px; border-radius: 50%; background-color: "@
        + color + "; margin: 0 auto; transition: background-color 0.3s;\""@ + (if oob {
        " hx-swap-oob=\"true\""@
    } else {
        Seq::empty()
    }) + "></div>"@
}

/// Renders the passive signal view for `color`.
pub fn signal_circle(color: &str, oob: bool) -> (r: String)
    ensures
        r@ == signal_circle_spec(color@, oob),
{
    let mut out = String::new();
    out.append(
        "<div id=\"signal-circle\" style=\"width: 200px; height: 200px; border-radius: 50%; background-color: ",
    );
    out.append(color);
    out.append("; margin: 0 auto; transition: background-color 0.3s;\"");
    if oob {
        out.append(" hx-swap-oob=\"true\"");
    }
    out.append("></div>");
    proof {
        assert(out@ =~= signal_circle_spec(color@, oob));
    }
    out
}

/// The marker a control button carries exactly when its color is the
/// room's current one.
pub open spec fn active_mark_spec(color: Seq<char>, value: Seq<char>) -> Seq<char> {
    if color == value {
        "active"@
    } else {
        Seq::empty()
    }
}

/// One color button of the active control surface.
pub open spec fn signal_button_spec(
    color: Seq<char>,
    value: Seq<char>,
    class: Seq<char>,
    name: Seq<char>,
) -> Seq<char> {
    "<button class=\"color-btn "@ + class + " "@ + active_mark_spec(color, value)
        + "\" name=\"signal\" value=\""@ + value + "\">"@ + name + "</button>"@
}

fn signal_button(color: &str, value: &str, class: &str, name: &str) -> (r: String)
    ensures
        r@ == signal_button_spec(color@, value@, class@, name@),
{
    let mut out = String::new();
    out.append("<button class=\"color-btn ");
    out.append(class);
    out.append(" ");
    if text::str_eq(color, value) {
        out.append("active");
    }
    out.append("\" name=\"signal\" value=\"");
    out.append(value);
    out.append("\">");
    out.append(name);
    out.append("</button>");
    proof {
        assert(out@ =~= signal_button_spec(color@, value@, class@, name@));
    }
    out
}

/// The active control surface: four color buttons, the current color
/// marked. With `oob` set it is tagged to replace the one already on
/// controllers' clients.
pub open spec fn controller_panel_spec(color: Seq<char>, oob: bool) -> Seq<char> {
    "<div id=\"view-controller\" style=\"text-align: center; margin-bottom: 20px;\""@ + (if oob {
        " hx-swap-oob=\"true\""@
    } else {
        Seq::empty()
    }) + "><form hx-ws=\"send\" style=\"display: inline-block;\">"@
        + signal_button_spec(color, "#dc322f"@, "btn-red"@, "Red"@)
        + signal_button_spec(color, "#859900"@, "btn-green"@, "Green"@)
        + signal_button_spec(color, "#268bd2"@, "btn-blue"@, "Blue"@)
        + signal_button_spec(color, "#b58900"@, "btn-yellow"@, "Yellow"@) + "</form></div>"@
}

/// Renders the active control surface for `color`.
pub fn controller_panel(color: &str, oob: bool) -> (r: String)
    ensures
        r@ == controller_panel_spec(color@, oob),
{
    let mut out = String::new();
    out.append("<div id=\"view-controller\" style=\"text-align: center; margin-bottom: 20px;\"");
    if oob {
        out.append(" hx-swap-oob=\"true\"");
    }
    out.append("><form hx-ws=\"send\" style=\"display: inline-block;\">");
    out.append(signal_button(color, "#dc322f", "btn-red", "Red").as_str());
    out.append(signal_button(color, "#859900", "btn-green", "Green").as_str());
    out.append(signal_button(color, "#268bd2", "btn-blue", "Blue").as_str());
    out.append(signal_button(color, "#b58900", "btn-yellow", "Yellow").as_str());
    out.append("</form></div>");
    proof {
        assert(out@ =~= controller_panel_spec(color@, oob));
    }
    out
}

} // verus!

use crate::registry::SummaryV;
use crate::registry::RoomSummary;

verus! {

/// The address a room's live socket is reached at, the display name
/// percent-encoded.
pub open spec fn ws_url_spec(room_id: Seq<char>, role: Role, user: Seq<char>) -> Seq<char> {
    "/ws/interaction/"@ + room_id + "?role="@ + role_label(role) + "&username="@
        + ext::url_encoded(user)
}

/// The passive view a doer gets inside the room page; everyone else
/// gets nothing here.
pub open spec fn doer_ui_spec(role: Role, color: Seq<char>) -> Seq<char> {
    if role == Role::Doer {
        "<div id=\"view-doer\" style=\"margin-bottom: 20px; text-align: center;\">"@
            + signal_circle_spec(color, false) + "<p>Watch the circle!</p></div>"@
    } else {
        Seq::empty()
    }
}

/// The control surface a controller gets inside the room page;
/// everyone else gets nothing here.
pub open spec fn controller_ui_spec(role: Role, color: Seq<char>) -> Seq<char> {
    if role == Role::Controller {
        controller_panel_spec(color, false)
    } else {
        Seq::empty()
    }
}

/// The client-side scroll keeper of the chat container.
pub open spec fn room_view_script_spec() -> Seq<char> {
    "<script>(function() { var c = document.getElementById(\"chat-container\"); var stick = true; c.addEventListener(\"scroll\", function() { stick = (c.scrollHeight - c.scrollTop - c.clientHeight) <= 10; }); new MutationObserver(function(ms) { if (!stick) { return; } requestAnimationFrame(function() { c.scrollTop = c.scrollHeight; }); ms.forEach(function(m) { m.addedNodes.forEach(function(n) { if (n.nodeType === 1) { var imgs = n.getElementsByTagName(\"img\"); for (var i = 0; i < imgs.length; i++) { var img = imgs[i]; var go = function() { c.scrollTop = c.scrollHeight; }; if (img.complete) { go(); } else { img.addEventListener(\"load\", go); } } } }); }); }).observe(c, { childList: true, subtree: true });})();</script>"@
}

/// The live session view: the socket hookup, the header, the role's
/// own surface, the chat container with its connected notice, the
/// chat and upload forms, and the scroll keeper.
pub open spec fn room_view_spec(
    room_id: Seq<char>,
    role: Role,
    user: Seq<char>,
    color: Seq<char>,
) -> Seq<char> {
    "<div id=\"room-container\" hx-ext=\"ws\" ws-connect=\""@ + ws_url_spec(room_id, role, user)
        + "\"><div style=\"display: flex; justify-content: space-between; align-items: center; border-bottom: 1px solid #586e75; padding-bottom: 10px; margin-bottom: 20px;\"><h2>Room: "@
        + role_label(role) + " ("@ + user
        + ")</h2><button hx-get=\"/interaction\" hx-target=\"body\" style=\"background-color: #dc322f; color: white; border: none; padding: 5px 10px; cursor: pointer;\">Leave</button></div>"@
        + doer_ui_spec(role, color) + controller_ui_spec(role, color)
        + "<h3>Chat</h3><div id=\"chat-container\" style=\"height: 400px; overflow-y: scroll; border: 1px solid #586e75; padding: 10px; background: #002b36; margin-bottom: 10px;\"><div class=\"system-msg\" style=\"color: #b58900; font-style: italic;\">Connected as "@
        + user
        + ".</div></div><div style=\"display: flex; gap: 10px;\"><form hx-ws=\"send\" hx-on:htmx:ws-after-send=\"this.reset()\" style=\"flex-grow: 1; display: flex; gap: 5px;\"><input type=\"text\" name=\"chat_message\" placeholder=\"Type a message or /command...\" style=\"flex-grow: 1; padding: 10px;\" required autocomplete=\"off\"><button type=\"submit\" style=\"padding: 10px;\">Send</button></form><form hx-post=\"/interaction/upload/"@
        + room_id
        + "\" hx-encoding=\"multipart/form-data\" hx-target=\"#upload-status\" hx-on:htmx:after-request=\"this.reset()\" style=\"display: flex; align-items: center;\"><input type=\"hidden\" name=\"username\" value=\""@
        + user
        + "\"><label for=\"file-upload\" style=\"cursor: pointer; padding: 10px; font-size: 1.5em;\" title=\"Upload File\">&#128206;</label><input id=\"file-upload\" type=\"file\" name=\"file\" style=\"display: none;\" onchange=\"this.form.requestSubmit()\"><span id=\"upload-status\" style=\"font-size: 0.8em; margin-left: 5px;\"></span></form></div>"@
        + room_view_script_spec() + "</div>"@
}

/// Renders the live session view a member sees after admission.
pub fn render_room_view(room_id: &str, role: Role, username: &str, current_color: &str) -> (r:
    String)
    ensures
        r@ == room_view_spec(room_id@, role, username@, current_color@),
{
    let mut out = String::new();
    out.append("<div id=\"room-container\" hx-ext=\"ws\" ws-connect=\"");
    out.append("/ws/interaction/");
    out.append(room_id);
    out.append("?role=");
    out.append(role.as_str());
    out.append("&username=");
    out.append(ext::url_encode(username).as_str());
    out.append(
        "\"><div style=\"display: flex; justify-content: space-between; align-items: center; border-bottom: 1px solid #586e75; padding-bottom: 10px; margin-bottom: 20px;\"><h2>Room: ",
    );
    out.append(role.as_str());
    out.append(" (");
    out.append(username);
    out.append(
        ")</h2><button hx-get=\"/interaction\" hx-target=\"body\" style=\"background-color: #dc322f; color: white; border: none; padding: 5px 10px; cursor: pointer;\">Leave</button></div>",
    );
    if role == Role::Doer {
        out.append("<div id=\"view-doer\" style=\"margin-bottom: 20px; text-align: center;\">");
        out.append(signal_circle(current_color, false).as_str());
        out.append("<p>Watch the circle!</p></div>");
    }
    if role == Role::Controller {
        out.append(controller_panel(current_color, false).as_str());
    }
    out.append(
        "<h3>Chat</h3><div id=\"chat-container\" style=\"height: 400px; overflow-y: scroll; border: 1px solid #586e75; padding: 10px; background: #002b36; margin-bottom: 10px;\"><div class=\"system-msg\" style=\"color: #b58900; font-style: italic;\">Connected as ",
    );
    out.append(username);
    out.append(
        ".</div></div><div style=\"display: flex; gap: 10px;\"><form hx-ws=\"send\" hx-on:htmx:ws-after-send=\"this.reset()\" style=\"flex-grow: 1; display: flex; gap: 5px;\"><input type=\"text\" name=\"chat_message\" placeholder=\"Type a message or /command...\" style=\"flex-grow: 1; padding: 10px;\" required autocomplete=\"off\"><button type=\"submit\" style=\"padding: 10px;\">Send</button></form><form hx-post=\"/interaction/upload/",
    );
    out.append(room_id);
    out.append(
        "\" hx-encoding=\"multipart/form-data\" hx-target=\"#upload-status\" hx-on:htmx:after-request=\"this.reset()\" style=\"display: flex; align-items: center;\"><input type=\"hidden\" name=\"username\" value=\"",
    );
    out.append(username);
    out.append(
        "\"><label for=\"file-upload\" style=\"cursor: pointer; padding: 10px; font-size: 1.5em;\" title=\"Upload File\">&#128206;</label><input id=\"file-upload\" type=\"file\" name=\"file\" style=\"display: none;\" onchange=\"this.form.requestSubmit()\"><span id=\"upload-status\" style=\"font-size: 0.8em; margin-left: 5px;\"></span></form></div>",
    );
    out.append(
        "<script>(function() { var c = document.getElementById(\"chat-container\"); var stick = true; c.addEventListener(\"scroll\", function() { stick = (c.scrollHeight - c.scrollTop - c.clientHeight) <= 10; }); new MutationObserver(function(ms) { if (!stick) { return; } requestAnimationFrame(function() { c.scrollTop = c.scrollHeight; }); ms.forEach(function(m) { m.addedNodes.forEach(function(n) { if (n.nodeType === 1) { var imgs = n.getElementsByTagName(\"img\"); for (var i = 0; i < imgs.length; i++) { var img = imgs[i]; var go = function() { c.scrollTop = c.scrollHeight; }; if (img.complete) { go(); } else { img.addEventListener(\"load\", go); } } } }); }); }).observe(c, { childList: true, subtree: true });})();</script>",
    );
    out.append("</div>");
    proof {
        assert(out@ =~= room_view_spec(room_id@, role, username@, current_color@));
    }
    out
}

/// The error line of a password challenge, when there is one to show.
pub open spec fn prompt_error_spec(error: Option<Seq<char>>) -> Seq<char> {
    match error {
        Some(msg) => "<p style='color: #dc322f;'>"@ + msg + "</p>"@,
        None => Seq::empty(),
    }
}

/// The password-challenge view: the retry form with the join's
/// parameters carried along, and the error line when an attempt
/// already failed.
pub open spec fn password_prompt_spec(
    room_id: Seq<char>,
    role: Seq<char>,
    user: Seq<char>,
    error: Option<Seq<char>>,
) -> Seq<char> {
    "<div style=\"border: 1px solid #586e75; padding: 20px; max-width: 400px; margin: 20px auto; background: #073642;\"><h3>Password Required</h3>"@
        + prompt_error_spec(error)
        + "<form hx-post=\"/interaction/join\" hx-target=\"#main-container\"><input type=\"hidden\" name=\"room_id\" value=\""@
        + room_id + "\"><input type=\"hidden\" name=\"role\" value=\""@ + role
        + "\"><input type=\"hidden\" name=\"username\" value=\""@ + user
        + "\"><div style=\"margin-bottom: 15px;\"><label style=\"display: block; margin-bottom: 5px;\">Password:</label><input type=\"password\" name=\"password\" style=\"width: 100%; padding: 8px;\" autofocus required></div><div style=\"display: flex; gap: 10px;\"><button type=\"submit\" style=\"padding: 10px 20px;\">Unlock</button><button hx-get=\"/interaction\" hx-target=\"body\" style=\"background: #dc322f; color: white; border: none; padding: 10px 20px;\">Cancel</button></div></form></div>"@
}

/// Renders the password challenge a locked room answers with.
pub fn render_password_prompt(room_id: &str, role: &str, username: &str, error: Option<&str>) -> (r:
    String)
    ensures
        r@ == password_prompt_spec(
            room_id@,
            role@,
            username@,
            match error {
                Some(m) => Some(m@),
                None => None,
            },
        ),
{
    let mut out = String::new();
    out.append(
        "<div style=\"border: 1px solid #586e75; padding: 20px; max-width: 400px; margin: 20px auto; background: #073642;\"><h3>Password Required</h3>",
    );
    if let Some(msg) = error {
        out.append("<p style='color: #dc322f;'>");
        out.append(msg);
        out.append("</p>");
    }
    out.append(
        "<form hx-post=\"/interaction/join\" hx-target=\"#main-container\"><input type=\"hidden\" name=\"room_id\" value=\"",
    );
    out.append(room_id);
    out.append("\"><input type=\"hidden\" name=\"role\" value=\"");
    out.append(role);
    out.append("\"><input type=\"hidden\" name=\"username\" value=\"");
    out.append(username);
    out.append(
        "\"><div style=\"margin-bottom: 15px;\"><label style=\"display: block; margin-bottom: 5px;\">Password:</label><input type=\"password\" name=\"password\" style=\"width: 100%; padding: 8px;\" autofocus required></div><div style=\"display: flex; gap: 10px;\"><button type=\"submit\" style=\"padding: 10px 20px;\">Unlock</button><button hx-get=\"/interaction\" hx-target=\"body\" style=\"background: #dc322f; color: white; border: none; padding: 10px 20px;\">Cancel</button></div></form></div>",
    );
    proof {
        assert(out@ =~= password_prompt_spec(
            room_id@,
            role@,
            username@,
            match error {
                Some(m) => Some(m@),
                None => None,
            },
        ));
    }
    out
}

/// How a role names itself in a join form's hidden field.
pub open spec fn role_value_spec(role: Role) -> Seq<char> {
    match role {
        Role::Controller => "controller"@,
        Role::Doer => "doer"@,
    }
}

/// The occupancy line a listing shows for the requested role.
pub open spec fn summary_info_spec(role: Role, s: SummaryV) -> Seq<char> {
    match role {
        Role::Controller => "Controllers: "@ + text::dec_str(s.controller_count as nat) + "/"@
            + text::dec_str(s.max_controllers as nat),
        Role::Doer => "Doers: "@ + text::dec_str(s.doer_count as nat) + "/"@ + text::dec_str(
            s.max_doers as nat,
        ),
    }
}

/// The lock mark a password-protected room carries in a listing.
pub open spec fn lock_mark_spec(locked: bool) -> Seq<char> {
    if locked {
        "&#128274; "@
    } else {
        Seq::empty()
    }
}

/// One room's entry in a listing: a join form around the label, the
/// occupancy, and the creation time.
pub open spec fn list_item_spec(user: Seq<char>, role: Role, s: SummaryV) -> Seq<char> {
    "<div class=\"room-list-item\" style=\"border: 1px solid #586e75; padding: 10px; margin-bottom: 5px;\"><form hx-post=\"/interaction/join\" hx-target=\"#main-container\"><input type=\"hidden\" name=\"username\" value=\""@
        + user + "\"><input type=\"hidden\" name=\"role\" value=\""@ + role_value_spec(role)
        + "\"><input type=\"hidden\" name=\"room_id\" value=\""@ + s.id
        + "\"><div style=\"display: flex; justify-content: space-between; align-items: center;\"><div><strong>"@
        + lock_mark_spec(s.locked) + s.label + "</strong> <small>("@ + summary_info_spec(role, s)
        + ")</small><br><span style=\"font-size: 0.8em; color: #93a1a1;\">"@ + s.created_label
        + "</span></div><button type=\"submit\">Join</button></div></form></div>"@
}

/// Every entry of a listing, in the listing's order.
pub open spec fn list_items_spec(user: Seq<char>, role: Role, ss: Seq<SummaryV>) -> Seq<char>
    decreases ss.len(),
{
    if ss.len() == 0 {
        Seq::empty()
    } else {
        list_items_spec(user, role, ss.drop_last()) + list_item_spec(user, role, ss.last())
    }
}

/// The whole listing view: the entries in their wrapper, or the
/// no-rooms notice.
pub open spec fn room_list_spec(user: Seq<char>, role: Role, ss: Seq<SummaryV>) -> Seq<char> {
    if ss.len() == 0 {
        "<p>No rooms available.</p>"@
    } else {
        "<div class='room-list'>"@ + list_items_spec(user, role, ss) + "</div>"@
    }
}

fn render_list_item(username: &str, role: Role, s: &RoomSummary) -> (r: String)
    ensures
        r@ == list_item_spec(username@, role, s@),
{
    let mut out = String::new();
    out.append(
        "<div class=\"room-list-item\" style=\"border: 1px solid #586e75; padding: 10px; margin-bottom: 5px;\"><form hx-post=\"/interaction/join\" hx-target=\"#main-container\"><input type=\"hidden\" name=\"username\" value=\"",
    );
    out.append(username);
    out.append("\"><input type=\"hidden\" name=\"role\" value=\"");
    match role {
        Role::Controller => out.append("controller"),
        Role::Doer => out.append("doer"),
    }
    out.append("\"><input type=\"hidden\" name=\"room_id\" value=\"");
    out.append(s.id.as_str());
    out.append(
        "\"><div style=\"display: flex; justify-content: space-between; align-items: center;\"><div><strong>",
    );
    if s.locked {
        out.append("&#128274; ");
    }
    out.append(s.label.as_str());
    out.append("</strong> <small>(");
    match role {
        Role::Controller => {
            out.append("Controllers: ");
            out.append(text::usize_to_string(s.controller_count).as_str());
            out.append("/");
            out.append(text::usize_to_string(s.max_controllers).as_str());
        },
        Role::Doer => {
            out.append("Doers: ");
            out.append(text::usize_to_string(s.doer_count).as_str());
            out.append("/");
            out.append(text::usize_to_string(s.max_doers).as_str());
        },
    }
    out.append(")</small><br><span style=\"font-size: 0.8em; color: #93a1a1;\">");
    out.append(s.created_label.as_str());
    out.append("</span></div><button type=\"submit\">Join</button></div></form></div>");
    proof {
        assert(out@ =~= list_item_spec(username@, role, s@));
    }
    out
}

/// Renders a whole listing for the asking user.
pub fn render_room_list(username: &str, role: Role, rooms: &Vec<RoomSummary>) -> (r: String)
    ensures
        r@ == room_list_spec(username@, role, rooms@.map_values(|s: RoomSummary| s@)),
{
    let ghost ss = rooms@.map_values(|s: RoomSummary| s@);
    let n = rooms.len();
    if n == 0 {
        let mut out = String::new();
        out.append("<p>No rooms available.</p>");
        proof {
            assert(out@ =~= room_list_spec(username@, role, ss));
        }
        return out;
    }
    let mut out = String::new();
    out.append("<div class='room-list'>");
    let mut i: usize = 0;
    while i < n
        invariant
            i <= n,
            n == rooms@.len(),
            ss == rooms@.map_values(|s: RoomSummary| s@),
            out@ == "<div class='room-list'>"@ + list_items_spec(username@, role, ss.take(i as int)),
        decreases n - i,
    {
        out.append(render_list_item(username, role, &rooms[i]).as_str());
        proof {
            assert(ss.take(i + 1).drop_last() =~= ss.take(i as int));
            assert(ss.take(i + 1).last() == ss[i as int]);
        }
        i = i + 1;
    }
    out.append("</div>");
    proof {
        assert(ss.take(n as int) =~= ss);
        assert(out@ =~= room_list_spec(username@, role, ss));
    }
    out
}

} // verus!
