//! The command registry and the scripted behaviors it dispatches to.
//! A handler's decisions — which command a line names, how its
//! arguments are read, and exactly which messages a countdown
//! publishes — are computed here; running the resulting plan on a
//! timer is the caller's side of the bargain, so a long handler never
//! blocks a room's message flow.

use vstd::prelude::*;

use crate::registry::RoomRegistry;
use crate::text;

verus! {

/// The first index of `name` among `names`, or `-1`.
pub open spec fn name_idx(names: Seq<Seq<char>>, name: Seq<char>) -> int
    decreases names.len(),
{
    if names.len() == 0 {
        -1
    } else if names[0] == name {
        0
    } else {
        let k = name_idx(names.drop_first(), name);
        if k < 0 {
            -1
        } else {
            k + 1
        }
    }
}

proof fn lemma_name_idx_props(names: Seq<Seq<char>>, name: Seq<char>)
    ensures
        ({
            let i = name_idx(names, name);
            &&& i >= 0 ==> 0 <= i < names.len() && names[i] == name && (forall|j: int|
                0 <= j < i ==> names[j] != name)
            &&& i < 0 ==> i == -1 && (forall|j: int| 0 <= j < names.len() ==> names[j] != name)
        }),
    decreases names.len(),
{
    if names.len() > 0 && names[0] != name {
        let rest = names.drop_first();
        lemma_name_idx_props(rest, name);
        let k = name_idx(rest, name);
        if k >= 0 {
            assert(names[k + 1] == name);
            assert forall|j: int| 0 <= j < k + 1 implies names[j] != name by {
                if j > 0 {
                    assert(rest[j - 1] != name);
                }
            }
        } else {
            assert forall|j: int| 0 <= j < names.len() implies names[j] != name by {
                if j > 0 {
                    assert(rest[j - 1] != name);
                }
            }
        }
    }
}

/// Maps a command name to the handler registered under it. The
/// handlers themselves live with the caller, in a table aligned with
/// these names; an invocation runs as its own task there.
pub struct CommandRegistry {
    pub names: Vec<String>,
}

impl CommandRegistry {
    /// The registered names, as sequences.
    pub open spec fn names_view(&self) -> Seq<Seq<char>> {
        self.names@.map_values(|t: String| t@)
    }

    /// An empty registry.
    pub fn new() -> (r: CommandRegistry)
        ensures
            r.names_view() =~= Seq::<Seq<char>>::empty(),
    {
        let r = CommandRegistry { names: Vec::new() };
        proof {
            assert(r.names_view() =~= Seq::<Seq<char>>::empty());
        }
        r
    }

    /// Binds one more command name; its handler is the next slot of
    /// the caller's handler table.
    pub fn register(&mut self, name: &str)
        ensures
            final(self).names_view() == old(self).names_view().push(name@),
    {
        self.names.push(String::from_str(name));
        proof {
            assert(final(self).names_view() =~= old(self).names_view().push(name@));
        }
    }

    /// The handler slot a command name is bound to. An unknown name
    /// resolves to nothing and is silently ignored.
    pub fn lookup(&self, name: &str) -> (r: Option<usize>)
        ensures
            match r {
                Some(i) => name_idx(self.names_view(), name@) == i as int && i
                    < self.names_view().len(),
                None => name_idx(self.names_view(), name@) == -1,
            },
    {
        let n = self.names.len();
        let mut i: usize = 0;
        while i < n
            invariant
                i <= n,
                n == self.names@.len(),
                forall|j: int| 0 <= j < i ==> self.names_view()[j] != name@,
            decreases n - i,
        {
            if text::str_eq(self.names[i].as_str(), name) {
                proof {
                    lemma_name_idx_props(self.names_view(), name@);
                    let k = name_idx(self.names_view(), name@);
                    assert(self.names_view()[i as int] == name@);
                    if k < 0 {
                        assert(false);
                    } else if k < i as int {
                        assert(self.names_view()[k] != name@);
                        assert(false);
                    } else if k > i as int {
                        assert(self.names_view()[i as int] != name@);
                        assert(false);
                    }
                }
                return Some(i);
            }
            i = i + 1;
        }
        proof {
            lemma_name_idx_props(self.names_view(), name@);
        }
        None
    }
}

/// The engine's shared state: the room registry and the command
/// table, owned once and passed by reference into every connection.
pub struct InteractionState {
    pub rooms: RoomRegistry,
    pub commands: CommandRegistry,
}

impl InteractionState {
    /// A fresh state: no rooms, no commands.
    pub fn new() -> (r: InteractionState)
        ensures
            r.rooms.wf(),
            r.rooms@ =~= Seq::<crate::room::RoomV>::empty(),
            r.commands.names_view() =~= Seq::<Seq<char>>::empty(),
    {
        InteractionState { rooms: RoomRegistry::new(), commands: CommandRegistry::new() }
    }

    /// Binds one more command name.
    pub fn register_command(&mut self, name: &str)
        ensures
            final(self).commands.names_view() == old(self).commands.names_view().push(name@),
            final(self).rooms == old(self).rooms,
    {
        self.commands.register(name);
    }
}

/// Binds every built-in command: the countdown.
pub fn register_all(state: &mut InteractionState)
    ensures
        final(state).commands.names_view() == old(state).commands.names_view().push(
            "countdown"@,
        ),
        final(state).rooms == old(state).rooms,
{
    state.register_command("countdown");
}

/// How long a countdown runs: its first argument read as a number,
/// absent or unreadable meaning five, clamped between one and sixty.
pub open spec fn countdown_seconds_spec(args: Seq<Seq<char>>) -> u64 {
    let n = if args.len() > 0 {
        match text::parse_u64_spec(args[0]) {
            Some(v) => v,
            None => 5u64,
        }
    } else {
        5u64
    };
    if n < 1 {
        1u64
    } else if n > 60 {
        60u64
    } else {
        n
    }
}

/// `parts` joined with single spaces.
pub open spec fn join_space_spec(parts: Seq<Seq<char>>) -> Seq<char>
    decreases parts.len(),
{
    if parts.len() == 0 {
        Seq::empty()
    } else if parts.len() == 1 {
        parts[0]
    } else {
        join_space_spec(parts.drop_last()) + " "@ + parts.last()
    }
}

/// The closing shout of a countdown: everything after the duration,
/// or the house word when nothing was said.
pub open spec fn finished_text_spec(args: Seq<Seq<char>>) -> Seq<char> {
    if args.len() > 1 {
        join_space_spec(args.drop_first())
    } else {
        "guacamole"@
    }
}

/// The notice a countdown opens with.
pub open spec fn countdown_start_spec(seconds: u64) -> Seq<char> {
    "<div hx-swap-oob=\"beforeend:#chat-container\"><div class=\"system-msg\">Starting countdown from "@
        + text::dec_str(seconds as nat) + "...</div></div>"@
}

/// The notice one tick publishes.
pub open spec fn countdown_tick_spec(i: u64) -> Seq<char> {
    "<div hx-swap-oob=\"beforeend:#chat-container\"><div class=\"system-msg\">... "@
        + text::dec_str(i as nat) + "</div></div>"@
}

/// The notice a countdown closes with.
pub open spec fn countdown_done_spec(finished: Seq<char>) -> Seq<char> {
    "<div hx-swap-oob=\"beforeend:#chat-container\"><div class=\"system-msg\" style=\"color: #dc322f; font-weight: bold;\">"@
        + finished + "</div></div>"@
}

/// Everything a countdown will publish, in order: the opening notice,
/// one tick per second counting down, and the closing shout. The
/// caller publishes each tick after a one-second delay, and the close
/// after one more.
pub struct CountdownPlan {
    pub seconds: u64,
    pub start: String,
    pub ticks: Vec<String>,
    pub finish: String,
}

fn join_from_second(args: &Vec<String>) -> (r: String)
    requires
        args@.len() > 1,
    ensures
        r@ == join_space_spec(args@.map_values(|a: String| a@).drop_first()),
{
    let ghost parts = args@.map_values(|a: String| a@).drop_first();
    let n = args.len();
    let mut out = String::from_str(args[1].as_str());
    let mut i: usize = 2;
    proof {
        assert(parts.take(1) =~= seq![parts[0]]);
    }
    while i < n
        invariant
            2 <= i <= n,
            n == args@.len(),
            parts == args@.map_values(|a: String| a@).drop_first(),
            parts.len() == n - 1,
            out@ == join_space_spec(parts.take(i - 1)),
        decreases n - i,
    {
        out.append(" ");
        out.append(args[i].as_str());
        proof {
            assert(parts.take(i as int).drop_last() =~= parts.take(i - 1));
            assert(parts.take(i as int).last() == parts[i - 1]);
        }
        i = i + 1;
    }
    proof {
        assert(parts.take(n - 1) =~= parts);
    }
    out
}

/// Settles every decision of a countdown invocation: duration, tick
/// wording, and the closing shout.
pub fn countdown_plan(args: &Vec<String>) -> (p: CountdownPlan)
    ensures
        p.seconds == countdown_seconds_spec(args@.map_values(|a: String| a@)),
        1 <= p.seconds <= 60,
        p.start@ == countdown_start_spec(p.seconds),
        p.ticks@.len() == p.seconds,
        forall|k: int|
            0 <= k < p.ticks@.len() ==> (#[trigger] p.ticks@[k])@ == countdown_tick_spec(
                (p.seconds - k) as u64,
            ),
        p.finish@ == countdown_done_spec(
            finished_text_spec(args@.map_values(|a: String| a@)),
        ),
{
    let raw: u64 = if args.len() > 0 {
        match text::parse_u64(args[0].as_str()) {
            Some(v) => v,
            None => 5,
        }
    } else {
        5
    };
    let seconds: u64 = if raw < 1 {
        1
    } else if raw > 60 {
        60
    } else {
        raw
    };
    let mut start = String::new();
    start.append(
        "<div hx-swap-oob=\"beforeend:#chat-container\"><div class=\"system-msg\">Starting countdown from ",
    );
    start.append(text::u64_to_string(seconds).as_str());
    start.append("...</div></div>");
    proof {
        assert(start@ =~= countdown_start_spec(seconds));
    }
    let mut ticks: Vec<String> = Vec::new();
    let mut i: u64 = seconds;
    while i >= 1
        invariant
            i <= seconds,
            ticks@.len() == seconds - i,
            forall|k: int|
                0 <= k < ticks@.len() ==> (#[trigger] ticks@[k])@ == countdown_tick_spec(
                    (seconds - k) as u64,
                ),
        decreases i,
    {
        let mut t = String::new();
        t.append("<div hx-swap-oob=\"beforeend:#chat-container\"><div class=\"system-msg\">... ");
        t.append(text::u64_to_string(i).as_str());
        t.append("</div></div>");
        proof {
            assert(t@ =~= countdown_tick_spec(i));
        }
        ticks.push(t);
        i = i - 1;
    }
    let finished: String = if args.len() > 1 {
        join_from_second(args)
    } else {
        String::from_str("guacamole")
    };
    let mut finish = String::new();
    finish.append(
        "<div hx-swap-oob=\"beforeend:#chat-container\"><div class=\"system-msg\" style=\"color: #dc322f; font-weight: bold;\">",
    );
    finish.append(finished.as_str());
    finish.append("</div></div>");
    proof {
        assert(finish@ =~= countdown_done_spec(
            finished_text_spec(args@.map_values(|a: String| a@)),
        ));
    }
    CountdownPlan { seconds: seconds, start: start, ticks: ticks, finish: finish }
}

} // verus!
