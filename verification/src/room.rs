//! Rooms and their membership: roles, per-connection sessions, the
//! room record with its broadcast bus, and the counting functions the
//! capacity rules are stated over.

use tokio::sync::broadcast::Receiver;
use tokio::sync::broadcast::Sender;
use vstd::prelude::*;

use crate::ext;
use crate::text;

verus! {

/// How many messages each subscriber's buffer holds before the oldest
/// unread ones are dropped.
pub const BUS_CAPACITY: usize = 100;

/// The two kinds of participant; each room bounds their numbers
/// independently.
#[derive(Clone, Copy, Debug, PartialEq, Eq, Structural)]
pub enum Role {
    Controller,
    Doer,
}

/// The display name of `role`, as it appears in notices and views.
pub open spec fn role_label(role: Role) -> Seq<char> {
    match role {
        Role::Controller => "Controller"@,
        Role::Doer => "Doer"@,
    }
}

impl Role {
    pub fn as_str(&self) -> (r: &'static str)
        ensures
            r@ == role_label(*self),
    {
        match self {
            Role::Controller => "Controller",
            Role::Doer => "Doer",
        }
    }
}

/// What a connection is inside its room, for the connection's
/// lifetime.
#[derive(Debug)]
pub struct UserSession {
    pub role: Role,
    pub username: String,
}

/// One admitted connection: its identifier and its session.
#[derive(Debug)]
pub struct Member {
    pub connection_id: u64,
    pub session: UserSession,
}

/// The mathematical shadow of a [`Member`].
pub struct MemberV {
    pub connection_id: u64,
    pub role: Role,
    pub username: Seq<char>,
}

impl View for Member {
    type V = MemberV;

    open spec fn view(&self) -> MemberV {
        MemberV {
            connection_id: self.connection_id,
            role: self.session.role,
            username: self.session.username@,
        }
    }
}

/// How many of `users` hold `role`.
pub open spec fn count_role(users: Seq<MemberV>, role: Role) -> nat
    decreases users.len(),
{
    if users.len() == 0 {
        0
    } else {
        count_role(users.drop_last(), role) + if users.last().role == role {
            1nat
        } else {
            0nat
        }
    }
}

/// What remains of `users` once the member with `cid` is gone.
pub open spec fn remove_member(users: Seq<MemberV>, cid: u64) -> Seq<MemberV>
    decreases users.len(),
{
    if users.len() == 0 {
        Seq::empty()
    } else if users.last().connection_id == cid {
        remove_member(users.drop_last(), cid)
    } else {
        remove_member(users.drop_last(), cid).push(users.last())
    }
}

/// Shedding a member who is not there changes nothing.
pub proof fn lemma_remove_member_absent(users: Seq<MemberV>, cid: u64)
    requires
        forall|k: int| 0 <= k < users.len() ==> users[k].connection_id != cid,
    ensures
        remove_member(users, cid) == users,
    decreases users.len(),
{
    if users.len() > 0 {
        lemma_remove_member_absent(users.drop_last(), cid);
        assert(users.drop_last().push(users.last()) =~= users);
    }
}

/// When connection identifiers are unique, shedding the member at `j`
/// is the pointwise removal of that entry.
pub proof fn lemma_remove_member_unique(users: Seq<MemberV>, cid: u64, j: int)
    requires
        0 <= j < users.len(),
        users[j].connection_id == cid,
        forall|k: int| 0 <= k < users.len() && k != j ==> users[k].connection_id != cid,
    ensures
        remove_member(users, cid) == users.remove(j),
    decreases users.len(),
{
    if j == users.len() - 1 {
        lemma_remove_member_absent(users.drop_last(), cid);
        assert(users.remove(j) =~= users.drop_last());
    } else {
        lemma_remove_member_unique(users.drop_last(), cid, j);
        assert(users.drop_last().remove(j).push(users.last()) =~= users.remove(j));
    }
}

/// Removing the entry at `j` lowers exactly that member's role count.
pub proof fn lemma_count_role_remove(users: Seq<MemberV>, j: int, role: Role)
    requires
        0 <= j < users.len(),
    ensures
        count_role(users.remove(j), role) + (if users[j].role == role {
            1nat
        } else {
            0nat
        }) == count_role(users, role),
    decreases users.len(),
{
    if j == users.len() - 1 {
        assert(users.remove(j) =~= users.drop_last());
    } else {
        lemma_count_role_remove(users.drop_last(), j, role);
        assert(users.remove(j).drop_last() =~= users.drop_last().remove(j));
        assert(users.remove(j).last() == users.last());
    }
}

/// Appending one member changes exactly that member's role count.
pub proof fn lemma_count_role_push(users: Seq<MemberV>, m: MemberV, role: Role)
    ensures
        count_role(users.push(m), role) == count_role(users, role) + if m.role == role {
            1nat
        } else {
            0nat
        },
{
    assert(users.push(m).drop_last() =~= users);
    assert(users.push(m).last() == m);
}

/// How a role names itself on the wire, in a case-insensitive call:
/// `controller` in any casing is [`Role::Controller`], everything
/// else falls back to [`Role::Doer`].
pub open spec fn role_from_ci_spec(s: Seq<char>) -> Role {
    if text::lower_spec(s) == "controller"@ {
        Role::Controller
    } else {
        Role::Doer
    }
}

/// Parses a role, folding ASCII case first.
pub fn role_from_str_ci(s: &str) -> (r: Role)
    ensures
        r == role_from_ci_spec(s@),
{
    let low = text::to_lower(s);
    if text::str_eq(low.as_str(), "controller") {
        Role::Controller
    } else {
        Role::Doer
    }
}

/// How a role names itself in a join form: exactly `controller`, or
/// anything else for [`Role::Doer`].
pub open spec fn role_from_exact_spec(s: Seq<char>) -> Role {
    if s == "controller"@ {
        Role::Controller
    } else {
        Role::Doer
    }
}

/// Parses a role without case folding.
pub fn role_from_str_exact(s: &str) -> (r: Role)
    ensures
        r == role_from_exact_spec(s@),
{
    if text::str_eq(s, "controller") {
        Role::Controller
    } else {
        Role::Doer
    }
}

/// The role a listing call asks for: `controller` or `doer` in any
/// casing, anything else refused.
pub open spec fn list_role_spec(s: Seq<char>) -> Option<Role> {
    if text::lower_spec(s) == "controller"@ {
        Some(Role::Controller)
    } else if text::lower_spec(s) == "doer"@ {
        Some(Role::Doer)
    } else {
        None
    }
}

/// Parses the role of a listing call.
pub fn parse_list_role(s: &str) -> (r: Option<Role>)
    ensures
        r == list_role_spec(s@),
{
    let low = text::to_lower(s);
    if text::str_eq(low.as_str(), "controller") {
        Some(Role::Controller)
    } else if text::str_eq(low.as_str(), "doer") {
        Some(Role::Doer)
    } else {
        None
    }
}

/// A named, capacity-bounded collaboration session: its broadcast bus,
/// membership, shared signal state, and optional password.
pub struct Room {
    pub id: String,
    pub label: String,
    pub bus: Sender<String>,
    pub created_at: i64,
    pub created_label: String,
    pub users: Vec<Member>,
    pub max_controllers: usize,
    pub max_doers: usize,
    pub current_color: String,
    pub password: Option<String>,
    pub permanent: bool,
}

/// The mathematical shadow of a [`Room`]; the bus itself is opaque.
pub struct RoomV {
    pub id: Seq<char>,
    pub label: Seq<char>,
    pub created_at: int,
    pub created_label: Seq<char>,
    pub users: Seq<MemberV>,
    pub max_controllers: int,
    pub max_doers: int,
    pub color: Seq<char>,
    pub password: Option<Seq<char>>,
    pub permanent: bool,
}

impl View for Room {
    type V = RoomV;

    open spec fn view(&self) -> RoomV {
        RoomV {
            id: self.id@,
            label: self.label@,
            created_at: self.created_at as int,
            created_label: self.created_label@,
            users: self.users@.map_values(|m: Member| m@),
            max_controllers: self.max_controllers as int,
            max_doers: self.max_doers as int,
            color: self.current_color@,
            password: match self.password {
                Some(p) => Some(p@),
                None => None,
            },
            permanent: self.permanent,
        }
    }
}

/// The configured ceiling of `room` for `role`.
pub open spec fn cap_of(room: RoomV, role: Role) -> int {
    match role {
        Role::Controller => room.max_controllers,
        Role::Doer => room.max_doers,
    }
}

/// How many members of `room` hold `role`.
pub open spec fn cnt_of(room: RoomV, role: Role) -> nat {
    count_role(room.users, role)
}

/// The capacity invariant of one room: neither role ever exceeds its
/// ceiling.
pub open spec fn room_wf(room: RoomV) -> bool {
    &&& cnt_of(room, Role::Controller) <= cap_of(room, Role::Controller)
    &&& cnt_of(room, Role::Doer) <= cap_of(room, Role::Doer)
}

impl Room {
    /// Counts the members that hold `role`.
    pub fn role_count(&self, role: Role) -> (n: usize)
        ensures
            n == cnt_of(self@, role),
    {
        let m = self.users.len();
        let mut n: usize = 0;
        let mut i: usize = 0;
        while i < m
            invariant
                i <= m,
                m == self.users@.len(),
                n == count_role(self.users@.map_values(|mb: Member| mb@).take(i as int), role),
                n <= i,
            decreases m - i,
        {
            let ghost us = self.users@.map_values(|mb: Member| mb@);
            if self.users[i].session.role == role {
                n = n + 1;
            }
            proof {
                assert(us.take(i + 1).drop_last() =~= us.take(i as int));
                assert(us.take(i + 1).last() == us[i as int]);
            }
            i = i + 1;
        }
        proof {
            assert(self.users@.map_values(|mb: Member| mb@).take(m as int) =~= self@.users);
        }
        n
    }

    /// A new receiving half of the room's bus; it observes only what
    /// is published from now on.
    pub fn subscribe(&self) -> Receiver<String> {
        ext::subscribe_bus(&self.bus)
    }

    /// Best-effort fan-out of `message` to every current subscriber;
    /// the result is how many subscribers there were, zero when the
    /// message went nowhere.
    pub fn publish(&self, message: String) -> usize {
        ext::publish(&self.bus, message)
    }
}

} // verus!
