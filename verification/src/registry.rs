//! The room registry: the single source of truth for which rooms
//! exist and who is in them. Every mutation goes through one `&mut`
//! method, so the capacity check and the membership change of an
//! admission always happen in the same critical section.

use tokio::sync::broadcast::Receiver;
use tokio::sync::broadcast::Sender;
use vstd::prelude::*;

use crate::ext;
use crate::pipeline;
use crate::room::Member;
use crate::room::MemberV;
use crate::room::Role;
use crate::room::Room;
use crate::room::RoomV;
use crate::room::UserSession;
use crate::room::BUS_CAPACITY;
use crate::room::cap_of;
use crate::room::cnt_of;
use crate::room::room_wf;
use crate::text;

verus! {

/// What a room-creation call carries.
#[derive(Debug)]
pub struct CreateRoomForm {
    pub username: String,
    pub role: String,
    pub max_controllers: usize,
    pub max_doers: usize,
    pub password: Option<String>,
}

/// What a join call carries.
#[derive(Debug)]
pub struct JoinRoomForm {
    pub username: String,
    pub role: String,
    pub room_id: String,
    pub password: Option<String>,
}

/// What a room-listing call carries.
#[derive(Debug)]
pub struct ListParams {
    pub username: String,
}

/// What a socket-upgrade call carries.
#[derive(Debug)]
pub struct WsParams {
    pub role: String,
    pub username: String,
}

/// Why an admission was refused.
#[derive(Clone, Copy, Debug, PartialEq, Eq, Structural)]
pub enum AdmissionError {
    NotFound,
    WrongPassword,
    RoleAtCapacity,
    EmptyUsername,
}

/// A granted admission: the fresh connection identifier, the session
/// it carries, a subscription that sees everything published from the
/// admission on, and the room's label and current signal color.
pub struct Admission {
    pub connection_id: u64,
    pub session: UserSession,
    pub receiver: Receiver<String>,
    pub color: String,
    pub label: String,
}

/// The shadow of a borrowed optional string.
pub open spec fn opt_view(p: &Option<String>) -> Option<Seq<char>> {
    match p {
        Some(s) => Some(s@),
        None => None,
    }
}

/// The index of the room called `id`, or `-1` when there is none.
pub open spec fn room_idx(rooms: Seq<RoomV>, id: Seq<char>) -> int
    decreases rooms.len(),
{
    if rooms.len() == 0 {
        -1
    } else if rooms[0].id == id {
        0
    } else {
        let k = room_idx(rooms.drop_first(), id);
        if k < 0 {
            -1
        } else {
            k + 1
        }
    }
}

pub proof fn lemma_room_idx_props(rooms: Seq<RoomV>, id: Seq<char>)
    ensures
        ({
            let i = room_idx(rooms, id);
            &&& i >= 0 ==> 0 <= i < rooms.len() && rooms[i].id == id && (forall|j: int|
                0 <= j < i ==> rooms[j].id != id)
            &&& i < 0 ==> i == -1 && (forall|j: int| 0 <= j < rooms.len() ==> rooms[j].id != id)
        }),
    decreases rooms.len(),
{
    if rooms.len() > 0 && rooms[0].id != id {
        let rest = rooms.drop_first();
        lemma_room_idx_props(rest, id);
        let k = room_idx(rest, id);
        if k >= 0 {
            assert(rooms[k + 1].id == id);
            assert forall|j: int| 0 <= j < k + 1 implies rooms[j].id != id by {
                if j > 0 {
                    assert(rest[j - 1].id != id);
                }
            }
        } else {
            assert forall|j: int| 0 <= j < rooms.len() implies rooms[j].id != id by {
                if j > 0 {
                    assert(rest[j - 1].id != id);
                }
            }
        }
    }
}

/// The registry after inserting `room` under its id: an existing room
/// of the same id is replaced, otherwise the room is appended.
pub open spec fn upsert_room(rooms: Seq<RoomV>, room: RoomV) -> Seq<RoomV> {
    let i = room_idx(rooms, room.id);
    if i >= 0 {
        rooms.update(i, room)
    } else {
        rooms.push(room)
    }
}

/// The outcome an admission check settles on, `None` meaning the join
/// is admitted: a blank display name, then existence, then the
/// password if the room has one, then the role's capacity.
pub open spec fn join_decision(
    rooms: Seq<RoomV>,
    room_id: Seq<char>,
    role: Role,
    username: Seq<char>,
    password: Option<Seq<char>>,
) -> Option<AdmissionError> {
    if text::trim_spec(username).len() == 0 {
        Some(AdmissionError::EmptyUsername)
    } else {
        let i = room_idx(rooms, room_id);
        if i < 0 {
            Some(AdmissionError::NotFound)
        } else if rooms[i].password is Some && password != rooms[i].password {
            Some(AdmissionError::WrongPassword)
        } else if cnt_of(rooms[i], role) >= cap_of(rooms[i], role) {
            Some(AdmissionError::RoleAtCapacity)
        } else {
            None
        }
    }
}

/// The registry after a connection's single cleanup step: the member
/// leaves its room, and a non-permanent room left empty is collected
/// on the spot.
pub open spec fn disconnect_spec(rooms: Seq<RoomV>, room_id: Seq<char>, cid: u64) -> Seq<RoomV> {
    let i = room_idx(rooms, room_id);
    if i < 0 {
        rooms
    } else {
        let shrunk = RoomV { users: crate::room::remove_member(rooms[i].users, cid), ..rooms[i] };
        if shrunk.users.len() == 0 && !shrunk.permanent {
            rooms.remove(i)
        } else {
            rooms.update(i, shrunk)
        }
    }
}

/// Law: in a well-formed registry, no room's member count for any
/// role ever exceeds that role's ceiling. Joins are linearized
/// through the registry's one critical section and preserve
/// well-formedness, so racing admissions at the boundary can never
/// push a role past its cap.
pub proof fn lemma_capacity_never_exceeded(rooms: Seq<RoomV>)
    requires
        rooms_wf(rooms),
    ensures
        forall|i: int, role: Role|
            0 <= i < rooms.len() ==> #[trigger] cnt_of(rooms[i], role) <= cap_of(rooms[i], role),
{
    assert forall|i: int, role: Role| 0 <= i < rooms.len() implies #[trigger] cnt_of(
        rooms[i],
        role,
    ) <= cap_of(rooms[i], role) by {
        assert(room_wf(rooms[i]));
    }
}

/// Law: a room that was created with a password never admits a join
/// whose password is absent or incorrect; and it always admits the
/// exact password while the requested role has a seat left and the
/// display name is not blank.
pub proof fn lemma_password_gate(
    rooms: Seq<RoomV>,
    room_id: Seq<char>,
    role: Role,
    username: Seq<char>,
    password: Option<Seq<char>>,
)
    requires
        room_idx(rooms, room_id) >= 0,
        rooms[room_idx(rooms, room_id)].password is Some,
    ensures
        password != rooms[room_idx(rooms, room_id)].password ==> join_decision(
            rooms,
            room_id,
            role,
            username,
            password,
        ) is Some,
        (password == rooms[room_idx(rooms, room_id)].password && text::trim_spec(username).len()
            > 0 && cnt_of(rooms[room_idx(rooms, room_id)], role) < cap_of(
            rooms[room_idx(rooms, room_id)],
            role,
        )) ==> join_decision(rooms, room_id, role, username, password) is None,
{
}

/// Law: the cleanup that empties a non-permanent room removes it from
/// the registry on the spot, while an emptied permanent room stays.
pub proof fn lemma_empty_room_collected(rooms: Seq<RoomV>, room_id: Seq<char>, cid: u64)
    requires
        rooms_wf(rooms),
        room_idx(rooms, room_id) >= 0,
        crate::room::remove_member(rooms[room_idx(rooms, room_id)].users, cid).len() == 0,
    ensures
        !rooms[room_idx(rooms, room_id)].permanent ==> forall|j: int|
            0 <= j < disconnect_spec(rooms, room_id, cid).len() ==> (#[trigger] disconnect_spec(
                rooms,
                room_id,
                cid,
            )[j]).id != room_id,
        rooms[room_idx(rooms, room_id)].permanent ==> room_idx(
            disconnect_spec(rooms, room_id, cid),
            room_id,
        ) >= 0,
{
    let i = room_idx(rooms, room_id);
    lemma_room_idx_props(rooms, room_id);
    if !rooms[i].permanent {
        let after = rooms.remove(i);
        assert forall|j: int| 0 <= j < after.len() implies (#[trigger] after[j]).id != room_id by {
            if j < i {
                assert(after[j] == rooms[j]);
                if rooms[j].id == room_id {
                    assert(rooms[j].id == rooms[i].id);
                }
            } else {
                assert(after[j] == rooms[j + 1]);
                if rooms[j + 1].id == room_id {
                    assert(rooms[i].id == rooms[j + 1].id);
                }
            }
        }
    } else {
        let shrunk = RoomV {
            users: crate::room::remove_member(rooms[i].users, cid),
            ..rooms[i]
        };
        let after = rooms.update(i, shrunk);
        lemma_room_idx_props(after, room_id);
        assert(after[i].id == room_id);
    }
}

/// The record a fresh ad-hoc room starts from.
pub open spec fn new_room_v(
    id: Seq<char>,
    role: Role,
    max_controllers: int,
    max_doers: int,
    password: Option<Seq<char>>,
    created_at: int,
    created_label: Seq<char>,
) -> RoomV {
    RoomV {
        id: id,
        label: room_label_spec(role),
        created_at: created_at,
        created_label: created_label,
        users: Seq::empty(),
        max_controllers: max_controllers,
        max_doers: max_doers,
        color: "#808080"@,
        password: password,
        permanent: false,
    }
}

/// The record a pre-configured permanent room starts from.
pub open spec fn permanent_room_v(
    id: Seq<char>,
    label: Seq<char>,
    max_controllers: int,
    max_doers: int,
    password: Option<Seq<char>>,
    created_at: int,
    created_label: Seq<char>,
) -> RoomV {
    RoomV {
        id: id,
        label: label,
        created_at: created_at,
        created_label: created_label,
        users: Seq::empty(),
        max_controllers: max_controllers,
        max_doers: max_doers,
        color: "#808080"@,
        password: password,
        permanent: true,
    }
}

/// The label an ad-hoc room gets from its creator's role.
pub open spec fn room_label_spec(role: Role) -> Seq<char> {
    match role {
        Role::Controller => "Controller Room"@,
        Role::Doer => "Doer Room"@,
    }
}

fn room_label_for(role: Role) -> (r: &'static str)
    ensures
        r@ == room_label_spec(role),
{
    match role {
        Role::Controller => "Controller Room",
        Role::Doer => "Doer Room",
    }
}

/// The creator's submitted password, normalized: absent or blank
/// means the room is open.
pub open spec fn normalize_pw_spec(p: Option<Seq<char>>) -> Option<Seq<char>> {
    match p {
        Some(s) => if text::trim_spec(s).len() == 0 {
            None
        } else {
            Some(s)
        },
        None => None,
    }
}

/// What a listing call reports of one room.
#[derive(Debug)]
pub struct RoomSummary {
    pub id: String,
    pub label: String,
    pub created_at: i64,
    pub created_label: String,
    pub controller_count: usize,
    pub doer_count: usize,
    pub max_controllers: usize,
    pub max_doers: usize,
    pub locked: bool,
}

/// The mathematical shadow of a [`RoomSummary`].
pub struct SummaryV {
    pub id: Seq<char>,
    pub label: Seq<char>,
    pub created_at: int,
    pub created_label: Seq<char>,
    pub controller_count: int,
    pub doer_count: int,
    pub max_controllers: int,
    pub max_doers: int,
    pub locked: bool,
}

impl View for RoomSummary {
    type V = SummaryV;

    open spec fn view(&self) -> SummaryV {
        SummaryV {
            id: self.id@,
            label: self.label@,
            created_at: self.created_at as int,
            created_label: self.created_label@,
            controller_count: self.controller_count as int,
            doer_count: self.doer_count as int,
            max_controllers: self.max_controllers as int,
            max_doers: self.max_doers as int,
            locked: self.locked,
        }
    }
}

/// The summary a room presents in a listing.
pub open spec fn summary_of(room: RoomV) -> SummaryV {
    SummaryV {
        id: room.id,
        label: room.label,
        created_at: room.created_at,
        created_label: room.created_label,
        controller_count: cnt_of(room, Role::Controller) as int,
        doer_count: cnt_of(room, Role::Doer) as int,
        max_controllers: room.max_controllers,
        max_doers: room.max_doers,
        locked: room.password is Some,
    }
}

/// A summary's member count for `role`.
pub open spec fn summary_cnt(s: SummaryV, role: Role) -> int {
    match role {
        Role::Controller => s.controller_count,
        Role::Doer => s.doer_count,
    }
}

/// A summary's ceiling for `role`.
pub open spec fn summary_cap(s: SummaryV, role: Role) -> int {
    match role {
        Role::Controller => s.max_controllers,
        Role::Doer => s.max_doers,
    }
}

/// The rooms a joiner of `role` may still enter, in registry order:
/// exactly those with a seat left for that role.
pub open spec fn available_spec(rooms: Seq<RoomV>, role: Role) -> Seq<SummaryV>
    decreases rooms.len(),
{
    if rooms.len() == 0 {
        Seq::empty()
    } else {
        let rest = available_spec(rooms.drop_last(), role);
        if cnt_of(rooms.last(), role) < cap_of(rooms.last(), role) {
            rest.push(summary_of(rooms.last()))
        } else {
            rest
        }
    }
}

/// Inserts `x` into a descending listing: before the first strictly
/// older entry, hence after every entry of its own creation time —
/// ties keep their standing order.
pub open spec fn insert_desc(s: Seq<SummaryV>, x: SummaryV) -> Seq<SummaryV>
    decreases s.len(),
{
    if s.len() == 0 {
        seq![x]
    } else if x.created_at > s[0].created_at {
        seq![x] + s
    } else {
        seq![s[0]] + insert_desc(s.drop_first(), x)
    }
}

/// Sorts a listing by creation time descending, stably.
pub open spec fn sort_desc(s: Seq<SummaryV>) -> Seq<SummaryV>
    decreases s.len(),
{
    if s.len() == 0 {
        Seq::empty()
    } else {
        insert_desc(sort_desc(s.drop_last()), s.last())
    }
}

/// What a listing call returns: the still-open rooms for `role`,
/// newest first, ties in registry order.
pub open spec fn list_spec(rooms: Seq<RoomV>, role: Role) -> Seq<SummaryV> {
    sort_desc(available_spec(rooms, role))
}

/// Every entry of an insertion is the inserted one or one of the old
/// ones.
proof fn lemma_insert_desc_elems(s: Seq<SummaryV>, x: SummaryV)
    ensures
        insert_desc(s, x).len() == s.len() + 1,
        forall|j: int|
            0 <= j < insert_desc(s, x).len() ==> (#[trigger] insert_desc(s, x)[j] == x
                || s.contains(insert_desc(s, x)[j])),
    decreases s.len(),
{
    if s.len() == 0 {
    } else if x.created_at > s[0].created_at {
        assert forall|j: int| 0 <= j < (seq![x] + s).len() implies ((seq![x] + s)[j] == x
            || s.contains((seq![x] + s)[j])) by {
            if j > 0 {
                assert((seq![x] + s)[j] == s[j - 1]);
            }
        }
    } else {
        let rest = s.drop_first();
        lemma_insert_desc_elems(rest, x);
        assert forall|j: int| 0 <= j < insert_desc(s, x).len() implies (#[trigger] insert_desc(
            s,
            x,
        )[j] == x || s.contains(insert_desc(s, x)[j])) by {
            if j == 0 {
                assert(insert_desc(s, x)[0] == s[0]);
                assert(s.contains(s[0]));
            } else {
                let e = insert_desc(s, x)[j];
                assert(e == insert_desc(rest, x)[j - 1]);
                if e != x {
                    assert(rest.contains(e));
                    let k = choose|k: int| 0 <= k < rest.len() && rest[k] == e;
                    assert(s[k + 1] == e);
                }
            }
        }
    }
}

/// A listing is descending by creation time.
pub open spec fn sorted_desc_spec(s: Seq<SummaryV>) -> bool {
    forall|k: int, l: int| 0 <= k < l < s.len() ==> s[k].created_at >= s[l].created_at
}

/// Insertion keeps a descending listing descending.
proof fn lemma_insert_desc_sorted(s: Seq<SummaryV>, x: SummaryV)
    requires
        sorted_desc_spec(s),
    ensures
        sorted_desc_spec(insert_desc(s, x)),
    decreases s.len(),
{
    if s.len() == 0 {
    } else if x.created_at > s[0].created_at {
        assert forall|k: int, l: int| 0 <= k < l < (seq![x] + s).len() implies (seq![x]
            + s)[k].created_at >= (seq![x] + s)[l].created_at by {
            if k > 0 {
                assert((seq![x] + s)[k] == s[k - 1]);
            }
            assert((seq![x] + s)[l] == s[l - 1]);
        }
    } else {
        let rest = s.drop_first();
        lemma_insert_desc_sorted(rest, x);
        lemma_insert_desc_elems(rest, x);
        let t = insert_desc(s, x);
        assert forall|k: int, l: int| 0 <= k < l < t.len() implies t[k].created_at
            >= t[l].created_at by {
            if k > 0 {
                assert(t[k] == insert_desc(rest, x)[k - 1]);
                assert(t[l] == insert_desc(rest, x)[l - 1]);
            } else {
                assert(t[0] == s[0]);
                let e = t[l];
                assert(e == insert_desc(rest, x)[l - 1]);
                if e == x {
                    assert(s[0].created_at >= x.created_at);
                } else {
                    assert(rest.contains(e));
                    let m = choose|m: int| 0 <= m < rest.len() && rest[m] == e;
                    assert(s[m + 1] == e);
                }
            }
        }
    }
}

/// Every entry of a sorted listing comes from the unsorted one.
proof fn lemma_sort_desc_elems(s: Seq<SummaryV>)
    ensures
        sort_desc(s).len() == s.len(),
        forall|j: int|
            0 <= j < sort_desc(s).len() ==> s.contains(#[trigger] sort_desc(s)[j]),
    decreases s.len(),
{
    if s.len() > 0 {
        let rest = s.drop_last();
        lemma_sort_desc_elems(rest);
        lemma_insert_desc_elems(sort_desc(rest), s.last());
        assert forall|j: int| 0 <= j < sort_desc(s).len() implies s.contains(
            #[trigger] sort_desc(s)[j],
        ) by {
            let e = sort_desc(s)[j];
            if e == s.last() {
                assert(s[s.len() - 1] == e);
            } else {
                assert(sort_desc(rest).contains(e));
                let k = choose|k: int| 0 <= k < sort_desc(rest).len() && sort_desc(rest)[k] == e;
                assert(rest.contains(e));
                let m = choose|m: int| 0 <= m < rest.len() && rest[m] == e;
                assert(s[m] == e);
            }
        }
    }
}

/// Law: a listing is ordered by creation time descending.
pub proof fn lemma_list_sorted(rooms: Seq<RoomV>, role: Role)
    ensures
        sorted_desc_spec(list_spec(rooms, role)),
    decreases rooms.len(),
{
    lemma_sort_desc_sorted(available_spec(rooms, role));
}

proof fn lemma_sort_desc_sorted(s: Seq<SummaryV>)
    ensures
        sorted_desc_spec(sort_desc(s)),
    decreases s.len(),
{
    if s.len() > 0 {
        lemma_sort_desc_sorted(s.drop_last());
        lemma_insert_desc_sorted(sort_desc(s.drop_last()), s.last());
    }
}

/// Every summary a joiner of `role` is offered has a seat left.
proof fn lemma_available_open(rooms: Seq<RoomV>, role: Role)
    ensures
        forall|j: int|
            0 <= j < available_spec(rooms, role).len() ==> summary_cnt(
                #[trigger] available_spec(rooms, role)[j],
                role,
            ) < summary_cap(available_spec(rooms, role)[j], role),
    decreases rooms.len(),
{
    if rooms.len() > 0 {
        lemma_available_open(rooms.drop_last(), role);
        let rest = available_spec(rooms.drop_last(), role);
        let a = available_spec(rooms, role);
        assert forall|j: int| 0 <= j < a.len() implies summary_cnt(#[trigger] a[j], role)
            < summary_cap(a[j], role) by {
            if cnt_of(rooms.last(), role) < cap_of(rooms.last(), role) {
                if j < rest.len() {
                    assert(a[j] == rest[j]);
                } else {
                    assert(a[j] == summary_of(rooms.last()));
                }
            } else {
                assert(a[j] == rest[j]);
            }
        }
    }
}

/// Law: a listing for `role` never contains a room whose member count
/// for that role has reached its ceiling.
pub proof fn lemma_list_never_full(rooms: Seq<RoomV>, role: Role)
    ensures
        forall|k: int|
            0 <= k < list_spec(rooms, role).len() ==> summary_cnt(
                #[trigger] list_spec(rooms, role)[k],
                role,
            ) < summary_cap(list_spec(rooms, role)[k], role),
{
    let avail = available_spec(rooms, role);
    lemma_available_open(rooms, role);
    lemma_sort_desc_elems(avail);
    assert forall|k: int| 0 <= k < list_spec(rooms, role).len() implies summary_cnt(
        #[trigger] list_spec(rooms, role)[k],
        role,
    ) < summary_cap(list_spec(rooms, role)[k], role) by {
        let e = list_spec(rooms, role)[k];
        assert(avail.contains(e));
        let m = choose|m: int| 0 <= m < avail.len() && avail[m] == e;
        assert(summary_cnt(avail[m], role) < summary_cap(avail[m], role));
    }
}

/// Insertion adds exactly the inserted entry.
proof fn lemma_insert_desc_multiset(s: Seq<SummaryV>, x: SummaryV)
    ensures
        insert_desc(s, x).to_multiset() == s.to_multiset().insert(x),
    decreases s.len(),
{
    broadcast use vstd::multiset::group_multiset_axioms;

    if s.len() == 0 {
        assert(s =~= Seq::<SummaryV>::empty());
        assert(seq![x] =~= Seq::<SummaryV>::empty().push(x));
        Seq::<SummaryV>::empty().to_multiset_ensures();
        assert(insert_desc(s, x).to_multiset() =~= s.to_multiset().insert(x));
    } else if x.created_at > s[0].created_at {
        vstd::seq_lib::lemma_multiset_commutative(seq![x], s);
        assert(seq![x] =~= Seq::<SummaryV>::empty().push(x));
        Seq::<SummaryV>::empty().to_multiset_ensures();
        assert(insert_desc(s, x).to_multiset() =~= s.to_multiset().insert(x));
    } else {
        let rest = s.drop_first();
        lemma_insert_desc_multiset(rest, x);
        vstd::seq_lib::lemma_multiset_commutative(seq![s[0]], insert_desc(rest, x));
        assert(s =~= seq![s[0]] + rest);
        vstd::seq_lib::lemma_multiset_commutative(seq![s[0]], rest);
        assert(insert_desc(s, x).to_multiset() =~= s.to_multiset().insert(x));
    }
}

/// Sorting rearranges and nothing else.
proof fn lemma_sort_desc_multiset(s: Seq<SummaryV>)
    ensures
        sort_desc(s).to_multiset() == s.to_multiset(),
    decreases s.len(),
{
    broadcast use vstd::multiset::group_multiset_axioms;

    if s.len() > 0 {
        let rest = s.drop_last();
        lemma_sort_desc_multiset(rest);
        lemma_insert_desc_multiset(sort_desc(rest), s.last());
        rest.to_multiset_ensures();
        assert(rest.push(s.last()) =~= s);
        assert(rest.push(s.last()).to_multiset() =~= rest.to_multiset().insert(s.last()));
        assert(sort_desc(s).to_multiset() =~= s.to_multiset());
    } else {
        assert(s =~= Seq::<SummaryV>::empty());
    }
}

/// Law: a listing holds exactly the rooms still open for the
/// requested role — the same summaries as the registry walk found,
/// with the same multiplicities, merely rearranged.
pub proof fn lemma_list_complete(rooms: Seq<RoomV>, role: Role)
    ensures
        list_spec(rooms, role).to_multiset() == available_spec(rooms, role).to_multiset(),
{
    lemma_sort_desc_multiset(available_spec(rooms, role));
}

/// The entries of one creation time, in their listing order.
pub open spec fn stamp_filter(s: Seq<SummaryV>, t: int) -> Seq<SummaryV>
    decreases s.len(),
{
    if s.len() == 0 {
        Seq::empty()
    } else {
        let rest = stamp_filter(s.drop_last(), t);
        if s.last().created_at == t {
            rest.push(s.last())
        } else {
            rest
        }
    }
}

proof fn lemma_stamp_filter_add(a: Seq<SummaryV>, b: Seq<SummaryV>, t: int)
    ensures
        stamp_filter(a + b, t) == stamp_filter(a, t) + stamp_filter(b, t),
    decreases b.len(),
{
    if b.len() == 0 {
        assert(a + b =~= a);
        assert(stamp_filter(a, t) + stamp_filter(b, t) =~= stamp_filter(a, t));
    } else {
        lemma_stamp_filter_add(a, b.drop_last(), t);
        assert((a + b).drop_last() =~= a + b.drop_last());
        assert((a + b).last() == b.last());
        if b.last().created_at == t {
            assert(stamp_filter(a, t) + stamp_filter(b.drop_last(), t).push(b.last())
                =~= (stamp_filter(a, t) + stamp_filter(b.drop_last(), t)).push(b.last()));
        }
    }
}

proof fn lemma_stamp_filter_none(s: Seq<SummaryV>, t: int)
    requires
        forall|j: int| 0 <= j < s.len() ==> (#[trigger] s[j]).created_at != t,
    ensures
        stamp_filter(s, t) == Seq::<SummaryV>::empty(),
    decreases s.len(),
{
    if s.len() > 0 {
        lemma_stamp_filter_none(s.drop_last(), t);
    }
}

/// How many entries at the front are at least as new as `c`.
spec fn prefix_ge(s: Seq<SummaryV>, c: int) -> int
    decreases s.len(),
{
    if s.len() == 0 {
        0
    } else if s[0].created_at >= c {
        1 + prefix_ge(s.drop_first(), c)
    } else {
        0
    }
}

proof fn lemma_prefix_ge_props(s: Seq<SummaryV>, c: int)
    ensures
        ({
            let p = prefix_ge(s, c);
            &&& 0 <= p <= s.len()
            &&& forall|j: int| 0 <= j < p ==> (#[trigger] s[j]).created_at >= c
            &&& p < s.len() ==> s[p].created_at < c
        }),
    decreases s.len(),
{
    if s.len() > 0 && s[0].created_at >= c {
        let rest = s.drop_first();
        lemma_prefix_ge_props(rest, c);
        let p = prefix_ge(s, c);
        assert forall|j: int| 0 <= j < p implies (#[trigger] s[j]).created_at >= c by {
            if j > 0 {
                assert(rest[j - 1].created_at >= c);
            }
        }
    }
}

/// Insertion leaves every entry of the inserted one's own creation
/// time where it stood, the new entry after all of them.
proof fn lemma_insert_desc_stamp(q: Seq<SummaryV>, x: SummaryV, t: int)
    requires
        sorted_desc_spec(q),
    ensures
        x.created_at == t ==> stamp_filter(insert_desc(q, x), t) == stamp_filter(q, t).push(x),
        x.created_at != t ==> stamp_filter(insert_desc(q, x), t) == stamp_filter(q, t),
{
    let c = x.created_at;
    let p = prefix_ge(q, c);
    lemma_prefix_ge_props(q, c);
    lemma_insert_desc_at(q, x, p);
    assert(seq![x].drop_last() =~= Seq::<SummaryV>::empty());
    assert(stamp_filter(Seq::<SummaryV>::empty(), t) =~= Seq::<SummaryV>::empty());
    assert(stamp_filter(seq![x], t) =~= (if x.created_at == t {
        seq![x]
    } else {
        Seq::<SummaryV>::empty()
    }));
    lemma_stamp_filter_add(q.take(p), seq![x], t);
    lemma_stamp_filter_add(q.take(p) + seq![x], q.skip(p), t);
    lemma_stamp_filter_add(q.take(p), q.skip(p), t);
    assert(q =~= q.take(p) + q.skip(p));
    if c == t {
        assert forall|j: int| 0 <= j < q.skip(p).len() implies (#[trigger] q.skip(
            p,
        )[j]).created_at != t by {
            assert(q.skip(p)[j] == q[p + j]);
            if j > 0 {
                assert(q[p].created_at >= q[p + j].created_at);
            }
        }
        lemma_stamp_filter_none(q.skip(p), t);
        assert(stamp_filter(insert_desc(q, x), t) =~= stamp_filter(q, t).push(x));
    } else {
        assert(stamp_filter(insert_desc(q, x), t) =~= stamp_filter(q, t));
    }
}

proof fn lemma_sort_desc_stamp(s: Seq<SummaryV>, t: int)
    ensures
        stamp_filter(sort_desc(s), t) == stamp_filter(s, t),
    decreases s.len(),
{
    if s.len() > 0 {
        let rest = s.drop_last();
        lemma_sort_desc_stamp(rest, t);
        lemma_sort_desc_sorted(rest);
        lemma_insert_desc_stamp(sort_desc(rest), s.last(), t);
    }
}

/// Law: ties are stable — for every creation time, the listing keeps
/// the rooms of that time in the order the registry walk found them.
pub proof fn lemma_list_ties_stable(rooms: Seq<RoomV>, role: Role, t: int)
    ensures
        stamp_filter(list_spec(rooms, role), t) == stamp_filter(available_spec(rooms, role), t),
{
    lemma_sort_desc_stamp(available_spec(rooms, role), t);
}

/// Inserting at the position the scan finds is the pointwise splice.
proof fn lemma_insert_desc_at(s: Seq<SummaryV>, x: SummaryV, p: int)
    requires
        0 <= p <= s.len(),
        forall|j: int| 0 <= j < p ==> s[j].created_at >= x.created_at,
        p < s.len() ==> x.created_at > s[p].created_at,
    ensures
        insert_desc(s, x) == s.take(p) + seq![x] + s.skip(p),
    decreases s.len(),
{
    if s.len() == 0 {
        assert(insert_desc(s, x) =~= s.take(p) + seq![x] + s.skip(p));
    } else if x.created_at > s[0].created_at {
        assert(p == 0);
        assert(seq![x] + s =~= s.take(0) + seq![x] + s.skip(0));
    } else {
        assert(p >= 1);
        let rest = s.drop_first();
        assert(forall|j: int| 0 <= j < p - 1 ==> rest[j].created_at >= x.created_at);
        lemma_insert_desc_at(rest, x, p - 1);
        assert(seq![s[0]] + (rest.take(p - 1) + seq![x] + rest.skip(p - 1)) =~= s.take(p) + seq![x]
            + s.skip(p));
    }
}

/// The lock-guarded map of room id to room.
pub struct RoomRegistry {
    pub rooms: Vec<Room>,
    pub next_conn: u64,
}

impl View for RoomRegistry {
    type V = Seq<RoomV>;

    open spec fn view(&self) -> Seq<RoomV> {
        self.rooms@.map_values(|r: Room| r@)
    }
}

/// The state invariant a registry's rooms always honor: every room
/// within its capacities, and no room id repeated.
pub open spec fn rooms_wf(rooms: Seq<RoomV>) -> bool {
    &&& forall|i: int| 0 <= i < rooms.len() ==> room_wf(#[trigger] rooms[i])
    &&& forall|i: int, j: int| 0 <= i < j < rooms.len() ==> rooms[i].id != rooms[j].id
}

impl RoomRegistry {
    /// The registry invariant: every room honors its capacities, room
    /// ids never repeat, and connection identifiers are unique —
    /// every one handed out so far lies below `next_conn`.
    pub open spec fn wf(&self) -> bool {
        &&& rooms_wf(self@)
        &&& forall|i: int, k: int|
            0 <= i < self@.len() && 0 <= k < self@[i].users.len() ==> (
            #[trigger] self@[i].users[k]).connection_id < self.next_conn
        &&& forall|i: int, k: int, l: int|
            0 <= i < self@.len() && 0 <= k < l < self@[i].users.len() ==> (
            #[trigger] self@[i].users[k]).connection_id != (
            #[trigger] self@[i].users[l]).connection_id
    }

    /// An empty registry.
    pub fn new() -> (r: RoomRegistry)
        ensures
            r.wf(),
            r@ =~= Seq::<RoomV>::empty(),
            r.next_conn == 0,
    {
        let r = RoomRegistry { rooms: Vec::new(), next_conn: 0 };
        proof {
            assert(r@ =~= Seq::<RoomV>::empty());
        }
        r
    }

    /// Finds the room called `room_id`.
    fn find_room(&self, room_id: &str) -> (r: Option<usize>)
        ensures
            match r {
                Some(i) => room_idx(self@, room_id@) == i as int && i < self.rooms@.len(),
                None => room_idx(self@, room_id@) == -1,
            },
    {
        let n = self.rooms.len();
        let mut i: usize = 0;
        while i < n
            invariant
                i <= n,
                n == self.rooms@.len(),
                forall|j: int| 0 <= j < i ==> self@[j].id != room_id@,
            decreases n - i,
        {
            if text::str_eq(self.rooms[i].id.as_str(), room_id) {
                proof {
                    lemma_room_idx_props(self@, room_id@);
                    let k = room_idx(self@, room_id@);
                    assert(self@[i as int].id == room_id@);
                    if k < 0 {
                        assert(false);
                    } else if k < i as int {
                        assert(self@[k].id != room_id@);
                        assert(false);
                    } else if k > i as int {
                        assert(self@[i as int].id != room_id@);
                        assert(false);
                    }
                }
                return Some(i);
            }
            i = i + 1;
        }
        proof {
            lemma_room_idx_props(self@, room_id@);
        }
        None
    }

    /// Whether a room called `room_id` exists right now.
    pub fn has_room(&self, room_id: &str) -> (r: bool)
        ensures
            r == (room_idx(self@, room_id@) >= 0),
    {
        self.find_room(room_id).is_some()
    }

    /// Creates an ad-hoc room from `form` and returns its fresh
    /// identifier. Fails exactly when the display name is blank.
    /// The new room starts empty, unlocked unless a non-blank
    /// password was supplied, with the default signal color, and is
    /// not permanent.
    pub fn create(&mut self, form: &CreateRoomForm) -> (r: Result<String, AdmissionError>)
        requires
            old(self).wf(),
        ensures
            final(self).wf(),
            final(self).next_conn == old(self).next_conn,
            match r {
                Err(e) => {
                    &&& e == AdmissionError::EmptyUsername
                    &&& text::trim_spec(form.username@).len() == 0
                    &&& final(self)@ == old(self)@
                },
                Ok(id) => {
                    &&& text::trim_spec(form.username@).len() > 0
                    &&& id@.len() == 36
                    &&& exists|t: int, lbl: Seq<char>|
                        lbl.len() == 8 && final(self)@ == upsert_room(
                            old(self)@,
                            new_room_v(
                                id@,
                                crate::room::role_from_ci_spec(form.role@),
                                form.max_controllers as int,
                                form.max_doers as int,
                                normalize_pw_spec(opt_view(&form.password)),
                                t,
                                lbl,
                            ),
                        )
                },
            },
    {
        let trimmed = text::trim(form.username.as_str());
        if trimmed.unicode_len() == 0 {
            return Err(AdmissionError::EmptyUsername);
        }
        let id = ext::fresh_room_id();
        let role = crate::room::role_from_str_ci(form.role.as_str());
        let stamp = ext::clock_now();
        let password = match &form.password {
            Some(p) => {
                if text::trim(p.as_str()).unicode_len() == 0 {
                    None
                } else {
                    Some(p.clone())
                }
            },
            None => None,
        };
        let room = Room {
            id: id.clone(),
            label: String::from_str(room_label_for(role)),
            bus: ext::new_bus(BUS_CAPACITY),
            created_at: stamp.0,
            created_label: stamp.1,
            users: Vec::new(),
            max_controllers: form.max_controllers,
            max_doers: form.max_doers,
            current_color: String::from_str("#808080"),
            password: password,
            permanent: false,
        };
        let ghost rv = room@;
        let ghost t = stamp.0 as int;
        let ghost lbl = stamp.1@;
        self.insert_room(room);
        proof {
            assert(rv.users =~= Seq::<MemberV>::empty());
            assert(rv == new_room_v(
                id@,
                crate::room::role_from_ci_spec(form.role@),
                form.max_controllers as int,
                form.max_doers as int,
                normalize_pw_spec(opt_view(&form.password)),
                t,
                lbl,
            ));
        }
        Ok(id)
    }

    /// Installs a pre-configured permanent room under a stable
    /// identifier; such a room is exempt from empty-room collection.
    pub fn add_permanent(
        &mut self,
        room_id: &str,
        label: &str,
        max_controllers: usize,
        max_doers: usize,
        password: Option<String>,
    )
        requires
            old(self).wf(),
        ensures
            final(self).wf(),
            final(self).next_conn == old(self).next_conn,
            exists|t: int, lbl: Seq<char>|
                lbl.len() == 8 && final(self)@ == upsert_room(
                    old(self)@,
                    permanent_room_v(
                        room_id@,
                        label@,
                        max_controllers as int,
                        max_doers as int,
                        opt_view(&password),
                        t,
                        lbl,
                    ),
                ),
    {
        let stamp = ext::clock_now();
        let ghost pv = opt_view(&password);
        let room = Room {
            id: String::from_str(room_id),
            label: String::from_str(label),
            bus: ext::new_bus(BUS_CAPACITY),
            created_at: stamp.0,
            created_label: stamp.1,
            users: Vec::new(),
            max_controllers: max_controllers,
            max_doers: max_doers,
            current_color: String::from_str("#808080"),
            password: password,
            permanent: true,
        };
        let ghost rv = room@;
        let ghost t = stamp.0 as int;
        let ghost lbl = stamp.1@;
        self.insert_room(room);
        proof {
            assert(rv.users =~= Seq::<MemberV>::empty());
            assert(rv == permanent_room_v(
                room_id@,
                label@,
                max_controllers as int,
                max_doers as int,
                pv,
                t,
                lbl,
            ));
        }
    }

    /// Puts `room` in under its id, replacing a room of the same id.
    fn insert_room(&mut self, room: Room)
        requires
            old(self).wf(),
            room@.users.len() == 0,
        ensures
            final(self).wf(),
            final(self).next_conn == old(self).next_conn,
            final(self)@ == upsert_room(old(self)@, room@),
    {
        let ghost rv = room@;
        proof {
            lemma_room_idx_props(old(self)@, rv.id);
        }
        match self.find_room(room.id.as_str()) {
            Some(i) => {
                self.rooms.set(i, room);
                proof {
                    assert(final(self)@ =~= old(self)@.update(i as int, rv));
                }
            },
            None => {
                self.rooms.push(room);
                proof {
                    assert(final(self)@ =~= old(self)@.push(rv));
                }
            },
        }
    }

    /// Admits a connection into a room, or refuses it. Admission
    /// checks the display name, the room's existence, its password,
    /// and the role's capacity, and only on success adds the member —
    /// all in one critical section. The admitted member is subscribed
    /// to the room's bus before the joined notice is broadcast, so its
    /// own receiver sees the notice too.
    pub fn join(
        &mut self,
        room_id: &str,
        role: Role,
        username: &str,
        password: &Option<String>,
    ) -> (r: Result<Admission, AdmissionError>)
        requires
            old(self).wf(),
            old(self).next_conn < u64::MAX,
        ensures
            final(self).wf(),
            match r {
                Err(e) => {
                    &&& Some(e) == join_decision(
                        old(self)@,
                        room_id@,
                        role,
                        username@,
                        opt_view(password),
                    )
                    &&& final(self)@ == old(self)@
                    &&& final(self).next_conn == old(self).next_conn
                },
                Ok(adm) => {
                    &&& join_decision(old(self)@, room_id@, role, username@, opt_view(password))
                        is None
                    &&& adm.connection_id == old(self).next_conn
                    &&& final(self).next_conn == old(self).next_conn + 1
                    &&& adm.session.role == role
                    &&& adm.session.username@ == text::trim_spec(username@)
                    &&& ({
                        let i = room_idx(old(self)@, room_id@);
                        &&& 0 <= i < old(self)@.len()
                        &&& adm.color@ == old(self)@[i].color
                        &&& adm.label@ == old(self)@[i].label
                        &&& final(self)@ == old(self)@.update(
                            i,
                            RoomV {
                                users: old(self)@[i].users.push(
                                    MemberV {
                                        connection_id: old(self).next_conn,
                                        role: role,
                                        username: text::trim_spec(username@),
                                    },
                                ),
                                ..old(self)@[i]
                            },
                        )
                    })
                },
            },
    {
        let trimmed = text::trim(username);
        if trimmed.unicode_len() == 0 {
            return Err(AdmissionError::EmptyUsername);
        }
        let i = match self.find_room(room_id) {
            Some(i) => i,
            None => {
                return Err(AdmissionError::NotFound);
            },
        };
        proof {
            lemma_room_idx_props(self@, room_id@);
        }
        let pw_ok = match (&self.rooms[i].password, password) {
            (Some(req), Some(att)) => text::str_eq(att.as_str(), req.as_str()),
            (Some(_), None) => false,
            (None, _) => true,
        };
        if !pw_ok {
            return Err(AdmissionError::WrongPassword);
        }
        let cnt = self.rooms[i].role_count(role);
        let cap = if role == Role::Controller {
            self.rooms[i].max_controllers
        } else {
            self.rooms[i].max_doers
        };
        if cnt >= cap {
            return Err(AdmissionError::RoleAtCapacity);
        }
        let cid = self.next_conn;
        self.next_conn = self.next_conn + 1;
        let notice = pipeline::joined_notice(trimmed, role);
        let adm_session = UserSession { role: role, username: String::from_str(trimmed) };
        let member = Member {
            connection_id: cid,
            session: UserSession { role: role, username: String::from_str(trimmed) },
        };
        let ghost before = self@;
        let room = &mut self.rooms[i];
        let receiver = ext::subscribe_bus(&room.bus);
        ext::publish(&room.bus, notice);
        let color = room.current_color.clone();
        let label = room.label.clone();
        let ghost old_room = room@;
        room.users.push(member);
        proof {
            let mv = MemberV { connection_id: cid, role: role, username: text::trim_spec(username@) };
            crate::room::lemma_count_role_push(old_room.users, mv, Role::Controller);
            crate::room::lemma_count_role_push(old_room.users, mv, Role::Doer);
            assert(room@.users =~= old_room.users.push(mv));
            assert(room@ == RoomV { users: old_room.users.push(mv), ..old_room });
        }
        proof {
            let mv = MemberV { connection_id: cid, role: role, username: text::trim_spec(username@) };
            assert(self@ =~= before.update(
                i as int,
                RoomV { users: old_room.users.push(mv), ..old_room },
            ));
        }
        Ok(
            Admission {
                connection_id: cid,
                session: adm_session,
                receiver: receiver,
                color: color,
                label: label,
            },
        )
    }

    /// The single cleanup step of a terminating connection: removes
    /// the member, broadcasts the left notice, and collects the room
    /// if that left it empty and it is not permanent. A room that is
    /// already gone makes this a no-op.
    pub fn disconnect(&mut self, room_id: &str, connection_id: u64, username: &str)
        requires
            old(self).wf(),
        ensures
            final(self).wf(),
            final(self).next_conn == old(self).next_conn,
            final(self)@ == disconnect_spec(old(self)@, room_id@, connection_id),
    {
        let ghost before = self@;
        let i = match self.find_room(room_id) {
            Some(i) => i,
            None => {
                return ;
            },
        };
        proof {
            lemma_room_idx_props(before, room_id@);
        }
        let notice = pipeline::left_notice(username);
        let ghost old_room = self@[i as int];
        let m = self.rooms[i].users.len();
        let mut j: usize = 0;
        let mut found: Option<usize> = None;
        while j < m
            invariant
                j <= m,
                i < self.rooms@.len(),
                m == self.rooms@[i as int]@.users.len(),
                old_room == self.rooms@[i as int]@,
                match found {
                    Some(k) => k < j && old_room.users[k as int].connection_id == connection_id,
                    None => forall|k: int|
                        0 <= k < j ==> old_room.users[k].connection_id != connection_id,
                },
            decreases m - j,
        {
            if found.is_none() && self.rooms[i].users[j].connection_id == connection_id {
                found = Some(j);
            }
            j = j + 1;
        }
        let room = &mut self.rooms[i];
        match found {
            Some(k) => {
                room.users.remove(k);
                proof {
                    assert forall|l: int|
                        0 <= l < old_room.users.len() && l != k
                            implies old_room.users[l].connection_id != connection_id by {
                        assert(before[i as int].users[k as int].connection_id == connection_id);
                    }
                    crate::room::lemma_remove_member_unique(
                        old_room.users,
                        connection_id,
                        k as int,
                    );
                    crate::room::lemma_count_role_remove(old_room.users, k as int, Role::Controller);
                    crate::room::lemma_count_role_remove(old_room.users, k as int, Role::Doer);
                    assert(room@.users =~= old_room.users.remove(k as int));
                }
            },
            None => {
                proof {
                    crate::room::lemma_remove_member_absent(old_room.users, connection_id);
                }
            },
        }
        ext::publish(&room.bus, notice);
        let empty_now = room.users.len() == 0;
        let keep = room.permanent;
        proof {
            assert(room@ == RoomV {
                users: crate::room::remove_member(old_room.users, connection_id),
                ..old_room
            });
        }
        if empty_now && !keep {
            self.rooms.remove(i);
            proof {
                assert(self@ =~= before.remove(i as int));
                assert(self@ == disconnect_spec(before, room_id@, connection_id));
            }
        } else {
            proof {
                assert(self@ =~= before.update(
                    i as int,
                    RoomV {
                        users: crate::room::remove_member(old_room.users, connection_id),
                        ..old_room
                    },
                ));
            }
        }
    }

    /// Updates a room's shared signal state and broadcasts the two
    /// views of the new value — the passive circle and the refreshed
    /// control surface — in the same critical section as the update.
    /// The two published fragments are returned.
    pub fn apply_signal(&mut self, room_id: &str, color: &str) -> (r: Option<(String, String)>)
        requires
            old(self).wf(),
        ensures
            final(self).wf(),
            final(self).next_conn == old(self).next_conn,
            match r {
                None => room_idx(old(self)@, room_id@) < 0 && final(self)@ == old(self)@,
                Some(fragments) => {
                    let i = room_idx(old(self)@, room_id@);
                    &&& 0 <= i < old(self)@.len()
                    &&& final(self)@ == old(self)@.update(
                        i,
                        RoomV { color: color@, ..old(self)@[i] },
                    )
                    &&& fragments.0@ == pipeline::signal_circle_spec(color@, true)
                    &&& fragments.1@ == pipeline::controller_panel_spec(color@, true)
                },
            },
    {
        let ghost before = self@;
        let i = match self.find_room(room_id) {
            Some(i) => i,
            None => {
                return None;
            },
        };
        proof {
            lemma_room_idx_props(before, room_id@);
        }
        let circle = pipeline::signal_circle(color, true);
        let panel = pipeline::controller_panel(color, true);
        let ghost old_room = self@[i as int];
        let room = &mut self.rooms[i];
        room.current_color = String::from_str(color);
        ext::publish(&room.bus, circle.clone());
        ext::publish(&room.bus, panel.clone());
        proof {
            assert(room@ == RoomV { color: color@, ..old_room });
        }
        proof {
            assert(self@ =~= before.update(i as int, RoomV { color: color@, ..old_room }));
        }
        Some((circle, panel))
    }

    /// Broadcasts one chat line into a room: the trimmed text is
    /// escaped, link-wrapped and tagged with the sender's name, and
    /// the published fragment is returned.
    pub fn send_chat(&self, room_id: &str, username: &str, text_line: &str) -> (r: Option<String>)
        ensures
            match r {
                None => room_idx(self@, room_id@) < 0,
                Some(f) => room_idx(self@, room_id@) >= 0 && f@ == pipeline::chat_fragment_spec(
                    username@,
                    pipeline::chat_body_spec(text::trim_spec(text_line@)),
                ),
            },
    {
        let i = match self.find_room(room_id) {
            Some(i) => i,
            None => {
                return None;
            },
        };
        let fragment = pipeline::render_chat(username, text::trim(text_line));
        ext::publish(&self.rooms[i].bus, fragment.clone());
        Some(fragment)
    }

    /// The collaborator entry point for the upload subsystem: wraps a
    /// pre-rendered body and its sender into a chat fragment and
    /// broadcasts it into the room, returning what was published.
    pub fn publish_fragment(&self, room_id: &str, username: &str, body_html: &str) -> (r: Option<
        String,
    >)
        ensures
            match r {
                None => room_idx(self@, room_id@) < 0,
                Some(f) => room_idx(self@, room_id@) >= 0 && f@ == pipeline::chat_fragment_spec(
                    username@,
                    body_html@,
                ),
            },
    {
        let i = match self.find_room(room_id) {
            Some(i) => i,
            None => {
                return None;
            },
        };
        let fragment = pipeline::chat_fragment(username, body_html);
        ext::publish(&self.rooms[i].bus, fragment.clone());
        Some(fragment)
    }

    /// A new subscription to a room's bus; it observes only what is
    /// published after this call.
    pub fn subscribe(&self, room_id: &str) -> (r: Option<Receiver<String>>)
        ensures
            r is Some <==> room_idx(self@, room_id@) >= 0,
    {
        match self.find_room(room_id) {
            Some(i) => Some(ext::subscribe_bus(&self.rooms[i].bus)),
            None => None,
        }
    }

    /// Another sending half of a room's bus, the only handle a
    /// command handler receives.
    pub fn command_channel(&self, room_id: &str) -> (r: Option<Sender<String>>)
        ensures
            r is Some <==> room_idx(self@, room_id@) >= 0,
    {
        match self.find_room(room_id) {
            Some(i) => Some(ext::clone_bus(&self.rooms[i].bus)),
            None => None,
        }
    }

    /// The rooms a joiner of `role` may still enter — a room whose
    /// count for that role has reached its ceiling is never listed —
    /// newest first, rooms of equal creation time in registry order.
    pub fn list(&self, role: Role) -> (r: Vec<RoomSummary>)
        ensures
            r@.map_values(|s: RoomSummary| s@) == list_spec(self@, role),
    {
        let n = self.rooms.len();
        let mut out: Vec<RoomSummary> = Vec::new();
        let mut i: usize = 0;
        while i < n
            invariant
                i <= n,
                n == self.rooms@.len(),
                out@.map_values(|s: RoomSummary| s@) == sort_desc(
                    available_spec(self@.take(i as int), role),
                ),
            decreases n - i,
        {
            let ghost pre = out@.map_values(|s: RoomSummary| s@);
            let ghost rv = self@[i as int];
            let ccount = self.rooms[i].role_count(Role::Controller);
            let dcount = self.rooms[i].role_count(Role::Doer);
            let avail = if role == Role::Controller {
                ccount < self.rooms[i].max_controllers
            } else {
                dcount < self.rooms[i].max_doers
            };
            if avail {
                let s = RoomSummary {
                    id: self.rooms[i].id.clone(),
                    label: self.rooms[i].label.clone(),
                    created_at: self.rooms[i].created_at,
                    created_label: self.rooms[i].created_label.clone(),
                    controller_count: ccount,
                    doer_count: dcount,
                    max_controllers: self.rooms[i].max_controllers,
                    max_doers: self.rooms[i].max_doers,
                    locked: self.rooms[i].password.is_some(),
                };
                proof {
                    assert(s@ == summary_of(rv));
                }
                let m = out.len();
                let mut p: usize = 0;
                while p < m && out[p].created_at >= s.created_at
                    invariant
                        p <= m,
                        m == out@.len(),
                        forall|j: int|
                            0 <= j < p ==> (#[trigger] out@[j])@.created_at >= s@.created_at,
                        out@.map_values(|q: RoomSummary| q@) == pre,
                        s@ == summary_of(rv),
                    decreases m - p,
                {
                    p = p + 1;
                }
                out.insert(p, s);
                proof {
                    lemma_insert_desc_at(pre, summary_of(rv), p as int);
                    assert(out@.map_values(|q: RoomSummary| q@) =~= pre.take(p as int) + seq![
                        summary_of(rv)] + pre.skip(p as int));
                }
            }
            proof {
                let prefix = self@.take(i as int);
                assert(self@.take(i + 1).drop_last() =~= prefix);
                assert(self@.take(i + 1).last() == rv);
                if avail {
                    assert(available_spec(self@.take(i + 1), role) == available_spec(
                        prefix,
                        role,
                    ).push(summary_of(rv)));
                    assert(available_spec(prefix, role).push(summary_of(rv)).drop_last()
                        =~= available_spec(prefix, role));
                    assert(sort_desc(available_spec(self@.take(i + 1), role)) == insert_desc(
                        sort_desc(available_spec(prefix, role)),
                        summary_of(rv),
                    ));
                }
            }
            i = i + 1;
        }
        proof {
            assert(self@.take(n as int) =~= self@);
        }
        out
    }

    /// How many members of `role` a room holds right now.
    pub fn member_count(&self, room_id: &str, role: Role) -> (r: Option<usize>)
        ensures
            match r {
                None => room_idx(self@, room_id@) < 0,
                Some(n) => {
                    let i = room_idx(self@, room_id@);
                    0 <= i < self@.len() && n == cnt_of(self@[i], role)
                },
            },
    {
        match self.find_room(room_id) {
            Some(i) => Some(self.rooms[i].role_count(role)),
            None => None,
        }
    }
}

} // verus!
