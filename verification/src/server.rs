use vstd::prelude::*;
use vstd::string::StrSliceExecFns;
use rand::Rng;
use std::collections::HashMap;
use crate::models::delivery_report::DeliveryReport;
use crate::models::message::CreateMessage;
use crate::models::message::Message as StoredMessage;
use crate::models::message::NewDeletedMessagesArray;
use crate::models::message::NewDeletedMessagesArrayContent;
use crate::models::message::NewMessagesArray;
use crate::models::message::NewMessagesArrayContent;
use crate::models::timestamp::display_text;
use crate::models::timestamp::timestamp_text;
use crate::models::timestamp::within_display_range;
use crate::types::ws_server_events::DestroyMessage;
use crate::types::ws_server_events::DestroyMessageDeliveryToReceiver;
use crate::types::ws_server_events::DestroyMessageDeliveryToReceiverContent;

verus! {

broadcast use vstd::std_specs::hash::group_hash_axioms;

/// Text that the chat server hands to a session.
pub type Msg = String;

/// Identifies a registered chat session.
pub type SessionID = usize;

/// Names a room.
pub type RoomId = String;

/// Text that the chat server sends to a session.
pub struct Message(pub String);

/// A session has gone away.
pub struct Disconnect {
    pub id: usize,
}

/// Text for a room, from the session `id`.
pub struct ClientMessage {
    pub id: usize,
    pub msg: String,
    pub room: String,
}

/// Asks for the names of the rooms.
pub struct ListRooms;

/// Session `id` joins the room `name`, which is created if it does not exist.
pub struct Join {
    pub id: usize,
    pub name: String,
}

/// A direct message between two users, as it travels over the socket.
#[derive(Default, Debug, Clone, PartialEq)]
pub struct PrivateMessage {
    pub event: String,
    pub data: PrivateMessageContent,
}

/// Body of a [`PrivateMessage`]. `local_id` is the number the writing
/// client gave the message before the server assigned `id`.
#[derive(Default, Debug, Clone, PartialEq)]
pub struct PrivateMessageContent {
    pub local_id: Option<usize>,
    pub id: usize,
    pub sender: usize,
    pub receiver: usize,
    pub content: String,
    pub created_at: Option<String>,
}

impl PrivateMessageContent {
    /// Replaces the claimed sender with the user id taken from the caller's token.
    pub fn set_sender_id_from_jwt(&mut self, user_id: usize)
        ensures
            final(self).sender == user_id,
            final(self).local_id == old(self).local_id,
            final(self).id == old(self).id,
            final(self).receiver == old(self).receiver,
            final(self).content@ == old(self).content@,
            final(self).created_at == old(self).created_at,
    {
        self.sender = user_id
    }
}

/// A room and the sessions in it, each at most once.
pub struct Room {
    pub name: String,
    pub members: Vec<SessionID>,
}

/// What a room is: its name and its sessions in the order they joined.
pub struct RoomView {
    pub name: Seq<char>,
    pub members: Seq<SessionID>,
}

impl View for Room {
    type V = RoomView;

    open spec fn view(&self) -> RoomView {
        RoomView { name: self.name@, members: self.members@ }
    }
}

/// The state of the chat server: the open session of each user (by user
/// id: the number of the connection that opened it and its handle), the
/// user of each live connection (by connection number), and the rooms.
pub struct ChatServer<T> {
    sessions: HashMap<usize, (SessionID, T)>,
    connections: HashMap<SessionID, usize>,
    rooms: Vec<Room>,
}

/// What the chat server's state is.
pub struct ChatServerView<T> {
    /// For each user with an open session: the connection that opened it,
    /// and its handle.
    pub sessions: Map<usize, (SessionID, T)>,
    /// For each live connection: its user.
    pub connections: Map<SessionID, usize>,
    /// The rooms, in order.
    pub rooms: Seq<RoomView>,
}

impl<T> View for ChatServer<T> {
    type V = ChatServerView<T>;

    closed spec fn view(&self) -> ChatServerView<T> {
        ChatServerView {
            sessions: self.sessions@,
            connections: self.connections@,
            rooms: self.rooms@.map_values(|r: Room| r@),
        }
    }
}

/// No two rooms share a name, and no room lists a session twice.
pub open spec fn rooms_well_formed(rooms: Seq<RoomView>) -> bool {
    &&& forall|i: int, j: int|
        0 <= i < rooms.len() && 0 <= j < rooms.len() && i != j ==> #[trigger] rooms[i].name
            != #[trigger] rooms[j].name
    &&& forall|i: int| 0 <= i < rooms.len() ==> (#[trigger] rooms[i]).members.no_duplicates()
}

/// The sessions of a room once `conn` has left it.
pub open spec fn without(members: Seq<SessionID>, conn: SessionID) -> Seq<SessionID>
    decreases members.len(),
{
    if members.len() == 0 {
        members
    } else if members.last() == conn {
        without(members.drop_last(), conn)
    } else {
        without(members.drop_last(), conn).push(members.last())
    }
}

/// The state after `user` connects with the handle `tx` under the
/// connection number `id`: the new session replaces any earlier one of that
/// user, and `id` is the user's connection; rooms are untouched.
pub open spec fn after_connect<T>(
    s: ChatServerView<T>,
    tx: T,
    user: usize,
    id: SessionID,
) -> ChatServerView<T> {
    ChatServerView {
        sessions: s.sessions.insert(user, (id, tx)),
        connections: s.connections.insert(id, user),
        rooms: s.rooms,
    }
}

/// The state after the connection `conn` goes away: where it is live, it
/// is forgotten, its user's session is dropped if this connection opened
/// it (a newer connection of the same user keeps its session), and `conn`
/// leaves every room; otherwise nothing changes.
pub open spec fn after_disconnect<T>(s: ChatServerView<T>, conn: SessionID) -> ChatServerView<T> {
    if s.connections.contains_key(conn) {
        let user = s.connections[conn];
        ChatServerView {
            sessions: if s.sessions.contains_key(user) && s.sessions[user].0 == conn {
                s.sessions.remove(user)
            } else {
                s.sessions
            },
            connections: s.connections.remove(conn),
            rooms: s.rooms.map_values(
                |r: RoomView| RoomView { name: r.name, members: without(r.members, conn) },
            ),
        }
    } else {
        s
    }
}

/// The state after the connection `conn` joins the room `name`: it is added
/// to that room unless it is there already, and a room of that name is
/// opened, with `conn` alone in it, where there is none.
pub open spec fn after_join<T>(s: ChatServerView<T>, conn: SessionID, name: Seq<char>) -> ChatServerView<
    T,
> {
    if exists|i: int| 0 <= i < s.rooms.len() && #[trigger] s.rooms[i].name == name {
        let i = choose|i: int| 0 <= i < s.rooms.len() && #[trigger] s.rooms[i].name == name;
        let members = s.rooms[i].members;
        ChatServerView {
            rooms: s.rooms.update(
                i,
                RoomView {
                    name,
                    members: if members.contains(conn) {
                        members
                    } else {
                        members.push(conn)
                    },
                },
            ),
            ..s
        }
    } else {
        ChatServerView { rooms: s.rooms.push(RoomView { name, members: seq![conn] }), ..s }
    }
}

/// Joining puts the connection in a room of that name: after any join the
/// server has a room called `name` with `conn` among its members; where no
/// room had that name, one is added at the end with `conn` alone in it; the
/// other rooms, the sessions and the connections stay as they were, and the
/// connection is not listed twice.
pub proof fn lemma_join_puts_connection_in_room<T>(
    s: ChatServerView<T>,
    conn: SessionID,
    name: Seq<char>,
)
    ensures
        exists|i: int|
            0 <= i < after_join(s, conn, name).rooms.len() && (#[trigger] after_join(
                s,
                conn,
                name,
            ).rooms[i]).name == name && after_join(s, conn, name).rooms[i].members.contains(conn),
        (forall|i: int| 0 <= i < s.rooms.len() ==> (#[trigger] s.rooms[i]).name != name)
            ==> after_join(s, conn, name).rooms == s.rooms.push(
            RoomView { name, members: seq![conn] },
        ),
        after_join(s, conn, name).sessions == s.sessions,
        after_join(s, conn, name).connections == s.connections,
        forall|i: int|
            0 <= i < s.rooms.len() && s.rooms[i].name != name ==> (#[trigger] after_join(
                s,
                conn,
                name,
            ).rooms[i]) == s.rooms[i],
        rooms_well_formed(s.rooms) ==> forall|i: int|
            0 <= i < s.rooms.len() && s.rooms[i].name == name ==> after_join(s, conn, name).rooms.len()
                == s.rooms.len() && (#[trigger] after_join(s, conn, name).rooms[i]).name == name
                && after_join(s, conn, name).rooms[i].members == if s.rooms[i].members.contains(
                conn,
            ) {
                s.rooms[i].members
            } else {
                s.rooms[i].members.push(conn)
            },
{
    let a = after_join(s, conn, name);
    if rooms_well_formed(s.rooms) {
        assert forall|i: int| 0 <= i < s.rooms.len() && s.rooms[i].name == name implies a.rooms.len()
            == s.rooms.len() && (#[trigger] a.rooms[i]).name == name && a.rooms[i].members == if s.rooms[i].members.contains(conn) {
                s.rooms[i].members
            } else {
                s.rooms[i].members.push(conn)
            } by {
            let k = choose|k: int| 0 <= k < s.rooms.len() && #[trigger] s.rooms[k].name == name;
            if k != i {
                assert(s.rooms[k].name != s.rooms[i].name);
            }
        }
    }
    if exists|i: int| 0 <= i < s.rooms.len() && #[trigger] s.rooms[i].name == name {
        let i = choose|i: int| 0 <= i < s.rooms.len() && #[trigger] s.rooms[i].name == name;
        let members = s.rooms[i].members;
        if members.contains(conn) {
            assert(a.rooms[i].members.contains(conn));
        } else {
            assert(a.rooms[i].members[members.len() as int] == conn);
        }
    } else {
        let n = s.rooms.len() as int;
        assert(a.rooms[n].members[0] == conn);
    }
}

/// The users to tell that `conn` left, for one room's `members`: each other
/// member whose connection is live and whose user has a session, in the
/// room's order.
pub open spec fn member_targets<T>(
    members: Seq<SessionID>,
    conn: SessionID,
    connections: Map<SessionID, usize>,
    sessions: Map<usize, (SessionID, T)>,
) -> Seq<usize>
    decreases members.len(),
{
    if members.len() == 0 {
        Seq::empty()
    } else {
        let rest = member_targets(members.drop_last(), conn, connections, sessions);
        let m = members.last();
        if m != conn && connections.contains_key(m) && sessions.contains_key(connections[m]) {
            rest.push(connections[m])
        } else {
            rest
        }
    }
}

/// The users to tell that `conn` left, room by room in order, for the rooms
/// that `conn` was in.
pub open spec fn room_targets<T>(
    rooms: Seq<RoomView>,
    conn: SessionID,
    connections: Map<SessionID, usize>,
    sessions: Map<usize, (SessionID, T)>,
) -> Seq<usize>
    decreases rooms.len(),
{
    if rooms.len() == 0 {
        Seq::empty()
    } else {
        room_targets(rooms.drop_last(), conn, connections, sessions) + if rooms.last().members.contains(
            conn,
        ) {
            member_targets(rooms.last().members, conn, connections, sessions)
        } else {
            Seq::empty()
        }
    }
}

/// Who is told that the connection `conn` went away: the other members of
/// each room it was in that are still online afterwards. Nobody where
/// `conn` is not a live connection.
pub open spec fn disconnect_targets<T>(s: ChatServerView<T>, conn: SessionID) -> Seq<usize> {
    if s.connections.contains_key(conn) {
        let after = after_disconnect(s, conn);
        room_targets(s.rooms, conn, after.connections, after.sessions)
    } else {
        Seq::empty()
    }
}

/// Who receives a text that the connection `conn` sends to its rooms: the
/// other members of each room it is in whose connection is live and whose
/// user has a session, room by room in order. Nobody where `conn` is no
/// live connection.
pub open spec fn room_message_targets<T>(s: ChatServerView<T>, conn: SessionID) -> Seq<usize> {
    if s.connections.contains_key(conn) {
        room_targets(s.rooms, conn, s.connections, s.sessions)
    } else {
        Seq::empty()
    }
}

/// `d` hands its user the plain text `text`.
pub open spec fn is_text_notice(d: Delivery, text: Seq<char>) -> bool {
    d.payload matches Outgoing::Notice(t) && t@ == text
}

/// `d` tells its user that someone left.
pub open spec fn is_disconnect_notice(d: Delivery) -> bool {
    is_text_notice(d, "Someone disconnected"@)
}

/// Draws the number of a new connection from `rand::thread_rng()`
/// (`Rng::gen::<usize>`). Nothing is promised of the number.
#[verifier::external_body]
fn random_session_id() -> usize {
    rand::thread_rng().gen::<usize>()
}

/// The `j`-th number tried after `first` when looking for a free connection
/// number: `first + j`, wrapping past the largest `usize` to 0.
pub open spec fn probe(first: int, j: int) -> int {
    if first + j <= usize::MAX {
        first + j
    } else {
        first + j - (usize::MAX + 1)
    }
}

/// A connection number that no live connection has: a random draw, moved on
/// by one (wrapping) while it is taken. Since fewer numbers are taken than a
/// `usize` can count, one of the first `connections.len() + 1` tried is free.
fn fresh_connection_id(connections: &HashMap<SessionID, usize>) -> (id: SessionID)
    ensures
        !connections@.contains_key(id),
{
    let n = connections.len();
    let first = random_session_id();
    let mut cand = first;
    let mut k: usize = 0;
    let ghost mut tried: Set<SessionID> = Set::empty();
    while connections.contains_key(&cand)
        invariant
            n == connections@.len(),
            connections@.dom().finite(),
            k <= n,
            cand as int == probe(first as int, k as int),
            tried.finite(),
            tried.len() == k,
            tried.subset_of(connections@.dom()),
            forall|x: SessionID|
                #[trigger] tried.contains(x) ==> exists|j: int|
                    0 <= j < k && x as int == probe(first as int, j),
        decreases n - k,
    {
        proof {
            assert(!tried.contains(cand)) by {
                if tried.contains(cand) {
                    let j = choose|j: int| 0 <= j < k && cand as int == probe(first as int, j);
                }
            }
            tried = tried.insert(cand);
            vstd::set_lib::lemma_len_subset(tried, connections@.dom());
        }
        cand = if cand == usize::MAX {
            0
        } else {
            cand + 1
        };
        k += 1;
    }
    cand
}

/// Whether `conn` is among `members`.
fn members_contain(members: &Vec<SessionID>, conn: SessionID) -> (b: bool)
    ensures
        b == members@.contains(conn),
{
    let n = members.len();
    let mut i: usize = 0;
    while i < n
        invariant
            n == members@.len(),
            0 <= i <= n,
            forall|j: int| 0 <= j < i ==> members@[j] != conn,
        decreases n - i,
    {
        if members[i] == conn {
            assert(members@[i as int] == conn);
            return true;
        }
        i += 1;
    }
    false
}

/// The members without `conn` (see [`without`]).
fn members_without(members: &Vec<SessionID>, conn: SessionID) -> (r: Vec<SessionID>)
    ensures
        r@ == without(members@, conn),
{
    let n = members.len();
    let mut r: Vec<SessionID> = Vec::new();
    let mut i: usize = 0;
    assert(members@.take(0) =~= Seq::<SessionID>::empty());
    while i < n
        invariant
            n == members@.len(),
            0 <= i <= n,
            r@ == without(members@.take(i as int), conn),
        decreases n - i,
    {
        assert(members@.take(i + 1).drop_last() =~= members@.take(i as int));
        assert(members@.take(i + 1).last() == members@[i as int]);
        if members[i] != conn {
            r.push(members[i]);
        }
        i += 1;
    }
    assert(members@.take(n as int) =~= members@);
    r
}

/// The plain text `text` for `to`.
fn notice_for(to: usize, text: &str) -> (d: Delivery)
    ensures
        d.to == to,
        is_text_notice(d, text@),
{
    Delivery { to, payload: Outgoing::Notice(String::from_str(text)) }
}

/// Appends the text `text` for each of one room's members (see
/// [`member_targets`]).
fn push_member_notices<T>(
    members: &Vec<SessionID>,
    conn: SessionID,
    connections: &HashMap<SessionID, usize>,
    sessions: &HashMap<usize, (SessionID, T)>,
    text: &str,
    ds: &mut Vec<Delivery>,
)
    ensures
        final(ds)@.map_values(|d: Delivery| d.to) == old(ds)@.map_values(|d: Delivery| d.to)
            + member_targets(members@, conn, connections@, sessions@),
        forall|i: int|
            0 <= i < final(ds)@.len() ==> (i < old(ds)@.len() ==> #[trigger] final(ds)@[i]
                == old(ds)@[i]) && (i >= old(ds)@.len() ==> is_text_notice(final(ds)@[i], text@)),
{
    let ghost start = ds@;
    let n = members.len();
    let mut i: usize = 0;
    assert(members@.take(0) =~= Seq::<SessionID>::empty());
    assert(ds@.map_values(|d: Delivery| d.to) =~= start.map_values(|d: Delivery| d.to)
        + Seq::<usize>::empty());
    while i < n
        invariant
            n == members@.len(),
            0 <= i <= n,
            start.len() <= ds@.len(),
            ds@.map_values(|d: Delivery| d.to) == start.map_values(|d: Delivery| d.to)
                + member_targets(members@.take(i as int), conn, connections@, sessions@),
            forall|k: int|
                0 <= k < ds@.len() ==> (k < start.len() ==> #[trigger] ds@[k] == start[k]) && (k
                    >= start.len() ==> is_text_notice(ds@[k], text@)),
        decreases n - i,
    {
        let ghost prev = ds@;
        assert(members@.take(i + 1).drop_last() =~= members@.take(i as int));
        assert(members@.take(i + 1).last() == members@[i as int]);
        let m = members[i];
        if m != conn {
            match connections.get(&m) {
                Some(user) => {
                    if sessions.contains_key(user) {
                        ds.push(notice_for(*user, text));
                        assert(ds@.map_values(|d: Delivery| d.to) =~= prev.map_values(
                            |d: Delivery| d.to,
                        ).push(*user));
                    }
                },
                None => {},
            }
        }
        i += 1;
    }
    assert(members@.take(n as int) =~= members@);
}

/// `without` drops exactly `conn`: what stays was there, and `conn` is gone.
proof fn lemma_without<T>(members: Seq<SessionID>, conn: SessionID)
    ensures
        !without(members, conn).contains(conn),
        forall|x: SessionID| #[trigger] without(members, conn).contains(x) ==> members.contains(x),
        !members.contains(conn) ==> without(members, conn) == members,
        members.no_duplicates() ==> without(members, conn).no_duplicates(),
    decreases members.len(),
{
    if members.len() > 0 {
        let rest = members.drop_last();
        lemma_without::<T>(rest, conn);
        assert forall|x: SessionID| #[trigger] rest.contains(x) implies members.contains(x) by {
            let k = choose|k: int| 0 <= k < rest.len() && rest[k] == x;
            assert(members[k] == x);
        }
        if !members.contains(conn) {
            assert(!rest.contains(conn));
            assert(rest.push(members.last()) =~= members);
        }
        if members.last() != conn {
            let w = without(rest, conn);
            assert forall|x: SessionID| #[trigger] w.push(members.last()).contains(x) implies members.contains(x) by {
                let k = choose|k: int| 0 <= k < w.push(members.last()).len() && w.push(members.last())[k] == x;
                if k < w.len() {
                    assert(w.contains(x));
                } else {
                    assert(members[members.len() - 1] == x);
                }
            }
            assert(!w.push(members.last()).contains(conn)) by {
                if w.push(members.last()).contains(conn) {
                    let k = choose|k: int| 0 <= k < w.push(members.last()).len() && w.push(members.last())[k] == conn;
                    if k < w.len() {
                        assert(w.contains(conn));
                    }
                }
            }
            if members.no_duplicates() {
                assert(rest.no_duplicates()) by {
                    assert forall|a: int, b: int| 0 <= a < rest.len() && 0 <= b < rest.len() && a != b implies rest[a] != rest[b] by {
                        assert(rest[a] == members[a] && rest[b] == members[b]);
                    }
                }
                assert(!w.contains(members.last())) by {
                    if w.contains(members.last()) {
                        assert(rest.contains(members.last()));
                        let k = choose|k: int| 0 <= k < rest.len() && rest[k] == members.last();
                        assert(members[k] == members[members.len() - 1]);
                    }
                }
                assert forall|a: int, b: int| 0 <= a < w.push(members.last()).len() && 0 <= b < w.push(members.last()).len() && a != b implies w.push(members.last())[a] != w.push(members.last())[b] by {
                    if a < w.len() && b < w.len() {
                    } else if a < w.len() {
                        assert(w.contains(w[a]));
                    } else if b < w.len() {
                        assert(w.contains(w[b]));
                    }
                }
            }
        } else {
            if members.no_duplicates() {
                assert forall|a: int, b: int| 0 <= a < rest.len() && 0 <= b < rest.len() && a != b implies rest[a] != rest[b] by {
                    assert(rest[a] == members[a] && rest[b] == members[b]);
                }
            }
        }
    }
}

/// The users told of a departure all still have a session afterwards.
proof fn lemma_member_targets_online<T>(
    members: Seq<SessionID>,
    conn: SessionID,
    connections: Map<SessionID, usize>,
    sessions: Map<usize, (SessionID, T)>,
)
    ensures
        forall|i: int|
            0 <= i < member_targets(members, conn, connections, sessions).len()
                ==> sessions.contains_key(
                #[trigger] member_targets(members, conn, connections, sessions)[i],
            ),
    decreases members.len(),
{
    if members.len() > 0 {
        lemma_member_targets_online(members.drop_last(), conn, connections, sessions);
        let rest = member_targets(members.drop_last(), conn, connections, sessions);
        let all = member_targets(members, conn, connections, sessions);
        assert forall|i: int| 0 <= i < all.len() implies sessions.contains_key(#[trigger] all[i]) by {
            if i < rest.len() {
                assert(all[i] == rest[i]);
            }
        }
    }
}

proof fn lemma_room_targets_online<T>(
    rooms: Seq<RoomView>,
    conn: SessionID,
    connections: Map<SessionID, usize>,
    sessions: Map<usize, (SessionID, T)>,
)
    ensures
        forall|i: int|
            0 <= i < room_targets(rooms, conn, connections, sessions).len() ==> sessions.contains_key(
                #[trigger] room_targets(rooms, conn, connections, sessions)[i],
            ),
    decreases rooms.len(),
{
    if rooms.len() > 0 {
        lemma_room_targets_online(rooms.drop_last(), conn, connections, sessions);
        lemma_member_targets_online(rooms.last().members, conn, connections, sessions);
        let a = room_targets(rooms.drop_last(), conn, connections, sessions);
        let all = room_targets(rooms, conn, connections, sessions);
        assert forall|i: int| 0 <= i < all.len() implies sessions.contains_key(#[trigger] all[i]) by {
            if i < a.len() {
                assert(all[i] == a[i]);
            } else {
                assert(all[i] == member_targets(rooms.last().members, conn, connections, sessions)[i - a.len()]);
            }
        }
    }
}

impl<T> ChatServer<T> {
    /// The state's invariant: room names are distinct and no room lists a
    /// session twice.
    pub open spec fn wf(&self) -> bool {
        rooms_well_formed(self@.rooms)
    }

    /// A server with no sessions and the one room `Main`, empty.
    pub fn new() -> (s: Self)
        ensures
            s.wf(),
            s@.sessions == Map::<usize, (SessionID, T)>::empty(),
            s@.connections == Map::<SessionID, usize>::empty(),
            s@.rooms == seq![RoomView { name: "Main"@, members: Seq::<SessionID>::empty() }],
    {
        let mut rooms: Vec<Room> = Vec::new();
        rooms.push(Room { name: String::from_str("Main"), members: Vec::new() });
        let s = ChatServer { sessions: HashMap::new(), connections: HashMap::new(), rooms };
        assert(s@.rooms =~= seq![RoomView { name: "Main"@, members: Seq::<SessionID>::empty() }]);
        s
    }

    /// Registers `tx` as the session of `jwt_user_id` under a random
    /// connection number that no live connection has, and returns that
    /// number; disconnecting it later unregisters the session (see
    /// [`lemma_disconnect_undoes_connect`]).
    pub fn connect(&mut self, tx: T, jwt_user_id: usize) -> (id: SessionID)
        requires
            old(self).wf(),
        ensures
            final(self).wf(),
            !old(self)@.connections.contains_key(id),
            final(self)@ == after_connect(old(self)@, tx, jwt_user_id, id),
    {
        let id = fresh_connection_id(&self.connections);
        self.sessions.insert(jwt_user_id, (id, tx));
        self.connections.insert(id, jwt_user_id);
        id
    }

    /// Unregisters the connection `conn_id` (see [`after_disconnect`]) and
    /// returns the notices to send: `Someone disconnected` to the other
    /// members, still online, of each room it was in (see
    /// [`disconnect_targets`]).
    pub fn disconnect(&mut self, conn_id: SessionID) -> (ds: Vec<Delivery>)
        requires
            old(self).wf(),
        ensures
            final(self).wf(),
            final(self)@ == after_disconnect(old(self)@, conn_id),
            ds@.map_values(|d: Delivery| d.to) == disconnect_targets(old(self)@, conn_id),
            forall|i: int| 0 <= i < ds@.len() ==> is_disconnect_notice(#[trigger] ds@[i]),
    {
        let ghost before = self@;
        let mut ds: Vec<Delivery> = Vec::new();
        match self.connections.remove(&conn_id) {
            None => {
                assert(self@.connections =~= before.connections);
                assert(self@.rooms =~= before.rooms);
                assert(ds@.map_values(|d: Delivery| d.to) =~= Seq::<usize>::empty());
                ds
            },
            Some(user) => {
                let owns = match self.sessions.get(&user) {
                    Some(entry) => entry.0 == conn_id,
                    None => false,
                };
                if owns {
                    self.sessions.remove(&user);
                }
                let ghost after = after_disconnect(before, conn_id);
                assert(self@.sessions =~= after.sessions);
                assert(self@.connections =~= after.connections);
                let n = self.rooms.len();
                let mut i: usize = 0;
                assert(before.rooms.take(0) =~= Seq::<RoomView>::empty());
                assert(ds@.map_values(|d: Delivery| d.to) =~= Seq::<usize>::empty());
                while i < n
                    invariant
                        n == self.rooms@.len(),
                        n == before.rooms.len(),
                        0 <= i <= n,
                        rooms_well_formed(before.rooms),
                        self.sessions@ == after.sessions,
                        self.connections@ == after.connections,
                        forall|j: int|
                            0 <= j < i ==> #[trigger] self.rooms@[j]@ == (RoomView {
                                name: before.rooms[j].name,
                                members: without(before.rooms[j].members, conn_id),
                            }),
                        forall|j: int| i <= j < n ==> #[trigger] self.rooms@[j]@ == before.rooms[j],
                        ds@.map_values(|d: Delivery| d.to) == room_targets(
                            before.rooms.take(i as int),
                            conn_id,
                            after.connections,
                            after.sessions,
                        ),
                        forall|k: int| 0 <= k < ds@.len() ==> is_disconnect_notice(#[trigger] ds@[k]),
                    decreases n - i,
                {
                    let ghost prev = self.rooms@;
                    let mut room = self.rooms.remove(i);
                    assert(room@ == before.rooms[i as int]);
                    assert(before.rooms.take(i + 1).drop_last() =~= before.rooms.take(i as int));
                    assert(before.rooms.take(i + 1).last() == before.rooms[i as int]);
                    if members_contain(&room.members, conn_id) {
                        proof { reveal_strlit("Someone disconnected"); }
                        push_member_notices(
                            &room.members,
                            conn_id,
                            &self.connections,
                            &self.sessions,
                            "Someone disconnected",
                            &mut ds,
                        );
                    } else {
                        assert(room_targets(before.rooms.take(i + 1), conn_id, after.connections, after.sessions)
                            =~= room_targets(before.rooms.take(i as int), conn_id, after.connections, after.sessions));
                    }
                    room.members = members_without(&room.members, conn_id);
                    self.rooms.insert(i, room);
                    assert forall|j: int| 0 <= j < n && j != i implies #[trigger] self.rooms@[j] == prev[j] by {
                    }
                    i += 1;
                }
                assert(before.rooms.take(n as int) =~= before.rooms);
                assert(self@.rooms =~= after.rooms);
                assert forall|j: int| 0 <= j < self@.rooms.len() implies (#[trigger] self@.rooms[j]).members.no_duplicates() by {
                    lemma_without::<T>(before.rooms[j].members, conn_id);
                }
                assert(rooms_well_formed(self@.rooms));
                ds
            },
        }
    }

    /// Puts the connection `conn_id` in the room `name` (see [`after_join`]).
    pub fn join(&mut self, conn_id: SessionID, name: &str)
        requires
            old(self).wf(),
        ensures
            final(self).wf(),
            final(self)@ == after_join(old(self)@, conn_id, name@),
            exists|i: int|
                0 <= i < final(self)@.rooms.len() && (#[trigger] final(self)@.rooms[i]).name
                    == name@ && final(self)@.rooms[i].members.contains(conn_id),
            (forall|i: int| 0 <= i < old(self)@.rooms.len() ==> (#[trigger] old(self)@.rooms[i]).name
                != name@) ==> final(self)@.rooms == old(self)@.rooms.push(
                RoomView { name: name@, members: seq![conn_id] },
            ),
            final(self)@.sessions == old(self)@.sessions,
            final(self)@.connections == old(self)@.connections,
    {
        proof {
            lemma_join_puts_connection_in_room(old(self)@, conn_id, name@);
        }
        let ghost before = self@;
        let target = String::from_str(name);
        let n = self.rooms.len();
        let mut i: usize = 0;
        while i < n
            invariant
                n == self.rooms@.len(),
                self@ == before,
                before == old(self)@,
                rooms_well_formed(before.rooms),
                target@ == name@,
                0 <= i <= n,
                forall|j: int| 0 <= j < i ==> (#[trigger] before.rooms[j]).name != name@,
            decreases n - i,
        {
            if self.rooms[i].name == target {
                assert(before.rooms[i as int].name == name@);
                let ghost k = choose|k: int| 0 <= k < before.rooms.len() && #[trigger] before.rooms[k].name == name@;
                assert(k == i) by {
                    if k != i {
                        assert(before.rooms[k].name != before.rooms[i as int].name);
                    }
                }
                let mut room = self.rooms.remove(i);
                if !members_contain(&room.members, conn_id) {
                    room.members.push(conn_id);
                    proof {
                        let ms = before.rooms[i as int].members;
                        assert forall|a: int, b: int| 0 <= a < ms.push(conn_id).len() && 0 <= b < ms.push(conn_id).len() && a != b implies ms.push(conn_id)[a] != ms.push(conn_id)[b] by {
                            if a < ms.len() && b < ms.len() {
                            } else if a < ms.len() {
                                assert(ms.contains(ms[a]));
                            } else if b < ms.len() {
                                assert(ms.contains(ms[b]));
                            }
                        }
                    }
                }
                self.rooms.insert(i, room);
                assert(self@.rooms =~= after_join(before, conn_id, name@).rooms);
                assert(self@.sessions == after_join(before, conn_id, name@).sessions);
                assert(self@.connections == after_join(before, conn_id, name@).connections);
                proof {
                    lemma_join_puts_connection_in_room(before, conn_id, name@);
                }
                return;
            }
            i += 1;
        }
        let mut members: Vec<SessionID> = Vec::new();
        members.push(conn_id);
        self.rooms.push(Room { name: target, members });
        assert(self@.rooms =~= after_join(before, conn_id, name@).rooms);
    }

    /// Broadcasts a client's text to its current rooms: `text` goes, as it
    /// is, to the other members, still online, of each room that the
    /// connection `conn_id` is in (see [`room_message_targets`]); nobody is
    /// told where `conn_id` is no live connection.
    pub fn send_message(&self, conn_id: SessionID, text: &str) -> (ds: Vec<Delivery>)
        ensures
            ds@.map_values(|d: Delivery| d.to) == room_message_targets(self@, conn_id),
            forall|i: int| 0 <= i < ds@.len() ==> is_text_notice(#[trigger] ds@[i], text@),
    {
        let mut ds: Vec<Delivery> = Vec::new();
        assert(ds@.map_values(|d: Delivery| d.to) =~= Seq::<usize>::empty());
        if !self.connections.contains_key(&conn_id) {
            return ds;
        }
        let ghost rooms = self@.rooms;
        let n = self.rooms.len();
        let mut i: usize = 0;
        assert(rooms.take(0) =~= Seq::<RoomView>::empty());
        while i < n
            invariant
                n == self.rooms@.len(),
                rooms == self@.rooms,
                0 <= i <= n,
                ds@.map_values(|d: Delivery| d.to) == room_targets(
                    rooms.take(i as int),
                    conn_id,
                    self.connections@,
                    self.sessions@,
                ),
                forall|k: int| 0 <= k < ds@.len() ==> is_text_notice(#[trigger] ds@[k], text@),
            decreases n - i,
        {
            assert(rooms.take(i + 1).drop_last() =~= rooms.take(i as int));
            assert(rooms.take(i + 1).last() == rooms[i as int]);
            assert(self.rooms@[i as int]@ == rooms[i as int]);
            let room = &self.rooms[i];
            if members_contain(&room.members, conn_id) {
                push_member_notices(
                    &room.members,
                    conn_id,
                    &self.connections,
                    &self.sessions,
                    text,
                    &mut ds,
                );
            } else {
                assert(room_targets(rooms.take(i + 1), conn_id, self.connections@, self.sessions@)
                    =~= room_targets(rooms.take(i as int), conn_id, self.connections@, self.sessions@));
            }
            i += 1;
        }
        assert(rooms.take(n as int) =~= rooms);
        ds
    }

    /// Whether `user_id` has an open session.
    pub fn has_session(&self, user_id: usize) -> (b: bool)
        ensures
            b == self@.sessions.contains_key(user_id),
    {
        self.sessions.contains_key(&user_id)
    }

    /// The session handle of `user_id`, where it has one.
    pub fn session(&self, user_id: usize) -> (tx: Option<&T>)
        ensures
            match tx {
                Some(t) => self@.sessions.contains_key(user_id) && self@.sessions[user_id].1 == *t,
                None => !self@.sessions.contains_key(user_id),
            },
    {
        match self.sessions.get(&user_id) {
            Some(entry) => Some(&entry.1),
            None => None,
        }
    }
}

/// The kinds of request that a client sends over its socket, told apart by
/// the `event` field of the JSON object.
#[derive(Debug, Clone, Copy, PartialEq, Eq, Structural)]
pub enum ClientEvent {
    /// `message`: a direct message to another user.
    PrivateMessage,
    /// `delivery-report`: messages that reached the client.
    DeliveryReport,
    /// `destroy-message`: messages the client wants deleted.
    DestroyMessage,
    /// `delivery-deleted-message`: deletions the client has seen.
    DeliveryDeletedMessage,
    /// Any other event, or none.
    Unknown,
}

/// The kind of request named by the `event` field (`None` where the text has
/// no `event` field holding a string).
pub open spec fn client_event_of(event: Option<Seq<char>>) -> ClientEvent {
    if event == Some("message"@) {
        ClientEvent::PrivateMessage
    } else if event == Some("delivery-report"@) {
        ClientEvent::DeliveryReport
    } else if event == Some("destroy-message"@) {
        ClientEvent::DestroyMessage
    } else if event == Some("delivery-deleted-message"@) {
        ClientEvent::DeliveryDeletedMessage
    } else {
        ClientEvent::Unknown
    }
}

/// The four requests of the protocol are told apart by their exact event
/// names; any other event name, or none, is an unknown request.
pub proof fn lemma_client_events(event: Option<Seq<char>>)
    ensures
        client_event_of(Some("message"@)) == ClientEvent::PrivateMessage,
        client_event_of(Some("delivery-report"@)) == ClientEvent::DeliveryReport,
        client_event_of(Some("destroy-message"@)) == ClientEvent::DestroyMessage,
        client_event_of(Some("delivery-deleted-message"@)) == ClientEvent::DeliveryDeletedMessage,
        client_event_of(None) == ClientEvent::Unknown,
        client_event_of(event) != ClientEvent::Unknown <==> (event == Some("message"@) || event
            == Some("delivery-report"@) || event == Some("destroy-message"@) || event == Some(
            "delivery-deleted-message"@,
        )),
{
    reveal_strlit("message");
    reveal_strlit("delivery-report");
    reveal_strlit("destroy-message");
    reveal_strlit("delivery-deleted-message");
    assert("delivery-report"@.len() != "message"@.len());
    assert("destroy-message"@.len() != "message"@.len());
    assert("destroy-message"@[2] != "delivery-report"@[2]);
    assert("delivery-deleted-message"@.len() != "message"@.len());
    assert("delivery-deleted-message"@.len() != "delivery-report"@.len());
    assert("delivery-deleted-message"@.len() != "destroy-message"@.len());
}

/// Whether `c` is white space in the sense of Unicode's `White_Space`
/// property, which `char::is_whitespace` follows: tab, line feed, vertical
/// tab, form feed, carriage return, space, next line, no-break space, ogham
/// space mark, the spaces from en quad to hair space, line and paragraph
/// separators, narrow no-break space, medium mathematical space and
/// ideographic space.
pub open spec fn is_white_space(c: char) -> bool {
    let n = c as u32;
    ||| 0x09 <= n <= 0x0d
    ||| n == 0x20
    ||| n == 0x85
    ||| n == 0xa0
    ||| n == 0x1680
    ||| 0x2000 <= n <= 0x200a
    ||| n == 0x2028
    ||| n == 0x2029
    ||| n == 0x202f
    ||| n == 0x205f
    ||| n == 0x3000
}

/// The text without its leading white space.
pub open spec fn trim_start_of(text: Seq<char>) -> Seq<char>
    decreases text.len(),
{
    if text.len() > 0 && is_white_space(text[0]) {
        trim_start_of(text.drop_first())
    } else {
        text
    }
}

/// The text without its trailing white space.
pub open spec fn trim_end_of(text: Seq<char>) -> Seq<char>
    decreases text.len(),
{
    if text.len() > 0 && is_white_space(text.last()) {
        trim_end_of(text.drop_last())
    } else {
        text
    }
}

/// The text without its leading and trailing white space.
pub open spec fn trimmed_text(text: Seq<char>) -> Seq<char> {
    trim_end_of(trim_start_of(text))
}

proof fn lemma_trim_start_of(text: Seq<char>) -> (a: int)
    ensures
        0 <= a <= text.len(),
        trim_start_of(text) == text.subrange(a, text.len() as int),
        forall|i: int| 0 <= i < a ==> is_white_space(#[trigger] text[i]),
        a < text.len() ==> !is_white_space(text[a]),
    decreases text.len(),
{
    if text.len() > 0 && is_white_space(text[0]) {
        let rest = text.drop_first();
        let a0 = lemma_trim_start_of(rest);
        assert(rest.subrange(a0, rest.len() as int) =~= text.subrange(a0 + 1, text.len() as int));
        assert forall|i: int| 0 <= i < a0 + 1 implies is_white_space(#[trigger] text[i]) by {
            if i > 0 {
                assert(text[i] == rest[i - 1]);
            }
        }
        if a0 < rest.len() {
            assert(text[a0 + 1] == rest[a0]);
        }
        a0 + 1
    } else {
        assert(text.subrange(0, text.len() as int) =~= text);
        0
    }
}

proof fn lemma_trim_end_of(text: Seq<char>) -> (b: int)
    ensures
        0 <= b <= text.len(),
        trim_end_of(text) == text.subrange(0, b),
        forall|i: int| b <= i < text.len() ==> is_white_space(#[trigger] text[i]),
        b > 0 ==> !is_white_space(text[b - 1]),
    decreases text.len(),
{
    if text.len() > 0 && is_white_space(text.last()) {
        let rest = text.drop_last();
        let b0 = lemma_trim_end_of(rest);
        assert(rest.subrange(0, b0) =~= text.subrange(0, b0));
        assert forall|i: int| b0 <= i < text.len() implies is_white_space(#[trigger] text[i]) by {
            if i < rest.len() {
                assert(text[i] == rest[i]);
            }
        }
        if b0 > 0 {
            assert(text[b0 - 1] == rest[b0 - 1]);
        }
        b0
    } else {
        assert(text.subrange(0, text.len() as int) =~= text);
        text.len() as int
    }
}

/// Trimming removes white space at the two ends and nothing else: the
/// result is a stretch of the text, everything before and after it is white
/// space, and it neither starts nor ends with white space.
pub proof fn lemma_trimmed_text(text: Seq<char>)
    ensures
        exists|a: int, b: int|
            0 <= a <= b <= text.len() && trimmed_text(text) == text.subrange(a, b) && (forall|
                i: int,
            | 0 <= i < a ==> is_white_space(#[trigger] text[i])) && (forall|i: int|
                b <= i < text.len() ==> is_white_space(#[trigger] text[i])),
        trimmed_text(text).len() > 0 ==> !is_white_space(trimmed_text(text)[0]) && !is_white_space(
            trimmed_text(text).last(),
        ),
{
    let a = lemma_trim_start_of(text);
    let mid = trim_start_of(text);
    let b0 = lemma_trim_end_of(mid);
    let b = a + b0;
    assert(mid.subrange(0, b0) =~= text.subrange(a, b));
    assert forall|i: int| b <= i < text.len() implies is_white_space(#[trigger] text[i]) by {
        assert(text[i] == mid[i - a]);
    }
    if b0 > 0 {
        assert(trimmed_text(text)[0] == text[a]);
        assert(mid[0] == text[a]);
        assert(trimmed_text(text).last() == mid[b0 - 1]);
    }
}

/// Whether `c` is white space (see [`is_white_space`]).
fn is_white_space_char(c: char) -> (b: bool)
    ensures
        b == is_white_space(c),
{
    let n = c as u32;
    (0x09 <= n && n <= 0x0d) || n == 0x20 || n == 0x85 || n == 0xa0 || n == 0x1680 || (0x2000
        <= n && n <= 0x200a) || n == 0x2028 || n == 0x2029 || n == 0x202f || n == 0x205f || n
        == 0x3000
}

/// The text without its leading and trailing white space, as `str::trim`
/// gives it (see [`trimmed_text`]).
fn trim_text(text: &str) -> (trimmed: &str)
    ensures
        trimmed@ == trimmed_text(text@),
{
    let n = text.unicode_len();
    let mut start: usize = 0;
    assert(text@.subrange(0, n as int) =~= text@);
    while start < n && is_white_space_char(text.get_char(start))
        invariant
            n == text@.len(),
            start <= n,
            trim_start_of(text@) == trim_start_of(text@.subrange(start as int, n as int)),
        decreases n - start,
    {
        assert(text@.subrange(start as int, n as int).drop_first() =~= text@.subrange(
            start + 1,
            n as int,
        ));
        start += 1;
    }
    let ghost rest = text@.subrange(start as int, n as int);
    assert(trim_start_of(text@) == rest) by {
        if start < n {
            assert(rest[0] == text@[start as int]);
        }
    }
    let mut end: usize = n;
    assert(rest.subrange(0, (end - start) as int) =~= rest);
    while end > start && is_white_space_char(text.get_char(end - 1))
        invariant
            n == text@.len(),
            start <= end <= n,
            rest == text@.subrange(start as int, n as int),
            trim_end_of(rest) == trim_end_of(text@.subrange(start as int, end as int)),
        decreases end - start,
    {
        let ghost cur = text@.subrange(start as int, end as int);
        assert(cur.last() == text@[end - 1]);
        assert(cur.drop_last() =~= text@.subrange(start as int, end - 1));
        end -= 1;
    }
    proof {
        let cur = text@.subrange(start as int, end as int);
        if end > start {
            assert(cur.last() == text@[end - 1]);
        }
    }
    text.substring_char(start, end)
}

/// What `serde_json` reads from a text as the `event` field: `None` where the
/// text is no JSON value; `Some(None)` where it is one but has no `event`
/// field holding a string; `Some(Some(e))` where that field holds `e`.
pub uninterp spec fn json_event_tag(text: Seq<char>) -> Option<Option<Seq<char>>>;

/// Calls `serde_json::from_str::<serde_json::Value>` and reads the result's
/// `event` entry with `Value::as_str`. The contract claims only that the
/// result is the named function of the text: what JSON serde_json accepts
/// is serde_json's.
#[verifier::external_body]
fn json_event_field(text: &str) -> (tag: Option<Option<String>>)
    ensures
        match tag {
            None => json_event_tag(text@) is None,
            Some(None) => json_event_tag(text@) == Some(None::<Seq<char>>),
            Some(Some(e)) => json_event_tag(text@) == Some(Some(e@)),
        },
{
    match serde_json::from_str::<serde_json::Value>(text) {
        Ok(value) => match value["event"].as_str() {
            Some(e) => Some(Some(e.to_string())),
            None => Some(None),
        },
        Err(_) => None,
    }
}

/// Tells which kind of request a client's socket text is: the text, trimmed,
/// is read as JSON and its `event` field decides. `None` where the trimmed
/// text is no JSON value.
pub fn classify_message(msg: &str) -> (event: Option<ClientEvent>)
    ensures
        event == match json_event_tag(trimmed_text(msg@)) {
            None => None,
            Some(tag) => Some(client_event_of(tag)),
        },
{
    let trimmed = trim_text(msg);
    match json_event_field(trimmed) {
        None => None,
        Some(None) => Some(ClientEvent::Unknown),
        Some(Some(e)) => {
            if e == String::from_str("message") {
                Some(ClientEvent::PrivateMessage)
            } else if e == String::from_str("delivery-report") {
                Some(ClientEvent::DeliveryReport)
            } else if e == String::from_str("destroy-message") {
                Some(ClientEvent::DestroyMessage)
            } else if e == String::from_str("delivery-deleted-message") {
                Some(ClientEvent::DeliveryDeletedMessage)
            } else {
                Some(ClientEvent::Unknown)
            }
        },
    }
}

/// What the chat server sends to a session.
#[derive(Debug)]
pub enum Outgoing {
    /// A direct message, or the echo of one to its author.
    Private(PrivateMessage),
    /// A delivery report forwarded to the author of the messages.
    DeliveryReport(DeliveryReport),
    /// Messages that waited for the user while it was away.
    NewMessages(NewMessagesArray),
    /// Ids of messages deleted while the user was away.
    NewDeletedMessages(NewDeletedMessagesArray),
    /// Ids of messages that their author deleted.
    MessagesDestroyed(DestroyMessageDeliveryToReceiver),
    /// A plain text notice, such as that someone left.
    Notice(String),
}

/// Something to send to the session of user `to`.
#[derive(Debug)]
pub struct Delivery {
    pub to: usize,
    pub payload: Outgoing,
}

/// `m` is the stored message `saved` under the event name `event`, with
/// the client number `local_id`, and its creation time as text, which is
/// there whenever the time is within [`within_display_range`].
pub open spec fn presents_stored_message(
    m: PrivateMessage,
    event: Seq<char>,
    local_id: Option<usize>,
    saved: StoredMessage,
) -> bool {
    &&& m.event@ == event
    &&& m.data.local_id == local_id
    &&& m.data.id == saved.id as usize
    &&& m.data.sender == saved.sender as usize
    &&& m.data.receiver == saved.receiver as usize
    &&& m.data.content@ == saved.content@
    &&& match m.data.created_at {
        Some(t) => timestamp_text(saved.created_at.secs as int, saved.created_at.nanos as int)
            == Some(t@),
        None => timestamp_text(saved.created_at.secs as int, saved.created_at.nanos as int) is None,
    }
    &&& within_display_range(saved.created_at.secs as int, saved.created_at.nanos as int)
        ==> m.data.created_at is Some
}

/// `d` sends `saved` to user `to` under the event `event` with `local_id`.
pub open spec fn delivers_stored_message(
    d: Delivery,
    to: usize,
    event: Seq<char>,
    local_id: Option<usize>,
    saved: StoredMessage,
) -> bool {
    &&& d.to == to
    &&& d.payload matches Outgoing::Private(m)
    &&& presents_stored_message(m, event, local_id, saved)
}

/// The stored message `saved` as a socket message under `event`.
fn present_stored_message(saved: &StoredMessage, event: &str, local_id: Option<usize>) -> (m:
    PrivateMessage)
    ensures
        presents_stored_message(m, event@, local_id, *saved),
{
    PrivateMessage {
        event: String::from_str(event),
        data: PrivateMessageContent {
            local_id,
            id: saved.id as usize,
            sender: saved.sender as usize,
            receiver: saved.receiver as usize,
            content: saved.content.clone(),
            created_at: display_text(&saved.created_at),
        },
    }
}

/// The row to insert for a direct message: its author, its addressee (both
/// as database integers) and its text.
pub fn new_message_row(content: &PrivateMessageContent) -> (row: CreateMessage)
    ensures
        row.sender == content.sender as i32,
        row.receiver == content.receiver as i32,
        row.content@ == content.content@,
{
    CreateMessage {
        sender: content.sender as i32,
        receiver: content.receiver as i32,
        content: content.content.clone(),
    }
}

/// The row to store for a direct message that came in over the socket of
/// `jwt_user_id`: the message's author is first set to the socket's user,
/// whatever the client put there, and the row is built from the message.
pub fn private_message_row(content: &mut PrivateMessageContent, jwt_user_id: usize) -> (row:
    CreateMessage)
    ensures
        final(content).sender == jwt_user_id,
        final(content).id == old(content).id,
        final(content).local_id == old(content).local_id,
        final(content).receiver == old(content).receiver,
        final(content).content@ == old(content).content@,
        final(content).created_at == old(content).created_at,
        row.sender == jwt_user_id as i32,
        row.receiver == old(content).receiver as i32,
        row.content@ == old(content).content@,
{
    content.set_sender_id_from_jwt(jwt_user_id);
    new_message_row(content)
}

/// The database id of a user id, where it fits an `i32`.
pub fn user_id_for_query(user_id: usize) -> (id: Option<i32>)
    ensures
        id == if user_id <= i32::MAX as usize {
            Some(user_id as i32)
        } else {
            None::<i32>
        },
{
    if user_id <= 2147483647 {
        Some(user_id as i32)
    } else {
        None
    }
}

/// Whether a delete request is the caller's to make: every listed message
/// was written by `jwt_user_id`, and all were sent to the same user as the
/// first.
pub open spec fn destroy_request_allowed(request: DestroyMessage, jwt_user_id: usize) -> bool {
    let messages = request.data.messages@;
    forall|i: int|
        0 <= i < messages.len() ==> ((#[trigger] messages[i]).sender == jwt_user_id
            && messages[i].receiver == messages[0].receiver)
}

/// A delete request is the caller's to make exactly when every listed
/// message, the first included, was written by the caller and went to the
/// first one's addressee; one message by anybody else refuses the request.
pub proof fn lemma_destroy_policy(request: DestroyMessage, jwt_user_id: usize)
    ensures
        destroy_request_allowed(request, jwt_user_id) <==> forall|i: int|
            0 <= i < request.data.messages@.len() ==> (#[trigger] request.data.messages@[i]).sender
                == jwt_user_id && request.data.messages@[i].receiver
                == request.data.messages@[0].receiver,
        forall|i: int|
            0 <= i < request.data.messages@.len() && (#[trigger] request.data.messages@[i]).sender
                != jwt_user_id ==> !destroy_request_allowed(request, jwt_user_id),
{
}

/// Checks a delete request against the policy of [`destroy_request_allowed`].
pub fn destroy_policy_check(request: &DestroyMessage, jwt_user_id: usize) -> (allowed: bool)
    ensures
        allowed == destroy_request_allowed(*request, jwt_user_id),
        allowed <==> forall|i: int|
            0 <= i < request.data.messages@.len() ==> (#[trigger] request.data.messages@[i]).sender
                == jwt_user_id && request.data.messages@[i].receiver
                == request.data.messages@[0].receiver,
{
    proof {
        lemma_destroy_policy(*request, jwt_user_id);
    }
    let messages = &request.data.messages;
    let n = messages.len();
    let mut i: usize = 0;
    while i < n
        invariant
            n == messages@.len(),
            messages@ == request.data.messages@,
            0 <= i <= n,
            forall|j: int|
                0 <= j < i ==> ((#[trigger] messages@[j]).sender == jwt_user_id
                    && messages@[j].receiver == messages@[0].receiver),
        decreases n - i,
    {
        if !(messages[i].sender == jwt_user_id && messages[i].receiver == messages[0].receiver) {
            return false;
        }
        i += 1;
    }
    true
}

/// What to look up for a delete request from `jwt_user_id`: where the
/// policy of [`destroy_request_allowed`] allows it, the ids it names, in its
/// order; `None` where the policy refuses it.
pub fn destroy_request_plan(request: &DestroyMessage, jwt_user_id: usize) -> (ids: Option<
    Vec<i32>,
>)
    ensures
        ids is Some <==> destroy_request_allowed(*request, jwt_user_id),
        ids is Some ==> forall|i: int|
            0 <= i < request.data.messages@.len() ==> (#[trigger] request.data.messages@[i]).sender
                == jwt_user_id,
        (exists|i: int|
            0 <= i < request.data.messages@.len() && (#[trigger] request.data.messages@[i]).sender
                != jwt_user_id) ==> ids is None,
        match ids {
            Some(v) => v@.len() == request.data.messages@.len() && forall|i: int|
                0 <= i < v@.len() ==> #[trigger] v@[i] == request.data.messages@[i].id as i32,
            None => true,
        },
{
    if destroy_policy_check(request, jwt_user_id) {
        Some(requested_message_ids(request))
    } else {
        None
    }
}

/// The ids of the messages a delete request names, as database integers, in
/// the request's order.
pub fn requested_message_ids(request: &DestroyMessage) -> (ids: Vec<i32>)
    ensures
        ids@.len() == request.data.messages@.len(),
        forall|i: int|
            0 <= i < ids@.len() ==> #[trigger] ids@[i] == request.data.messages@[i].id as i32,
{
    let messages = &request.data.messages;
    let n = messages.len();
    let mut ids: Vec<i32> = Vec::new();
    let mut i: usize = 0;
    while i < n
        invariant
            n == messages@.len(),
            0 <= i <= n,
            ids@.len() == i,
            forall|j: int| 0 <= j < i ==> #[trigger] ids@[j] == messages@[j].id as i32,
        decreases n - i,
    {
        ids.push(messages[i].id as i32);
        i += 1;
    }
    ids
}

/// The ids of stored messages, in order.
pub fn stored_message_ids(found: &Vec<StoredMessage>) -> (ids: Vec<i32>)
    ensures
        ids@.len() == found@.len(),
        forall|i: int| 0 <= i < ids@.len() ==> #[trigger] ids@[i] == found@[i].id,
{
    let n = found.len();
    let mut ids: Vec<i32> = Vec::new();
    let mut i: usize = 0;
    while i < n
        invariant
            n == found@.len(),
            0 <= i <= n,
            ids@.len() == i,
            forall|j: int| 0 <= j < i ==> #[trigger] ids@[j] == found@[j].id,
        decreases n - i,
    {
        ids.push(found[i].id);
        i += 1;
    }
    ids
}

impl<T> ChatServer<T> {
    /// The echo of a stored message to its author: event `assigned_message`,
    /// carrying the author's own `local_id`, sent where the author has a
    /// session.
    pub fn return_assigned_message_to_owner(
        &self,
        saved_message: &StoredMessage,
        local_id: Option<usize>,
    ) -> (d: Option<Delivery>)
        ensures
            d is Some <==> self@.sessions.contains_key(saved_message.sender as usize),
            d matches Some(x) ==> delivers_stored_message(
                x,
                saved_message.sender as usize,
                "assigned_message"@,
                local_id,
                *saved_message,
            ),
    {
        let owner = saved_message.sender as usize;
        if self.sessions.contains_key(&owner) {
            Some(
                Delivery {
                    to: owner,
                    payload: Outgoing::Private(
                        present_stored_message(saved_message, "assigned_message", local_id),
                    ),
                },
            )
        } else {
            None
        }
    }

    /// What follows the storing of a direct message: first the message to
    /// its addressee (event `message`, `local_id` 0), where the addressee has
    /// a session; then the echo to its author (see
    /// [`Self::return_assigned_message_to_owner`]).
    pub fn send_private_message(&self, saved_message: &StoredMessage, local_id: Option<usize>) -> (ds:
        Vec<Delivery>)
        ensures
            ({
                let to_receiver = self@.sessions.contains_key(saved_message.receiver as usize);
                let to_owner = self@.sessions.contains_key(saved_message.sender as usize);
                let r = if to_receiver {
                    1int
                } else {
                    0int
                };
                &&& ds@.len() == r + if to_owner {
                    1int
                } else {
                    0int
                }
                &&& to_receiver ==> delivers_stored_message(
                    ds@[0],
                    saved_message.receiver as usize,
                    "message"@,
                    Some(0usize),
                    *saved_message,
                )
                &&& to_owner ==> delivers_stored_message(
                    ds@[r],
                    saved_message.sender as usize,
                    "assigned_message"@,
                    local_id,
                    *saved_message,
                )
            }),
    {
        let mut ds: Vec<Delivery> = Vec::new();
        let receiver = saved_message.receiver as usize;
        if self.sessions.contains_key(&receiver) {
            ds.push(
                Delivery {
                    to: receiver,
                    payload: Outgoing::Private(
                        present_stored_message(saved_message, "message", Some(0)),
                    ),
                },
            );
        }
        match self.return_assigned_message_to_owner(saved_message, local_id) {
            Some(d) => ds.push(d),
            None => {},
        }
        ds
    }

    /// Forwards a delivery report to the author of the messages (the report's
    /// `sender`), but only where the database marked exactly one row as
    /// delivered and the author has a session.
    pub fn send_verified_delivery_report(&self, delivery_report: DeliveryReport, updated_rows: usize) -> (d:
        Option<Delivery>)
        ensures
            d is Some <==> (updated_rows == 1 && self@.sessions.contains_key(
                delivery_report.data.sender,
            )),
            d matches Some(x) ==> x.to == delivery_report.data.sender && x.payload
                == Outgoing::DeliveryReport(delivery_report),
    {
        if updated_rows == 1 && self.sessions.contains_key(&delivery_report.data.sender) {
            let to = delivery_report.data.sender;
            Some(Delivery { to, payload: Outgoing::DeliveryReport(delivery_report) })
        } else {
            None
        }
    }

    /// Hands a user that has a session the messages that waited for it,
    /// under the event `new-messages-array`; nothing where there are none.
    pub fn send_new_unreceived_messages(&self, user_id: usize, messages: Vec<StoredMessage>) -> (d:
        Option<Delivery>)
        ensures
            d is Some <==> (self@.sessions.contains_key(user_id) && messages@.len() > 0),
            d matches Some(x) ==> (x.to == user_id && (x.payload matches Outgoing::NewMessages(a)
                && a.event@ == "new-messages-array"@ && a.data.messages@ == messages@)),
    {
        if self.sessions.contains_key(&user_id) && messages.len() > 0 {
            let mut batch = NewMessagesArray::default();
            batch.data = NewMessagesArrayContent { messages };
            Some(Delivery { to: user_id, payload: Outgoing::NewMessages(batch) })
        } else {
            None
        }
    }

    /// Tells a user that has a session which messages were deleted, under
    /// the event `new-deleted-messages-array`; nothing where there are none.
    pub fn send_new_deleted_messages(&self, user_id: usize, messages_ids: Vec<i32>) -> (d: Option<
        Delivery,
    >)
        ensures
            d is Some <==> (self@.sessions.contains_key(user_id) && messages_ids@.len() > 0),
            d matches Some(x) ==> (x.to == user_id && (x.payload matches Outgoing::NewDeletedMessages(a)
                && a.event@ == "new-deleted-messages-array"@ && a.data.messages_ids@
                == messages_ids@)),
    {
        if self.sessions.contains_key(&user_id) && messages_ids.len() > 0 {
            let mut batch = NewDeletedMessagesArray::default();
            batch.data = NewDeletedMessagesArrayContent { messages_ids };
            Some(Delivery { to: user_id, payload: Outgoing::NewDeletedMessages(batch) })
        } else {
            None
        }
    }

    /// After the deletion of `found` (the stored messages a delete request
    /// named, which all went to one user), tells the addressee of the first
    /// which ids were deleted, under the event `destroy-messages-to-receiver`,
    /// where it has a session.
    pub fn destory_messages(&self, found: &Vec<StoredMessage>, verified_message_ids: Vec<i32>) -> (d:
        Option<Delivery>)
        requires
            found@.len() > 0,
        ensures
            d is Some <==> self@.sessions.contains_key(found@[0].receiver as usize),
            d matches Some(x) ==> (x.to == found@[0].receiver as usize
                && (x.payload matches Outgoing::MessagesDestroyed(n)
                && n.event@ == "destroy-messages-to-receiver"@ && n.data.message_ids@
                == verified_message_ids@)),
    {
        let receiver = found[0].receiver as usize;
        if self.sessions.contains_key(&receiver) {
            let notice = DestroyMessageDeliveryToReceiver {
                event: String::from_str("destroy-messages-to-receiver"),
                data: DestroyMessageDeliveryToReceiverContent { message_ids: verified_message_ids },
            };
            Some(Delivery { to: receiver, payload: Outgoing::MessagesDestroyed(notice) })
        } else {
            None
        }
    }
}

/// Disconnecting the number that `connect` returned undoes the connect: the
/// user's session is gone and every other user's session is as it was (so
/// a user that had no session before has none after), the connection is
/// forgotten (so, the number being one no live connection had, the live
/// connections are as before), and rooms keep their names and lose only
/// that connection.
pub proof fn lemma_disconnect_undoes_connect<T>(
    s: ChatServerView<T>,
    tx: T,
    user: usize,
    id: SessionID,
)
    ensures
        after_disconnect(after_connect(s, tx, user, id), id).sessions == s.sessions.remove(user),
        !s.sessions.contains_key(user) ==> after_disconnect(after_connect(s, tx, user, id), id).sessions
            == s.sessions,
        after_disconnect(after_connect(s, tx, user, id), id).connections == s.connections.remove(id),
        !s.connections.contains_key(id) ==> after_disconnect(after_connect(s, tx, user, id), id).connections
            == s.connections,
        after_disconnect(after_connect(s, tx, user, id), id).rooms.len() == s.rooms.len(),
        forall|i: int|
            0 <= i < s.rooms.len() ==> (#[trigger] after_disconnect(
                after_connect(s, tx, user, id),
                id,
            ).rooms[i]) == (RoomView { name: s.rooms[i].name, members: without(s.rooms[i].members, id) }),
        forall|i: int|
            0 <= i < s.rooms.len() && !s.rooms[i].members.contains(id) ==> (#[trigger] after_disconnect(
                after_connect(s, tx, user, id),
                id,
            ).rooms[i]) == s.rooms[i],
{
    let after = after_disconnect(after_connect(s, tx, user, id), id);
    assert(after.sessions =~= s.sessions.remove(user));
    if !s.sessions.contains_key(user) {
        assert(s.sessions.remove(user) =~= s.sessions);
    }
    assert(after.connections =~= s.connections.remove(id));
    if !s.connections.contains_key(id) {
        assert(s.connections.remove(id) =~= s.connections);
    }
    assert forall|i: int| 0 <= i < s.rooms.len() && !s.rooms[i].members.contains(id) implies (#[trigger] after.rooms[i]) == s.rooms[i] by {
        lemma_without::<T>(s.rooms[i].members, id);
    }
}

/// Disconnecting the same connection twice does no more than once, and the
/// second time nobody is told.
pub proof fn lemma_disconnect_idempotent<T>(s: ChatServerView<T>, conn: SessionID)
    ensures
        after_disconnect(after_disconnect(s, conn), conn) == after_disconnect(s, conn),
        disconnect_targets(after_disconnect(s, conn), conn) == Seq::<usize>::empty(),
{
}

/// After a live connection goes away it is forgotten and in no room, and
/// its user has no session unless a newer connection opened it.
pub proof fn lemma_disconnect_leaves_no_trace<T>(s: ChatServerView<T>, conn: SessionID)
    requires
        s.connections.contains_key(conn),
    ensures
        !after_disconnect(s, conn).connections.contains_key(conn),
        forall|i: int|
            0 <= i < after_disconnect(s, conn).rooms.len() ==> !(#[trigger] after_disconnect(
                s,
                conn,
            ).rooms[i]).members.contains(conn),
        s.sessions.contains_key(s.connections[conn]) && s.sessions[s.connections[conn]].0 == conn
            ==> !after_disconnect(s, conn).sessions.contains_key(s.connections[conn]),
{
    assert forall|i: int| 0 <= i < after_disconnect(s, conn).rooms.len() implies !(#[trigger] after_disconnect(s, conn).rooms[i]).members.contains(conn) by {
        lemma_without::<T>(s.rooms[i].members, conn);
    }
}

/// The notice of a departure reaches only users that are still online.
pub proof fn lemma_disconnect_notices_online<T>(s: ChatServerView<T>, conn: SessionID)
    ensures
        forall|i: int|
            0 <= i < disconnect_targets(s, conn).len() ==> after_disconnect(
                s,
                conn,
            ).sessions.contains_key(#[trigger] disconnect_targets(s, conn)[i]),
{
    if s.connections.contains_key(conn) {
        let after = after_disconnect(s, conn);
        lemma_room_targets_online(s.rooms, conn, after.connections, after.sessions);
    }
}

/// Each member still online of a room the departing connection was in is
/// among those told of the departure.
proof fn lemma_member_told<T>(
    members: Seq<SessionID>,
    conn: SessionID,
    m: SessionID,
    connections: Map<SessionID, usize>,
    sessions: Map<usize, (SessionID, T)>,
)
    requires
        members.contains(m),
        m != conn,
        connections.contains_key(m),
        sessions.contains_key(connections[m]),
    ensures
        member_targets(members, conn, connections, sessions).contains(connections[m]),
    decreases members.len(),
{
    let rest = members.drop_last();
    let t = member_targets(members, conn, connections, sessions);
    if members.last() == m {
        assert(t.last() == connections[m]);
        assert(t[t.len() - 1] == connections[m]);
    } else {
        let k = choose|k: int| 0 <= k < members.len() && members[k] == m;
        assert(rest[k] == m);
        lemma_member_told(rest, conn, m, connections, sessions);
        let r = member_targets(rest, conn, connections, sessions);
        let j = choose|j: int| 0 <= j < r.len() && r[j] == connections[m];
        assert(t[j] == connections[m]);
    }
}

proof fn lemma_room_told<T>(
    rooms: Seq<RoomView>,
    i: int,
    conn: SessionID,
    m: SessionID,
    connections: Map<SessionID, usize>,
    sessions: Map<usize, (SessionID, T)>,
)
    requires
        0 <= i < rooms.len(),
        rooms[i].members.contains(conn),
        rooms[i].members.contains(m),
        m != conn,
        connections.contains_key(m),
        sessions.contains_key(connections[m]),
    ensures
        room_targets(rooms, conn, connections, sessions).contains(connections[m]),
    decreases rooms.len(),
{
    let a = room_targets(rooms.drop_last(), conn, connections, sessions);
    let t = room_targets(rooms, conn, connections, sessions);
    if i == rooms.len() - 1 {
        lemma_member_told(rooms[i].members, conn, m, connections, sessions);
        let b = member_targets(rooms[i].members, conn, connections, sessions);
        let j = choose|j: int| 0 <= j < b.len() && b[j] == connections[m];
        assert(t[a.len() + j] == connections[m]);
    } else {
        assert(rooms.drop_last()[i] == rooms[i]);
        lemma_room_told(rooms.drop_last(), i, conn, m, connections, sessions);
        let j = choose|j: int| 0 <= j < a.len() && a[j] == connections[m];
        assert(t[j] == connections[m]);
    }
}

/// The departure of a live connection is broadcast to its rooms: every
/// other member of a room it was in whose connection is live and whose user
/// still has a session afterwards is told.
pub proof fn lemma_disconnect_tells_room_members<T>(
    s: ChatServerView<T>,
    conn: SessionID,
    i: int,
    m: SessionID,
)
    requires
        s.connections.contains_key(conn),
        0 <= i < s.rooms.len(),
        s.rooms[i].members.contains(conn),
        s.rooms[i].members.contains(m),
        m != conn,
        after_disconnect(s, conn).connections.contains_key(m),
        after_disconnect(s, conn).sessions.contains_key(after_disconnect(s, conn).connections[m]),
    ensures
        disconnect_targets(s, conn).contains(after_disconnect(s, conn).connections[m]),
{
    let after = after_disconnect(s, conn);
    lemma_room_told(s.rooms, i, conn, m, after.connections, after.sessions);
}

/// A text sent to the rooms reaches exactly users that are online, and it
/// reaches every other online member of each room the sender is in.
pub proof fn lemma_room_message_reaches_members<T>(
    s: ChatServerView<T>,
    conn: SessionID,
    i: int,
    m: SessionID,
)
    requires
        s.connections.contains_key(conn),
        0 <= i < s.rooms.len(),
        s.rooms[i].members.contains(conn),
        s.rooms[i].members.contains(m),
        m != conn,
        s.connections.contains_key(m),
        s.sessions.contains_key(s.connections[m]),
    ensures
        room_message_targets(s, conn).contains(s.connections[m]),
        forall|k: int|
            0 <= k < room_message_targets(s, conn).len() ==> s.sessions.contains_key(
                #[trigger] room_message_targets(s, conn)[k],
            ),
{
    lemma_room_told(s.rooms, i, conn, m, s.connections, s.sessions);
    lemma_room_targets_online(s.rooms, conn, s.connections, s.sessions);
}

/// Connecting and disconnecting keep the rooms and their names, and keep the
/// server well formed; so the room `Main` that a new server opens is never
/// lost.
pub proof fn lemma_room_names_preserved<T>(
    s: ChatServerView<T>,
    tx: T,
    user: usize,
    id: SessionID,
    conn: SessionID,
)
    ensures
        after_connect(s, tx, user, id).rooms == s.rooms,
        after_disconnect(s, conn).rooms.len() == s.rooms.len(),
        forall|i: int|
            0 <= i < s.rooms.len() ==> (#[trigger] after_disconnect(s, conn).rooms[i]).name
                == s.rooms[i].name,
        rooms_well_formed(s.rooms) ==> rooms_well_formed(after_connect(s, tx, user, id).rooms)
            && rooms_well_formed(after_disconnect(s, conn).rooms),
{
    if rooms_well_formed(s.rooms) && s.connections.contains_key(conn) {
        let after = after_disconnect(s, conn).rooms;
        assert forall|i: int, j: int|
            0 <= i < after.len() && 0 <= j < after.len() && i != j implies #[trigger] after[i].name
            != #[trigger] after[j].name by {
            assert(after[i].name == s.rooms[i].name);
            assert(after[j].name == s.rooms[j].name);
        }
        assert forall|i: int| 0 <= i < after.len() implies (#[trigger] after[i]).members.no_duplicates() by {
            lemma_without::<T>(s.rooms[i].members, conn);
        }
    }
}

/// The addressee's copy of a stored message and its author's echo agree on
/// everything but the event name and the client number: same id, author,
/// addressee, text and time.
pub proof fn lemma_copies_agree(
    to_receiver: PrivateMessage,
    to_owner: PrivateMessage,
    local_id: Option<usize>,
    saved: StoredMessage,
)
    requires
        presents_stored_message(to_receiver, "message"@, Some(0usize), saved),
        presents_stored_message(to_owner, "assigned_message"@, local_id, saved),
    ensures
        to_receiver.data.id == to_owner.data.id,
        to_receiver.data.sender == to_owner.data.sender,
        to_receiver.data.receiver == to_owner.data.receiver,
        to_receiver.data.content@ == to_owner.data.content@,
        to_receiver.data.created_at is Some <==> to_owner.data.created_at is Some,
        match (to_receiver.data.created_at, to_owner.data.created_at) {
            (Some(a), Some(b)) => a@ == b@,
            _ => true,
        },
{
}

/// A direct message whose author and addressee ids fit the database's
/// integers comes back to the right users: where the database stores the
/// row that [`new_message_row`] builds, the stored row's author and
/// addressee, read back as user ids, are the message's author (the caller,
/// once [`PrivateMessageContent::set_sender_id_from_jwt`] has run) and
/// addressee.
pub proof fn lemma_message_row_round_trip(content: PrivateMessageContent, saved: StoredMessage)
    requires
        content.sender <= i32::MAX as usize,
        content.receiver <= i32::MAX as usize,
        saved.sender == content.sender as i32,
        saved.receiver == content.receiver as i32,
    ensures
        saved.sender as usize == content.sender,
        saved.receiver as usize == content.receiver,
{
}

} // verus!
