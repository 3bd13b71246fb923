use vstd::prelude::*;
use std::collections::HashMap;

verus! {

broadcast use vstd::std_specs::hash::group_hash_axioms;

/// A logged-in user. `session` tells one login apart from another: the lobby and
/// the rooms hold the same login exactly when they hold records with the same
/// `session`.
#[derive(Debug, Clone, PartialEq)]
pub struct UserInfo {
    pub conn_id: u32,
    pub name: String,
    pub login_at: u64,
    pub rooms: Vec<String>,
    pub session: u64,
}

/// A room and the logins in it.
#[derive(Debug, Clone, PartialEq)]
pub struct Room {
    pub name: String,
    pub members: Vec<UserInfo>,
}

/// The server's shared state: the logged-in users by connection id, and the rooms.
#[derive(Debug, Clone, PartialEq)]
pub struct AppState {
    pub lobby: HashMap<u32, UserInfo>,
    pub rooms: Vec<Room>,
}

/// Whom a pruning of the rooms takes out: every member on a connection, or one login.
#[derive(Debug, Clone, Copy, PartialEq)]
pub enum Departure {
    Connection(u32),
    Login(u64),
}

/// A room as the contracts see it: its name and its members.
pub type RoomView = (Seq<char>, Seq<UserInfo>);

/// Member `u` stays in a room that `d` is pruned from.
pub open spec fn stays(d: Departure, u: UserInfo) -> bool {
    match d {
        Departure::Connection(c) => u.conn_id != c,
        Departure::Login(s) => u.session != s,
    }
}

/// The members that stay when `d` leaves.
pub open spec fn remaining_members(members: Seq<UserInfo>, d: Departure) -> Seq<UserInfo> {
    members.filter(|u: UserInfo| stays(d, u))
}

pub open spec fn room_view(r: Room) -> RoomView {
    (r.name@, r.members@)
}

pub open spec fn rooms_view(rooms: Seq<Room>) -> Seq<RoomView> {
    rooms.map_values(|r: Room| room_view(r))
}

pub open spec fn names_view(names: Seq<String>) -> Seq<Seq<char>> {
    names.map_values(|n: String| n@)
}

/// A room after `d` left the rooms named in `names`.
pub open spec fn prune_room(r: RoomView, names: Seq<Seq<char>>, d: Departure) -> RoomView {
    if names.contains(r.0) {
        (r.0, remaining_members(r.1, d))
    } else {
        r
    }
}

/// The rooms that have members.
pub open spec fn occupied(rooms: Seq<RoomView>) -> Seq<RoomView> {
    rooms.filter(|r: RoomView| r.1.len() > 0)
}

/// The rooms after `d` left the rooms named in `names` and the empty rooms were dropped.
pub open spec fn pruned(rooms: Seq<RoomView>, names: Seq<Seq<char>>, d: Departure) -> Seq<RoomView> {
    occupied(rooms.map_values(|r: RoomView| prune_room(r, names, d)))
}

proof fn lemma_remaining_push(s: Seq<UserInfo>, u: UserInfo, d: Departure)
    ensures
        remaining_members(s.push(u), d) == (if stays(d, u) {
            remaining_members(s, d).push(u)
        } else {
            remaining_members(s, d)
        }),
{
    reveal(Seq::filter);
    assert(s.push(u).drop_last() =~= s);
}

proof fn lemma_pruned_push(rooms: Seq<RoomView>, r: RoomView, names: Seq<Seq<char>>, d: Departure)
    ensures
        pruned(rooms.push(r), names, d) == (if prune_room(r, names, d).1.len() > 0 {
            pruned(rooms, names, d).push(prune_room(r, names, d))
        } else {
            pruned(rooms, names, d)
        }),
{
    reveal(Seq::filter);
    let f = |x: RoomView| prune_room(x, names, d);
    assert(rooms.push(r).map_values(f) =~= rooms.map_values(f).push(prune_room(r, names, d)));
    assert(rooms.push(r).map_values(f).drop_last() =~= rooms.map_values(f));
}

impl Departure {
    /// Whether `u` stays.
    fn keeps(&self, u: &UserInfo) -> (b: bool)
        ensures
            b == stays(*self, *u),
    {
        match self {
            Departure::Connection(c) => u.conn_id != *c,
            Departure::Login(s) => u.session != *s,
        }
    }
}

/// Whether `name` is among `names`.
fn name_listed(names: &Vec<String>, name: &String) -> (b: bool)
    ensures
        b == names_view(names@).contains(name@),
{
    let mut i: usize = 0;
    while i < names.len()
        invariant
            i <= names@.len(),
            forall|j: int| 0 <= j < i ==> names@[j]@ != name@,
        decreases names@.len() - i,
    {
        if names[i] == *name {
            assert(names_view(names@)[i as int] == name@);
            return true;
        }
        i += 1;
    }
    assert forall|j: int| 0 <= j < names_view(names@).len() implies names_view(names@)[j] != name@ by {
        assert(names_view(names@)[j] == names@[j]@);
    }
    false
}

/// The members that stay when `d` leaves.
fn remaining(members: Vec<UserInfo>, d: &Departure) -> (r: Vec<UserInfo>)
    ensures
        r@ == remaining_members(members@, *d),
{
    let ghost orig = members@;
    let ghost mut k: int = 0;
    let mut rest = members;
    let mut kept: Vec<UserInfo> = Vec::new();
    assert(orig.take(0) =~= Seq::<UserInfo>::empty());
    reveal(Seq::filter);
    while rest.len() > 0
        invariant
            0 <= k <= orig.len(),
            rest@ == orig.skip(k),
            kept@ == remaining_members(orig.take(k), *d),
        decreases rest@.len(),
    {
        let u = rest.remove(0);
        proof {
            assert(u == orig[k]);
            lemma_remaining_push(orig.take(k), u, *d);
            assert(orig.take(k + 1) =~= orig.take(k).push(u));
            assert(rest@ =~= orig.skip(k + 1));
            k = k + 1;
        }
        if d.keeps(&u) {
            kept.push(u);
        }
    }
    assert(orig.take(k) =~= orig);
    kept
}

impl AppState {
    /// Takes `d` out of the rooms named in `names`, then drops every empty room.
    fn prune_rooms(&mut self, names: &Vec<String>, d: &Departure)
        ensures
            final(self).lobby@ == old(self).lobby@,
            rooms_view(final(self).rooms@) == pruned(rooms_view(old(self).rooms@), names_view(names@), *d),
    {
        let ghost orig = rooms_view(self.rooms@);
        let ghost nm = names_view(names@);
        let ghost mut k: int = 0;
        let mut rest: Vec<Room> = Vec::new();
        std::mem::swap(&mut rest, &mut self.rooms);
        assert(orig.take(0) =~= Seq::<RoomView>::empty());
        assert(rooms_view(self.rooms@) =~= Seq::<RoomView>::empty());
        reveal(Seq::filter);
        while rest.len() > 0
            invariant
                0 <= k <= orig.len(),
                rooms_view(rest@) == orig.skip(k),
                rooms_view(self.rooms@) == pruned(orig.take(k), nm, *d),
                self.lobby@ == old(self).lobby@,
                nm == names_view(names@),
            decreases rest@.len(),
        {
            let ghost before = self.rooms@;
            assert(rooms_view(rest@).len() == rest@.len());
            assert(k < orig.len());
            let ghost old_rest = rest@;
            let room = rest.remove(0);
            proof {
                assert(room_view(room) == rooms_view(rest@.insert(0, room))[0]);
                assert(orig.skip(k)[0] == orig[k]);
            }
            let Room { name, members } = room;
            let members = if name_listed(names, &name) {
                remaining(members, d)
            } else {
                members
            };
            let kept = Room { name, members };
            proof {
                assert(room_view(kept) == prune_room(orig[k], nm, *d));
                lemma_pruned_push(orig.take(k), orig[k], nm, *d);
                assert(orig.take(k + 1) =~= orig.take(k).push(orig[k]));
                assert forall|i: int| 0 <= i < rest@.len() implies rooms_view(rest@)[i] == orig.skip(k + 1)[i] by {
                    assert(rest@[i] == old_rest[i + 1]);
                    assert(rooms_view(old_rest)[i + 1] == orig.skip(k)[i + 1]);
                }
                assert(rooms_view(rest@) =~= orig.skip(k + 1));
            }
            if kept.members.len() > 0 {
                self.rooms.push(kept);
                proof {
                    assert(rooms_view(self.rooms@) =~= rooms_view(before).push(room_view(kept)));
                }
            }
            proof {
                k = k + 1;
            }
        }
        assert(orig.take(k) =~= orig);
    }
}

/// The rooms after `user` logged in on top of what `lobby` held: where the
/// connection already had a login, that connection leaves the rooms the old login
/// was in, and the empty rooms are dropped; otherwise nothing changes.
pub open spec fn rooms_after_add(lobby: Map<u32, UserInfo>, rooms: Seq<RoomView>, user: UserInfo) -> Seq<RoomView> {
    if lobby.contains_key(user.conn_id) {
        pruned(rooms, names_view(lobby[user.conn_id].rooms@), Departure::Connection(user.conn_id))
    } else {
        rooms
    }
}

/// The lobby holds login `session` on connection `conn_id`.
pub open spec fn holds_login(lobby: Map<u32, UserInfo>, conn_id: u32, session: u64) -> bool {
    lobby.contains_key(conn_id) && lobby[conn_id].session == session
}

/// The lobby after login `session` on connection `conn_id` left: its entry goes
/// where the lobby still holds that login; a login that has since taken the
/// connection over stays.
pub open spec fn lobby_after_leave(lobby: Map<u32, UserInfo>, conn_id: u32, session: u64) -> Map<u32, UserInfo> {
    if holds_login(lobby, conn_id, session) {
        lobby.remove(conn_id)
    } else {
        lobby
    }
}

/// The rooms after login `session` on connection `conn_id` left: where the lobby
/// still holds that login, it leaves the rooms it was in and the empty rooms are
/// dropped; otherwise nothing changes.
pub open spec fn rooms_after_leave(lobby: Map<u32, UserInfo>, rooms: Seq<RoomView>, conn_id: u32, session: u64) -> Seq<RoomView> {
    if holds_login(lobby, conn_id, session) {
        pruned(rooms, names_view(lobby[conn_id].rooms@), Departure::Login(lobby[conn_id].session))
    } else {
        rooms
    }
}

impl AppState {
    /// Puts `user` into the lobby under its connection id. A login that held that
    /// connection before is pushed out: the connection leaves the rooms that login
    /// was in, and the rooms left empty are dropped.
    pub fn add(&mut self, user: UserInfo)
        ensures
            final(self).lobby@ == old(self).lobby@.insert(user.conn_id, user),
            rooms_view(final(self).rooms@) == rooms_after_add(old(self).lobby@, rooms_view(old(self).rooms@), user),
            names_distinct(rooms_view(old(self).rooms@)) ==> names_distinct(rooms_view(final(self).rooms@)),
            all_occupied(rooms_view(old(self).rooms@)) ==> all_occupied(rooms_view(final(self).rooms@)),
            old(self).lobby@.contains_key(user.conn_id) ==> forall|i: int, k: int|
                0 <= i < final(self).rooms@.len()
                    && names_view(old(self).lobby@[user.conn_id].rooms@).contains(#[trigger] final(self).rooms@[i].name@)
                    && 0 <= k < final(self).rooms@[i].members@.len()
                    ==> (#[trigger] final(self).rooms@[i].members@[k]).conn_id != user.conn_id,
    {
        proof {
            if names_distinct(rooms_view(self.rooms@)) {
                lemma_room_names_stay_distinct(self.lobby@, rooms_view(self.rooms@), user, user.conn_id, user.session);
            }
            if self.lobby@.contains_key(user.conn_id) {
                lemma_add_takes_connection_out_of_old_rooms(self.lobby@, rooms_view(self.rooms@), user);
            }
            if self.lobby@.contains_key(user.conn_id) {
                lemma_pushed_out_login_leaves_its_rooms(self.lobby@, rooms_view(self.rooms@), user);
            }
        }
        let ghost old_lobby = self.lobby@;
        let ghost old_rooms = rooms_view(self.rooms@);
        let conn_id: u32 = user.conn_id;
        let old_user = self.lobby.insert(conn_id, user);
        if let Some(old_user) = old_user {
            self.prune_rooms(&old_user.rooms, &Departure::Connection(conn_id));
        }
        proof {
            if old_lobby.contains_key(conn_id) {
                assert forall|i: int, k: int|
                    0 <= i < self.rooms@.len()
                        && names_view(old_lobby[conn_id].rooms@).contains(#[trigger] self.rooms@[i].name@)
                        && 0 <= k < self.rooms@[i].members@.len()
                        implies (#[trigger] self.rooms@[i].members@[k]).conn_id != conn_id by {
                    let after = rooms_after_add(old_lobby, old_rooms, user);
                    assert(rooms_view(self.rooms@)[i] == room_view(self.rooms@[i]));
                    assert(after[i].0 == self.rooms@[i].name@);
                    assert(after[i].1[k] == self.rooms@[i].members@[k]);
                }
            }
        }
    }

    /// Login `session` on connection `conn_id` goes offline: where the lobby still
    /// holds that login, it is taken out of the lobby and out of the rooms it was
    /// in, and the rooms left empty are dropped. Where the connection has no login,
    /// or another login has pushed this one out, nothing changes.
    pub fn leave(&mut self, conn_id: u32, session: u64)
        ensures
            final(self).lobby@ == lobby_after_leave(old(self).lobby@, conn_id, session),
            rooms_view(final(self).rooms@) == rooms_after_leave(old(self).lobby@, rooms_view(old(self).rooms@), conn_id, session),
            names_distinct(rooms_view(old(self).rooms@)) ==> names_distinct(rooms_view(final(self).rooms@)),
            all_occupied(rooms_view(old(self).rooms@)) ==> all_occupied(rooms_view(final(self).rooms@)),
            holds_login(old(self).lobby@, conn_id, session) ==> forall|i: int, k: int|
                0 <= i < final(self).rooms@.len()
                    && names_view(old(self).lobby@[conn_id].rooms@).contains(#[trigger] final(self).rooms@[i].name@)
                    && 0 <= k < final(self).rooms@[i].members@.len()
                    ==> (#[trigger] final(self).rooms@[i].members@[k]).session != session,
    {
        proof {
            if names_distinct(rooms_view(self.rooms@)) {
                lemma_room_names_stay_distinct(self.lobby@, rooms_view(self.rooms@), self.lobby@[conn_id], conn_id, session);
            }
            if holds_login(self.lobby@, conn_id, session) {
                lemma_leave_takes_login_out_of_its_rooms(self.lobby@, rooms_view(self.rooms@), conn_id, session);
            }
            if holds_login(self.lobby@, conn_id, session) {
                lemma_departed_login_leaves_its_rooms(self.lobby@, rooms_view(self.rooms@), conn_id, session);
            }
        }
        let current = self.lobby.get(&conn_id);
        let still_held: bool = match current {
            Some(u) => u.session == session,
            None => false,
        };
        let ghost old_lobby = self.lobby@;
        let ghost old_rooms = rooms_view(self.rooms@);
        if still_held {
            let user = self.lobby.remove(&conn_id);
            if let Some(user) = user {
                self.prune_rooms(&user.rooms, &Departure::Login(user.session));
            }
        }
        proof {
            if holds_login(old_lobby, conn_id, session) {
                assert forall|i: int, k: int|
                    0 <= i < self.rooms@.len()
                        && names_view(old_lobby[conn_id].rooms@).contains(#[trigger] self.rooms@[i].name@)
                        && 0 <= k < self.rooms@[i].members@.len()
                        implies (#[trigger] self.rooms@[i].members@[k]).session != session by {
                    let after = rooms_after_leave(old_lobby, old_rooms, conn_id, session);
                    assert(rooms_view(self.rooms@)[i] == room_view(self.rooms@[i]));
                    assert(after[i].0 == self.rooms@[i].name@);
                    assert(after[i].1[k] == self.rooms@[i].members@[k]);
                }
            }
        }
    }
}

/// The names of the rooms, in order.
pub open spec fn room_names(rooms: Seq<RoomView>) -> Seq<Seq<char>> {
    rooms.map_values(|r: RoomView| r.0)
}

/// No two rooms have the same name.
pub open spec fn names_distinct(rooms: Seq<RoomView>) -> bool {
    room_names(rooms).no_duplicates()
}

/// Every room has a member.
pub open spec fn all_occupied(rooms: Seq<RoomView>) -> bool {
    forall|i: int| 0 <= i < rooms.len() ==> #[trigger] rooms[i].1.len() > 0
}

/// In every room named in `names`, every member stays when `d` leaves.
pub open spec fn departed_from(rooms: Seq<RoomView>, names: Seq<Seq<char>>, d: Departure) -> bool {
    forall|i: int, k: int|
        0 <= i < rooms.len() && names.contains(#[trigger] rooms[i].0) && 0 <= k < rooms[i].1.len()
            ==> stays(d, #[trigger] rooms[i].1[k])
}

proof fn lemma_room_names_push(rooms: Seq<RoomView>, r: RoomView)
    ensures
        room_names(rooms.push(r)) == room_names(rooms).push(r.0),
{
    assert(room_names(rooms.push(r)) =~= room_names(rooms).push(r.0));
}

proof fn lemma_remaining_all_stay(members: Seq<UserInfo>, d: Departure)
    requires
        forall|k: int| 0 <= k < members.len() ==> stays(d, #[trigger] members[k]),
    ensures
        remaining_members(members, d) == members,
    decreases members.len(),
{
    if members.len() > 0 {
        let init = members.drop_last();
        lemma_remaining_all_stay(init, d);
        lemma_remaining_push(init, members.last(), d);
        assert(init.push(members.last()) =~= members);
    }
}

/// What pruning keeps: every room left has a member; every room left is one of
/// the rooms before, by name; the rooms named lose everyone who does not stay;
/// distinct names stay distinct.
pub proof fn lemma_pruned_shape(rooms: Seq<RoomView>, names: Seq<Seq<char>>, d: Departure)
    ensures
        all_occupied(pruned(rooms, names, d)),
        forall|i: int| 0 <= i < pruned(rooms, names, d).len()
            ==> room_names(rooms).contains(#[trigger] pruned(rooms, names, d)[i].0),
        departed_from(pruned(rooms, names, d), names, d),
        names_distinct(rooms) ==> names_distinct(pruned(rooms, names, d)),
    decreases rooms.len(),
{
    let p = pruned(rooms, names, d);
    if rooms.len() == 0 {
        reveal(Seq::filter);
        assert(p.len() == 0);
    } else {
        let init = rooms.drop_last();
        let r = rooms.last();
        let q = pruned(init, names, d);
        let pr = prune_room(r, names, d);
        lemma_pruned_shape(init, names, d);
        lemma_pruned_push(init, r, names, d);
        assert(init.push(r) =~= rooms);
        lemma_room_names_push(init, r);
        assert forall|i: int| 0 <= i < p.len() implies room_names(rooms).contains(#[trigger] p[i].0) by {
            if i < q.len() {
                assert(p[i] == q[i]);
                let j = choose|j: int| 0 <= j < room_names(init).len() && room_names(init)[j] == q[i].0;
                assert(room_names(rooms)[j] == q[i].0);
            } else {
                assert(room_names(rooms)[rooms.len() - 1] == r.0);
            }
        }
        assert forall|i: int, k: int|
            0 <= i < p.len() && names.contains(#[trigger] p[i].0) && 0 <= k < p[i].1.len()
            implies stays(d, #[trigger] p[i].1[k]) by {
            if i < q.len() {
                assert(p[i] == q[i]);
            } else {
                assert(p[i] == pr);
                assert(remaining_members(r.1, d)[k] == pr.1[k]);
            }
        }
        assert forall|i: int| 0 <= i < p.len() implies #[trigger] p[i].1.len() > 0 by {
            if i < q.len() {
                assert(p[i] == q[i]);
            }
        }
        if names_distinct(rooms) {
            assert(names_distinct(init)) by {
                assert forall|a: int, b: int| 0 <= a < room_names(init).len() && 0 <= b < room_names(init).len() && a != b
                    implies room_names(init)[a] != room_names(init)[b] by {
                    assert(room_names(init)[a] == room_names(rooms)[a]);
                    assert(room_names(init)[b] == room_names(rooms)[b]);
                }
            }
            if pr.1.len() > 0 {
                assert forall|a: int, b: int| 0 <= a < room_names(p).len() && 0 <= b < room_names(p).len() && a != b
                    implies room_names(p)[a] != room_names(p)[b] by {
                    if a < q.len() && b < q.len() {
                        assert(room_names(p)[a] == room_names(q)[a]);
                        assert(room_names(p)[b] == room_names(q)[b]);
                    } else {
                        let o: int = if a < q.len() { a } else { b };
                        assert(o < q.len());
                        assert(room_names(p)[o] == q[o].0);
                        assert(room_names(rooms).contains(p[o].0));
                        let j = choose|j: int| 0 <= j < room_names(init).len() && room_names(init)[j] == q[o].0;
                        assert(room_names(rooms)[j] == q[o].0);
                        assert(room_names(rooms)[rooms.len() - 1] == r.0);
                    }
                }
            } else {
                assert(p == q);
            }
        }
    }
}

/// Pruning changes nothing where every room has a member and every member stays.
pub proof fn lemma_pruned_keeps(rooms: Seq<RoomView>, names: Seq<Seq<char>>, d: Departure)
    requires
        all_occupied(rooms),
        forall|i: int, k: int| 0 <= i < rooms.len() && 0 <= k < rooms[i].1.len() ==> stays(d, #[trigger] rooms[i].1[k]),
    ensures
        pruned(rooms, names, d) == rooms,
    decreases rooms.len(),
{
    if rooms.len() == 0 {
        reveal(Seq::filter);
        assert(pruned(rooms, names, d) =~= rooms);
    } else {
        let init = rooms.drop_last();
        let r = rooms.last();
        assert forall|i: int| 0 <= i < init.len() implies #[trigger] init[i].1.len() > 0 by {
            assert(init[i] == rooms[i]);
        }
        assert forall|i: int, k: int| 0 <= i < init.len() && 0 <= k < init[i].1.len() implies stays(d, #[trigger] init[i].1[k]) by {
            assert(init[i] == rooms[i]);
        }
        lemma_pruned_keeps(init, names, d);
        lemma_pruned_push(init, r, names, d);
        assert(init.push(r) =~= rooms);
        assert(rooms[rooms.len() - 1] == r);
        assert forall|k: int| 0 <= k < r.1.len() implies stays(d, #[trigger] r.1[k]) by {
            assert(rooms[rooms.len() - 1].1[k] == r.1[k]);
        }
        lemma_remaining_all_stay(r.1, d);
        assert(prune_room(r, names, d) == r);
    }
}

/// Room names that are distinct stay distinct when a user logs in and when one
/// logs out.
pub proof fn lemma_room_names_stay_distinct(
    lobby: Map<u32, UserInfo>,
    rooms: Seq<RoomView>,
    user: UserInfo,
    conn_id: u32,
    session: u64,
)
    requires
        names_distinct(rooms),
    ensures
        names_distinct(rooms_after_add(lobby, rooms, user)),
        names_distinct(rooms_after_leave(lobby, rooms, conn_id, session)),
{
    if lobby.contains_key(user.conn_id) {
        lemma_pruned_shape(rooms, names_view(lobby[user.conn_id].rooms@), Departure::Connection(user.conn_id));
    }
    if lobby.contains_key(conn_id) {
        lemma_pruned_shape(rooms, names_view(lobby[conn_id].rooms@), Departure::Login(lobby[conn_id].session));
    }
}

/// When a new login pushes out the login that held its connection, no room the
/// old login was in still holds a member on that connection, and no room is empty.
pub proof fn lemma_pushed_out_login_leaves_its_rooms(lobby: Map<u32, UserInfo>, rooms: Seq<RoomView>, user: UserInfo)
    requires
        lobby.contains_key(user.conn_id),
    ensures
        departed_from(
            rooms_after_add(lobby, rooms, user),
            names_view(lobby[user.conn_id].rooms@),
            Departure::Connection(user.conn_id),
        ),
        all_occupied(rooms_after_add(lobby, rooms, user)),
{
    lemma_pruned_shape(rooms, names_view(lobby[user.conn_id].rooms@), Departure::Connection(user.conn_id));
}

/// After a login that the lobby holds leaves, none of the rooms it was in still
/// holds it, and no room is empty.
pub proof fn lemma_departed_login_leaves_its_rooms(lobby: Map<u32, UserInfo>, rooms: Seq<RoomView>, conn_id: u32, session: u64)
    requires
        holds_login(lobby, conn_id, session),
    ensures
        !lobby_after_leave(lobby, conn_id, session).contains_key(conn_id),
        departed_from(
            rooms_after_leave(lobby, rooms, conn_id, session),
            names_view(lobby[conn_id].rooms@),
            Departure::Login(session),
        ),
        all_occupied(rooms_after_leave(lobby, rooms, conn_id, session)),
{
    lemma_pruned_shape(rooms, names_view(lobby[conn_id].rooms@), Departure::Login(lobby[conn_id].session));
}

/// A login on a connection that had none, followed by its logout, gives back the
/// lobby and the rooms as they were, where no room was empty and no room held
/// that login.
pub proof fn lemma_login_then_logout(lobby: Map<u32, UserInfo>, rooms: Seq<RoomView>, user: UserInfo)
    requires
        !lobby.contains_key(user.conn_id),
        all_occupied(rooms),
        forall|i: int, k: int| 0 <= i < rooms.len() && 0 <= k < rooms[i].1.len() ==> (#[trigger] rooms[i].1[k]).session != user.session,
    ensures
        lobby_after_leave(lobby.insert(user.conn_id, user), user.conn_id, user.session) == lobby,
        rooms_after_leave(lobby.insert(user.conn_id, user), rooms_after_add(lobby, rooms, user), user.conn_id, user.session)
            == rooms,
{
    assert(lobby.insert(user.conn_id, user).remove(user.conn_id) =~= lobby);
    let l2 = lobby.insert(user.conn_id, user);
    assert(l2[user.conn_id] == user);
    lemma_pruned_keeps(rooms, names_view(user.rooms@), Departure::Login(user.session));
}

/// A login pushed out by a newer login on the same connection does not, when it
/// goes offline, take the newer login out: the lobby and the rooms stay as the
/// newer login left them.
pub proof fn lemma_pushed_out_exit_keeps_successor(lobby: Map<u32, UserInfo>, rooms: Seq<RoomView>, user: UserInfo, old_session: u64)
    requires
        old_session != user.session,
    ensures
        lobby_after_leave(lobby.insert(user.conn_id, user), user.conn_id, old_session) == lobby.insert(user.conn_id, user),
        rooms_after_leave(lobby.insert(user.conn_id, user), rooms, user.conn_id, old_session) == rooms,
        lobby_after_leave(lobby.insert(user.conn_id, user), user.conn_id, old_session)[user.conn_id] == user,
{
    assert(lobby.insert(user.conn_id, user)[user.conn_id] == user);
}

/// A member stays when a login leaves exactly when it is another login, and
/// stays when a connection is pruned exactly when it is on another connection.
pub proof fn lemma_stays_means_someone_else(d: Departure, u: UserInfo)
    ensures
        d matches Departure::Login(s) ==> (stays(d, u) <==> u.session != s),
        d matches Departure::Connection(c) ==> (stays(d, u) <==> u.conn_id != c),
{
}

/// After login `session` on connection `conn_id` leaves, no room named in that
/// login's rooms holds a member with that session.
pub proof fn lemma_leave_takes_login_out_of_its_rooms(lobby: Map<u32, UserInfo>, rooms: Seq<RoomView>, conn_id: u32, session: u64)
    requires
        holds_login(lobby, conn_id, session),
    ensures
        forall|i: int, k: int|
            0 <= i < rooms_after_leave(lobby, rooms, conn_id, session).len()
                && names_view(lobby[conn_id].rooms@).contains(#[trigger] rooms_after_leave(lobby, rooms, conn_id, session)[i].0)
                && 0 <= k < rooms_after_leave(lobby, rooms, conn_id, session)[i].1.len()
                ==> (#[trigger] rooms_after_leave(lobby, rooms, conn_id, session)[i].1[k]).session != session,
{
    lemma_pruned_shape(rooms, names_view(lobby[conn_id].rooms@), Departure::Login(session));
}

/// After a new login pushes out the login that held its connection, no room
/// named in the old login's rooms holds a member on that connection.
pub proof fn lemma_add_takes_connection_out_of_old_rooms(lobby: Map<u32, UserInfo>, rooms: Seq<RoomView>, user: UserInfo)
    requires
        lobby.contains_key(user.conn_id),
    ensures
        forall|i: int, k: int|
            0 <= i < rooms_after_add(lobby, rooms, user).len()
                && names_view(lobby[user.conn_id].rooms@).contains(#[trigger] rooms_after_add(lobby, rooms, user)[i].0)
                && 0 <= k < rooms_after_add(lobby, rooms, user)[i].1.len()
                ==> (#[trigger] rooms_after_add(lobby, rooms, user)[i].1[k]).conn_id != user.conn_id,
{
    lemma_pruned_shape(rooms, names_view(lobby[user.conn_id].rooms@), Departure::Connection(user.conn_id));
}

/// Pruning touches nothing else: a room not named keeps all its members, and in
/// a room that is named every member that stays is still there.
pub proof fn lemma_pruned_keeps_the_rest(rooms: Seq<RoomView>, names: Seq<Seq<char>>, d: Departure)
    ensures
        forall|j: int|
            0 <= j < rooms.len() && !names.contains(#[trigger] rooms[j].0) && rooms[j].1.len() > 0
                ==> pruned(rooms, names, d).contains(rooms[j]),
        forall|j: int, k: int|
            0 <= j < rooms.len() && 0 <= k < rooms[j].1.len() && stays(d, #[trigger] rooms[j].1[k])
                ==> exists|i: int| 0 <= i < pruned(rooms, names, d).len()
                    && (#[trigger] pruned(rooms, names, d)[i]).0 == rooms[j].0
                    && pruned(rooms, names, d)[i].1.contains(rooms[j].1[k]),
    decreases rooms.len(),
{
    if rooms.len() > 0 {
        let init = rooms.drop_last();
        let r = rooms.last();
        let n = rooms.len() - 1;
        let p = pruned(rooms, names, d);
        let q = pruned(init, names, d);
        let pr = prune_room(r, names, d);
        lemma_pruned_keeps_the_rest(init, names, d);
        lemma_pruned_push(init, r, names, d);
        assert(init.push(r) =~= rooms);
        assert(rooms[n] == r);
        assert forall|j: int| 0 <= j < rooms.len() && !names.contains(#[trigger] rooms[j].0) && rooms[j].1.len() > 0
            implies p.contains(rooms[j]) by {
            if j < n {
                assert(rooms[j] == init[j]);
                let i = choose|i: int| 0 <= i < q.len() && q[i] == init[j];
                assert(p[i] == q[i]);
            } else {
                assert(pr == r);
                assert(p[q.len() as int] == r);
            }
        }
        assert forall|j: int, k: int| 0 <= j < rooms.len() && 0 <= k < rooms[j].1.len() && stays(d, #[trigger] rooms[j].1[k])
            implies exists|i: int| 0 <= i < p.len() && (#[trigger] p[i]).0 == rooms[j].0 && p[i].1.contains(rooms[j].1[k]) by {
            if j < n {
                assert(rooms[j] == init[j]);
                assert(stays(d, init[j].1[k]));
                let i = choose|i: int| 0 <= i < q.len() && (#[trigger] q[i]).0 == init[j].0 && q[i].1.contains(init[j].1[k]);
                assert(p[i] == q[i]);
            } else {
                if names.contains(r.0) {
                    r.1.lemma_filter_contains(|u: UserInfo| stays(d, u), k);
                    assert(pr.1.contains(r.1[k]));
                } else {
                    assert(pr.1[k] == r.1[k]);
                }
                assert(pr.1.len() > 0);
                assert(p[q.len() as int] == pr);
            }
        }
    }
}

} // verus!
