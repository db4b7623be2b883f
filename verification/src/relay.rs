//! The relay server: rooms, peers, and what each client message does to them
//! and sends to whom.
use vstd::prelude::*;
use dashmap::DashMap;
use uuid::Uuid;
use crate::protocol::{
    duplicate_bytes, members_view, listings_view, GameInfo, GameInfoView, MemberInfo,
    MemberInfoView, RoomListing, RoomListingView, ServerMessage, ServerMessageView, ClientMessage,
    ClientMessageView,
};
use crate::tables::{
    PeerTable, RoomTable,
    room_table, peer_table, new_room_table, room_get, room_exists, room_put, room_delete,
    room_entries, new_peer_table, peer_get, peer_exists, peer_put, peer_delete, uuid_text,
};
use crate::text::{
    all_digits, chars_of, concat, digit_char, is_digit, six_digit_string, six_digits,
    string_from_chars, trim, trimmed,
};
use vstd::string::StringSliceAdditionalSpecFns;
use vstd::utf8::encode_utf8;
use crate::relay_laws::{
    lemma_connections_keep_rooms_well_formed, lemma_message_keeps_rooms_well_formed,
    rooms_well_formed,
};

verus! {

// ── State ─────────────────────────────────────────────

/// A connected client.
pub struct Peer {
    pub nickname: String,
    pub room_id: Option<String>,
}

pub struct PeerView {
    pub nickname: Seq<char>,
    pub room_id: Option<Seq<char>>,
}

pub open spec fn opt_str_view(o: Option<String>) -> Option<Seq<char>> {
    match o {
        Some(s) => Some(s@),
        None => None,
    }
}

impl View for Peer {
    type V = PeerView;

    open spec fn view(&self) -> PeerView {
        PeerView { nickname: self.nickname@, room_id: opt_str_view(self.room_id) }
    }
}

pub fn duplicate_opt_str(o: &Option<String>) -> (r: Option<String>)
    ensures
        opt_str_view(r) == opt_str_view(*o),
{
    match o {
        Some(s) => Some(s.clone()),
        None => None,
    }
}

impl Peer {
    pub fn duplicate(&self) -> (r: Peer)
        ensures
            r@ == self@,
    {
        Peer { nickname: self.nickname.clone(), room_id: duplicate_opt_str(&self.room_id) }
    }
}

/// A room: its host, password and game, its members, and their nicknames.
pub struct Room {
    pub password: String,
    pub host_id: String,
    pub game_info: GameInfo,
    pub members: Vec<String>,
    pub nicknames: Vec<(String, String)>,
}

pub struct RoomView {
    pub password: Seq<char>,
    pub host_id: Seq<char>,
    pub game_info: GameInfoView,
    pub members: Seq<Seq<char>>,
    pub nicknames: Seq<(Seq<char>, Seq<char>)>,
}

pub open spec fn strs_view(v: Seq<String>) -> Seq<Seq<char>> {
    v.map_values(|s: String| s@)
}

pub open spec fn pairs_view(v: Seq<(String, String)>) -> Seq<(Seq<char>, Seq<char>)> {
    v.map_values(|e: (String, String)| (e.0@, e.1@))
}

impl View for Room {
    type V = RoomView;

    open spec fn view(&self) -> RoomView {
        RoomView {
            password: self.password@,
            host_id: self.host_id@,
            game_info: self.game_info@,
            members: strs_view(self.members@),
            nicknames: pairs_view(self.nicknames@),
        }
    }
}

pub fn duplicate_strs(v: &Vec<String>) -> (r: Vec<String>)
    ensures
        strs_view(r@) == strs_view(v@),
{
    let mut r: Vec<String> = Vec::new();
    let mut i: usize = 0;
    while i < v.len()
        invariant
            i <= v@.len(),
            r@.len() == i,
            forall|j: int| 0 <= j < i ==> (#[trigger] r@[j])@ == v@[j]@,
        decreases v@.len() - i,
    {
        r.push(v[i].clone());
        i = i + 1;
    }
    assert(strs_view(r@) =~= strs_view(v@));
    r
}

pub fn duplicate_pairs(v: &Vec<(String, String)>) -> (r: Vec<(String, String)>)
    ensures
        pairs_view(r@) == pairs_view(v@),
{
    let mut r: Vec<(String, String)> = Vec::new();
    let mut i: usize = 0;
    while i < v.len()
        invariant
            i <= v@.len(),
            r@.len() == i,
            forall|j: int|
                0 <= j < i ==> (#[trigger] r@[j]).0@ == v@[j].0@ && r@[j].1@ == v@[j].1@,
        decreases v@.len() - i,
    {
        r.push((v[i].0.clone(), v[i].1.clone()));
        i = i + 1;
    }
    assert(pairs_view(r@) =~= pairs_view(v@));
    r
}

impl Room {
    pub fn duplicate(&self) -> (r: Room)
        ensures
            r@ == self@,
    {
        Room {
            password: self.password.clone(),
            host_id: self.host_id.clone(),
            game_info: self.game_info.duplicate(),
            members: duplicate_strs(&self.members),
            nicknames: duplicate_pairs(&self.nicknames),
        }
    }
}

// ── Sequences of ids and nicknames ────────────────────

/// `ms` with `p` added at the end unless it is already there (`HashMap::insert` on the member set).
pub open spec fn with_member(ms: Seq<Seq<char>>, p: Seq<char>) -> Seq<Seq<char>> {
    if ms.contains(p) {
        ms
    } else {
        ms.push(p)
    }
}

/// `ms` without `p`.
pub open spec fn without_member(ms: Seq<Seq<char>>, p: Seq<char>) -> Seq<Seq<char>>
    decreases ms.len(),
{
    if ms.len() == 0 {
        ms
    } else {
        let rest = without_member(ms.drop_last(), p);
        if ms.last() == p {
            rest
        } else {
            rest.push(ms.last())
        }
    }
}

/// Whether some entry of `ns` is keyed `p`.
pub open spec fn has_key(ns: Seq<(Seq<char>, Seq<char>)>, p: Seq<char>) -> bool {
    exists|i: int| 0 <= i < ns.len() && (#[trigger] ns[i]).0 == p
}

/// `ns` with `p`'s nickname set to `n` (`HashMap::insert` on the nickname map).
pub open spec fn with_nickname(ns: Seq<(Seq<char>, Seq<char>)>, p: Seq<char>, n: Seq<char>) -> Seq<
    (Seq<char>, Seq<char>),
> {
    if has_key(ns, p) {
        ns.map_values(|e: (Seq<char>, Seq<char>)| if e.0 == p { (p, n) } else { e })
    } else {
        ns.push((p, n))
    }
}

/// `ns` without `p`'s entries.
pub open spec fn without_nickname(ns: Seq<(Seq<char>, Seq<char>)>, p: Seq<char>) -> Seq<
    (Seq<char>, Seq<char>),
>
    decreases ns.len(),
{
    if ns.len() == 0 {
        ns
    } else {
        let rest = without_nickname(ns.drop_last(), p);
        if ns.last().0 == p {
            rest
        } else {
            rest.push(ns.last())
        }
    }
}

/// `p`'s nickname in `ns`, if it has one.
pub open spec fn nickname_of(ns: Seq<(Seq<char>, Seq<char>)>, p: Seq<char>) -> Option<Seq<char>>
    decreases ns.len(),
{
    if ns.len() == 0 {
        None
    } else if ns[0].0 == p {
        Some(ns[0].1)
    } else {
        nickname_of(ns.drop_first(), p)
    }
}

/// The member list of a room: one entry per nickname, the host marked.
pub open spec fn member_list(r: RoomView) -> Seq<MemberInfoView> {
    r.nicknames.map_values(
        |e: (Seq<char>, Seq<char>)|
            MemberInfoView { peer_id: e.0, nickname: e.1, is_host: e.0 == r.host_id },
    )
}

/// A room together with its id, as a listing of the room table hands it out.
pub struct RoomEntry {
    pub id: String,
    pub room: Room,
}

/// A message on its way to one peer.
pub struct Delivery {
    pub to: String,
    pub message: ServerMessage,
}

pub struct DeliveryView {
    pub to: Seq<char>,
    pub message: ServerMessageView,
}

impl View for Delivery {
    type V = DeliveryView;

    open spec fn view(&self) -> DeliveryView {
        DeliveryView { to: self.to@, message: self.message@ }
    }
}

pub open spec fn deliveries_view(v: Seq<Delivery>) -> Seq<DeliveryView> {
    v.map_values(|d: Delivery| d@)
}

/// `msg` to every member of `ms` except `skip`.
pub open spec fn send_all(ms: Seq<Seq<char>>, skip: Option<Seq<char>>, msg: ServerMessageView) -> Seq<
    DeliveryView,
>
    decreases ms.len(),
{
    if ms.len() == 0 {
        Seq::empty()
    } else {
        let rest = send_all(ms.drop_last(), skip, msg);
        if skip == Some(ms.last()) {
            rest
        } else {
            rest.push(DeliveryView { to: ms.last(), message: msg })
        }
    }
}

/// `msg` to every member of `ms` except `skip` that is still a connected peer.
pub open spec fn send_to_connected(
    ms: Seq<Seq<char>>,
    skip: Seq<char>,
    peers: Map<Seq<char>, PeerView>,
    msg: ServerMessageView,
) -> Seq<DeliveryView>
    decreases ms.len(),
{
    if ms.len() == 0 {
        Seq::empty()
    } else {
        let rest = send_to_connected(ms.drop_last(), skip, peers, msg);
        if ms.last() == skip || !peers.contains_key(ms.last()) {
            rest
        } else {
            rest.push(DeliveryView { to: ms.last(), message: msg })
        }
    }
}

pub fn contains_str(v: &Vec<String>, k: &String) -> (b: bool)
    ensures
        b == strs_view(v@).contains(k@),
{
    let mut i: usize = 0;
    while i < v.len()
        invariant
            i <= v@.len(),
            forall|j: int| 0 <= j < i ==> v@[j]@ != k@,
        decreases v@.len() - i,
    {
        if v[i] == *k {
            assert(strs_view(v@)[i as int] == k@);
            return true;
        }
        i = i + 1;
    }
    false
}

pub fn add_member(v: &mut Vec<String>, k: String)
    ensures
        strs_view(final(v)@) == with_member(strs_view(old(v)@), k@),
{
    if !contains_str(v, &k) {
        v.push(k);
        assert(strs_view(v@) =~= strs_view(old(v)@).push(k@));
    }
}

pub fn remove_member(v: &Vec<String>, k: &String) -> (r: Vec<String>)
    ensures
        strs_view(r@) == without_member(strs_view(v@), k@),
{
    let mut r: Vec<String> = Vec::new();
    let mut i: usize = 0;
    while i < v.len()
        invariant
            i <= v@.len(),
            strs_view(r@) == without_member(strs_view(v@.take(i as int)), k@),
        decreases v@.len() - i,
    {
        assert(strs_view(v@.take(i + 1)).drop_last() =~= strs_view(v@.take(i as int)));
        if v[i] != *k {
            r.push(v[i].clone());
            assert(strs_view(r@) =~= without_member(strs_view(v@.take(i + 1)), k@));
        }
        i = i + 1;
    }
    assert(v@.take(i as int) =~= v@);
    r
}

pub fn put_nickname(v: &mut Vec<(String, String)>, k: String, n: String)
    ensures
        pairs_view(final(v)@) == with_nickname(pairs_view(old(v)@), k@, n@),
{
    let ghost old_v = pairs_view(v@);
    let mut found = false;
    let mut i: usize = 0;
    while i < v.len()
        invariant
            i <= v@.len(),
            v@.len() == old_v.len(),
            forall|j: int|
                0 <= j < i ==> (#[trigger] pairs_view(v@)[j]) == (if old_v[j].0 == k@ {
                    (k@, n@)
                } else {
                    old_v[j]
                }),
            forall|j: int| i <= j < v@.len() ==> (#[trigger] pairs_view(v@)[j]) == old_v[j],
            found == (exists|j: int| 0 <= j < i && (#[trigger] old_v[j]).0 == k@),
        decreases v@.len() - i,
    {
        let ghost before = v@;
        if v[i].0 == k {
            v.set(i, (k.clone(), n.clone()));
            assert(pairs_view(v@) =~= pairs_view(before).update(i as int, (k@, n@)));
            found = true;
        }
        assert(pairs_view(before)[i as int] == old_v[i as int]);
        i = i + 1;
    }
    if found {
        assert(pairs_view(v@) =~= with_nickname(old_v, k@, n@));
    } else {
        assert(!has_key(old_v, k@));
        assert(pairs_view(v@) =~= old_v);
        v.push((k, n));
        assert(pairs_view(v@) =~= old_v.push((k@, n@)));
    }
}

pub fn remove_nickname(v: &Vec<(String, String)>, k: &String) -> (r: Vec<(String, String)>)
    ensures
        pairs_view(r@) == without_nickname(pairs_view(v@), k@),
{
    let mut r: Vec<(String, String)> = Vec::new();
    let mut i: usize = 0;
    while i < v.len()
        invariant
            i <= v@.len(),
            pairs_view(r@) == without_nickname(pairs_view(v@.take(i as int)), k@),
        decreases v@.len() - i,
    {
        assert(pairs_view(v@.take(i + 1)).drop_last() =~= pairs_view(v@.take(i as int)));
        if v[i].0 != *k {
            r.push((v[i].0.clone(), v[i].1.clone()));
            assert(pairs_view(r@) =~= without_nickname(pairs_view(v@.take(i + 1)), k@));
        }
        i = i + 1;
    }
    assert(v@.take(i as int) =~= v@);
    r
}

pub fn lookup_nickname(v: &Vec<(String, String)>, k: &String) -> (r: Option<String>)
    ensures
        opt_str_view(r) == nickname_of(pairs_view(v@), k@),
{
    let mut i: usize = 0;
    assert(pairs_view(v@).skip(0) =~= pairs_view(v@));
    while i < v.len()
        invariant
            i <= v@.len(),
            nickname_of(pairs_view(v@), k@) == nickname_of(pairs_view(v@).skip(i as int), k@),
        decreases v@.len() - i,
    {
        assert(pairs_view(v@).skip(i as int)[0] == pairs_view(v@)[i as int]);
        assert(pairs_view(v@).skip(i as int).drop_first() =~= pairs_view(v@).skip(i + 1));
        if v[i].0 == *k {
            return Some(v[i].1.clone());
        }
        i = i + 1;
    }
    None
}

/// The member list of `room`.
pub fn build_member_list(room: &Room) -> (r: Vec<MemberInfo>)
    ensures
        members_view(r@) == member_list(room@),
{
    let mut r: Vec<MemberInfo> = Vec::new();
    let mut i: usize = 0;
    while i < room.nicknames.len()
        invariant
            i <= room.nicknames@.len(),
            r@.len() == i,
            forall|j: int|
                0 <= j < i ==> (#[trigger] r@[j])@ == member_list(room@)[j],
        decreases room.nicknames@.len() - i,
    {
        let is_host = room.nicknames[i].0 == room.host_id;
        r.push(
            MemberInfo {
                peer_id: room.nicknames[i].0.clone(),
                nickname: room.nicknames[i].1.clone(),
                is_host,
            },
        );
        i = i + 1;
    }
    assert(members_view(r@) =~= member_list(room@));
    r
}

/// Appends `msg` for every member of `ms` except `skip`.
pub fn send_to_members(
    out: &mut Vec<Delivery>,
    ms: &Vec<String>,
    skip: Option<&String>,
    msg: &ServerMessage,
)
    ensures
        deliveries_view(final(out)@) == deliveries_view(old(out)@) + send_all(
            strs_view(ms@),
            match skip {
                Some(s) => Some(s@),
                None => None,
            },
            msg@,
        ),
{
    let ghost sk = match skip {
        Some(s) => Some(s@),
        None => None::<Seq<char>>,
    };
    let mut i: usize = 0;
    while i < ms.len()
        invariant
            i <= ms@.len(),
            sk == match skip {
                Some(s) => Some(s@),
                None => None,
            },
            deliveries_view(out@) == deliveries_view(old(out)@) + send_all(
                strs_view(ms@.take(i as int)),
                sk,
                msg@,
            ),
        decreases ms@.len() - i,
    {
        assert(strs_view(ms@.take(i + 1)).drop_last() =~= strs_view(ms@.take(i as int)));
        let ghost cur = strs_view(ms@.take(i + 1));
        assert(cur.last() == ms@[i as int]@);
        let skipped = match skip {
            Some(s) => ms[i] == *s,
            None => false,
        };
        assert(skipped == (sk == Some(cur.last())));
        let ghost prev = out@;
        if !skipped {
            let d = Delivery { to: ms[i].clone(), message: msg.duplicate() };
            out.push(d);
            assert(deliveries_view(out@) =~= deliveries_view(prev).push(d@));
        }
        assert(deliveries_view(out@) =~= deliveries_view(old(out)@) + send_all(
            strs_view(ms@.take(i + 1)),
            sk,
            msg@,
        ));
        i = i + 1;
    }
    assert(ms@.take(i as int) =~= ms@);
}


// ── Room ids and peer ids ────────────────────────────

/// Whether `id` is a room code: six decimal digits.
pub open spec fn is_room_code(id: Seq<char>) -> bool {
    id.len() == 6 && all_digits(id)
}

proof fn lemma_six_digits_is_room_code(n: nat)
    ensures
        is_room_code(six_digits(n)),
{
    assert forall|i: int| 0 <= i < 6 implies is_digit(#[trigger] six_digits(n)[i]) by {
        let d = if i == 0 {
            n / 100000 % 10
        } else if i == 1 {
            n / 10000 % 10
        } else if i == 2 {
            n / 1000 % 10
        } else if i == 3 {
            n / 100 % 10
        } else if i == 4 {
            n / 10 % 10
        } else {
            n % 10
        };
        assert(six_digits(n)[i] == digit_char(d));
    }
}

/// The room code made from a random number: its last six decimal digits, zero-padded.
pub fn room_id_from_number(n: u128) -> (id: String)
    ensures
        id@ == six_digits((n % 1000000) as nat),
        is_room_code(id@),
{
    proof {
        lemma_six_digits_is_room_code((n % 1000000) as nat);
    }
    six_digit_string((n % 1000000) as u64)
}

/// A random room code.
pub fn generate_room_id() -> (id: String)
    ensures
        is_room_code(id@),
{
    let n = Uuid::new_v4().as_u128();
    room_id_from_number(n)
}

/// The nickname a peer starts with: `Player_` and the first four characters of its id.
pub open spec fn default_nickname(peer_id: Seq<char>) -> Seq<char> {
    "Player_"@ + peer_id.take(4)
}

// ── The relay server ─────────────────────────────────

pub struct RelayView {
    pub rooms: Map<Seq<char>, RoomView>,
    pub peers: Map<Seq<char>, PeerView>,
}

/// The relay server's rooms and connected peers.
pub struct RelayServer {
    rooms: RoomTable,
    peers: PeerTable,
}

impl View for RelayServer {
    type V = RelayView;

    closed spec fn view(&self) -> RelayView {
        RelayView { rooms: room_table(self.rooms), peers: peer_table(self.peers) }
    }
}

/// The room that peer `p` believes it is in.
pub open spec fn room_of(s: RelayView, p: Seq<char>) -> Option<Seq<char>> {
    if s.peers.contains_key(p) {
        s.peers[p].room_id
    } else {
        None
    }
}

/// The state with peer `p`'s room set to `r` (when `p` is connected).
pub open spec fn with_peer_room(s: RelayView, p: Seq<char>, r: Option<Seq<char>>) -> RelayView {
    if s.peers.contains_key(p) {
        RelayView {
            rooms: s.rooms,
            peers: s.peers.insert(p, PeerView { nickname: s.peers[p].nickname, room_id: r }),
        }
    } else {
        s
    }
}

pub open spec fn no_deliveries() -> Seq<DeliveryView> {
    Seq::empty()
}

pub open spec fn deliver(to: Seq<char>, m: ServerMessageView) -> DeliveryView {
    DeliveryView { to, message: m }
}

/// A new connection registered under `id`.
pub open spec fn register_step(s: RelayView, id: Seq<char>) -> RelayView {
    RelayView {
        rooms: s.rooms,
        peers: s.peers.insert(id, PeerView { nickname: default_nickname(id), room_id: None }),
    }
}

/// `SetNickname`: a nickname that is empty after trimming or longer than 32 bytes
/// is ignored; otherwise the peer takes it and, if it is in a room, the room's
/// members get the new member list.
pub open spec fn set_nickname_step(s: RelayView, p: Seq<char>, nickname: Seq<char>) -> (
    RelayView,
    Seq<DeliveryView>,
) {
    let t = trimmed(nickname);
    if t.len() == 0 || encode_utf8(t).len() > 32 {
        (s, no_deliveries())
    } else {
        let s1 = if s.peers.contains_key(p) {
            RelayView {
                rooms: s.rooms,
                peers: s.peers.insert(p, PeerView { nickname: t, room_id: s.peers[p].room_id }),
            }
        } else {
            s
        };
        match room_of(s, p) {
            Some(r) => if s.rooms.contains_key(r) {
                let room = s.rooms[r];
                let room2 = RoomView {
                    password: room.password,
                    host_id: room.host_id,
                    game_info: room.game_info,
                    members: room.members,
                    nicknames: with_nickname(room.nicknames, p, t),
                };
                (
                    RelayView { rooms: s1.rooms.insert(r, room2), peers: s1.peers },
                    send_all(
                        room2.members,
                        None,
                        ServerMessageView::MemberList { members: member_list(room2) },
                    ),
                )
            } else {
                (s1, no_deliveries())
            },
            None => (s1, no_deliveries()),
        }
    }
}

/// `CreateRoom` under the fresh room id `rid`: the peer becomes host and only
/// member, and is told the room id and then that it joined as host.
pub open spec fn create_room_step(
    s: RelayView,
    p: Seq<char>,
    password: Seq<char>,
    game_info: GameInfoView,
    rid: Seq<char>,
) -> (RelayView, Seq<DeliveryView>) {
    if !s.peers.contains_key(p) {
        (s, no_deliveries())
    } else {
        let nick = s.peers[p].nickname;
        let room = RoomView {
            password,
            host_id: p,
            game_info,
            members: seq![p],
            nicknames: seq![(p, nick)],
        };
        (
            RelayView {
                rooms: s.rooms.insert(rid, room),
                peers: s.peers.insert(p, PeerView { nickname: nick, room_id: Some(rid) }),
            },
            seq![
                deliver(p, ServerMessageView::RoomCreated { room_id: rid }),
                deliver(
                    p,
                    ServerMessageView::RoomJoined {
                        game_info,
                        is_host: true,
                        members: seq![MemberInfoView { peer_id: p, nickname: nick, is_host: true }],
                    },
                ),
            ],
        )
    }
}

/// Whether every room code is in use.
pub open spec fn all_room_codes_taken(rooms: Map<Seq<char>, RoomView>) -> bool {
    forall|n: nat| n < 1000000 ==> rooms.contains_key(#[trigger] six_digits(n))
}

/// What `CreateRoom` may do: a connected peer gets a room under some room code
/// that was free (the code is drawn at random); a peer that is not connected
/// changes nothing.
pub open spec fn create_room_outcome(
    pre: RelayView,
    post: RelayView,
    out: Seq<DeliveryView>,
    p: Seq<char>,
    password: Seq<char>,
    game_info: GameInfoView,
) -> bool {
    if !pre.peers.contains_key(p) {
        post == pre && out == no_deliveries()
    } else {
        exists|rid: Seq<char>|
            is_room_code(rid) && !pre.rooms.contains_key(rid) && (post, out) == #[trigger] create_room_step(
                pre,
                p,
                password,
                game_info,
                rid,
            )
    }
}

/// The error text for a room id that names no room.
pub open spec fn no_such_room() -> Seq<char> {
    "房间不存在"@
}

/// The error text for a wrong room password.
pub open spec fn wrong_password() -> Seq<char> {
    "密码错误"@
}

/// `JoinRoom`: an unknown room or a wrong password is answered with an error
/// and changes nothing; otherwise the peer joins, the other members hear of it,
/// and the peer gets the game and the member list.
pub open spec fn join_room_step(s: RelayView, p: Seq<char>, rid: Seq<char>, password: Seq<char>) -> (
    RelayView,
    Seq<DeliveryView>,
) {
    if !s.peers.contains_key(p) {
        (s, no_deliveries())
    } else if !s.rooms.contains_key(rid) {
        (s, seq![deliver(p, ServerMessageView::Error { message: no_such_room() })])
    } else if s.rooms[rid].password != password {
        (s, seq![deliver(p, ServerMessageView::Error { message: wrong_password() })])
    } else {
        let nick = s.peers[p].nickname;
        let room = s.rooms[rid];
        let room2 = RoomView {
            password: room.password,
            host_id: room.host_id,
            game_info: room.game_info,
            members: with_member(room.members, p),
            nicknames: with_nickname(room.nicknames, p, nick),
        };
        (
            RelayView {
                rooms: s.rooms.insert(rid, room2),
                peers: s.peers.insert(p, PeerView { nickname: nick, room_id: Some(rid) }),
            },
            send_all(
                room2.members,
                Some(p),
                ServerMessageView::PeerJoined { peer_id: p, nickname: nick },
            ).push(
                deliver(
                    p,
                    ServerMessageView::RoomJoined {
                        game_info: room.game_info,
                        is_host: false,
                        members: member_list(room2),
                    },
                ),
            ),
        )
    }
}

/// Peer `p` leaves its room: if `p` hosted it the room closes for everyone left;
/// otherwise the others hear that `p` left and get the new member list.
pub open spec fn leave_step(s: RelayView, p: Seq<char>) -> (RelayView, Seq<DeliveryView>) {
    match room_of(s, p) {
        None => (s, no_deliveries()),
        Some(r) => {
            let s1 = with_peer_room(s, p, None);
            if !s.rooms.contains_key(r) {
                (s1, no_deliveries())
            } else {
                let room = s.rooms[r];
                let room1 = RoomView {
                    password: room.password,
                    host_id: room.host_id,
                    game_info: room.game_info,
                    members: without_member(room.members, p),
                    nicknames: without_nickname(room.nicknames, p),
                };
                if room1.host_id == p {
                    (
                        RelayView { rooms: s.rooms.remove(r), peers: s1.peers },
                        send_all(room1.members, None, ServerMessageView::RoomClosed),
                    )
                } else {
                    let rooms2 = if room1.members.len() == 0 {
                        s.rooms.remove(r)
                    } else {
                        s.rooms.insert(r, room1)
                    };
                    (
                        RelayView { rooms: rooms2, peers: s1.peers },
                        send_all(room1.members, Some(p), ServerMessageView::PeerLeft { peer_id: p })
                            + send_all(
                            room1.members,
                            None,
                            ServerMessageView::MemberList { members: member_list(room1) },
                        ),
                    )
                }
            }
        },
    }
}

/// A connection ends: `p` leaves its room and is forgotten.
pub open spec fn disconnect_step(s: RelayView, p: Seq<char>) -> (RelayView, Seq<DeliveryView>) {
    let (s1, out) = leave_step(s, p);
    (RelayView { rooms: s1.rooms, peers: s1.peers.remove(p) }, out)
}

/// The lobby entry of room `id`.
pub open spec fn listing_of(id: Seq<char>, room: RoomView) -> RoomListingView {
    RoomListingView {
        room_id: id,
        host_name: match nickname_of(room.nicknames, room.host_id) {
            Some(n) => n,
            None => "Unknown"@,
        },
        game_motd: room.game_info.motd,
        player_count: room.members.len() as usize,
        has_password: room.password.len() > 0,
    }
}

/// Whether `ls` lists every room of `rooms` exactly once (in any order).
pub open spec fn lists_rooms(ls: Seq<RoomListingView>, rooms: Map<Seq<char>, RoomView>) -> bool {
    &&& forall|i: int|
        0 <= i < ls.len() ==> rooms.contains_key((#[trigger] ls[i]).room_id) && ls[i]
            == listing_of(ls[i].room_id, rooms[ls[i].room_id])
    &&& forall|i: int, j: int|
        0 <= i < ls.len() && 0 <= j < ls.len() && i != j ==> (#[trigger] ls[i]).room_id != (
        #[trigger] ls[j]).room_id
    &&& forall|k: Seq<char>|
        #[trigger] rooms.contains_key(k) ==> exists|i: int| 0 <= i < ls.len() && (#[trigger] ls[i]).room_id == k
}

/// What `ListRooms` sends: nothing to an unknown peer, else one lobby listing.
pub open spec fn list_rooms_outcome(s: RelayView, out: Seq<DeliveryView>, p: Seq<char>) -> bool {
    if !s.peers.contains_key(p) {
        out == no_deliveries()
    } else {
        out.len() == 1 && out[0].to == p && match out[0].message {
            ServerMessageView::RoomList { rooms } => lists_rooms(rooms, s.rooms),
            _ => false,
        }
    }
}

/// `msg` from `p` to the other members of `p`'s room.
pub open spec fn relay_step(s: RelayView, p: Seq<char>, msg: ServerMessageView) -> Seq<DeliveryView> {
    match room_of(s, p) {
        Some(r) => if s.rooms.contains_key(r) {
            send_all(s.rooms[r].members, Some(p), msg)
        } else {
            no_deliveries()
        },
        None => no_deliveries(),
    }
}

/// Game bytes that arrived in a binary frame from `p`: to the other members of
/// `p`'s room that are still connected.
pub open spec fn relay_binary_step(
    s: RelayView,
    p: Seq<char>,
    connection_id: Seq<char>,
    payload: Seq<u8>,
) -> Seq<DeliveryView> {
    match room_of(s, p) {
        Some(r) => if s.rooms.contains_key(r) {
            send_to_connected(
                s.rooms[r].members,
                p,
                s.peers,
                ServerMessageView::GameData { connection_id, from_peer: p, data: payload },
            )
        } else {
            no_deliveries()
        },
        None => no_deliveries(),
    }
}

/// `UpdateGameInfo`: only the host of the room may change its game; the others
/// are told of the change.
pub open spec fn update_game_info_step(s: RelayView, p: Seq<char>, g: GameInfoView) -> (
    RelayView,
    Seq<DeliveryView>,
) {
    match room_of(s, p) {
        Some(r) => if s.rooms.contains_key(r) && s.rooms[r].host_id == p {
            let room = s.rooms[r];
            let room2 = RoomView {
                password: room.password,
                host_id: room.host_id,
                game_info: g,
                members: room.members,
                nicknames: room.nicknames,
            };
            (
                RelayView { rooms: s.rooms.insert(r, room2), peers: s.peers },
                send_all(room.members, Some(p), ServerMessageView::GameInfoUpdated { game_info: g }),
            )
        } else {
            (s, no_deliveries())
        },
        None => (s, no_deliveries()),
    }
}

/// `Heartbeat`: a connected peer gets an acknowledgement.
pub open spec fn heartbeat_step(s: RelayView, p: Seq<char>) -> Seq<DeliveryView> {
    if s.peers.contains_key(p) {
        seq![deliver(p, ServerMessageView::HeartbeatAck)]
    } else {
        no_deliveries()
    }
}

/// What handling `msg` from `p` does, for every message but `CreateRoom` and
/// `ListRooms` (whose outcomes are stated apart).
pub open spec fn message_outcome(
    pre: RelayView,
    post: RelayView,
    out: Seq<DeliveryView>,
    p: Seq<char>,
    msg: ClientMessageView,
) -> bool {
    match msg {
        ClientMessageView::SetNickname { nickname } => (post, out) == set_nickname_step(
            pre,
            p,
            nickname,
        ),
        ClientMessageView::CreateRoom { password, game_info } => create_room_outcome(
            pre,
            post,
            out,
            p,
            password,
            game_info,
        ),
        ClientMessageView::JoinRoom { room_id, password } => (post, out) == join_room_step(
            pre,
            p,
            room_id,
            password,
        ),
        ClientMessageView::LeaveRoom => (post, out) == leave_step(pre, p),
        ClientMessageView::ListRooms => post == pre && list_rooms_outcome(pre, out, p),
        ClientMessageView::GameData { connection_id, data } => post == pre && out == relay_step(
            pre,
            p,
            ServerMessageView::GameData { connection_id, from_peer: p, data },
        ),
        ClientMessageView::NewConnection { connection_id } => post == pre && out == relay_step(
            pre,
            p,
            ServerMessageView::NewConnection { connection_id, from_peer: p },
        ),
        ClientMessageView::CloseConnection { connection_id } => post == pre && out == relay_step(
            pre,
            p,
            ServerMessageView::CloseConnection { connection_id, from_peer: p },
        ),
        ClientMessageView::UpdateGameInfo { game_info } => (post, out) == update_game_info_step(
            pre,
            p,
            game_info,
        ),
        ClientMessageView::Heartbeat => post == pre && out == heartbeat_step(pre, p),
    }
}


impl RelayServer {
    /// A server with no rooms and no peers.
    pub fn new() -> (s: RelayServer)
        ensures
            rooms_well_formed(s@),
            s@.rooms == Map::<Seq<char>, RoomView>::empty(),
            s@.peers == Map::<Seq<char>, PeerView>::empty(),
    {
        RelayServer { rooms: new_room_table(), peers: new_peer_table() }
    }

    /// Registers a new connection under `peer_id` with its default nickname.
    pub fn register_peer(&mut self, peer_id: String)
        requires
            peer_id@.len() >= 4,
        ensures
            rooms_well_formed(old(self)@) ==> rooms_well_formed(final(self)@),
            final(self)@ == register_step(old(self)@, peer_id@),
    {
        let cs = chars_of(peer_id.as_str());
        let prefix = string_from_chars(&cs, 0, 4);
        let nickname = concat("Player_", prefix.as_str());
        assert(peer_id@.take(4) =~= cs@.subrange(0, 4));
        let ghost pre = self@;
        let ghost p = peer_id@;
        peer_put(&mut self.peers, peer_id, Peer { nickname, room_id: None });
        proof {
            if rooms_well_formed(pre) {
                lemma_connections_keep_rooms_well_formed(pre, p);
            }
        }
    }

    /// Registers a new connection under a fresh random id, which it returns.
    pub fn connect_peer(&mut self) -> (peer_id: String)
        ensures
            rooms_well_formed(old(self)@) ==> rooms_well_formed(final(self)@),
            peer_id@.len() == 36,
            final(self)@ == register_step(old(self)@, peer_id@),
    {
        let peer_id = uuid_text(&Uuid::new_v4());
        self.register_peer(peer_id.clone());
        peer_id
    }

    /// The room that `peer_id` believes it is in.
    fn peer_room(&self, peer_id: &String) -> (r: Option<String>)
        ensures
            opt_str_view(r) == room_of(self@, peer_id@),
    {
        match peer_get(&self.peers, peer_id) {
            Some(peer) => peer.room_id,
            None => None,
        }
    }

    /// Sets `peer_id`'s room, if it is connected.
    fn set_peer_room(&mut self, peer_id: &String, room_id: Option<String>)
        ensures
            final(self)@ == with_peer_room(old(self)@, peer_id@, opt_str_view(room_id)),
    {
        match peer_get(&self.peers, peer_id) {
            Some(peer) => {
                peer_put(
                    &mut self.peers,
                    peer_id.clone(),
                    Peer { nickname: peer.nickname, room_id },
                );
            },
            None => {},
        }
    }

    /// `SetNickname` from `peer_id`.
    pub fn set_nickname(&mut self, peer_id: &String, nickname: &String) -> (out: Vec<Delivery>)
        ensures
            rooms_well_formed(old(self)@) ==> rooms_well_formed(final(self)@),
            (final(self)@, deliveries_view(out@)) == set_nickname_step(
                old(self)@,
                peer_id@,
                nickname@,
            ),
    {
        let ghost pre = self@;
        let t = trim(nickname.as_str());
        let mut out: Vec<Delivery> = Vec::new();
        assert(deliveries_view(out@) =~= no_deliveries());
        if t.as_str().is_empty() || t.as_str().as_bytes().len() > 32 {
            return out;
        }
        let room_id = self.peer_room(peer_id);
        match peer_get(&self.peers, peer_id) {
            Some(peer) => {
                peer_put(
                    &mut self.peers,
                    peer_id.clone(),
                    Peer { nickname: t.clone(), room_id: peer.room_id },
                );
            },
            None => {},
        }
        match room_id {
            Some(rid) => {
                match room_get(&self.rooms, &rid) {
                    Some(room) => {
                        let mut room = room;
                        put_nickname(&mut room.nicknames, peer_id.clone(), t);
                        let members = build_member_list(&room);
                        send_to_members(
                            &mut out,
                            &room.members,
                            None,
                            &ServerMessage::MemberList { members },
                        );
                        room_put(&mut self.rooms, rid, room);
                    },
                    None => {},
                }
            },
            None => {},
        }
        proof {
            if rooms_well_formed(pre) {
                lemma_message_keeps_rooms_well_formed(
                    pre,
                    self@,
                    deliveries_view(out@),
                    peer_id@,
                    ClientMessageView::SetNickname { nickname: nickname@ },
                );
            }
        }
        out
    }

    /// Whether some room code names no room. Codes are looked at in order, so
    /// this stops after at most one more look than there are rooms.
    pub fn has_free_room_code(&self) -> (b: bool)
        ensures
            b == !all_room_codes_taken(self@.rooms),
    {
        let mut n: u64 = 0;
        while n < 1000000
            invariant
                n <= 1000000,
                forall|k: nat| k < n ==> self@.rooms.contains_key(#[trigger] six_digits(k)),
            decreases 1000000 - n,
        {
            let id = six_digit_string(n);
            if !room_exists(&self.rooms, &id) {
                return true;
            }
            n = n + 1;
        }
        false
    }

    /// A room code that names no room. Codes are drawn at random; should a
    /// thousand draws all hit rooms, the codes are tried in order, which finds
    /// the free one that `requires` promises.
    fn fresh_room_id(&self) -> (id: String)
        requires
            !all_room_codes_taken(self@.rooms),
        ensures
            is_room_code(id@),
            !self@.rooms.contains_key(id@),
    {
        let mut attempt: u32 = 0;
        while attempt < 1000
            decreases 1000 - attempt,
        {
            let id = generate_room_id();
            if !room_exists(&self.rooms, &id) {
                return id;
            }
            attempt = attempt + 1;
        }
        let mut n: u64 = 0;
        loop
            invariant
                n < 1000000,
                exists|k: nat| n <= k < 1000000 && !self@.rooms.contains_key(#[trigger] six_digits(k)),
            decreases 1000000 - n,
        {
            let id = six_digit_string(n);
            proof {
                lemma_six_digits_is_room_code(n as nat);
            }
            if !room_exists(&self.rooms, &id) {
                return id;
            }
            n = n + 1;
        }
    }

    /// `CreateRoom` from `peer_id`. A room code is drawn before anything else,
    /// and with every code taken the drawing would never end: `requires` leaves
    /// that out, and `has_free_room_code` tells a caller whether it holds.
    pub fn create_room(&mut self, peer_id: &String, password: String, game_info: GameInfo) -> (out:
        Vec<Delivery>)
        requires
            !all_room_codes_taken(old(self)@.rooms),
        ensures
            rooms_well_formed(old(self)@) ==> rooms_well_formed(final(self)@),
            create_room_outcome(
                old(self)@,
                final(self)@,
                deliveries_view(out@),
                peer_id@,
                password@,
                game_info@,
            ),
    {
        let ghost pre = self@;
        let mut out: Vec<Delivery> = Vec::new();
        assert(deliveries_view(out@) =~= no_deliveries());
        let room_id = self.fresh_room_id();
        let nickname = match peer_get(&self.peers, peer_id) {
            Some(peer) => peer.nickname,
            None => {
                return out;
            },
        };
        let mut members: Vec<String> = Vec::new();
        members.push(peer_id.clone());
        let mut nicknames: Vec<(String, String)> = Vec::new();
        nicknames.push((peer_id.clone(), nickname.clone()));
        let ghost gi = game_info@;
        let room = Room {
            password,
            host_id: peer_id.clone(),
            game_info: game_info.duplicate(),
            members,
            nicknames,
        };
        assert(room@.members =~= seq![peer_id@]);
        assert(room@.nicknames =~= seq![(peer_id@, nickname@)]);
        room_put(&mut self.rooms, room_id.clone(), room);
        self.set_peer_room(peer_id, Some(room_id.clone()));
        let mut list: Vec<MemberInfo> = Vec::new();
        let ghost nick = nickname@;
        list.push(MemberInfo { peer_id: peer_id.clone(), nickname, is_host: true });
        assert(list@[0]@ == MemberInfoView { peer_id: peer_id@, nickname: nick, is_host: true });
        let d1 = Delivery {
            to: peer_id.clone(),
            message: ServerMessage::RoomCreated { room_id: room_id.clone() },
        };
        let d2 = Delivery {
            to: peer_id.clone(),
            message: ServerMessage::RoomJoined { game_info, is_host: true, members: list },
        };
        assert(members_view(list@) =~= seq![
            MemberInfoView { peer_id: peer_id@, nickname: pre.peers[peer_id@].nickname, is_host: true },
        ]);
        out.push(d1);
        out.push(d2);
        let ghost step = create_room_step(pre, peer_id@, password@, gi, room_id@);
        assert(deliveries_view(out@) =~= step.1);
        assert(self@.rooms =~= step.0.rooms);
        assert(self@.peers =~= step.0.peers);
        proof {
            if rooms_well_formed(pre) {
                lemma_message_keeps_rooms_well_formed(
                    pre,
                    self@,
                    deliveries_view(out@),
                    peer_id@,
                    ClientMessageView::CreateRoom { password: password@, game_info: gi },
                );
            }
        }
        out
    }

    /// `JoinRoom` from `peer_id`.
    pub fn join_room(&mut self, peer_id: &String, room_id: String, password: String) -> (out: Vec<
        Delivery,
    >)
        ensures
            rooms_well_formed(old(self)@) ==> rooms_well_formed(final(self)@),
            (final(self)@, deliveries_view(out@)) == join_room_step(
                old(self)@,
                peer_id@,
                room_id@,
                password@,
            ),
    {
        let ghost pre = self@;
        let mut out: Vec<Delivery> = Vec::new();
        let nickname = match peer_get(&self.peers, peer_id) {
            Some(peer) => peer.nickname,
            None => {
                assert(deliveries_view(out@) =~= no_deliveries());
                return out;
            },
        };
        let mut room = match room_get(&self.rooms, &room_id) {
            Some(r) => r,
            None => {
                out.push(
                    Delivery {
                        to: peer_id.clone(),
                        message: ServerMessage::Error { message: "房间不存在".to_owned() },
                    },
                );
                assert(deliveries_view(out@) =~= join_room_step(pre, peer_id@, room_id@, password@).1);
                return out;
            },
        };
        if room.password != password {
            out.push(
                Delivery {
                    to: peer_id.clone(),
                    message: ServerMessage::Error { message: "密码错误".to_owned() },
                },
            );
            assert(deliveries_view(out@) =~= join_room_step(pre, peer_id@, room_id@, password@).1);
            return out;
        }
        add_member(&mut room.members, peer_id.clone());
        put_nickname(&mut room.nicknames, peer_id.clone(), nickname.clone());
        send_to_members(
            &mut out,
            &room.members,
            Some(peer_id),
            &ServerMessage::PeerJoined { peer_id: peer_id.clone(), nickname: nickname.clone() },
        );
        let member_list = build_member_list(&room);
        let game_info = room.game_info.duplicate();
        room_put(&mut self.rooms, room_id.clone(), room);
        self.set_peer_room(peer_id, Some(room_id));
        let d = Delivery {
            to: peer_id.clone(),
            message: ServerMessage::RoomJoined { game_info, is_host: false, members: member_list },
        };
        let ghost before = deliveries_view(out@);
        out.push(d);
        let ghost step = join_room_step(pre, peer_id@, room_id@, password@);
        assert(deliveries_view(out@) =~= before.push(d@));
        assert(self@.rooms =~= step.0.rooms);
        assert(self@.peers =~= step.0.peers);
        proof {
            if rooms_well_formed(pre) {
                lemma_message_keeps_rooms_well_formed(
                    pre,
                    self@,
                    deliveries_view(out@),
                    peer_id@,
                    ClientMessageView::JoinRoom { room_id: room_id@, password: password@ },
                );
            }
        }
        out
    }

    /// `peer_id` leaves its room (`LeaveRoom`, and part of a disconnect).
    pub fn leave_room(&mut self, peer_id: &String) -> (out: Vec<Delivery>)
        ensures
            rooms_well_formed(old(self)@) ==> rooms_well_formed(final(self)@),
            (final(self)@, deliveries_view(out@)) == leave_step(old(self)@, peer_id@),
    {
        let ghost pre = self@;
        let mut out: Vec<Delivery> = Vec::new();
        assert(deliveries_view(out@) =~= no_deliveries());
        let room_id = match self.peer_room(peer_id) {
            Some(r) => r,
            None => {
                return out;
            },
        };
        let ghost step = leave_step(pre, peer_id@);
        match room_get(&self.rooms, &room_id) {
            Some(room) => {
                let room1 = Room {
                    password: room.password,
                    host_id: room.host_id,
                    game_info: room.game_info,
                    members: remove_member(&room.members, peer_id),
                    nicknames: remove_nickname(&room.nicknames, peer_id),
                };
                if room1.host_id == *peer_id {
                    send_to_members(&mut out, &room1.members, None, &ServerMessage::RoomClosed);
                    room_delete(&mut self.rooms, &room_id);
                } else {
                    send_to_members(
                        &mut out,
                        &room1.members,
                        Some(peer_id),
                        &ServerMessage::PeerLeft { peer_id: peer_id.clone() },
                    );
                    let members = build_member_list(&room1);
                    send_to_members(
                        &mut out,
                        &room1.members,
                        None,
                        &ServerMessage::MemberList { members },
                    );
                    if room1.members.len() == 0 {
                        room_delete(&mut self.rooms, &room_id);
                    } else {
                        room_put(&mut self.rooms, room_id.clone(), room1);
                    }
                }
            },
            None => {},
        }
        self.set_peer_room(peer_id, None);
        assert(deliveries_view(out@) =~= step.1);
        assert(self@.rooms =~= step.0.rooms);
        assert(self@.peers =~= step.0.peers);
        proof {
            if rooms_well_formed(pre) {
                lemma_message_keeps_rooms_well_formed(
                    pre,
                    self@,
                    deliveries_view(out@),
                    peer_id@,
                    ClientMessageView::LeaveRoom,
                );
            }
        }
        out
    }

    /// A connection from `peer_id` ended: it leaves its room and is forgotten.
    pub fn disconnect_peer(&mut self, peer_id: &String) -> (out: Vec<Delivery>)
        ensures
            rooms_well_formed(old(self)@) ==> rooms_well_formed(final(self)@),
            (final(self)@, deliveries_view(out@)) == disconnect_step(old(self)@, peer_id@),
    {
        let ghost pre = self@;
        let out = self.leave_room(peer_id);
        peer_delete(&mut self.peers, peer_id);
        proof {
            if rooms_well_formed(pre) {
                lemma_connections_keep_rooms_well_formed(pre, peer_id@);
            }
        }
        out
    }

    /// `ListRooms` from `peer_id`: the lobby listing of every room.
    pub fn list_rooms(&self, peer_id: &String) -> (out: Vec<Delivery>)
        ensures
            list_rooms_outcome(self@, deliveries_view(out@), peer_id@),
    {
        let mut out: Vec<Delivery> = Vec::new();
        if !peer_exists(&self.peers, peer_id) {
            assert(deliveries_view(out@) =~= no_deliveries());
            return out;
        }
        let entries = room_entries(&self.rooms);
        let mut listings: Vec<RoomListing> = Vec::new();
        let mut i: usize = 0;
        while i < entries.len()
            invariant
                i <= entries@.len(),
                listings@.len() == i,
                forall|j: int|
                    0 <= j < i ==> (#[trigger] listings@[j])@ == listing_of(
                        entries@[j].id@,
                        entries@[j].room@,
                    ),
            decreases entries@.len() - i,
        {
            let e = &entries[i];
            let host_name = match lookup_nickname(&e.room.nicknames, &e.room.host_id) {
                Some(n) => n,
                None => "Unknown".to_owned(),
            };
            listings.push(
                RoomListing {
                    room_id: e.id.clone(),
                    host_name,
                    game_motd: e.room.game_info.motd.clone(),
                    player_count: e.room.members.len(),
                    has_password: !e.room.password.as_str().is_empty(),
                },
            );
            i = i + 1;
        }
        let ghost ls = listings_view(listings@);
        assert forall|j: int| 0 <= j < ls.len() implies (#[trigger] ls[j]).room_id == entries@[j].id@ by {}
        assert(lists_rooms(ls, self@.rooms)) by {
            assert forall|k: Seq<char>| #[trigger] self@.rooms.contains_key(k) implies exists|j: int|
                0 <= j < ls.len() && (#[trigger] ls[j]).room_id == k by {
                let j = choose|j: int| 0 <= j < entries@.len() && (#[trigger] entries@[j]).id@ == k;
                assert(ls[j].room_id == k);
            }
        }
        out.push(Delivery { to: peer_id.clone(), message: ServerMessage::RoomList { rooms: listings } });
        out
    }

    /// `msg` from `peer_id` to the other members of its room.
    fn relay_to_room(&self, peer_id: &String, msg: &ServerMessage) -> (out: Vec<Delivery>)
        ensures
            deliveries_view(out@) == relay_step(self@, peer_id@, msg@),
    {
        let mut out: Vec<Delivery> = Vec::new();
        assert(deliveries_view(out@) =~= no_deliveries());
        match self.peer_room(peer_id) {
            Some(rid) => match room_get(&self.rooms, &rid) {
                Some(room) => {
                    send_to_members(&mut out, &room.members, Some(peer_id), msg);
                    assert(deliveries_view(out@) =~= relay_step(self@, peer_id@, msg@));
                },
                None => {},
            },
            None => {},
        }
        out
    }

    /// `UpdateGameInfo` from `peer_id`.
    pub fn update_game_info(&mut self, peer_id: &String, game_info: GameInfo) -> (out: Vec<Delivery>)
        ensures
            rooms_well_formed(old(self)@) ==> rooms_well_formed(final(self)@),
            (final(self)@, deliveries_view(out@)) == update_game_info_step(
                old(self)@,
                peer_id@,
                game_info@,
            ),
    {
        let ghost pre = self@;
        let mut out: Vec<Delivery> = Vec::new();
        assert(deliveries_view(out@) =~= no_deliveries());
        match self.peer_room(peer_id) {
            Some(rid) => match room_get(&self.rooms, &rid) {
                Some(room) => {
                    if room.host_id == *peer_id {
                        send_to_members(
                            &mut out,
                            &room.members,
                            Some(peer_id),
                            &ServerMessage::GameInfoUpdated { game_info: game_info.duplicate() },
                        );
                        let room2 = Room {
                            password: room.password,
                            host_id: room.host_id,
                            game_info,
                            members: room.members,
                            nicknames: room.nicknames,
                        };
                        room_put(&mut self.rooms, rid, room2);
                        let ghost step = update_game_info_step(pre, peer_id@, game_info@);
                        assert(deliveries_view(out@) =~= step.1);
                        assert(self@.rooms =~= step.0.rooms);
                    }
                },
                None => {},
            },
            None => {},
        }
        proof {
            if rooms_well_formed(pre) {
                lemma_message_keeps_rooms_well_formed(
                    pre,
                    self@,
                    deliveries_view(out@),
                    peer_id@,
                    ClientMessageView::UpdateGameInfo { game_info: game_info@ },
                );
            }
        }
        out
    }

    /// `Heartbeat` from `peer_id`.
    pub fn heartbeat(&self, peer_id: &String) -> (out: Vec<Delivery>)
        ensures
            deliveries_view(out@) == heartbeat_step(self@, peer_id@),
    {
        let mut out: Vec<Delivery> = Vec::new();
        if peer_exists(&self.peers, peer_id) {
            out.push(Delivery { to: peer_id.clone(), message: ServerMessage::HeartbeatAck });
        }
        assert(deliveries_view(out@) =~= heartbeat_step(self@, peer_id@));
        out
    }

    /// Game bytes for `connection_id` that arrived from `peer_id` in a binary frame.
    pub fn relay_binary_data(&self, peer_id: &String, connection_id: String, payload: Vec<u8>) -> (out:
        Vec<Delivery>)
        ensures
            deliveries_view(out@) == relay_binary_step(self@, peer_id@, connection_id@, payload@),
    {
        let mut out: Vec<Delivery> = Vec::new();
        assert(deliveries_view(out@) =~= no_deliveries());
        let rid = match self.peer_room(peer_id) {
            Some(r) => r,
            None => {
                return out;
            },
        };
        let room = match room_get(&self.rooms, &rid) {
            Some(r) => r,
            None => {
                return out;
            },
        };
        let msg = ServerMessage::GameData {
            connection_id,
            from_peer: peer_id.clone(),
            data: payload,
        };
        let ghost ms = strs_view(room.members@);
        let mut i: usize = 0;
        while i < room.members.len()
            invariant
                i <= room.members@.len(),
                ms == strs_view(room.members@),
                deliveries_view(out@) == send_to_connected(
                    ms.take(i as int),
                    peer_id@,
                    self@.peers,
                    msg@,
                ),
            decreases room.members@.len() - i,
        {
            assert(ms.take(i + 1).drop_last() =~= ms.take(i as int));
            assert(ms.take(i + 1).last() == room.members@[i as int]@);
            let ghost prev = out@;
            if room.members[i] != *peer_id && peer_exists(&self.peers, &room.members[i]) {
                let d = Delivery { to: room.members[i].clone(), message: msg.duplicate() };
                out.push(d);
                assert(deliveries_view(out@) =~= deliveries_view(prev).push(d@));
            }
            i = i + 1;
        }
        assert(ms.take(i as int) =~= ms);
        out
    }

    /// Handles one message from `peer_id`: the state changes and the messages
    /// to send out. `CreateRoom` asks for a free room code (see `create_room`).
    pub fn handle_client_message(&mut self, peer_id: &String, msg: ClientMessage) -> (out: Vec<
        Delivery,
    >)
        requires
            msg is CreateRoom ==> !all_room_codes_taken(old(self)@.rooms),
        ensures
            message_outcome(old(self)@, final(self)@, deliveries_view(out@), peer_id@, msg@),
            rooms_well_formed(old(self)@) ==> rooms_well_formed(final(self)@),
    {
        let ghost pre = self@;
        let ghost msg_view = msg@;
        let out = match msg {
            ClientMessage::SetNickname { nickname } => self.set_nickname(peer_id, &nickname),
            ClientMessage::CreateRoom { password, game_info } => self.create_room(
                peer_id,
                password,
                game_info,
            ),
            ClientMessage::JoinRoom { room_id, password } => self.join_room(
                peer_id,
                room_id,
                password,
            ),
            ClientMessage::LeaveRoom => self.leave_room(peer_id),
            ClientMessage::ListRooms => self.list_rooms(peer_id),
            ClientMessage::GameData { connection_id, data } => {
                let m = ServerMessage::GameData { connection_id, from_peer: peer_id.clone(), data };
                self.relay_to_room(peer_id, &m)
            },
            ClientMessage::NewConnection { connection_id } => {
                let m = ServerMessage::NewConnection { connection_id, from_peer: peer_id.clone() };
                self.relay_to_room(peer_id, &m)
            },
            ClientMessage::CloseConnection { connection_id } => {
                let m = ServerMessage::CloseConnection {
                    connection_id,
                    from_peer: peer_id.clone(),
                };
                self.relay_to_room(peer_id, &m)
            },
            ClientMessage::UpdateGameInfo { game_info } => self.update_game_info(peer_id, game_info),
            ClientMessage::Heartbeat => self.heartbeat(peer_id),
        };
        proof {
            if rooms_well_formed(pre) {
                lemma_message_keeps_rooms_well_formed(pre, self@, deliveries_view(out@), peer_id@, msg_view);
            }
        }
        out
    }
}

} // verus!
