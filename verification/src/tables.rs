//! The relay server's shared tables (dashmap's `DashMap`) and the random
//! identifiers it draws (uuid's `Uuid`), behind trusted contracts.
use vstd::prelude::*;
use dashmap::DashMap;
use uuid::Uuid;
use crate::relay::{Peer, PeerView, Room, RoomEntry, RoomView};

verus! {

/// dashmap's `DashMap`, opaque: what a table holds is given by `room_table`
/// and `peer_table`.
#[verifier::external_type_specification]
#[verifier::external_body]
#[verifier::reject_recursive_types(K)]
#[verifier::reject_recursive_types(V)]
#[verifier::reject_recursive_types(S)]
pub struct ExDashMap<K, V, S>(DashMap<K, V, S>);

/// uuid's `Uuid`, opaque.
#[verifier::external_type_specification]
#[verifier::external_body]
pub struct ExUuid(Uuid);

/// The relay server's rooms, keyed by room id.
pub type RoomTable = DashMap<String, Room>;

/// The relay server's connected peers, keyed by peer id.
pub type PeerTable = DashMap<String, Peer>;

/// What a room table holds: each room id (by its text) mapped to the room.
pub uninterp spec fn room_table(rooms: RoomTable) -> Map<Seq<char>, RoomView>;

/// What a peer table holds: each peer id (by its text) mapped to the peer.
pub uninterp spec fn peer_table(peers: PeerTable) -> Map<Seq<char>, PeerView>;

/// dashmap's `DashMap::new`: a table that holds nothing.
#[verifier::external_body]
pub(crate) fn new_room_table() -> (table: RoomTable)
    ensures
        room_table(table) =~= Map::empty(),
{
    DashMap::new()
}

/// dashmap's `DashMap::view`, handing out a copy of the entry: the room stored
/// under the key, or `None` where the key is absent.
#[verifier::external_body]
pub(crate) fn room_get(t: &RoomTable, k: &String) -> (r: Option<Room>)
    ensures
        match r {
            Some(v) => room_table(*t).contains_key(k@) && v@ == room_table(*t)[k@],
            None => !room_table(*t).contains_key(k@),
        },
{
    t.view(k, |_k, v| v.duplicate())
}

/// dashmap's `DashMap::contains_key`.
#[verifier::external_body]
pub(crate) fn room_exists(t: &RoomTable, k: &String) -> (b: bool)
    ensures
        b == room_table(*t).contains_key(k@),
{
    t.contains_key(k)
}

/// dashmap's `DashMap::insert`: the key now maps to the given room, whatever it held.
#[verifier::external_body]
pub(crate) fn room_put(t: &mut RoomTable, k: String, v: Room)
    ensures
        room_table(*final(t)) == room_table(*old(t)).insert(k@, v@),
{
    t.insert(k, v);
}

/// dashmap's `DashMap::remove`: the key no longer maps to anything.
#[verifier::external_body]
pub(crate) fn room_delete(t: &mut RoomTable, k: &String)
    ensures
        room_table(*final(t)) == room_table(*old(t)).remove(k@),
{
    t.remove(k);
}

/// dashmap's `DashMap::iter`, each entry handed out as a copy (`Room::duplicate`):
/// every entry once, in an order that the contract leaves open.
#[verifier::external_body]
pub(crate) fn room_entries(t: &RoomTable) -> (v: Vec<RoomEntry>)
    ensures
        forall|k: Seq<char>|
            #[trigger] room_table(*t).contains_key(k) ==> exists|i: int|
                0 <= i < v@.len() && (#[trigger] v@[i]).id@ == k,
        forall|i: int|
            0 <= i < v@.len() ==> room_table(*t).contains_key((#[trigger] v@[i]).id@)
                && v@[i].room@ == room_table(*t)[v@[i].id@],
        forall|i: int|
            0 <= i < v@.len() ==> forall|j: int|
                0 <= j < v@.len() && i != j ==> (#[trigger] v@[i]).id@ != (#[trigger] v@[j]).id@,
{
    t.iter().map(|e| RoomEntry { id: e.key().clone(), room: e.value().duplicate() }).collect()
}

/// dashmap's `DashMap::new`: a table that holds nothing.
#[verifier::external_body]
pub(crate) fn new_peer_table() -> (table: PeerTable)
    ensures
        peer_table(table) =~= Map::empty(),
{
    DashMap::new()
}

/// dashmap's `DashMap::view`, handing out a copy of the entry.
#[verifier::external_body]
pub(crate) fn peer_get(t: &PeerTable, k: &String) -> (r: Option<Peer>)
    ensures
        match r {
            Some(v) => peer_table(*t).contains_key(k@) && v@ == peer_table(*t)[k@],
            None => !peer_table(*t).contains_key(k@),
        },
{
    t.view(k, |_k, v| v.duplicate())
}

/// dashmap's `DashMap::contains_key`.
#[verifier::external_body]
pub(crate) fn peer_exists(t: &PeerTable, k: &String) -> (b: bool)
    ensures
        b == peer_table(*t).contains_key(k@),
{
    t.contains_key(k)
}

/// dashmap's `DashMap::insert`.
#[verifier::external_body]
pub(crate) fn peer_put(t: &mut PeerTable, k: String, v: Peer)
    ensures
        peer_table(*final(t)) == peer_table(*old(t)).insert(k@, v@),
{
    t.insert(k, v);
}

/// dashmap's `DashMap::remove`.
#[verifier::external_body]
pub(crate) fn peer_delete(t: &mut PeerTable, k: &String)
    ensures
        peer_table(*final(t)) == peer_table(*old(t)).remove(k@),
{
    t.remove(k);
}

/// uuid's `Uuid::new_v4`: a random identifier; nothing is promised of its value.
pub assume_specification[ Uuid::new_v4 ]() -> Uuid;

/// uuid's `Uuid::as_u128`: the identifier as a number; nothing is promised of its value.
pub assume_specification[ Uuid::as_u128 ](u: &Uuid) -> u128;

/// uuid's `Display` of a `Uuid` (through `to_string`): the hyphenated
/// lower-case form, 36 characters, each a hex digit or a hyphen.
#[verifier::external_body]
pub(crate) fn uuid_text(u: &Uuid) -> (s: String)
    ensures
        s@.len() == 36,
        forall|i: int|
            0 <= i < 36 ==> {
                let c = #[trigger] s@[i];
                c == '-' || ('0' <= c && c <= '9') || ('a' <= c && c <= 'f')
            },
{
    u.to_string()
}

} // verus!
