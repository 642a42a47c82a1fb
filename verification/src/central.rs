//! The game-server host ("central" role): it owns a pool of reservable
//! listener ports and a registry of the rooms it has spawned, and it answers
//! the matchmaking server's creation commands. A port is either free (still
//! in the pool) or bound to exactly one room (recorded in the registry),
//! never both; rooms are never torn down in this design, so ports are not
//! reused. Binding the listener itself is the transport layer's work, so a
//! creation runs in three steps: reserve, bind, then commit or abort.

use vstd::prelude::*;
use vstd::string::StringExecFns;

use crate::idmap::distinct_keys;
use crate::idmap::seq_to_map;
use crate::idmap::IdMap;
use crate::ids::Id;
use crate::messages::GSToMM;
use crate::messages::RoomInfo;
use crate::room::Room;

verus! {

broadcast use vstd::seq_lib::lemma_seq_contains_after_push;

/// The first step of handling a creation command.
#[derive(PartialEq, Eq, Debug)]
pub enum SpawnStep {
    /// No port is free: the explicit failure to send upstream, so the
    /// matchmaking server resolves the pending request instead of hanging.
    Refused(GSToMM),
    /// A port is reserved: the transport layer must try to bind it.
    Bind { port: u16 },
}

/// The host's shared state: the spawned rooms (each with the port its
/// listener is bound to) and the ports still free.
pub struct CentralServer {
    rooms: IdMap<u16>,
    available_ports: Vec<u16>,
}

impl CentralServer {
    /// The ports still free, in reservation order.
    pub closed spec fn pool(self) -> Seq<u16> {
        self.available_ports@
    }

    /// The spawned rooms as (room id, bound port) pairs in creation order.
    pub closed spec fn rooms_pairs(self) -> Seq<(Id, u16)> {
        self.rooms.pairs()
    }

    /// The spawned rooms as a map from room id to bound port.
    pub open spec fn rooms_map(self) -> Map<Id, u16> {
        seq_to_map(self.rooms_pairs())
    }

    /// Room ids are distinct, free ports are distinct, bound ports are
    /// distinct, and no port is both free and bound.
    pub open spec fn wf(self) -> bool {
        &&& distinct_keys(self.rooms_pairs())
        &&& forall|i: int, j: int|
            0 <= i < j < self.pool().len() ==> self.pool()[i] != self.pool()[j]
        &&& forall|i: int, j: int|
            0 <= i < j < self.rooms_pairs().len() ==> self.rooms_pairs()[i].1
                != self.rooms_pairs()[j].1
        &&& forall|i: int, j: int|
            0 <= i < self.pool().len() && 0 <= j < self.rooms_pairs().len() ==> self.pool()[i]
                != self.rooms_pairs()[j].1
    }

    /// A host with no rooms yet, holding each distinct port of the given
    /// list, in order of first occurrence.
    pub fn new(ports: Vec<u16>) -> (s: CentralServer)
        ensures
            s.wf(),
            s.rooms_pairs() == Seq::<(Id, u16)>::empty(),
            s.rooms_map() == Map::<Id, u16>::empty(),
            forall|p: u16| s.pool().contains(p) <==> ports@.contains(p),
            s.pool().len() <= ports@.len(),
            (forall|a: int, b: int| 0 <= a < b < ports@.len() ==> ports@[a] != ports@[b])
                ==> s.pool() == ports@,
    {
        let mut pool: Vec<u16> = Vec::new();
        let n = ports.len();
        let mut i: usize = 0;
        while i < n
            invariant
                i <= n,
                n == ports@.len(),
                pool@.len() <= i,
                forall|a: int, b: int| 0 <= a < b < pool@.len() ==> pool@[a] != pool@[b],
                forall|j: int| 0 <= j < i ==> pool@.contains(ports@[j]),
                forall|q: u16| pool@.contains(q) ==> ports@.contains(q),
                (forall|a: int, b: int| 0 <= a < b < ports@.len() ==> ports@[a] != ports@[b])
                    ==> pool@ == ports@.subrange(0, i as int),
            decreases n - i,
        {
            let p = ports[i];
            proof {
                assert(ports@.contains(p)) by {
                    assert(ports@[i as int] == p);
                }
            }
            let dup = contains_port(&pool, p);
            let ghost pool0 = pool@;
            if !dup {
                pool.push(p);
            }
            proof {
                if forall|a: int, b: int| 0 <= a < b < ports@.len() ==> ports@[a] != ports@[b] {
                    if pool0.contains(p) {
                        let j = choose|j: int| 0 <= j < pool0.len() && pool0[j] == p;
                        assert(pool0[j] == ports@.subrange(0, i as int)[j]);
                        assert(ports@[j] == ports@[i as int]);
                        assert(false);
                    }
                    assert(pool@ =~= ports@.subrange(0, i as int + 1));
                }
            }
            i = i + 1;
        }
        proof {
            assert(ports@.subrange(0, n as int) =~= ports@);
        }
        proof {
            assert forall|q: u16| ports@.contains(q) implies pool@.contains(q) by {
                let j = choose|j: int| 0 <= j < ports@.len() && ports@[j] == q;
                assert(pool@.contains(ports@[j]));
            }
        }
        CentralServer { rooms: IdMap::new(), available_ports: pool }
    }

    /// How many rooms this host has spawned.
    pub fn room_count(&self) -> (n: usize)
        ensures
            n == self.rooms_pairs().len(),
    {
        self.rooms.len()
    }

    /// How many ports are still free.
    pub fn free_port_count(&self) -> (n: usize)
        ensures
            n == self.pool().len(),
    {
        self.available_ports.len()
    }

    /// Handles `CreateRoom` up to the point where the transport must act:
    /// with every port taken the command is refused with an explicit
    /// failure, otherwise the next free port is reserved for binding.
    pub fn begin_spawn_room(&self, request_id: Id) -> (r: SpawnStep)
        ensures
            self.pool().len() == 0 ==> {
                &&& r matches SpawnStep::Refused(m)
                &&& m matches GSToMM::CreateRoomFailure { request_id: rid, message }
                &&& rid == request_id
                &&& message@ == "No more ports available"@
            },
            self.pool().len() > 0 ==> r == (SpawnStep::Bind { port: self.pool()[0] }),
    {
        if self.available_ports.len() == 0 {
            SpawnStep::Refused(
                GSToMM::CreateRoomFailure {
                    request_id,
                    message: String::from_str("No more ports available"),
                },
            )
        } else {
            SpawnStep::Bind { port: self.available_ports[0] }
        }
    }

    /// The explicit failure sent upstream when binding the reserved port
    /// failed; the port stays in the pool.
    pub fn abort_spawn_room(&self, request_id: Id) -> (r: GSToMM)
        ensures
            r matches GSToMM::CreateRoomFailure { request_id: rid, message } && rid == request_id
                && message@ == "Cannot bind address"@,
    {
        GSToMM::CreateRoomFailure {
            request_id,
            message: String::from_str("Cannot bind address"),
        }
    }

    /// The reply to a control-link message that the host does not
    /// understand; the connection stays up.
    pub fn unknown_message_reply(&self) -> (r: GSToMM)
        ensures
            r matches GSToMM::Error(m) && m@ == "Unknown or unsupported message"@,
    {
        GSToMM::Error(String::from_str("Unknown or unsupported message"))
    }

    /// Commits a room creation once the transport has bound the reserved
    /// port: the port leaves the pool, a fresh room id is allocated and
    /// registered against the port, and the host returns the new room
    /// together with the success message to send upstream.
    pub fn finish_spawn_room(
        &mut self,
        request_id: Id,
        room_name: String,
        is_private: bool,
        max_players: usize,
        port: u16,
    ) -> (r: (Room, GSToMM))
        requires
            old(self).wf(),
            old(self).pool().len() > 0,
            port == old(self).pool()[0],
        ensures
            final(self).wf(),
            final(self).pool() == old(self).pool().subrange(1, old(self).pool().len() as int),
            !old(self).rooms_map().contains_key(r.0.spec_id()),
            final(self).rooms_pairs() == old(self).rooms_pairs().push((r.0.spec_id(), port)),
            final(self).rooms_map() == old(self).rooms_map().insert(r.0.spec_id(), port),
            r.0.wf(),
            r.0.players_pairs() == Seq::<(Id, crate::room::PlayerInfo)>::empty(),
            r.0.players_map() == Map::<Id, crate::room::PlayerInfo>::empty(),
            r.0.spec_name() == room_name@,
            r.0.spec_code() == "GHZX"@,
            !r.0.spec_has_started(),
            r.1 matches GSToMM::CreateRoomSuccess { request_id: rid, room_info, port: p } && {
                &&& rid == request_id
                &&& p == port
                &&& room_info.id == r.0.spec_id()
                &&& room_info.name@ == room_name@
                &&& room_info.max_players == max_players
                &&& room_info.player_count == 0
                &&& room_info.is_private == is_private
                &&& !room_info.has_started
            },
    {
        let room_id = self.rooms.fresh_key();
        self.available_ports.remove(0);
        proof {
            assert(self.available_ports@ =~= old(self).pool().subrange(
                1,
                old(self).pool().len() as int,
            ));
        }
        self.rooms.insert(room_id, port);
        proof {
            let p0 = old(self).pool();
            let q0 = old(self).rooms_pairs();
            let p1 = self.available_ports@;
            let q1 = self.rooms.pairs();
            assert(q1 == q0.push((room_id, port)));
            assert forall|a: int, b: int| 0 <= a < b < q1.len() implies q1[a].1 != q1[b].1 by {
                if b < q1.len() - 1 {
                    assert(q1[a] == q0[a] && q1[b] == q0[b]);
                } else {
                    assert(q1[a] == q0[a] && q1[b].1 == p0[0]);
                }
            }
            assert forall|a: int, b: int|
                0 <= a < p1.len() && 0 <= b < q1.len() implies p1[a] != q1[b].1 by {
                assert(p1[a] == p0[a + 1]);
                if b < q1.len() - 1 {
                    assert(q1[b] == q0[b]);
                } else {
                    assert(q1[b].1 == p0[0]);
                }
            }
        }
        let info = RoomInfo {
            id: room_id,
            name: room_name.clone(),
            max_players,
            player_count: 0,
            is_private,
            has_started: false,
        };
        let room = Room::new(room_id, room_name, String::from_str("GHZX"));
        (room, GSToMM::CreateRoomSuccess { request_id, room_info: info, port })
    }
}

/// Every sequence of successful room creations yields pairwise-distinct room
/// ids and pairwise-distinct ports: any two registered rooms differ in both.
pub proof fn lemma_spawned_rooms_distinct(c: CentralServer, i: int, j: int)
    requires
        c.wf(),
        0 <= i < j < c.rooms_pairs().len(),
    ensures
        c.rooms_pairs()[i].0 != c.rooms_pairs()[j].0,
        c.rooms_pairs()[i].1 != c.rooms_pairs()[j].1,
{
}

/// A helper for the constructor: whether a port list contains a port.
fn contains_port(v: &Vec<u16>, p: u16) -> (r: bool)
    ensures
        r == v@.contains(p),
{
    let n = v.len();
    let mut i: usize = 0;
    while i < n
        invariant
            i <= n,
            n == v@.len(),
            forall|j: int| 0 <= j < i ==> v@[j] != p,
        decreases n - i,
    {
        if v[i] == p {
            return true;
        }
        i = i + 1;
    }
    false
}

} // verus!
