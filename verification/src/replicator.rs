//! Server-side replication decisions.
//!
//! The replicator owns the lobby — which peer drives which authoritative
//! entity — and decides what the transport must send: a connect is answered
//! with a reliable bootstrap (one `PlayerCreate` per alive player to the
//! newcomer) followed by a reliable broadcast of the newcomer's own create;
//! a disconnect broadcasts a reliable `PlayerRemove`; and each simulation
//! tick broadcasts the full snapshot unreliably, unless no persistent entity
//! is alive, in which case nothing is sent at all. Spawning entities,
//! sockets and the tick clock stay with the embedder, which hands the
//! replicator plain values and carries its outgoing messages to the wire.

use vstd::prelude::*;

use crate::channels::ServerChannel;
use crate::codec::{encode_snapshot, snapshot_bytes};
use crate::mapping::{keys_distinct, table_contains, table_lookup, table_remove, MappingTable};
use crate::messages::{
    NetworkedEntities, PlayerInput, PlayerTextureType, ServerMessages, Vec3Bits,
    WeaponTextureType,
};

verus! {

/// Where one outgoing message goes.
#[derive(Clone, Copy, PartialEq, Eq, Structural, Debug)]
pub enum Destination {
    /// To one peer.
    To { peer: u64 },
    /// To every connected peer.
    Broadcast,
}

/// One message the server must hand to the transport, with its channel.
#[derive(Clone, Copy, PartialEq, Eq, Structural, Debug)]
pub struct Outgoing {
    pub destination: Destination,
    pub channel: ServerChannel,
    pub message: ServerMessages,
}

/// One currently alive player, as the embedder reads it off the
/// authoritative world when bootstrapping a newcomer.
#[derive(Clone, Copy, PartialEq, Eq, Structural, Debug)]
pub struct ExistingPlayer {
    pub id: u64,
    pub entity: u64,
    pub translation: Vec3Bits,
    pub player_texture_entity_type: PlayerTextureType,
    pub weapon_texture_entity_type: WeaponTextureType,
}

/// The `PlayerCreate` describing one alive player.
pub open spec fn player_create_message(p: ExistingPlayer) -> ServerMessages {
    ServerMessages::PlayerCreate {
        id: p.id,
        entity: p.entity,
        translation: p.translation,
        player_texture_entity_type: p.player_texture_entity_type,
        weapon_texture_entity_type: p.weapon_texture_entity_type,
    }
}

/// The bootstrap batch for a newcomer: one reliable `PlayerCreate` per
/// alive player, addressed to the new peer, in the given order.
pub open spec fn bootstrap_messages(peer: u64, existing: Seq<ExistingPlayer>) -> Seq<Outgoing>
    decreases existing.len(),
{
    if existing.len() == 0 {
        Seq::empty()
    } else {
        bootstrap_messages(peer, existing.drop_last()) + seq![
            (Outgoing {
                destination: Destination::To { peer },
                channel: ServerChannel::ServerMessages,
                message: player_create_message(existing.last()),
            }),
        ]
    }
}

/// The server replicator: the lobby binding each connected peer to its
/// authoritative entity, and the connect/disconnect message logic.
pub struct Replicator {
    lobby: MappingTable,
}

impl View for Replicator {
    type V = Seq<(u64, u64)>;

    closed spec fn view(&self) -> Seq<(u64, u64)> {
        self.lobby@
    }
}

impl Replicator {
    /// The lobby's invariant: one entry per peer.
    pub open spec fn wf(self) -> bool {
        keys_distinct(self@)
    }

    /// A replicator with no peer connected.
    pub fn new() -> (r: Self)
        ensures
            r@ == Seq::<(u64, u64)>::empty(),
            r.wf(),
    {
        Replicator { lobby: MappingTable::new() }
    }

    /// How many peers are connected.
    pub fn player_count(&self) -> (n: usize)
        ensures
            n == self@.len(),
    {
        self.lobby.len()
    }

    /// The authoritative entity driven by peer `client_id`, if connected.
    pub fn lookup(&self, client_id: u64) -> (r: Option<u64>)
        ensures
            r == table_lookup(self@, client_id),
    {
        self.lobby.lookup(client_id)
    }

    /// Handles a peer connecting. The embedder has already spawned the
    /// peer's authoritative entity (`entity`, at `translation`, with the
    /// chosen textures) and read the other alive players off its world; the
    /// result is everything to send: the bootstrap batch to the newcomer,
    /// then the broadcast of the newcomer's own create, all reliable.
    pub fn on_client_connected(
        &mut self,
        client_id: u64,
        entity: u64,
        translation: Vec3Bits,
        player_texture_entity_type: PlayerTextureType,
        weapon_texture_entity_type: WeaponTextureType,
        existing: &Vec<ExistingPlayer>,
    ) -> (out: Vec<Outgoing>)
        requires
            old(self).wf(),
            !table_contains(old(self)@, client_id),
        ensures
            final(self)@ == old(self)@.push((client_id, entity)),
            final(self).wf(),
            out@ == bootstrap_messages(client_id, existing@) + seq![
                (Outgoing {
                    destination: Destination::Broadcast,
                    channel: ServerChannel::ServerMessages,
                    message: ServerMessages::PlayerCreate {
                        id: client_id,
                        entity,
                        translation,
                        player_texture_entity_type,
                        weapon_texture_entity_type,
                    },
                }),
            ],
    {
        let mut out: Vec<Outgoing> = Vec::new();
        let mut i: usize = 0;
        while i < existing.len()
            invariant
                i <= existing@.len(),
                out@ == bootstrap_messages(client_id, existing@.subrange(0, i as int)),
            decreases existing@.len() - i,
        {
            let p = existing[i];
            out.push(
                Outgoing {
                    destination: Destination::To { peer: client_id },
                    channel: ServerChannel::ServerMessages,
                    message: ServerMessages::PlayerCreate {
                        id: p.id,
                        entity: p.entity,
                        translation: p.translation,
                        player_texture_entity_type: p.player_texture_entity_type,
                        weapon_texture_entity_type: p.weapon_texture_entity_type,
                    },
                },
            );
            proof {
                let prefix = existing@.subrange(0, i + 1);
                assert(prefix.drop_last() =~= existing@.subrange(0, i as int));
                assert(prefix.last() == existing@[i as int]);
                assert(out@ =~= bootstrap_messages(client_id, prefix));
            }
            i += 1;
        }
        proof {
            assert(existing@.subrange(0, existing@.len() as int) =~= existing@);
        }
        self.lobby.insert(client_id, entity);
        out.push(
            Outgoing {
                destination: Destination::Broadcast,
                channel: ServerChannel::ServerMessages,
                message: ServerMessages::PlayerCreate {
                    id: client_id,
                    entity,
                    translation,
                    player_texture_entity_type,
                    weapon_texture_entity_type,
                },
            },
        );
        proof {
            assert(out@ =~= bootstrap_messages(client_id, existing@) + seq![
                (Outgoing {
                    destination: Destination::Broadcast,
                    channel: ServerChannel::ServerMessages,
                    message: ServerMessages::PlayerCreate {
                        id: client_id,
                        entity,
                        translation,
                        player_texture_entity_type,
                        weapon_texture_entity_type,
                    },
                }),
            ]);
        }
        out
    }

    /// Handles a peer disconnecting: its record leaves the lobby and every
    /// remaining peer is told, reliably. The result also names the
    /// authoritative entity to despawn, if the peer was known; the
    /// broadcast goes out either way, and processing a stale reference on
    /// the client side is safe. Safe to repeat: the second call finds no
    /// record.
    pub fn on_client_disconnected(&mut self, client_id: u64) -> (r: (Option<u64>, Vec<Outgoing>))
        requires
            old(self).wf(),
        ensures
            final(self)@ == table_remove(old(self)@, client_id),
            final(self).wf(),
            r.0 == table_lookup(old(self)@, client_id),
            r.1@ == seq![
                (Outgoing {
                    destination: Destination::Broadcast,
                    channel: ServerChannel::ServerMessages,
                    message: ServerMessages::PlayerRemove { id: client_id },
                }),
            ],
    {
        let despawn = self.lobby.remove(client_id);
        let mut out: Vec<Outgoing> = Vec::new();
        out.push(
            Outgoing {
                destination: Destination::Broadcast,
                channel: ServerChannel::ServerMessages,
                message: ServerMessages::PlayerRemove { id: client_id },
            },
        );
        proof {
            assert(out@ =~= seq![
                (Outgoing {
                    destination: Destination::Broadcast,
                    channel: ServerChannel::ServerMessages,
                    message: ServerMessages::PlayerRemove { id: client_id },
                }),
            ]);
        }
        (despawn, out)
    }
}

/// Builds the tick's snapshot broadcast: the encoded snapshot, or `None`
/// when it lists no persistent entity — an empty snapshot is deliberately
/// not sent, so a tick without players produces no traffic (and no
/// "now empty" signal either; clients clear ephemeral mirrors only through
/// a later non-empty snapshot's sweep).
pub fn server_network_sync(snapshot: &NetworkedEntities) -> (r: Option<Vec<u8>>)
    requires
        snapshot.wf(),
    ensures
        (r is None) <==> snapshot.players@.len() == 0,
        (match r {
            Some(bytes) => bytes@ == snapshot_bytes(*snapshot),
            None => true,
        }),
{
    if snapshot.players.len() == 0 {
        None
    } else {
        Some(encode_snapshot(snapshot))
    }
}

/// Stores a peer's freshly decoded input: every player row whose id matches
/// `client_id` takes the new input, every other row stays as it was.
pub fn update_player_input(
    players: &mut Vec<(u64, PlayerInput)>,
    client_id: u64,
    input: PlayerInput,
)
    ensures
        final(players)@.len() == old(players)@.len(),
        forall|i: int|
            0 <= i < old(players)@.len() ==> final(players)@[i] == (if old(players)@[i].0
                == client_id {
                (old(players)@[i].0, input)
            } else {
                old(players)@[i]
            }),
{
    let mut i: usize = 0;
    while i < players.len()
        invariant
            i <= players@.len(),
            players@.len() == old(players)@.len(),
            forall|j: int|
                i <= j < players@.len() ==> players@[j] == old(players)@[j],
            forall|j: int|
                0 <= j < i ==> players@[j] == (if old(players)@[j].0 == client_id {
                    (old(players)@[j].0, input)
                } else {
                    old(players)@[j]
                }),
        decreases players@.len() - i,
    {
        if players[i].0 == client_id {
            let id = players[i].0;
            players[i] = (id, input);
        }
        i += 1;
    }
}

} // verus!
