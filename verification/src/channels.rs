//! Channel discipline of the transport.
//!
//! Two logical channels in each direction, with different delivery
//! guarantees: lifecycle events and client intent go reliable-ordered,
//! snapshots go unreliable — a lost snapshot is tolerated because the next
//! tick fully restates all surviving entities. These settings describe the
//! channels to the transport layer; the transport itself stays outside the
//! crate.

use vstd::prelude::*;

verus! {

/// Protocol identifier both sides must present at connect time.
pub const PROTOCOL_ID: u64 = 7;

/// Memory budget of every channel, in bytes.
pub const CHANNEL_MAX_MEMORY_BYTES: u64 = 5 * 1024 * 1024;

/// Budget of outgoing bytes per tick.
pub const AVAILABLE_BYTES_PER_TICK: u64 = 1024 * 1024;

/// Channels from client to server.
#[derive(Clone, Copy, PartialEq, Eq, Structural, Debug)]
pub enum ClientChannel {
    /// `PlayerInput` messages.
    Input,
    /// Reserved for explicit client commands.
    Command,
}

/// Channels from server to clients.
#[derive(Clone, Copy, PartialEq, Eq, Structural, Debug)]
pub enum ServerChannel {
    /// Lifecycle events, reliable-ordered.
    ServerMessages,
    /// Snapshots, unreliable.
    NetworkedEntities,
}

/// Delivery guarantee of one channel.
#[derive(Clone, Copy, PartialEq, Eq, Structural, Debug)]
pub enum SendKind {
    ReliableOrdered { resend_time_ms: u64 },
    Unreliable,
}

/// What the transport must know about one channel.
#[derive(Clone, Copy, PartialEq, Eq, Structural, Debug)]
pub struct ChannelSettings {
    pub channel_id: u8,
    pub max_memory_usage_bytes: u64,
    pub send_kind: SendKind,
}

/// The whole connection: per-tick budget and both channel tables.
#[derive(Clone, PartialEq, Eq, Debug)]
pub struct ConnectionSettings {
    pub available_bytes_per_tick: u64,
    pub client_channels_config: Vec<ChannelSettings>,
    pub server_channels_config: Vec<ChannelSettings>,
}

impl ClientChannel {
    /// The channel's wire id.
    pub open spec fn id_spec(self) -> u8 {
        match self {
            ClientChannel::Command => 0,
            ClientChannel::Input => 1,
        }
    }

    /// The client channel table: both channels reliable-ordered with no
    /// resend delay.
    pub open spec fn channel_config_spec() -> Seq<ChannelSettings> {
        seq![
            (ChannelSettings {
                channel_id: 1,
                max_memory_usage_bytes: CHANNEL_MAX_MEMORY_BYTES,
                send_kind: SendKind::ReliableOrdered { resend_time_ms: 0 },
            }),
            (ChannelSettings {
                channel_id: 0,
                max_memory_usage_bytes: CHANNEL_MAX_MEMORY_BYTES,
                send_kind: SendKind::ReliableOrdered { resend_time_ms: 0 },
            }),
        ]
    }

    /// The channel's wire id.
    pub fn channel_id(self) -> (r: u8)
        ensures
            r == self.id_spec(),
    {
        match self {
            ClientChannel::Command => 0,
            ClientChannel::Input => 1,
        }
    }

    /// Builds the client channel table.
    pub fn channel_config() -> (r: Vec<ChannelSettings>)
        ensures
            r@ == Self::channel_config_spec(),
    {
        let mut r: Vec<ChannelSettings> = Vec::new();
        r.push(
            ChannelSettings {
                channel_id: ClientChannel::Input.channel_id(),
                max_memory_usage_bytes: CHANNEL_MAX_MEMORY_BYTES,
                send_kind: SendKind::ReliableOrdered { resend_time_ms: 0 },
            },
        );
        r.push(
            ChannelSettings {
                channel_id: ClientChannel::Command.channel_id(),
                max_memory_usage_bytes: CHANNEL_MAX_MEMORY_BYTES,
                send_kind: SendKind::ReliableOrdered { resend_time_ms: 0 },
            },
        );
        proof {
            assert(r@ =~= Self::channel_config_spec());
        }
        r
    }
}

impl ServerChannel {
    /// The channel's wire id.
    pub open spec fn id_spec(self) -> u8 {
        match self {
            ServerChannel::NetworkedEntities => 0,
            ServerChannel::ServerMessages => 1,
        }
    }

    /// The server channel table: snapshots unreliable, lifecycle events
    /// reliable-ordered with a 200 ms resend delay.
    pub open spec fn channel_config_spec() -> Seq<ChannelSettings> {
        seq![
            (ChannelSettings {
                channel_id: 0,
                max_memory_usage_bytes: CHANNEL_MAX_MEMORY_BYTES,
                send_kind: SendKind::Unreliable,
            }),
            (ChannelSettings {
                channel_id: 1,
                max_memory_usage_bytes: CHANNEL_MAX_MEMORY_BYTES,
                send_kind: SendKind::ReliableOrdered { resend_time_ms: 200 },
            }),
        ]
    }

    /// The channel's wire id.
    pub fn channel_id(self) -> (r: u8)
        ensures
            r == self.id_spec(),
    {
        match self {
            ServerChannel::NetworkedEntities => 0,
            ServerChannel::ServerMessages => 1,
        }
    }

    /// Builds the server channel table.
    pub fn channel_config() -> (r: Vec<ChannelSettings>)
        ensures
            r@ == Self::channel_config_spec(),
    {
        let mut r: Vec<ChannelSettings> = Vec::new();
        r.push(
            ChannelSettings {
                channel_id: ServerChannel::NetworkedEntities.channel_id(),
                max_memory_usage_bytes: CHANNEL_MAX_MEMORY_BYTES,
                send_kind: SendKind::Unreliable,
            },
        );
        r.push(
            ChannelSettings {
                channel_id: ServerChannel::ServerMessages.channel_id(),
                max_memory_usage_bytes: CHANNEL_MAX_MEMORY_BYTES,
                send_kind: SendKind::ReliableOrdered { resend_time_ms: 200 },
            },
        );
        proof {
            assert(r@ =~= Self::channel_config_spec());
        }
        r
    }
}

/// The connection's full channel description.
pub fn connection_config() -> (r: ConnectionSettings)
    ensures
        r.available_bytes_per_tick == AVAILABLE_BYTES_PER_TICK,
        r.client_channels_config@ == ClientChannel::channel_config_spec(),
        r.server_channels_config@ == ServerChannel::channel_config_spec(),
{
    ConnectionSettings {
        available_bytes_per_tick: AVAILABLE_BYTES_PER_TICK,
        client_channels_config: ClientChannel::channel_config(),
        server_channels_config: ServerChannel::channel_config(),
    }
}

} // verus!
