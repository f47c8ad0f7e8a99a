use crate::entity::{kind_code, kind_of_code, EntityKind};
use vstd::prelude::*;

verus! {

/// Kinds of updates that the server sends to a client, as tagged on the wire.
#[derive(Clone, Copy, Debug, PartialEq, Eq, Structural)]
pub enum ServerUpdateKind {
    /// Ask the client to load a new chunk.
    LoadChunk,
    /// The server forwards to the client its client id.
    LoggedIn,
    /// The server forwards to the client an action to be executed.
    SendAction,
    /// Tell the client that a new entity is part of the game.
    RegisterEntity,
    /// Update the position of an existing entity.
    UpdatePosition,
    /// An attack to suffer.
    Attack,
    /// Remove an entity.
    RemoveEntity,
}

/// Wire code of a server update kind.
pub open spec fn server_update_code(kind: ServerUpdateKind) -> u8 {
    match kind {
        ServerUpdateKind::LoadChunk => 0,
        ServerUpdateKind::LoggedIn => 1,
        ServerUpdateKind::SendAction => 2,
        ServerUpdateKind::RegisterEntity => 3,
        ServerUpdateKind::UpdatePosition => 4,
        ServerUpdateKind::Attack => 5,
        ServerUpdateKind::RemoveEntity => 6,
    }
}

/// Server update kind of a wire code, if any has it.
pub open spec fn server_update_kind_of(code: u8) -> Option<ServerUpdateKind> {
    if code == 0 {
        Some(ServerUpdateKind::LoadChunk)
    } else if code == 1 {
        Some(ServerUpdateKind::LoggedIn)
    } else if code == 2 {
        Some(ServerUpdateKind::SendAction)
    } else if code == 3 {
        Some(ServerUpdateKind::RegisterEntity)
    } else if code == 4 {
        Some(ServerUpdateKind::UpdatePosition)
    } else if code == 5 {
        Some(ServerUpdateKind::Attack)
    } else if code == 6 {
        Some(ServerUpdateKind::RemoveEntity)
    } else {
        None
    }
}

impl ServerUpdateKind {
    /// Code of the kind on the wire: 0 to 6 in the order of the variants.
    pub fn to_u8(&self) -> (r: u8)
        ensures
            r == server_update_code(*self),
    {
        match self {
            ServerUpdateKind::LoadChunk => 0,
            ServerUpdateKind::LoggedIn => 1,
            ServerUpdateKind::SendAction => 2,
            ServerUpdateKind::RegisterEntity => 3,
            ServerUpdateKind::UpdatePosition => 4,
            ServerUpdateKind::Attack => 5,
            ServerUpdateKind::RemoveEntity => 6,
        }
    }

    /// Kind of a wire code; `None` for a code above 6, that no kind has. A
    /// server update cannot be built from such a code: the caller, which
    /// holds the bytes, decides how to fail (this function does not panic).
    pub fn from_u8(code: u8) -> (r: Option<Self>)
        ensures
            r == server_update_kind_of(code),
    {
        match code {
            0 => Some(ServerUpdateKind::LoadChunk),
            1 => Some(ServerUpdateKind::LoggedIn),
            2 => Some(ServerUpdateKind::SendAction),
            3 => Some(ServerUpdateKind::RegisterEntity),
            4 => Some(ServerUpdateKind::UpdatePosition),
            5 => Some(ServerUpdateKind::Attack),
            6 => Some(ServerUpdateKind::RemoveEntity),
            _ => None,
        }
    }

    /// The update is big enough to need a special treatment when sent over
    /// the network: only chunks are.
    pub fn is_heavy(&self) -> (r: bool)
        ensures
            r == (*self is LoadChunk),
    {
        matches!(self, ServerUpdateKind::LoadChunk)
    }
}

/// Kinds of messages that a client sends to the server, as tagged on the wire.
#[derive(Clone, Copy, Debug, PartialEq, Eq, Structural)]
pub enum MessageToServerKind {
    /// Ask the server to log in a new player with a given name.
    Login,
    OnNewPosition,
    OnNewAction,
    Attack,
    SpawnRequest,
}

/// Wire code of a message kind.
pub open spec fn message_code(kind: MessageToServerKind) -> u8 {
    match kind {
        MessageToServerKind::Login => 0,
        MessageToServerKind::OnNewPosition => 1,
        MessageToServerKind::OnNewAction => 2,
        MessageToServerKind::Attack => 3,
        MessageToServerKind::SpawnRequest => 4,
    }
}

/// Message kind of a wire code, if any has it.
pub open spec fn message_kind_of(code: u8) -> Option<MessageToServerKind> {
    if code == 0 {
        Some(MessageToServerKind::Login)
    } else if code == 1 {
        Some(MessageToServerKind::OnNewPosition)
    } else if code == 2 {
        Some(MessageToServerKind::OnNewAction)
    } else if code == 3 {
        Some(MessageToServerKind::Attack)
    } else if code == 4 {
        Some(MessageToServerKind::SpawnRequest)
    } else {
        None
    }
}

impl MessageToServerKind {
    /// Code of the kind on the wire: 0 to 4 in the order of the variants.
    pub fn to_u8(&self) -> (r: u8)
        ensures
            r == message_code(*self),
    {
        match self {
            MessageToServerKind::Login => 0,
            MessageToServerKind::OnNewPosition => 1,
            MessageToServerKind::OnNewAction => 2,
            MessageToServerKind::Attack => 3,
            MessageToServerKind::SpawnRequest => 4,
        }
    }

    /// Kind of a wire code; `None` for a code above 4, that no kind has. No
    /// message can be built from such a code: the caller, which holds the
    /// bytes, decides how to fail (this function does not panic).
    pub fn from_u8(code: u8) -> (r: Option<Self>)
        ensures
            r == message_kind_of(code),
    {
        match code {
            0 => Some(MessageToServerKind::Login),
            1 => Some(MessageToServerKind::OnNewPosition),
            2 => Some(MessageToServerKind::OnNewAction),
            3 => Some(MessageToServerKind::Attack),
            4 => Some(MessageToServerKind::SpawnRequest),
            _ => None,
        }
    }
}

/// Decoding the code of a kind gives the kind back, and every code that
/// decodes is the code of what it decodes to: the codes of the server updates
/// are 0 to 6, those of the messages to the server 0 to 4.
pub proof fn lemma_kind_codes_round_trip(
    update: ServerUpdateKind,
    message: MessageToServerKind,
    code: u8,
)
    ensures
        server_update_kind_of(server_update_code(update)) == Some(update),
        message_kind_of(message_code(message)) == Some(message),
        server_update_kind_of(code) is Some <==> code <= 6,
        message_kind_of(code) is Some <==> code <= 4,
        server_update_kind_of(code) matches Some(k) ==> server_update_code(k) == code,
        message_kind_of(code) matches Some(k) ==> message_code(k) == code,
{
}

/// Big-endian bytes of a 32-bit number.
pub open spec fn be_bytes(v: u32) -> Seq<u8> {
    seq![
        (v / 0x100_0000) as u8,
        ((v / 0x1_0000) % 0x100) as u8,
        ((v / 0x100) % 0x100) as u8,
        (v % 0x100) as u8,
    ]
}

/// Number of four big-endian bytes.
pub open spec fn be_value(b: Seq<u8>) -> int {
    b[0] * 0x100_0000 + b[1] * 0x1_0000 + b[2] * 0x100 + b[3]
}

/// Payload of the removal of the entity `id`: its id in big-endian order.
pub fn remove_entity_bytes(id: u32) -> (r: Vec<u8>)
    ensures
        r@ == be_bytes(id),
{
    let r = vec![
        (id / 0x100_0000) as u8,
        ((id / 0x1_0000) % 0x100) as u8,
        ((id / 0x100) % 0x100) as u8,
        (id % 0x100) as u8,
    ];
    assert(r@ =~= be_bytes(id));
    r
}

/// Id of the entity to remove, read in big-endian order from the first four
/// bytes of the payload.
pub fn parse_remove_entity(bytes_to_parse: &[u8]) -> (r: u32)
    requires
        bytes_to_parse@.len() >= 4,
    ensures
        r == be_value(bytes_to_parse@),
{
    let b0 = bytes_to_parse[0] as u32;
    let b1 = bytes_to_parse[1] as u32;
    let b2 = bytes_to_parse[2] as u32;
    let b3 = bytes_to_parse[3] as u32;
    b0 * 0x100_0000 + b1 * 0x1_0000 + b2 * 0x100 + b3
}

/// Reading back the payload of a removal gives the id of the entity.
pub proof fn lemma_remove_entity_round_trip(id: u32)
    ensures
        be_value(be_bytes(id)) == id,
{
    let b = be_bytes(id);
    assert(b[0] == id / 0x100_0000);
    assert(b[1] == (id / 0x1_0000) % 0x100);
    assert(b[2] == (id / 0x100) % 0x100);
    assert(b[3] == id % 0x100);
    assert(be_value(b) == id) by (nonlinear_arith)
        requires
            b[0] == id / 0x100_0000,
            b[1] == (id / 0x1_0000) % 0x100,
            b[2] == (id / 0x100) % 0x100,
            b[3] == id % 0x100,
            0 <= id < 0x1_0000_0000,
    ;
}

/// Leading bytes of the registration of an entity: its id, then the code of
/// its kind (the position follows).
pub fn entity_header_bytes(id: u8, entity_kind: EntityKind) -> (r: Vec<u8>)
    ensures
        r@ == seq![id, kind_code(entity_kind)],
{
    let mut bytes = vec![id];
    bytes.push(entity_kind.to_u8());
    assert(bytes@ =~= seq![id, kind_code(entity_kind)]);
    bytes
}

/// Id and kind of a registered entity, from the first two bytes of the
/// payload.
pub fn parse_entity_header(bytes_to_parse: &[u8]) -> (r: (u8, EntityKind))
    requires
        bytes_to_parse@.len() >= 2,
    ensures
        r == (bytes_to_parse@[0], kind_of_code(bytes_to_parse@[1])),
{
    (bytes_to_parse[0], EntityKind::from_u8(bytes_to_parse[1]))
}

} // verus!
