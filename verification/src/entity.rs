use vstd::prelude::*;

verus! {

/// The different kinds of entity.
#[derive(Debug, PartialEq, Eq, Clone, Copy, Structural)]
pub enum EntityKind {
    Player,
    Monster1,
    Monster2,
}

/// Code of an entity kind on the wire.
pub open spec fn kind_code(kind: EntityKind) -> u8 {
    match kind {
        EntityKind::Player => 0,
        EntityKind::Monster1 => 1,
        EntityKind::Monster2 => 2,
    }
}

/// Entity kind of a code; an unknown code stands for `Monster1`.
pub open spec fn kind_of_code(code: u8) -> EntityKind {
    if code == 0 {
        EntityKind::Player
    } else if code == 2 {
        EntityKind::Monster2
    } else {
        EntityKind::Monster1
    }
}

impl EntityKind {
    /// Code of the kind: 0 for a player, 1 and 2 for the two monsters.
    pub fn to_u8(&self) -> (r: u8)
        ensures
            r == kind_code(*self),
    {
        match self {
            Self::Player => 0,
            Self::Monster1 => 1,
            Self::Monster2 => 2,
        }
    }

    /// Kind of a code; codes other than 0, 1 and 2 give `Monster1`.
    pub fn from_u8(entity_code: u8) -> (r: Self)
        ensures
            r == kind_of_code(entity_code),
    {
        match entity_code {
            0 => Self::Player,
            1 => Self::Monster1,
            2 => Self::Monster2,
            _ => Self::Monster1,
        }
    }

    /// The entity is a player.
    pub fn is_player(&self) -> (r: bool)
        ensures
            r == (*self is Player),
    {
        match self {
            Self::Player => true,
            _ => false,
        }
    }
}

/// Decoding the code of a kind gives that kind back, and the codes of the
/// kinds are exactly 0, 1 and 2.
pub proof fn lemma_kind_code_round_trip(kind: EntityKind, code: u8)
    ensures
        kind_of_code(kind_code(kind)) == kind,
        kind_code(kind) <= 2,
        code <= 2 ==> kind_code(kind_of_code(code)) == code,
{
}

} // verus!
