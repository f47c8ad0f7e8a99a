use vstd::prelude::*;

verus! {

/// Action that a monster can carry out.
#[derive(Clone, Copy, Debug, PartialEq, Eq, Structural)]
pub enum MonsterAction {
    Forward,
    LeftRot,
    RightRot,
    /// Attack the entity of the given id.
    Attack(usize),
    Jump,
    Idle,
}

/// Internal state of a chasing monster; the names are for convenience, the
/// action of each is decided by `action`.
#[derive(Clone, Copy, Debug, PartialEq, Eq, Structural)]
pub enum MonsterStateEnum {
    Idle,
    Forward,
    TurnLeft,
    TurnRight,
    Attack,
    Jump,
}

impl MonsterStateEnum {
    /// Action of a chasing monster in this state, `chasing` being the id of
    /// the entity it locked on: it attacks that entity in the `Attack` state.
    pub fn action(&self, chasing: Option<usize>) -> (r: MonsterAction)
        requires
            *self is Attack ==> chasing is Some,
        ensures
            r == match *self {
                MonsterStateEnum::Forward => MonsterAction::Forward,
                MonsterStateEnum::TurnLeft => MonsterAction::LeftRot,
                MonsterStateEnum::TurnRight => MonsterAction::RightRot,
                MonsterStateEnum::Attack => MonsterAction::Attack(chasing->0),
                MonsterStateEnum::Jump => MonsterAction::Jump,
                MonsterStateEnum::Idle => MonsterAction::Idle,
            },
    {
        match self {
            MonsterStateEnum::Forward => MonsterAction::Forward,
            MonsterStateEnum::TurnLeft => MonsterAction::LeftRot,
            MonsterStateEnum::TurnRight => MonsterAction::RightRot,
            MonsterStateEnum::Attack => MonsterAction::Attack(chasing.unwrap()),
            MonsterStateEnum::Jump => MonsterAction::Jump,
            _ => MonsterAction::Idle,
        }
    }
}

/// Where a chasing monster sees its target, from the angles between the
/// direction of the target and the monster's own directions.
#[derive(Clone, Copy, Debug, PartialEq, Eq, Structural)]
pub enum Heading {
    /// Clearly on the right side.
    OnRight,
    /// Clearly on the left side.
    OnLeft,
    /// Straight behind.
    Behind,
    /// Straight ahead.
    Ahead,
}

/// A player as a chasing monster sees it.
#[derive(Clone, Copy, Debug, PartialEq, Eq, Structural)]
pub struct PlayerSighting {
    pub id: usize,
    /// The player is closer than the chasing distance.
    pub within_reach: bool,
    /// The player is farther than the chasing distance.
    pub beyond_reach: bool,
}

/// The first player of the list with the id `id`, if any.
pub open spec fn first_with_id(players: Seq<PlayerSighting>, id: usize) -> Option<PlayerSighting>
    decreases players.len(),
{
    if players.len() == 0 {
        None
    } else if players[0].id == id {
        Some(players[0])
    } else {
        first_with_id(players.drop_first(), id)
    }
}

/// Id of the first player of the list within reach, if any.
pub open spec fn first_in_reach(players: Seq<PlayerSighting>) -> Option<usize>
    decreases players.len(),
{
    if players.len() == 0 {
        None
    } else if players[0].within_reach {
        Some(players[0].id)
    } else {
        first_in_reach(players.drop_first())
    }
}

/// Next state of a monster going to its target, and whether its attack
/// cooldown restarts: it turns until it faces the target (turning right when
/// the target is behind), then attacks when close enough and its cooldown is
/// over (idling while it is not), else walks forward, or jumps when a block
/// is in the way.
pub open spec fn chase_decision(
    heading: Heading,
    in_attack_range: bool,
    attack_ready: bool,
    blocked_ahead: bool,
) -> (MonsterStateEnum, bool) {
    match heading {
        Heading::OnRight => (MonsterStateEnum::TurnRight, false),
        Heading::OnLeft => (MonsterStateEnum::TurnLeft, false),
        Heading::Behind => (MonsterStateEnum::TurnRight, false),
        Heading::Ahead => if in_attack_range {
            if attack_ready {
                (MonsterStateEnum::Attack, true)
            } else {
                (MonsterStateEnum::Idle, false)
            }
        } else if blocked_ahead {
            (MonsterStateEnum::Jump, false)
        } else {
            (MonsterStateEnum::Forward, false)
        },
    }
}

/// Decision of a monster going to its target (see `chase_decision`).
pub fn go_to_target(heading: Heading, in_attack_range: bool, attack_ready: bool, blocked_ahead: bool) -> (r: (
    MonsterStateEnum,
    bool,
))
    ensures
        r == chase_decision(heading, in_attack_range, attack_ready, blocked_ahead),
{
    match heading {
        Heading::OnRight => (MonsterStateEnum::TurnRight, false),
        Heading::OnLeft => (MonsterStateEnum::TurnLeft, false),
        Heading::Behind => (MonsterStateEnum::TurnRight, false),
        Heading::Ahead => {
            if in_attack_range {
                if attack_ready {
                    (MonsterStateEnum::Attack, true)
                } else {
                    (MonsterStateEnum::Idle, false)
                }
            } else if blocked_ahead {
                (MonsterStateEnum::Jump, false)
            } else {
                (MonsterStateEnum::Forward, false)
            }
        },
    }
}

/// Player a monster without target locks on: the first one within reach.
pub fn first_within_reach(players: &Vec<PlayerSighting>) -> (r: Option<usize>)
    ensures
        r == first_in_reach(players@),
        r is None <==> forall|i: int| 0 <= i < players@.len() ==> !(#[trigger] players@[i]).within_reach,
        r matches Some(id) ==> exists|i: int|
            0 <= i < players@.len() && (#[trigger] players@[i]).within_reach && players@[i].id == id
                && forall|j: int| 0 <= j < i ==> !(#[trigger] players@[j]).within_reach,
{
    let mut i: usize = 0;
    assert(players@.skip(0) =~= players@);
    while i < players.len()
        invariant
            0 <= i <= players@.len(),
            forall|j: int| 0 <= j < i ==> !(#[trigger] players@[j]).within_reach,
            first_in_reach(players@) == first_in_reach(players@.skip(i as int)),
        decreases players@.len() - i,
    {
        assert(players@.skip(i as int).drop_first() =~= players@.skip(i + 1));
        if players[i].within_reach {
            return Some(players[i].id);
        }
        i = i + 1;
    }
    None
}

/// The player of the list with the id `id` that a chasing monster goes after:
/// the first one with that id, if any.
pub fn find_player(players: &Vec<PlayerSighting>, id: usize) -> (r: Option<PlayerSighting>)
    ensures
        r == first_with_id(players@, id),
{
    let mut i: usize = 0;
    assert(players@.skip(0) =~= players@);
    while i < players.len()
        invariant
            0 <= i <= players@.len(),
            first_with_id(players@, id) == first_with_id(players@.skip(i as int), id),
        decreases players@.len() - i,
    {
        assert(players@.skip(i as int).drop_first() =~= players@.skip(i + 1));
        if players[i].id == id {
            return Some(players[i]);
        }
        i = i + 1;
    }
    None
}

/// One update of a chasing monster in the state `state`, locked on the
/// player `chasing` (if any), seeing `players`; `heading`, `in_attack_range`
/// and `blocked_ahead` describe its locked player, `attack_ready` whether its
/// attack cooldown is over. Gives the new state, the new lock and whether the
/// cooldown restarts:
/// - a locked player still in the list and not beyond reach is chased
///   (`chase_decision`);
/// - a locked player gone from the list or beyond reach is dropped, and the
///   monster idles;
/// - a monster without a lock then locks on the first player within reach.
pub open spec fn chaser_step(
    state: MonsterStateEnum,
    chasing: Option<usize>,
    players: Seq<PlayerSighting>,
    heading: Heading,
    in_attack_range: bool,
    attack_ready: bool,
    blocked_ahead: bool,
) -> (MonsterStateEnum, Option<usize>, bool) {
    let kept: (MonsterStateEnum, Option<usize>, bool) = match chasing {
        Some(pid) => match first_with_id(players, pid) {
            Some(p) => if p.beyond_reach {
                (MonsterStateEnum::Idle, None, false)
            } else {
                let d = chase_decision(heading, in_attack_range, attack_ready, blocked_ahead);
                (d.0, Some(pid), d.1)
            },
            None => (MonsterStateEnum::Idle, None, false),
        },
        None => (state, None, false),
    };
    match kept.1 {
        Some(_) => kept,
        None => (kept.0, first_in_reach(players), kept.2),
    }
}

proof fn lemma_first_with_id_in_list(players: Seq<PlayerSighting>, id: usize)
    ensures
        first_with_id(players, id) matches Some(p) ==> p.id == id && players.contains(p),
    decreases players.len(),
{
    if players.len() > 0 && players[0].id != id {
        lemma_first_with_id_in_list(players.drop_first(), id);
        if let Some(p) = first_with_id(players.drop_first(), id) {
            let k = choose|k: int| 0 <= k < players.drop_first().len() && players.drop_first()[k] == p;
            assert(players[k + 1] == p);
        }
    }
}

proof fn lemma_first_in_reach_in_list(players: Seq<PlayerSighting>)
    ensures
        first_in_reach(players) matches Some(id) ==> exists|i: int|
            0 <= i < players.len() && (#[trigger] players[i]).id == id && players[i].within_reach,
    decreases players.len(),
{
    if players.len() > 0 && !players[0].within_reach {
        lemma_first_in_reach_in_list(players.drop_first());
        if let Some(id) = first_in_reach(players.drop_first()) {
            let k = choose|k: int|
                0 <= k < players.drop_first().len() && (#[trigger] players.drop_first()[k]).id == id
                    && players.drop_first()[k].within_reach;
            assert(players[k + 1] == players.drop_first()[k]);
        }
    }
}

/// After an update, a chasing monster is locked on a player of the list only:
/// either one within reach, or the player it was already chasing, which is
/// not beyond reach.
pub proof fn lemma_chaser_locks_on_seen_player(
    state: MonsterStateEnum,
    chasing: Option<usize>,
    players: Seq<PlayerSighting>,
    heading: Heading,
    in_attack_range: bool,
    attack_ready: bool,
    blocked_ahead: bool,
)
    ensures
        chaser_step(state, chasing, players, heading, in_attack_range, attack_ready, blocked_ahead).1
            matches Some(id) ==> exists|i: int|
            0 <= i < players.len() && (#[trigger] players[i]).id == id && (players[i].within_reach
                || (chasing == Some(id) && !players[i].beyond_reach)),
{
    lemma_first_in_reach_in_list(players);
    if let Some(pid) = chasing {
        lemma_first_with_id_in_list(players, pid);
    }
}

/// Update of a chasing monster (see `chaser_step`).
pub fn chaser_update(
    state: MonsterStateEnum,
    chasing: Option<usize>,
    players: &Vec<PlayerSighting>,
    heading: Heading,
    in_attack_range: bool,
    attack_ready: bool,
    blocked_ahead: bool,
) -> (r: (MonsterStateEnum, Option<usize>, bool))
    ensures
        r == chaser_step(
            state,
            chasing,
            players@,
            heading,
            in_attack_range,
            attack_ready,
            blocked_ahead,
        ),
{
    let mut new_state = state;
    let mut lock: Option<usize> = None;
    let mut restart = false;
    if let Some(pid) = chasing {
        match find_player(players, pid) {
            Some(p) => {
                if p.beyond_reach {
                    new_state = MonsterStateEnum::Idle;
                } else {
                    let d = go_to_target(heading, in_attack_range, attack_ready, blocked_ahead);
                    new_state = d.0;
                    restart = d.1;
                    lock = Some(pid);
                }
            },
            None => {
                new_state = MonsterStateEnum::Idle;
            },
        }
    }
    if lock.is_none() {
        lock = first_within_reach(players);
    }
    (new_state, lock, restart)
}

/// A monster facing its target out of attack range walks to it, or jumps
/// when a block is in the way, whether or not its cooldown is over: the
/// cooldown only matters within attack range. It attacks exactly when it faces
/// its target within attack range with the cooldown over, and the cooldown
/// restarts exactly when it attacks.
pub proof fn lemma_chase_moves_out_of_range(
    heading: Heading,
    in_attack_range: bool,
    attack_ready: bool,
    blocked_ahead: bool,
)
    ensures
        heading == Heading::Ahead && !in_attack_range ==> chase_decision(
            heading,
            in_attack_range,
            attack_ready,
            blocked_ahead,
        ).0 == (if blocked_ahead {
            MonsterStateEnum::Jump
        } else {
            MonsterStateEnum::Forward
        }),
        !in_attack_range ==> chase_decision(heading, false, attack_ready, blocked_ahead)
            == chase_decision(heading, false, !attack_ready, blocked_ahead),
        chase_decision(heading, in_attack_range, attack_ready, blocked_ahead).0
            == MonsterStateEnum::Attack <==> (heading == Heading::Ahead && in_attack_range
            && attack_ready),
        chase_decision(heading, in_attack_range, attack_ready, blocked_ahead).1 <==> chase_decision(
            heading,
            in_attack_range,
            attack_ready,
            blocked_ahead,
        ).0 == MonsterStateEnum::Attack,
{
}

proof fn lemma_first_with_id_is_first(players: Seq<PlayerSighting>, id: usize, i: int)
    requires
        0 <= i < players.len(),
        players[i].id == id,
        forall|j: int| 0 <= j < i ==> (#[trigger] players[j]).id != id,
    ensures
        first_with_id(players, id) == Some(players[i]),
    decreases i,
{
    if i > 0 {
        let rest = players.drop_first();
        assert forall|j: int| 0 <= j < i - 1 implies (#[trigger] rest[j]).id != id by {
            assert(rest[j] == players[j + 1]);
        }
        assert(players[0].id != id);
        lemma_first_with_id_is_first(rest, id, i - 1);
    }
}

/// A monster locked on a player of the list (the first one with that id)
/// who is not beyond reach keeps the lock; facing that player out of attack
/// range it walks to the player, or jumps when a block is in the way, whatever
/// its cooldown, and its cooldown does not restart.
pub proof fn lemma_chaser_walks_to_locked_target(
    state: MonsterStateEnum,
    pid: usize,
    players: Seq<PlayerSighting>,
    i: int,
    attack_ready: bool,
    blocked_ahead: bool,
)
    requires
        0 <= i < players.len(),
        players[i].id == pid,
        !players[i].beyond_reach,
        forall|j: int| 0 <= j < i ==> (#[trigger] players[j]).id != pid,
    ensures
        chaser_step(state, Some(pid), players, Heading::Ahead, false, attack_ready, blocked_ahead)
            == (if blocked_ahead {
            MonsterStateEnum::Jump
        } else {
            MonsterStateEnum::Forward
        }, Some(pid), false),
{
    lemma_first_with_id_is_first(players, pid, i);
}

} // verus!
