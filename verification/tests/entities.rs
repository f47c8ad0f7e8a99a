use crafty::entity::EntityKind;
use crafty::monster::{
    chaser_update, find_player, first_within_reach, go_to_target, Heading, MonsterAction, MonsterStateEnum,
    PlayerSighting,
};

#[test]
fn entity_kind_codes_round_trip() {
    for kind in [EntityKind::Player, EntityKind::Monster1, EntityKind::Monster2] {
        assert_eq!(EntityKind::from_u8(kind.to_u8()), kind);
    }
    assert_eq!(EntityKind::Player.to_u8(), 0);
    assert_eq!(EntityKind::Monster1.to_u8(), 1);
    assert_eq!(EntityKind::Monster2.to_u8(), 2);
    assert_eq!(EntityKind::from_u8(3), EntityKind::Monster1);
    assert_eq!(EntityKind::from_u8(255), EntityKind::Monster1);
    assert!(EntityKind::Player.is_player());
    assert!(!EntityKind::Monster2.is_player());
}

#[test]
fn chaser_state_actions() {
    assert_eq!(MonsterStateEnum::Forward.action(None), MonsterAction::Forward);
    assert_eq!(MonsterStateEnum::TurnLeft.action(None), MonsterAction::LeftRot);
    assert_eq!(MonsterStateEnum::TurnRight.action(Some(1)), MonsterAction::RightRot);
    assert_eq!(MonsterStateEnum::Attack.action(Some(7)), MonsterAction::Attack(7));
    assert_eq!(MonsterStateEnum::Jump.action(None), MonsterAction::Jump);
    assert_eq!(MonsterStateEnum::Idle.action(Some(3)), MonsterAction::Idle);
}

#[test]
fn chaser_goes_to_target() {
    assert_eq!(go_to_target(Heading::OnRight, true, true, true), (MonsterStateEnum::TurnRight, false));
    assert_eq!(go_to_target(Heading::OnLeft, false, false, false), (MonsterStateEnum::TurnLeft, false));
    assert_eq!(go_to_target(Heading::Behind, true, true, false), (MonsterStateEnum::TurnRight, false));
    assert_eq!(go_to_target(Heading::Ahead, true, true, true), (MonsterStateEnum::Attack, true));
    assert_eq!(go_to_target(Heading::Ahead, true, false, false), (MonsterStateEnum::Idle, false));
    assert_eq!(go_to_target(Heading::Ahead, false, true, true), (MonsterStateEnum::Jump, false));
    assert_eq!(go_to_target(Heading::Ahead, false, true, false), (MonsterStateEnum::Forward, false));

    let players = vec![
        PlayerSighting { id: 4, within_reach: false, beyond_reach: true },
        PlayerSighting { id: 9, within_reach: true, beyond_reach: false },
        PlayerSighting { id: 2, within_reach: true, beyond_reach: false },
    ];
    assert_eq!(first_within_reach(&players), Some(9));
    assert_eq!(first_within_reach(&players[..1].to_vec()), None);
    assert_eq!(first_within_reach(&Vec::new()), None);
}

fn sighting(id: usize, within_reach: bool, beyond_reach: bool) -> PlayerSighting {
    PlayerSighting { id, within_reach, beyond_reach }
}

#[test]
fn chaser_finds_its_player() {
    let players = vec![sighting(4, false, true), sighting(9, true, false), sighting(4, true, false)];
    assert_eq!(find_player(&players, 4), Some(sighting(4, false, true)));
    assert_eq!(find_player(&players, 9), Some(sighting(9, true, false)));
    assert_eq!(find_player(&players, 7), None);
}

#[test]
fn chaser_keeps_its_lock_while_in_reach() {
    let players = vec![sighting(3, true, false), sighting(5, false, false)];
    // Exactly at the chasing distance the lock is kept.
    assert_eq!(
        chaser_update(MonsterStateEnum::Idle, Some(5), &players, Heading::Ahead, true, true, false),
        (MonsterStateEnum::Attack, Some(5), true)
    );
    assert_eq!(
        chaser_update(MonsterStateEnum::Attack, Some(5), &players, Heading::Ahead, true, false, false),
        (MonsterStateEnum::Idle, Some(5), false)
    );
    assert_eq!(
        chaser_update(MonsterStateEnum::Idle, Some(3), &players, Heading::OnLeft, false, true, false),
        (MonsterStateEnum::TurnLeft, Some(3), false)
    );
    assert_eq!(
        chaser_update(MonsterStateEnum::Forward, Some(3), &players, Heading::Ahead, false, true, true),
        (MonsterStateEnum::Jump, Some(3), false)
    );
}

#[test]
fn chaser_drops_a_lock_beyond_reach_and_locks_anew() {
    let players = vec![sighting(8, false, true), sighting(2, true, false)];
    // The target is too far: the monster idles and locks on player 2.
    assert_eq!(
        chaser_update(MonsterStateEnum::Forward, Some(8), &players, Heading::Ahead, false, true, false),
        (MonsterStateEnum::Idle, Some(2), false)
    );
    // The target left the game: same.
    assert_eq!(
        chaser_update(MonsterStateEnum::TurnRight, Some(6), &players, Heading::OnRight, false, true, false),
        (MonsterStateEnum::Idle, Some(2), false)
    );
    // No player within reach: no lock, and the monster idles.
    let far = vec![sighting(8, false, true)];
    assert_eq!(
        chaser_update(MonsterStateEnum::Forward, Some(8), &far, Heading::Ahead, false, true, false),
        (MonsterStateEnum::Idle, None, false)
    );
}

#[test]
fn chaser_without_lock_keeps_its_state() {
    let players = vec![sighting(1, false, false), sighting(7, true, false)];
    assert_eq!(
        chaser_update(MonsterStateEnum::Jump, None, &players, Heading::Ahead, true, true, false),
        (MonsterStateEnum::Jump, Some(7), false)
    );
    assert_eq!(
        chaser_update(MonsterStateEnum::Idle, None, &Vec::new(), Heading::Ahead, true, true, false),
        (MonsterStateEnum::Idle, None, false)
    );
}
