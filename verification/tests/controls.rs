use crafty::controls::{handle_key_event, handle_mouse_event, toggle_fullscreen, GameCommand, MotionState};
use crafty::renderer::{KeyCode, KeyEvent, MouseButton, MouseEvent, PressedOrReleased, WindowAction};

fn key(key: KeyCode, pressed: bool) -> KeyEvent {
    KeyEvent {
        key,
        state: if pressed { PressedOrReleased::Pressed } else { PressedOrReleased::Released },
    }
}

#[test]
fn pressed_or_released() {
    assert!(PressedOrReleased::Pressed.is_pressed());
    assert!(!PressedOrReleased::Released.is_pressed());
}

#[test]
fn movement_keys_hold_and_release() {
    assert_eq!(handle_key_event(&key(KeyCode::KeyW, true), false), vec![GameCommand::SetMotion(MotionState::Up, true)]);
    assert_eq!(handle_key_event(&key(KeyCode::KeyS, false), false), vec![GameCommand::SetMotion(MotionState::Down, false)]);
    assert_eq!(handle_key_event(&key(KeyCode::KeyD, true), false), vec![GameCommand::SetMotion(MotionState::Right, true)]);
    assert_eq!(handle_key_event(&key(KeyCode::KeyA, true), false), vec![GameCommand::SetMotion(MotionState::Left, true)]);
    assert_eq!(handle_key_event(&key(KeyCode::Space, false), false), vec![GameCommand::SetMotion(MotionState::Jump, false)]);
    assert_eq!(handle_key_event(&key(KeyCode::KeyK, false), false), vec![GameCommand::RaisePlayer]);
    assert_eq!(handle_key_event(&key(KeyCode::KeyJ, true), false), vec![GameCommand::LowerPlayer]);
}

#[test]
fn pressed_keys_give_commands() {
    assert_eq!(handle_key_event(&key(KeyCode::KeyE, true), false), vec![GameCommand::OpenInventory]);
    assert_eq!(handle_key_event(&key(KeyCode::Digit1, true), false), vec![GameCommand::SelectItem(0)]);
    assert_eq!(handle_key_event(&key(KeyCode::Digit9, true), false), vec![GameCommand::SelectItem(8)]);
    assert_eq!(handle_key_event(&key(KeyCode::F3, true), false), vec![GameCommand::ToggleDebugMenu]);
    assert_eq!(handle_key_event(&key(KeyCode::F10, true), false), vec![GameCommand::SaveWorld]);
    assert_eq!(handle_key_event(&key(KeyCode::F11, true), false), vec![GameCommand::ToggleFullscreen]);
    assert_eq!(handle_key_event(&key(KeyCode::F12, true), false), vec![GameCommand::ToggleHelpMenu]);
    assert_eq!(handle_key_event(&key(KeyCode::KeyX, true), false), vec![GameCommand::SpawnMonster]);
    assert_eq!(handle_key_event(&key(KeyCode::KeyP, true), false), vec![GameCommand::PrintDebug]);
    assert!(handle_key_event(&key(KeyCode::F12, false), false).is_empty());
    assert!(handle_key_event(&key(KeyCode::Unknown, true), false).is_empty());
}

#[test]
fn escape_and_inventory_keys() {
    assert_eq!(handle_key_event(&key(KeyCode::Escape, true), false), vec![GameCommand::Exit]);
    assert_eq!(handle_key_event(&key(KeyCode::Escape, true), true), vec![GameCommand::Exit]);
    assert!(handle_key_event(&key(KeyCode::Escape, false), false).is_empty());
    assert_eq!(handle_key_event(&key(KeyCode::KeyE, true), true), vec![GameCommand::CloseInventory]);
    assert!(handle_key_event(&key(KeyCode::KeyW, true), true).is_empty());
    assert!(handle_key_event(&key(KeyCode::KeyE, false), true).is_empty());
}

#[test]
fn mouse_buttons() {
    let left_down = MouseEvent { button: MouseButton::Left, state: PressedOrReleased::Pressed };
    let left_up = MouseEvent { button: MouseButton::Left, state: PressedOrReleased::Released };
    let right_down = MouseEvent { button: MouseButton::Right, state: PressedOrReleased::Pressed };
    let other = MouseEvent { button: MouseButton::Other, state: PressedOrReleased::Pressed };
    assert_eq!(
        handle_mouse_event(&left_down, false, true),
        vec![GameCommand::SetMotion(MotionState::LeftClick, true), GameCommand::ForwardClick(PressedOrReleased::Pressed)]
    );
    assert_eq!(
        handle_mouse_event(&left_down, false, false),
        vec![GameCommand::Attack, GameCommand::ForwardClick(PressedOrReleased::Pressed)]
    );
    assert_eq!(handle_mouse_event(&left_up, false, false), vec![GameCommand::ForwardClick(PressedOrReleased::Released)]);
    assert_eq!(handle_mouse_event(&left_down, true, true), vec![GameCommand::ForwardClick(PressedOrReleased::Pressed)]);
    assert_eq!(handle_mouse_event(&right_down, false, false), vec![GameCommand::PlaceCube]);
    assert!(handle_mouse_event(&right_down, true, true).is_empty());
    assert!(handle_mouse_event(&other, false, true).is_empty());
}

#[test]
fn fullscreen_toggles() {
    let mut fullscreen = false;
    assert_eq!(toggle_fullscreen(&mut fullscreen), WindowAction::SetFullscreen(true));
    assert!(fullscreen);
    assert_eq!(toggle_fullscreen(&mut fullscreen), WindowAction::SetFullscreen(false));
    assert!(!fullscreen);
}
