use crate::renderer::{KeyCode, KeyEvent, MouseButton, MouseEvent, PressedOrReleased, WindowAction};
use vstd::prelude::*;

verus! {

/// Logical inputs that move the player or break cubes while held.
#[derive(Clone, Copy, Debug, PartialEq, Eq, Structural)]
pub enum MotionState {
    Up,
    Down,
    Right,
    Left,
    Jump,
    LeftClick,
}

/// What the game does in answer to an input event.
#[derive(Clone, Copy, Debug, PartialEq, Eq, Structural)]
pub enum GameCommand {
    /// Quit the program.
    Exit,
    /// Hold (`true`) or release (`false`) a logical input of the player.
    SetMotion(MotionState, bool),
    /// Move the player up, without collision checks.
    RaisePlayer,
    /// Move the player down, without collision checks.
    LowerPlayer,
    /// Open the inventory and show the cursor.
    OpenInventory,
    /// Close the inventory if it can be, and hide the cursor.
    CloseInventory,
    /// Select the item at this index of the item bar.
    SelectItem(usize),
    /// Log debug information about the player.
    PrintDebug,
    /// Ask the server to spawn a monster above the player.
    SpawnMonster,
    ToggleDebugMenu,
    ToggleHelpMenu,
    ToggleFullscreen,
    /// Save the world to disk.
    SaveWorld,
    /// Attack the entity in front of the player.
    Attack,
    /// Put a block of the selected item against the cube looked at.
    PlaceCube,
    /// Pass a left click on to the inventory, if it is open.
    ForwardClick(PressedOrReleased),
}

/// Logical input that a key holds while it is down.
pub open spec fn motion_of_key(key: KeyCode) -> Option<MotionState> {
    match key {
        KeyCode::KeyW => Some(MotionState::Up),
        KeyCode::KeyS => Some(MotionState::Down),
        KeyCode::KeyD => Some(MotionState::Right),
        KeyCode::KeyA => Some(MotionState::Left),
        KeyCode::Space => Some(MotionState::Jump),
        _ => None,
    }
}

/// Command that a key gives when it goes down, in the game (inventory
/// closed). F10 saves the map and F11 toggles the full screen, as the help
/// menu lists them.
pub open spec fn press_command(key: KeyCode) -> Option<GameCommand> {
    match key {
        KeyCode::KeyE => Some(GameCommand::OpenInventory),
        KeyCode::Digit1 => Some(GameCommand::SelectItem(0)),
        KeyCode::Digit2 => Some(GameCommand::SelectItem(1)),
        KeyCode::Digit3 => Some(GameCommand::SelectItem(2)),
        KeyCode::Digit4 => Some(GameCommand::SelectItem(3)),
        KeyCode::Digit5 => Some(GameCommand::SelectItem(4)),
        KeyCode::Digit6 => Some(GameCommand::SelectItem(5)),
        KeyCode::Digit7 => Some(GameCommand::SelectItem(6)),
        KeyCode::Digit8 => Some(GameCommand::SelectItem(7)),
        KeyCode::Digit9 => Some(GameCommand::SelectItem(8)),
        KeyCode::KeyP => Some(GameCommand::PrintDebug),
        KeyCode::KeyX => Some(GameCommand::SpawnMonster),
        KeyCode::F3 => Some(GameCommand::ToggleDebugMenu),
        KeyCode::F10 => Some(GameCommand::SaveWorld),
        KeyCode::F11 => Some(GameCommand::ToggleFullscreen),
        KeyCode::F12 => Some(GameCommand::ToggleHelpMenu),
        _ => None,
    }
}

/// The one-element sequence of an optional command, or the empty one.
pub open spec fn seq_of(c: Option<GameCommand>) -> Seq<GameCommand> {
    match c {
        Some(c) => seq![c],
        None => Seq::empty(),
    }
}

/// Commands of a key event: Escape going down quits; with the inventory open
/// only `E` going down (which closes it) counts; in the game, a movement key
/// holds or releases its input, `K` and `J` move the player up or down on
/// every event, then a key going down gives its `press_command`.
pub open spec fn key_commands(event: KeyEvent, inventory_open: bool) -> Seq<GameCommand> {
    let pressed = event.state is Pressed;
    if pressed && event.key == KeyCode::Escape {
        seq![GameCommand::Exit]
    } else if inventory_open {
        if pressed && event.key == KeyCode::KeyE {
            seq![GameCommand::CloseInventory]
        } else {
            Seq::empty()
        }
    } else {
        let held = match motion_of_key(event.key) {
            Some(m) => Some(GameCommand::SetMotion(m, pressed)),
            None => if event.key == KeyCode::KeyK {
                Some(GameCommand::RaisePlayer)
            } else if event.key == KeyCode::KeyJ {
                Some(GameCommand::LowerPlayer)
            } else {
                None
            },
        };
        seq_of(held) + if pressed {
            seq_of(press_command(event.key))
        } else {
            Seq::empty()
        }
    }
}

/// Commands of a mouse event. With the inventory closed: the left button
/// holds or releases the breaking of the cube looked at when there is one, else
/// attacks when it goes down; the right button going down places a cube.
/// Every left-button event is then passed on to the inventory.
pub open spec fn mouse_commands(event: MouseEvent, inventory_open: bool, selecting_cube: bool) -> Seq<
    GameCommand,
> {
    let pressed = event.state is Pressed;
    let game = if inventory_open {
        None
    } else {
        match event.button {
            MouseButton::Left => if selecting_cube {
                Some(GameCommand::SetMotion(MotionState::LeftClick, pressed))
            } else if pressed {
                Some(GameCommand::Attack)
            } else {
                None
            },
            MouseButton::Right => if pressed {
                Some(GameCommand::PlaceCube)
            } else {
                None
            },
            MouseButton::Other => None,
        }
    };
    seq_of(game) + if event.button == MouseButton::Left {
        seq![GameCommand::ForwardClick(event.state)]
    } else {
        Seq::empty()
    }
}

fn motion_key(key: KeyCode) -> (r: Option<MotionState>)
    ensures
        r == motion_of_key(key),
{
    match key {
        KeyCode::KeyW => Some(MotionState::Up),
        KeyCode::KeyS => Some(MotionState::Down),
        KeyCode::KeyD => Some(MotionState::Right),
        KeyCode::KeyA => Some(MotionState::Left),
        KeyCode::Space => Some(MotionState::Jump),
        _ => None,
    }
}

fn pressed_key_command(key: KeyCode) -> (r: Option<GameCommand>)
    ensures
        r == press_command(key),
{
    match key {
        KeyCode::KeyE => Some(GameCommand::OpenInventory),
        KeyCode::Digit1 => Some(GameCommand::SelectItem(0)),
        KeyCode::Digit2 => Some(GameCommand::SelectItem(1)),
        KeyCode::Digit3 => Some(GameCommand::SelectItem(2)),
        KeyCode::Digit4 => Some(GameCommand::SelectItem(3)),
        KeyCode::Digit5 => Some(GameCommand::SelectItem(4)),
        KeyCode::Digit6 => Some(GameCommand::SelectItem(5)),
        KeyCode::Digit7 => Some(GameCommand::SelectItem(6)),
        KeyCode::Digit8 => Some(GameCommand::SelectItem(7)),
        KeyCode::Digit9 => Some(GameCommand::SelectItem(8)),
        KeyCode::KeyP => Some(GameCommand::PrintDebug),
        KeyCode::KeyX => Some(GameCommand::SpawnMonster),
        KeyCode::F3 => Some(GameCommand::ToggleDebugMenu),
        KeyCode::F10 => Some(GameCommand::SaveWorld),
        KeyCode::F11 => Some(GameCommand::ToggleFullscreen),
        KeyCode::F12 => Some(GameCommand::ToggleHelpMenu),
        _ => None,
    }
}

/// Commands that a key event gives, whether the inventory is open or not
/// (see `key_commands`).
pub fn handle_key_event(event: &KeyEvent, inventory_open: bool) -> (r: Vec<GameCommand>)
    ensures
        r@ == key_commands(*event, inventory_open),
{
    let pressed = event.state.is_pressed();
    let mut commands: Vec<GameCommand> = Vec::new();
    if pressed && event.key == KeyCode::Escape {
        commands.push(GameCommand::Exit);
        assert(commands@ =~= key_commands(*event, inventory_open));
        return commands;
    }
    if inventory_open {
        if pressed && event.key == KeyCode::KeyE {
            commands.push(GameCommand::CloseInventory);
        }
        assert(commands@ =~= key_commands(*event, inventory_open));
        return commands;
    }
    match motion_key(event.key) {
        Some(m) => commands.push(GameCommand::SetMotion(m, pressed)),
        None => {
            if event.key == KeyCode::KeyK {
                commands.push(GameCommand::RaisePlayer);
            } else if event.key == KeyCode::KeyJ {
                commands.push(GameCommand::LowerPlayer);
            }
        },
    }
    if pressed {
        if let Some(c) = pressed_key_command(event.key) {
            commands.push(c);
        }
    }
    assert(commands@ =~= key_commands(*event, inventory_open));
    commands
}

/// Commands that a mouse event gives (see `mouse_commands`).
pub fn handle_mouse_event(event: &MouseEvent, inventory_open: bool, selecting_cube: bool) -> (r: Vec<
    GameCommand,
>)
    ensures
        r@ == mouse_commands(*event, inventory_open, selecting_cube),
{
    let pressed = event.state.is_pressed();
    let mut commands: Vec<GameCommand> = Vec::new();
    if !inventory_open {
        match event.button {
            MouseButton::Left => {
                if selecting_cube {
                    commands.push(GameCommand::SetMotion(MotionState::LeftClick, pressed));
                } else if pressed {
                    commands.push(GameCommand::Attack);
                }
            },
            MouseButton::Right => {
                if pressed {
                    commands.push(GameCommand::PlaceCube);
                }
            },
            MouseButton::Other => {},
        }
    }
    if event.button == MouseButton::Left {
        commands.push(GameCommand::ForwardClick(event.state));
    }
    assert(commands@ =~= mouse_commands(*event, inventory_open, selecting_cube));
    commands
}

/// Switches between full screen and windowed mode: flips `fullscreen` and
/// returns the window change to make.
pub fn toggle_fullscreen(fullscreen: &mut bool) -> (r: WindowAction)
    ensures
        *final(fullscreen) == !*old(fullscreen),
        r == WindowAction::SetFullscreen(!*old(fullscreen)),
{
    if *fullscreen {
        *fullscreen = false;
        WindowAction::SetFullscreen(false)
    } else {
        *fullscreen = true;
        WindowAction::SetFullscreen(true)
    }
}

/// The number written on a digit key, from 1 to 9.
pub open spec fn digit_of_key(key: KeyCode) -> Option<int> {
    match key {
        KeyCode::Digit1 => Some(1),
        KeyCode::Digit2 => Some(2),
        KeyCode::Digit3 => Some(3),
        KeyCode::Digit4 => Some(4),
        KeyCode::Digit5 => Some(5),
        KeyCode::Digit6 => Some(6),
        KeyCode::Digit7 => Some(7),
        KeyCode::Digit8 => Some(8),
        KeyCode::Digit9 => Some(9),
        _ => None,
    }
}

/// In the game (inventory closed), pressing the digit key `k` selects the
/// item at index `k - 1` of the item bar, and does nothing else; releasing it
/// does nothing. A slot is selected by a digit key only.
pub proof fn lemma_digit_keys_select_items(key: KeyCode, state: PressedOrReleased)
    ensures
        digit_of_key(key) matches Some(k) ==> key_commands(KeyEvent { key, state }, false) == (
        if state is Pressed {
            seq![GameCommand::SelectItem((k - 1) as usize)]
        } else {
            Seq::empty()
        }),
        forall|n: usize|
            #[trigger] key_commands(KeyEvent { key, state }, false).contains(GameCommand::SelectItem(n))
                ==> digit_of_key(key) == Some(n + 1),
{
    let cmds = key_commands(KeyEvent { key, state }, false);
    if digit_of_key(key) is Some {
        assert(motion_of_key(key) is None);
        if state is Pressed {
            assert(cmds =~= seq![GameCommand::SelectItem((digit_of_key(key)->0 - 1) as usize)]);
        } else {
            assert(cmds =~= Seq::<GameCommand>::empty());
        }
    }
    assert forall|n: usize|
        #[trigger] cmds.contains(GameCommand::SelectItem(n)) implies digit_of_key(key) == Some(
        n + 1,
    ) by {
        let j = choose|j: int| 0 <= j < cmds.len() && cmds[j] == GameCommand::SelectItem(n);
        if state is Pressed && key == KeyCode::Escape {
            assert(cmds[j] == GameCommand::Exit);
        } else {
            let held = match motion_of_key(key) {
                Some(m) => Some(GameCommand::SetMotion(m, state is Pressed)),
                None => if key == KeyCode::KeyK {
                    Some(GameCommand::RaisePlayer)
                } else if key == KeyCode::KeyJ {
                    Some(GameCommand::LowerPlayer)
                } else {
                    None
                },
            };
            let pressed_part = if state is Pressed {
                seq_of(press_command(key))
            } else {
                Seq::empty()
            };
            assert(cmds == seq_of(held) + pressed_part);
            if j < seq_of(held).len() {
                assert(cmds[j] == seq_of(held)[j]);
            } else {
                assert(cmds[j] == pressed_part[j - seq_of(held).len()]);
            }
        }
    }
}

} // verus!
