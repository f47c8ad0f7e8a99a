use crafty::hud::{HudPart, HudVisibility};

#[test]
fn hud_parts_follow_menus() {
    let mut hud = HudVisibility::new();
    assert_eq!(hud.visible_parts(), vec![HudPart::Base, HudPart::ItemsBar, HudPart::HealthBar]);
    hud.toggle_help_menu();
    hud.toggle_debug_menu();
    assert!(hud.show_debug());
    assert_eq!(
        hud.visible_parts(),
        vec![HudPart::Base, HudPart::ItemsBar, HudPart::HealthBar, HudPart::HelpMenu, HudPart::DebugMenu]
    );
    hud.open_inventory();
    assert!(hud.is_inventory_open());
    assert_eq!(
        hud.visible_parts(),
        vec![HudPart::Base, HudPart::HelpMenu, HudPart::DebugMenu, HudPart::Inventory]
    );
    assert!(!hud.close_inventory(false));
    assert!(hud.is_inventory_open());
    assert!(hud.close_inventory(true));
    assert!(!hud.is_inventory_open());
    hud.toggle_help_menu();
    hud.toggle_debug_menu();
    assert!(!hud.show_debug());
    assert_eq!(hud.visible_parts(), vec![HudPart::Base, HudPart::ItemsBar, HudPart::HealthBar]);
}
