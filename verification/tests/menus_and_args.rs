use crafty::args::{Args, WorldInitializer};
use crafty::menu::{debug_menu_data, help_menu_data, DebugItem, DebugMenuData, HelpMenuData, HelpMenuItem};

#[test]
fn debug_menu_items() {
    let item = DebugItem::new("fps:");
    assert_eq!(item.element(), "fps:");
    let data = DebugMenuData::new(debug_menu_data());
    let labels: Vec<&str> = data.items().iter().map(|i| i.element()).collect();
    assert_eq!(labels, vec!["fps:", "coord:", "rot:", "cube rendered:"]);
}

#[test]
fn help_menu_items() {
    let item = HelpMenuItem::new("jump", "space");
    assert_eq!(item.command(), "jump");
    assert_eq!(item.key(), "space");
    let data = HelpMenuData::new(help_menu_data());
    assert_eq!(data.items().len(), 9);
    assert_eq!(data.items()[0].command(), "move forward");
    assert_eq!(data.items()[0].key(), "z");
    assert_eq!(data.items()[7].command(), "save map");
    assert_eq!(data.items()[7].key(), "f10");
    assert_eq!(data.items()[8].key(), "f11");
}

#[test]
fn server_url() {
    let args = Args {
        server: String::from("localhost"),
        port: String::from("3333"),
        name: String::new(),
        init: WorldInitializer::RANDOM,
    };
    assert_eq!(args.url(), "localhost:3333");
}

#[test]
fn world_initializer_flags() {
    let to_args = |v: &[&str]| v.iter().map(|s| s.to_string()).collect::<Vec<String>>();
    assert_eq!(WorldInitializer::from_arg_list(&to_args(&["crafty"])), WorldInitializer::RANDOM);
    assert_eq!(WorldInitializer::from_arg_list(&to_args(&["crafty", "--flat"])), WorldInitializer::FLAT);
    assert_eq!(WorldInitializer::from_arg_list(&to_args(&["crafty", "--disk"])), WorldInitializer::DISK);
    assert_eq!(WorldInitializer::from_arg_list(&to_args(&["crafty", "--disk", "--flat"])), WorldInitializer::FLAT);
    assert_eq!(WorldInitializer::from_arg_list(&to_args(&["--disk", "--random"])), WorldInitializer::RANDOM);
    assert_eq!(WorldInitializer::from_arg_list(&to_args(&["--flatten"])), WorldInitializer::RANDOM);
}
