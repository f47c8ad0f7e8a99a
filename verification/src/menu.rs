use vstd::prelude::*;

verus! {

/// Line of the debug menu: the label of one value.
#[derive(Clone, Copy)]
pub struct DebugItem {
    element: &'static str,
}

impl View for DebugItem {
    type V = Seq<char>;

    closed spec fn view(&self) -> Seq<char> {
        self.element@
    }
}

impl DebugItem {
    pub fn new(element: &'static str) -> (r: Self)
        ensures
            r@ == element@,
    {
        Self { element }
    }

    /// The label of the line.
    pub fn element(&self) -> (r: &str)
        ensures
            r@ == self@,
    {
        self.element
    }
}

/// Lines of the debug menu, in order.
pub struct DebugMenuData {
    items: Vec<DebugItem>,
}

impl View for DebugMenuData {
    type V = Seq<DebugItem>;

    closed spec fn view(&self) -> Seq<DebugItem> {
        self.items@
    }
}

impl DebugMenuData {
    pub fn new(items: Vec<DebugItem>) -> (r: Self)
        ensures
            r@ == items@,
    {
        Self { items }
    }

    pub fn items(&self) -> (r: &Vec<DebugItem>)
        ensures
            r@ == self@,
    {
        &self.items
    }
}

/// The lines of the debug menu of the game.
pub fn debug_menu_data() -> (r: Vec<DebugItem>)
    ensures
        r@.map_values(|i: DebugItem| i@) == seq!["fps:"@, "coord:"@, "rot:"@, "cube rendered:"@],
{
    let r = vec![
        DebugItem::new("fps:"),
        DebugItem::new("coord:"),
        DebugItem::new("rot:"),
        DebugItem::new("cube rendered:"),
    ];
    assert(r@.map_values(|i: DebugItem| i@) =~= seq![
        "fps:"@,
        "coord:"@,
        "rot:"@,
        "cube rendered:"@,
    ]);
    r
}

/// Line of the help menu: a command and the key that gives it.
#[derive(Clone, Copy)]
pub struct HelpMenuItem {
    command: &'static str,
    key: &'static str,
}

impl View for HelpMenuItem {
    type V = (Seq<char>, Seq<char>);

    closed spec fn view(&self) -> (Seq<char>, Seq<char>) {
        (self.command@, self.key@)
    }
}

impl HelpMenuItem {
    pub fn new(command: &'static str, key: &'static str) -> (r: Self)
        ensures
            r@ == (command@, key@),
    {
        Self { command, key }
    }

    /// What the key does.
    pub fn command(&self) -> (r: &str)
        ensures
            r@ == self@.0,
    {
        self.command
    }

    /// The key.
    pub fn key(&self) -> (r: &str)
        ensures
            r@ == self@.1,
    {
        self.key
    }
}

/// Lines of the help menu, in order.
pub struct HelpMenuData {
    items: Vec<HelpMenuItem>,
}

impl View for HelpMenuData {
    type V = Seq<HelpMenuItem>;

    closed spec fn view(&self) -> Seq<HelpMenuItem> {
        self.items@
    }
}

impl HelpMenuData {
    pub fn new(items: Vec<HelpMenuItem>) -> (r: Self)
        ensures
            r@ == items@,
    {
        Self { items }
    }

    pub fn items(&self) -> (r: &Vec<HelpMenuItem>)
        ensures
            r@ == self@,
    {
        &self.items
    }
}

/// The lines of the help menu of the game.
pub fn help_menu_data() -> (r: Vec<HelpMenuItem>)
    ensures
        r@.map_values(|i: HelpMenuItem| i@) == seq![
            ("move forward"@, "z"@),
            ("move backward"@, "s"@),
            ("move left"@, "q"@),
            ("move right"@, "d"@),
            ("jump"@, "space"@),
            ("debug menu"@, "f3"@),
            ("help menu"@, "f12"@),
            ("save map"@, "f10"@),
            ("fullscreen"@, "f11"@),
        ],
{
    let r = vec![
        HelpMenuItem::new("move forward", "z"),
        HelpMenuItem::new("move backward", "s"),
        HelpMenuItem::new("move left", "q"),
        HelpMenuItem::new("move right", "d"),
        HelpMenuItem::new("jump", "space"),
        HelpMenuItem::new("debug menu", "f3"),
        HelpMenuItem::new("help menu", "f12"),
        HelpMenuItem::new("save map", "f10"),
        HelpMenuItem::new("fullscreen", "f11"),
    ];
    assert(r@.map_values(|i: HelpMenuItem| i@) =~= seq![
        ("move forward"@, "z"@),
        ("move backward"@, "s"@),
        ("move left"@, "q"@),
        ("move right"@, "d"@),
        ("jump"@, "space"@),
        ("debug menu"@, "f3"@),
        ("help menu"@, "f12"@),
        ("save map"@, "f10"@),
        ("fullscreen"@, "f11"@),
    ]);
    r
}

} // verus!
