use vstd::prelude::*;

verus! {

/// Groups of rectangles that the head-up display can show.
#[derive(Clone, Copy, Debug, PartialEq, Eq, Structural)]
pub enum HudPart {
    /// The rectangles always present (the cross in the middle).
    Base,
    ItemsBar,
    HealthBar,
    HelpMenu,
    DebugMenu,
    Inventory,
}

/// Which menus of the head-up display are shown.
pub struct HudVisibility {
    pub show_help: bool,
    pub show_debug: bool,
    pub inventory_open: bool,
}

/// Parts shown, in drawing order: the base, then the item and health bars
/// unless the inventory is open, the help menu, the debug menu, and the
/// inventory when it is open.
pub open spec fn visible_parts_of(show_help: bool, show_debug: bool, inventory_open: bool) -> Seq<
    HudPart,
> {
    seq![HudPart::Base] + (if inventory_open {
        Seq::empty()
    } else {
        seq![HudPart::ItemsBar, HudPart::HealthBar]
    }) + (if show_help {
        seq![HudPart::HelpMenu]
    } else {
        Seq::empty()
    }) + (if show_debug {
        seq![HudPart::DebugMenu]
    } else {
        Seq::empty()
    }) + (if inventory_open {
        seq![HudPart::Inventory]
    } else {
        Seq::empty()
    })
}

impl HudVisibility {
    /// Nothing but the base parts and the bars is shown at first.
    pub fn new() -> (r: Self)
        ensures
            !r.show_help,
            !r.show_debug,
            !r.inventory_open,
    {
        Self { show_help: false, show_debug: false, inventory_open: false }
    }

    /// Adds or removes the help menu.
    pub fn toggle_help_menu(&mut self)
        ensures
            final(self).show_help == !old(self).show_help,
            final(self).show_debug == old(self).show_debug,
            final(self).inventory_open == old(self).inventory_open,
    {
        self.show_help = !self.show_help;
    }

    /// Adds or removes the debug menu.
    pub fn toggle_debug_menu(&mut self)
        ensures
            final(self).show_debug == !old(self).show_debug,
            final(self).show_help == old(self).show_help,
            final(self).inventory_open == old(self).inventory_open,
    {
        self.show_debug = !self.show_debug;
    }

    /// The debug menu is shown.
    pub fn show_debug(&self) -> (r: bool)
        ensures
            r == self.show_debug,
    {
        self.show_debug
    }

    /// The inventory is open.
    pub fn is_inventory_open(&self) -> (r: bool)
        ensures
            r == self.inventory_open,
    {
        self.inventory_open
    }

    /// Opens the inventory.
    pub fn open_inventory(&mut self)
        ensures
            final(self).inventory_open,
            final(self).show_help == old(self).show_help,
            final(self).show_debug == old(self).show_debug,
    {
        self.inventory_open = true;
    }

    /// Closes the inventory when nothing is left in its crafting grid
    /// (`can_be_closed_safely`); returns whether it was closed.
    pub fn close_inventory(&mut self, can_be_closed_safely: bool) -> (r: bool)
        requires
            old(self).inventory_open,
        ensures
            r == can_be_closed_safely,
            final(self).inventory_open == !can_be_closed_safely,
            final(self).show_help == old(self).show_help,
            final(self).show_debug == old(self).show_debug,
    {
        if can_be_closed_safely {
            self.inventory_open = false;
            true
        } else {
            false
        }
    }

    /// Parts to draw, in order (see `visible_parts_of`).
    pub fn visible_parts(&self) -> (r: Vec<HudPart>)
        ensures
            r@ == visible_parts_of(self.show_help, self.show_debug, self.inventory_open),
    {
        let mut parts: Vec<HudPart> = vec![HudPart::Base];
        if !self.inventory_open {
            parts.push(HudPart::ItemsBar);
            parts.push(HudPart::HealthBar);
        }
        if self.show_help {
            parts.push(HudPart::HelpMenu);
        }
        if self.show_debug {
            parts.push(HudPart::DebugMenu);
        }
        if self.inventory_open {
            parts.push(HudPart::Inventory);
        }
        assert(parts@ =~= visible_parts_of(self.show_help, self.show_debug, self.inventory_open));
        parts
    }
}

/// The inventory and the item and health bars are never drawn together, and
/// the base parts are always drawn first.
pub proof fn lemma_inventory_hides_bars(show_help: bool, show_debug: bool, inventory_open: bool)
    ensures
        visible_parts_of(show_help, show_debug, inventory_open).contains(HudPart::Inventory)
            <==> !visible_parts_of(show_help, show_debug, inventory_open).contains(
            HudPart::ItemsBar,
        ),
        visible_parts_of(show_help, show_debug, inventory_open).contains(HudPart::ItemsBar)
            <==> visible_parts_of(show_help, show_debug, inventory_open).contains(
            HudPart::HealthBar,
        ),
        visible_parts_of(show_help, show_debug, inventory_open)[0] == HudPart::Base,
{
    let parts = visible_parts_of(show_help, show_debug, inventory_open);
    if inventory_open {
        assert(parts[parts.len() - 1] == HudPart::Inventory);
        assert(!parts.contains(HudPart::ItemsBar));
        assert(!parts.contains(HudPart::HealthBar));
    } else {
        assert(parts[1] == HudPart::ItemsBar);
        assert(parts[2] == HudPart::HealthBar);
        assert(!parts.contains(HudPart::Inventory));
    }
}

/// Each menu is drawn exactly when it is toggled on, whatever the other
/// flags: the debug menu when `show_debug`, the help menu when `show_help`.
pub proof fn lemma_menus_drawn_when_shown(show_help: bool, show_debug: bool, inventory_open: bool)
    ensures
        visible_parts_of(show_help, show_debug, inventory_open).contains(HudPart::DebugMenu)
            <==> show_debug,
        visible_parts_of(show_help, show_debug, inventory_open).contains(HudPart::HelpMenu)
            <==> show_help,
{
    let parts = visible_parts_of(show_help, show_debug, inventory_open);
    let a: Seq<HudPart> = seq![HudPart::Base] + (if inventory_open {
        Seq::empty()
    } else {
        seq![HudPart::ItemsBar, HudPart::HealthBar]
    });
    let h: Seq<HudPart> = if show_help {
        seq![HudPart::HelpMenu]
    } else {
        Seq::empty()
    };
    let d: Seq<HudPart> = if show_debug {
        seq![HudPart::DebugMenu]
    } else {
        Seq::empty()
    };
    let v: Seq<HudPart> = if inventory_open {
        seq![HudPart::Inventory]
    } else {
        Seq::empty()
    };
    assert(parts == a + h + d + v);
    if show_debug {
        assert(parts[(a.len() + h.len()) as int] == HudPart::DebugMenu);
    }
    if show_help {
        assert(parts[a.len() as int] == HudPart::HelpMenu);
    }
    assert forall|j: int| 0 <= j < parts.len() && parts[j] == HudPart::DebugMenu implies show_debug by {
        if j < a.len() {
            assert(parts[j] == a[j]);
        } else if j < a.len() + h.len() {
            assert(parts[j] == h[j - a.len()]);
        } else if j < a.len() + h.len() + d.len() {
            assert(parts[j] == d[j - a.len() - h.len()]);
        } else {
            assert(parts[j] == v[j - a.len() - h.len() - d.len()]);
        }
    }
    assert forall|j: int| 0 <= j < parts.len() && parts[j] == HudPart::HelpMenu implies show_help by {
        if j < a.len() {
            assert(parts[j] == a[j]);
        } else if j < a.len() + h.len() {
            assert(parts[j] == h[j - a.len()]);
        } else if j < a.len() + h.len() + d.len() {
            assert(parts[j] == d[j - a.len() - h.len()]);
        } else {
            assert(parts[j] == v[j - a.len() - h.len() - d.len()]);
        }
    }
}

} // verus!
