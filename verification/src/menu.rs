//! The export menu of the terminal interface: which entry is selected, how
//! keys move the selection, and how each entry is drawn.

use vstd::prelude::*;

verus! {

/// How many entries the export menu has.
pub const MENU_LEN: usize = 2;

/// A key press, as far as the menu tells keys apart.
#[derive(Debug, Clone, Copy, PartialEq, Eq, Structural)]
pub enum MenuKey {
    Char(char),
    Up,
    Down,
    Enter,
    Other,
}

/// What the interface does after a key.
#[derive(Debug, Clone, Copy, PartialEq, Eq, Structural)]
pub enum MenuStep {
    Continue,
    Quit,
}

/// The selection after a key and what follows: `q` quits, the arrows move
/// the selection within the entries, every other key changes nothing.
pub open spec fn menu_step(selected: int, key: MenuKey) -> (int, MenuStep) {
    match key {
        MenuKey::Char(c) => if c == 'q' {
            (selected, MenuStep::Quit)
        } else {
            (selected, MenuStep::Continue)
        },
        MenuKey::Up => (if selected > 0 {
            selected - 1
        } else {
            selected
        }, MenuStep::Continue),
        MenuKey::Down => (if selected < MENU_LEN - 1 {
            selected + 1
        } else {
            selected
        }, MenuStep::Continue),
        _ => (selected, MenuStep::Continue),
    }
}

/// Every key keeps the selection on an entry of the menu.
pub proof fn law_selection_stays_in_menu(selected: int, key: MenuKey)
    requires
        0 <= selected < MENU_LEN,
    ensures
        0 <= menu_step(selected, key).0 < MENU_LEN,
{
}

/// Only `q` ends the interface, and it leaves the selection alone.
pub proof fn law_only_q_quits(selected: int, key: MenuKey)
    ensures
        (menu_step(selected, key).1 == MenuStep::Quit) == (key == MenuKey::Char('q')),
        key == MenuKey::Char('q') ==> menu_step(selected, key).0 == selected,
{
}

/// Down undoes Up wherever Up moved, and Up undoes Down wherever Down moved;
/// at the ends the arrow pointing outwards changes nothing.
pub proof fn law_arrows_undo_each_other(selected: int)
    requires
        0 <= selected < MENU_LEN,
    ensures
        selected > 0 ==> menu_step(menu_step(selected, MenuKey::Up).0, MenuKey::Down).0
            == selected,
        selected < MENU_LEN - 1 ==> menu_step(menu_step(selected, MenuKey::Down).0, MenuKey::Up).0
            == selected,
        selected == 0 ==> menu_step(selected, MenuKey::Up).0 == selected,
        selected == MENU_LEN - 1 ==> menu_step(selected, MenuKey::Down).0 == selected,
{
}

/// Only the arrows move the selection: after any other key, `Enter` among
/// them, the selection is what it was.
pub proof fn law_only_arrows_move(selected: int, key: MenuKey)
    requires
        key != MenuKey::Up,
        key != MenuKey::Down,
    ensures
        menu_step(selected, key).0 == selected,
{
}

/// Up selects the entry above, Down the entry below, where there is one;
/// neither ends the interface.
pub proof fn law_arrows_move_by_one(selected: int)
    requires
        0 <= selected < MENU_LEN,
    ensures
        menu_step(selected, MenuKey::Up) == (if selected == 0 {
            0
        } else {
            selected - 1
        }, MenuStep::Continue),
        menu_step(selected, MenuKey::Down) == (if selected == MENU_LEN - 1 {
            selected
        } else {
            selected + 1
        }, MenuStep::Continue),
{
}

/// The export menu and its selected entry.
pub struct Menu {
    selected: usize,
}

impl Menu {
    #[verifier::type_invariant]
    spec fn selection_in_range(self) -> bool {
        self.selected < MENU_LEN
    }

    /// The index of the selected entry.
    pub closed spec fn selection(self) -> int {
        self.selected as int
    }

    /// The menu with its first entry selected.
    pub fn new() -> (r: Menu)
        ensures
            r.selection() == 0,
    {
        Menu { selected: 0 }
    }

    /// The index of the selected entry, always below `MENU_LEN`.
    pub fn selected(&self) -> (r: usize)
        ensures
            r == self.selection(),
            r < MENU_LEN,
    {
        proof {
            use_type_invariant(self);
        }
        self.selected
    }

    /// Applies a key press.
    pub fn handle_key(&mut self, key: MenuKey) -> (r: MenuStep)
        ensures
            (final(self).selection(), r) == menu_step(old(self).selection(), key),
            final(self).selection() < MENU_LEN,
    {
        proof {
            use_type_invariant(&*self);
        }
        match key {
            MenuKey::Char(c) => {
                if c == 'q' {
                    MenuStep::Quit
                } else {
                    MenuStep::Continue
                }
            },
            MenuKey::Up => {
                if self.selected > 0 {
                    self.selected = self.selected - 1;
                }
                MenuStep::Continue
            },
            MenuKey::Down => {
                if self.selected < MENU_LEN - 1 {
                    self.selected = self.selected + 1;
                }
                MenuStep::Continue
            },
            _ => MenuStep::Continue,
        }
    }

    /// The line that draws entry `index` with text `option`: the selected
    /// entry between arrows, the others indented.
    pub fn entry_line(&self, index: usize, option: &str) -> (r: String)
        ensures
            index == self.selection() ==> r@ == "  >> "@ + option@ + " <<"@,
            index != self.selection() ==> r@ == "     "@ + option@,
    {
        if index == self.selected {
            let mut s = "  >> ".to_owned();
            s.append(option);
            s.append(" <<");
            s
        } else {
            let mut s = "     ".to_owned();
            s.append(option);
            s
        }
    }
}

} // verus!
