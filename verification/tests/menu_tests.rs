use zerosemester::menu::{Menu, MenuKey, MenuStep, MENU_LEN};

#[test]
fn menu_starts_at_first_entry() {
    let m = Menu::new();
    assert_eq!(m.selected(), 0);
    assert_eq!(MENU_LEN, 2);
}

#[test]
fn arrows_move_within_bounds() {
    let mut m = Menu::new();
    assert_eq!(m.handle_key(MenuKey::Up), MenuStep::Continue);
    assert_eq!(m.selected(), 0);
    assert_eq!(m.handle_key(MenuKey::Down), MenuStep::Continue);
    assert_eq!(m.selected(), 1);
    assert_eq!(m.handle_key(MenuKey::Down), MenuStep::Continue);
    assert_eq!(m.selected(), 1);
    assert_eq!(m.handle_key(MenuKey::Up), MenuStep::Continue);
    assert_eq!(m.selected(), 0);
}

#[test]
fn only_q_quits() {
    let mut m = Menu::new();
    m.handle_key(MenuKey::Down);
    assert_eq!(m.handle_key(MenuKey::Enter), MenuStep::Continue);
    assert_eq!(m.handle_key(MenuKey::Char('Q')), MenuStep::Continue);
    assert_eq!(m.handle_key(MenuKey::Other), MenuStep::Continue);
    assert_eq!(m.selected(), 1);
    assert_eq!(m.handle_key(MenuKey::Char('q')), MenuStep::Quit);
    assert_eq!(m.selected(), 1);
}

#[test]
fn entry_lines_mark_the_selection() {
    let mut m = Menu::new();
    assert_eq!(m.entry_line(0, "Export"), "  >> Export <<");
    assert_eq!(m.entry_line(1, "Upload"), "     Upload");
    m.handle_key(MenuKey::Down);
    assert_eq!(m.entry_line(0, "Export"), "     Export");
    assert_eq!(m.entry_line(1, "Upload"), "  >> Upload <<");
}
