use cheap8::emulator::io::screen::{Screen, VirtualScreen};

#[test]
fn new_virtual_screen_is_dark() {
    let screen = VirtualScreen::new();
    let state = screen.get_state();
    assert!(state.iter().all(|row| row.iter().all(|p| !*p)));
}

#[test]
fn virtual_screen_reads_back_a_write() {
    let mut screen = VirtualScreen::new();
    screen.set_pixel((63, 31), true);
    assert!(screen.get_pixel((63, 31)));
    assert!(!screen.get_pixel((31, 63 % 32)));
    assert!(screen.get_state()[31][63]);
    screen.set_pixel((63, 31), false);
    assert!(!screen.get_pixel((63, 31)));
}

#[test]
fn virtual_screen_clear_darkens_everything() {
    let mut screen = VirtualScreen::new();
    screen.set_pixel((0, 0), true);
    screen.set_pixel((10, 20), true);
    screen.clear();
    assert!(!screen.get_pixel((0, 0)));
    assert!(!screen.get_pixel((10, 20)));
}

#[test]
fn first_design_screen_reads_back_a_write() {
    let mut screen = cheap8::screen::Screen::new();
    screen.set_pixel((31, 63), true);
    assert!(screen.get_pixel((31, 63)));
    assert!(!screen.get_pixel((30, 63)));
    screen.clear();
    assert!(!screen.get_pixel((31, 63)));
}
