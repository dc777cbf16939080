use vocab::theme::{Rgb, ThemeColors, VocabColors};

fn rgb(r: u8, g: u8, b: u8) -> Rgb {
    Rgb { r, g, b }
}

#[test]
fn light_theme() {
    let t = ThemeColors::light();
    assert_eq!(t.bg, rgb(0xF0, 0xF2, 0xF5));
    assert_eq!(t.card_bg, rgb(0xFF, 0xFF, 0xFF));
    assert_eq!(t.primary, rgb(0x1A, 0x1A, 0x2E));
    assert_eq!(t.wrong, VocabColors::wrong());
    assert_eq!(t.star_light, VocabColors::star_light());
}

#[test]
fn dark_theme() {
    let t = ThemeColors::dark();
    assert_eq!(t.bg, VocabColors::dark_bg_dark());
    assert_eq!(t.surface, VocabColors::dark_surface());
    assert_eq!(t.card_bg, VocabColors::dark_card());
    assert_eq!(t.primary, rgb(0xBB, 0x86, 0xFC));
    assert_eq!(t.star, VocabColors::star());
}

#[test]
fn theme_choice() {
    assert_eq!(VocabColors::for_theme(true).bg, ThemeColors::dark().bg);
    assert_eq!(VocabColors::for_theme(false).bg, ThemeColors::light().bg);
    assert_eq!(VocabColors::white(), rgb(255, 255, 255));
}
