use tfl::theme::{Rgb, Theme, ThemeId};

#[test]
fn themes_cycle_through_all() {
    let all = ThemeId::all();
    assert_eq!(all.len(), 7);
    let mut t = ThemeId::BtopNeon;
    for expected in all {
        assert_eq!(t, *expected);
        t = t.next();
    }
    assert_eq!(t, ThemeId::BtopNeon);
    for id in all {
        assert_eq!(id.next().prev(), *id);
        assert_eq!(id.prev().next(), *id);
    }
}

#[test]
fn theme_names_and_backgrounds() {
    assert_eq!(ThemeId::BtopNeon.name(), "Btop Neon [Transparent]");
    assert_eq!(ThemeId::LightPaper.name(), "Light Paper [Solid Fill 2]");
    assert!(ThemeId::MidnightOled.is_solid());
    assert!(!ThemeId::Synthwave.is_solid());

    let clear = Theme::get(ThemeId::BtopNeon, false);
    assert!(clear.bg.is_none());
    let forced = Theme::get(ThemeId::BtopNeon, true);
    assert_eq!(forced.bg, Some(Rgb { r: 15, g: 17, b: 26 }));
    assert_eq!(forced.colors, clear.colors);
    assert_eq!(clear.colors.border_active, Rgb { r: 70, g: 230, b: 250 });
    let solid = Theme::get(ThemeId::MidnightOled, false);
    assert!(solid.bg.is_some());
    assert_eq!(solid.name, "Midnight OLED [Solid Fill 1]");
}
