use shadow_icon_factory::settings::Theme;

#[test]
fn theme_index_round_trip() {
    for t in [Theme::System, Theme::Light, Theme::Dark] {
        assert_eq!(Theme::from_index(t.index()), t);
    }
    assert_eq!(Theme::System.index(), 0);
    assert_eq!(Theme::Light.index(), 1);
    assert_eq!(Theme::Dark.index(), 2);
}

#[test]
fn unknown_theme_index_follows_system() {
    assert_eq!(Theme::from_index(3), Theme::System);
    assert_eq!(Theme::from_index(u32::MAX), Theme::System);
    assert_eq!(Theme::default(), Theme::System);
}
