use shadow_icon_factory::paths::{
    config_dir_in, contains_str, default_output_from, display_home_path_with, extension,
    file_name, has_svg_extension, join_path, settings_path_in,
};
use shadow_icon_factory::text::format_u32;

#[test]
fn join_adds_one_separator() {
    assert_eq!(join_path("out", "web/favicon.ico"), "out/web/favicon.ico");
    assert_eq!(join_path("out/", "web/favicon.ico"), "out/web/favicon.ico");
    assert_eq!(join_path("", "web"), "web");
    assert_eq!(join_path("out", "/abs/path"), "/abs/path");
    assert_eq!(join_path("выход icons", "web/favicon-32.png"), "выход icons/web/favicon-32.png");
}

#[test]
fn config_and_settings_paths() {
    assert_eq!(
        config_dir_in(Some("/home/u/.config".to_string())).unwrap(),
        "/home/u/.config/shadow-icon-factory"
    );
    assert_eq!(
        settings_path_in(Some("/home/u/.config".to_string())).unwrap(),
        "/home/u/.config/shadow-icon-factory/settings.json"
    );
    let err = config_dir_in(None).unwrap_err();
    assert_eq!(err.human_message(), "Could not find the user configuration directory.");
    assert!(err.technical_details().is_none());
    assert!(settings_path_in(None).is_err());
}

#[test]
fn home_paths_are_shortened() {
    assert_eq!(display_home_path_with("/home/u/Pictures/icons", Some("/home/u")), "~/Pictures/icons");
    assert_eq!(display_home_path_with("/home/user/x", Some("/home/u")), "/home/user/x");
    assert_eq!(display_home_path_with("/srv/icons", Some("/home/u")), "/srv/icons");
    assert_eq!(display_home_path_with("/srv/icons", None), "/srv/icons");
    assert_eq!(display_home_path_with("/home/u", Some("/home/u")), "~/");
}

#[test]
fn default_output_prefers_pictures() {
    assert_eq!(
        default_output_from(Some("/home/u/Pictures".to_string()), Some("/home/u".to_string())),
        "/home/u/Pictures/Shadow Icon Factory"
    );
    assert_eq!(default_output_from(None, Some("/home/u".to_string())), "/home/u/Shadow Icon Factory");
    assert_eq!(default_output_from(None, None), "./Shadow Icon Factory");
}

#[test]
fn file_names_follow_path_components() {
    assert_eq!(file_name("ios/AppIcon.appiconset/icon-20@2x.png").as_deref(), Some("icon-20@2x.png"));
    assert_eq!(file_name("a/b/").as_deref(), Some("b"));
    assert_eq!(file_name("a/b/.").as_deref(), Some("b"));
    assert_eq!(file_name("a/..").as_deref(), None);
    assert_eq!(file_name("/").as_deref(), None);
    assert_eq!(file_name("").as_deref(), None);
    assert_eq!(file_name(".").as_deref(), None);
    assert_eq!(file_name("./x").as_deref(), Some("x"));
    for p in ["a/b.svg", "a//b/", "./.hidden", "x/y/../z", "..", "a/./b/."] {
        let expected = std::path::Path::new(p).file_name().map(|n| n.to_string_lossy().into_owned());
        assert_eq!(file_name(p), expected, "{p}");
    }
}

#[test]
fn extensions_follow_path_rules() {
    assert_eq!(extension("master.SVG").as_deref(), Some("SVG"));
    assert_eq!(extension("a/.bashrc").as_deref(), None);
    assert_eq!(extension("a/b.tar.gz").as_deref(), Some("gz"));
    assert_eq!(extension("a/b.").as_deref(), Some(""));
    assert_eq!(extension("noext").as_deref(), None);
    for p in ["..x", "a/b.svg/", "x.y/z", ".a.b", "icon.Svg"] {
        let expected = std::path::Path::new(p).extension().map(|n| n.to_string_lossy().into_owned());
        assert_eq!(extension(p), expected, "{p}");
    }
}

#[test]
fn svg_detection_ignores_ascii_case() {
    assert!(has_svg_extension("logo.svg"));
    assert!(has_svg_extension("/x/Logo.SvG"));
    assert!(!has_svg_extension("logo.svgz"));
    assert!(!has_svg_extension("logo.png"));
    assert!(!has_svg_extension(".svg"));
    assert!(!has_svg_extension("svg"));
}

#[test]
fn substring_search() {
    assert!(contains_str("out/ios/AppIcon.appiconset/icon-76.png", "AppIcon.appiconset"));
    assert!(!contains_str("out/macos/AppIcon.iconset/icon_16x16.png", "AppIcon.appiconset"));
    assert!(contains_str("abc", ""));
    assert!(!contains_str("ab", "abc"));
}

#[test]
fn decimal_formatting() {
    assert_eq!(format_u32(0), "0");
    assert_eq!(format_u32(7), "7");
    assert_eq!(format_u32(1024), "1024");
    assert_eq!(format_u32(u32::MAX), "4294967295");
}

#[test]
fn settings_live_in_the_app_config_folder() {
    if let Ok(p) = shadow_icon_factory::paths::settings_path() {
        assert!(p.ends_with("/shadow-icon-factory/settings.json"));
    }
    if let Ok(d) = shadow_icon_factory::paths::config_dir() {
        assert!(d.ends_with("/shadow-icon-factory"));
    }
    assert!(shadow_icon_factory::paths::default_output().ends_with("/Shadow Icon Factory"));
}
