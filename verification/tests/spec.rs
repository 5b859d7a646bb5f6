use shadow_icon_factory::spec::{max_required, slots_for, Target};

#[test]
fn all_covers_each_platform() {
    let all = slots_for(Target::All).len();
    let sum = slots_for(Target::Ios).len()
        + slots_for(Target::Macos).len()
        + slots_for(Target::Linux).len()
        + slots_for(Target::Web).len()
        + slots_for(Target::Android).len();
    assert_eq!(all, sum);
    assert_eq!(max_required(Target::Ios), 1024);
    assert_eq!(max_required(Target::Android), 192);
    assert_eq!(Target::from_index(5), Target::All);
    assert_eq!(Target::Ios.label(), "iOS");
}

#[test]
fn all_is_the_platforms_in_order() {
    let all: Vec<String> = slots_for(Target::All).into_iter().map(|s| s.rel_path).collect();
    let mut parts: Vec<String> = Vec::new();
    for t in [Target::Ios, Target::Macos, Target::Linux, Target::Web, Target::Android] {
        parts.extend(slots_for(t).into_iter().map(|s| s.rel_path));
    }
    assert_eq!(all, parts);
}

#[test]
fn table_sizes_per_platform() {
    assert_eq!(slots_for(Target::Ios).len(), 18);
    assert_eq!(slots_for(Target::Macos).len(), 10);
    assert_eq!(slots_for(Target::Linux).len(), 9);
    assert_eq!(slots_for(Target::Web).len(), 6);
    assert_eq!(slots_for(Target::Android).len(), 5);
    assert_eq!(slots_for(Target::All).len(), 48);
}

#[test]
fn max_required_per_target() {
    assert_eq!(max_required(Target::Macos), 1024);
    assert_eq!(max_required(Target::Linux), 1024);
    assert_eq!(max_required(Target::Web), 512);
    assert_eq!(max_required(Target::All), 1024);
}

#[test]
fn max_required_bounds_every_slot() {
    for t in [Target::Ios, Target::Macos, Target::Linux, Target::Web, Target::Android, Target::All] {
        let m = max_required(t);
        let slots = slots_for(t);
        assert!(slots.iter().all(|s| s.size <= m));
        assert!(slots.iter().any(|s| s.size == m));
    }
}

#[test]
fn from_index_and_labels() {
    let expected = [
        (Target::Ios, "iOS", "ios"),
        (Target::Macos, "macOS", "macos"),
        (Target::Linux, "Linux", "linux"),
        (Target::Web, "Web", "web"),
        (Target::Android, "Android", "android"),
        (Target::All, "All", "all"),
    ];
    for (i, (t, label, folder)) in expected.iter().enumerate() {
        assert_eq!(Target::from_index(i as u32), *t);
        assert_eq!(t.label(), *label);
        assert_eq!(t.folder(), *folder);
    }
    assert_eq!(Target::from_index(99), Target::All);
}

#[test]
fn linux_paths_name_their_size() {
    let slots = slots_for(Target::Linux);
    let sizes: Vec<u32> = slots.iter().map(|s| s.size).collect();
    assert_eq!(sizes, vec![16, 24, 32, 48, 64, 128, 256, 512, 1024]);
    assert_eq!(slots[0].rel_path, "linux/hicolor/16x16/apps/icon.png");
    assert_eq!(slots[8].rel_path, "linux/hicolor/1024x1024/apps/icon.png");
    assert!(slots.iter().all(|s| s.idiom.is_none() && s.scale.is_none() && s.role.is_none()));
}

#[test]
fn ios_slots_carry_xcode_metadata() {
    let slots = slots_for(Target::Ios);
    assert!(slots.iter().all(|s| s.idiom.is_some() && s.scale.is_some() && s.role.is_some()));
    let last = &slots[17];
    assert_eq!(last.rel_path, "ios/AppIcon.appiconset/icon-1024.png");
    assert_eq!(last.size, 1024);
    assert_eq!(last.idiom, Some("ios-marketing"));
    assert_eq!(last.scale, Some("1x"));
    assert_eq!(last.role, Some("marketing"));
    let ipad_pro = &slots[16];
    assert_eq!(ipad_pro.size, 167);
    assert_eq!(ipad_pro.idiom, Some("ipad"));
}

#[test]
fn web_and_android_sizes() {
    let web = slots_for(Target::Web);
    let touch = web.iter().find(|s| s.rel_path == "web/apple-touch-icon.png").unwrap();
    assert_eq!(touch.size, 180);
    let android = slots_for(Target::Android);
    assert_eq!(android[0].rel_path, "android/mipmap-mdpi/ic_launcher.png");
    assert_eq!(android[0].size, 48);
    let mac = slots_for(Target::Macos);
    assert_eq!(mac[9].rel_path, "macos/AppIcon.iconset/icon_512x512@2x.png");
    assert_eq!(mac[9].size, 1024);
}
