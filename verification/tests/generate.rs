use shadow_icon_factory::generate::{
    check_dimensions, contents_images, encode_favicon, generated_file_path, master_format,
    overwrite_refused, plan_generation, slot_step, svg_raster_name, xcassets_copy, GeneratedFile,
    MasterFormat, SlotStep,
};
use shadow_icon_factory::raster::{render_slot, Raster};
use shadow_icon_factory::spec::{slots_for, Target};

fn master(side: u32) -> Raster {
    let mut pixels = Vec::new();
    for y in 0..side {
        for x in 0..side {
            pixels.extend_from_slice(&[(x % 255) as u8, (y % 255) as u8, 160, 255]);
        }
    }
    Raster { width: side, height: side, pixels }
}

#[test]
fn no_silent_upscale() {
    let plan = plan_generation(64, Target::Linux, "out", "small.png").unwrap();
    let report = &plan.report;
    assert!(report.warnings.iter().any(|w| w.contains("skipped") || w.contains("Skipped") || w.contains("Master")));
    let big = report.files.iter().find(|f| f.path == "out/linux/hicolor/1024x1024/apps/icon.png").unwrap();
    assert!(big.upscale_blocked);
    let ok = report.files.iter().find(|f| f.path == "out/linux/hicolor/64x64/apps/icon.png").unwrap();
    assert!(!ok.upscale_blocked);
    let img = render_slot(&master(64), ok.size, true, [0, 0, 0, 0]);
    assert_eq!((img.width, img.height), (64, 64));
}

#[test]
fn unicode_output_path() {
    let plan = plan_generation(128, Target::Web, "выход icons", "иконка.png").unwrap();
    let report = &plan.report;
    assert!(report.files.iter().any(|f| !f.upscale_blocked));
    let f32 = report.files.iter().find(|f| f.path == "выход icons/web/favicon-32.png").unwrap();
    assert!(!f32.upscale_blocked);
    assert_eq!(plan.favicon.as_deref(), Some("выход icons/web/favicon.ico"));
}

#[test]
fn tiny_master_is_refused() {
    let err = plan_generation(15, Target::Ios, "out", "m.png").unwrap_err();
    assert_eq!(err.human_message(), "The master image is too small to make icons.");
    assert!(plan_generation(16, Target::Ios, "out", "m.png").is_ok());
}

#[test]
fn full_master_draws_no_warning() {
    let plan = plan_generation(1024, Target::All, "out", "m.png").unwrap();
    assert!(plan.report.warnings.is_empty());
    assert_eq!(plan.report.files.len(), 48);
    assert!(plan.report.files.iter().all(|f| !f.upscale_blocked));
    assert_eq!(plan.slot_count, 48);
    assert_eq!(plan.favicon_sizes, vec![16, 32, 48]);
    assert_eq!(plan.contents_json.as_deref(), Some("out/ios/AppIcon.appiconset/Contents.json"));
    assert_eq!(plan.favicon.as_deref(), Some("out/web/favicon.ico"));
    assert_eq!(plan.scalable_svg, None);
    assert_eq!(plan.report.output_root, "out");
}

#[test]
fn small_master_warnings_in_order() {
    let plan = plan_generation(32, Target::Web, "out", "m.png").unwrap();
    let w = &plan.report.warnings;
    assert_eq!(w[0], "Master is 32px on the short side. Sizes above that will be skipped (no silent upscale). A 1024px master is recommended.");
    assert_eq!(w[1], "Skipped 48px (web/favicon-48.png) — master is only 32px.");
    assert_eq!(w[2], "Skipped 192px (web/favicon-192.png) — master is only 32px.");
    assert_eq!(w[3], "Skipped 512px (web/favicon-512.png) — master is only 32px.");
    assert_eq!(w[4], "Skipped 180px (web/apple-touch-icon.png) — master is only 32px.");
    assert_eq!(w[5], "favicon.ico skipped 48px — master too small.");
    assert_eq!(w.len(), 6);
    assert_eq!(plan.favicon_sizes, vec![16, 32]);
    let blocked: Vec<bool> = plan.report.files.iter().map(|f| f.upscale_blocked).collect();
    assert_eq!(blocked, vec![false, false, true, true, true, true]);
}

#[test]
fn svg_master_adds_the_scalable_icon() {
    let plan = plan_generation(1024, Target::Linux, "out", "/x/logo.SVG").unwrap();
    let last = plan.report.files.last().unwrap();
    assert_eq!(last.path, "out/linux/hicolor/scalable/apps/icon.svg");
    assert_eq!(last.size, 0);
    assert!(!last.upscale_blocked);
    assert_eq!(plan.report.files.len(), 10);
    assert_eq!(plan.slot_count, 9);
    let web = plan_generation(1024, Target::Web, "out", "/x/logo.svg").unwrap();
    assert_eq!(web.scalable_svg, None);
    assert_eq!(web.contents_json, None);
}

#[test]
fn app_icon_sets_are_not_overwritten_silently() {
    let dest = "out/ios/AppIcon.appiconset/icon-76.png";
    assert!(overwrite_refused(dest, true, false));
    assert!(!overwrite_refused(dest, true, true));
    assert!(!overwrite_refused(dest, false, false));
    assert!(!overwrite_refused("out/macos/AppIcon.iconset/icon_16x16.png", true, false));
}

#[test]
fn exported_sizes_are_checked() {
    assert!(check_dimensions("a.png", 48, 48, 48).is_ok());
    let err = check_dimensions("a.png", 48, 47, 48).unwrap_err();
    assert_eq!(err.human_message(), "An exported icon has the wrong size.");
    assert_eq!(err.technical_details(), Some("a.png is 48×47, expected 48×48"));
}

#[test]
fn ios_manifest_entries_follow_the_table() {
    let slots = slots_for(Target::Ios);
    let images = contents_images(&slots);
    assert_eq!(images.len(), slots.len());
    assert_eq!(images[0].filename, "icon-20@2x.png");
    assert_eq!(images[0].idiom, "iphone");
    assert_eq!(images[0].scale, "2x");
    assert_eq!(images[0].pixel_size, 40);
    assert_eq!(images[17].filename, "icon-1024.png");
    assert_eq!(images[17].idiom, "ios-marketing");
    let macos = contents_images(&slots_for(Target::Macos));
    assert!(macos.is_empty());
}

#[test]
fn favicon_holds_each_image() {
    let images: Vec<Raster> = [16u32, 32].iter().map(|s| render_slot(&master(64), *s, true, [0, 0, 0, 0])).collect();
    let bytes = encode_favicon(&images).unwrap();
    assert_eq!(&bytes[0..6], &[0, 0, 1, 0, 2, 0]);
    assert_eq!(bytes[6], 16);
    assert_eq!(bytes[22], 32);
}

#[test]
fn xcassets_copy_needs_confirmation() {
    let plan = plan_generation(1024, Target::Ios, "out", "m.png").unwrap();
    let err = xcassets_copy(&plan.report, "/proj/Assets.xcassets", false).unwrap_err();
    assert_eq!(err.human_message(), "Writing into an existing xcassets folder needs an explicit confirm.");
    let c = xcassets_copy(&plan.report, "/proj/Assets.xcassets", true).unwrap();
    assert_eq!(c.from, "out/ios/AppIcon.appiconset");
    assert_eq!(c.to, "/proj/Assets.xcassets/AppIcon.appiconset");
}

#[test]
fn master_formats() {
    assert_eq!(master_format("a.svg", false).unwrap(), MasterFormat::Svg);
    assert_eq!(master_format("a.png", false).unwrap(), MasterFormat::Raster);
    let err = master_format("dir", true).unwrap_err();
    assert_eq!(err.human_message(), "Drop a master image, not a folder.");
    assert_eq!(svg_raster_name(4242), "shadow-icon-factory-4242.png");
}

#[test]
fn file_paths_are_exposed() {
    let f = GeneratedFile { path: "out/a.png".to_string(), size: 16, upscale_blocked: false };
    assert_eq!(generated_file_path(&f), "out/a.png");
}

#[test]
fn plan_writes_every_linux_slot_of_a_full_master() {
    let plan = plan_generation(1024, Target::Linux, "out", "master.png").unwrap();
    let written: Vec<&GeneratedFile> = plan.report.files.iter().filter(|f| !f.upscale_blocked).collect();
    assert_eq!(written.len(), slots_for(Target::Linux).len());
    for (file, slot) in written.iter().zip(slots_for(Target::Linux)) {
        assert_eq!(file.path, format!("out/{}", slot.rel_path));
        assert_eq!(file.size, slot.size);
    }
}

#[test]
fn plan_for_all_covers_every_tree() {
    let plan = plan_generation(1024, Target::All, "out", "all.png").unwrap();
    let files = &plan.report.files;
    assert!(files.iter().any(|f| f.path.ends_with("ic_launcher.png")));
    assert!(files.iter().any(|f| f.path == "out/web/apple-touch-icon.png" && f.size == 180));
    assert!(files.iter().any(|f| f.path == "out/macos/AppIcon.iconset/icon_512x512@2x.png"));
    assert!(files.iter().any(|f| f.path == "out/android/mipmap-mdpi/ic_launcher.png" && f.size == 48));
    assert!(files.iter().all(|f| f.path.starts_with("out/")));
}

#[test]
fn favicon_entries_follow_the_images_in_order() {
    let images: Vec<Raster> = [16u32, 32, 48].iter().map(|s| render_slot(&master(64), *s, true, [0, 0, 0, 0])).collect();
    let bytes = encode_favicon(&images).unwrap();
    assert_eq!(&bytes[0..6], &[0, 0, 1, 0, 3, 0]);
    for (k, img) in images.iter().enumerate() {
        assert_eq!(bytes[6 + 16 * k], img.width as u8);
        assert_eq!(bytes[7 + 16 * k], img.height as u8);
    }
    let mut data = Vec::new();
    for img in &images {
        let icon = ico::IconImage::from_rgba_data(img.width, img.height, img.pixels.clone());
        data.extend_from_slice(ico::IconDirEntry::encode(&icon).unwrap().data());
    }
    assert_eq!(&bytes[6 + 16 * 3..], data.as_slice());
    assert_eq!(encode_favicon(&Vec::new()).unwrap(), vec![0, 0, 1, 0, 0, 0]);
}

#[test]
fn slot_paths_are_distinct_and_sizes_in_range() {
    for t in [Target::Ios, Target::Macos, Target::Linux, Target::Web, Target::Android, Target::All] {
        let slots = slots_for(t);
        let mut paths: Vec<&String> = slots.iter().map(|s| &s.rel_path).collect();
        paths.sort();
        paths.dedup();
        assert_eq!(paths.len(), slots.len());
        assert!(slots.iter().all(|s| (16..=1024).contains(&s.size)));
        if t != Target::All {
            assert!(slots.iter().all(|s| s.rel_path.starts_with(&format!("{}/", t.folder()))));
        }
    }
}

#[test]
fn favicon_directory_points_at_each_image() {
    let images: Vec<Raster> = [16u32, 32, 48].iter().map(|s| render_slot(&master(64), *s, true, [0, 0, 0, 0])).collect();
    let bytes = encode_favicon(&images).unwrap();
    let mut offset = 6 + 16 * images.len();
    for (k, img) in images.iter().enumerate() {
        let icon = ico::IconImage::from_rgba_data(img.width, img.height, img.pixels.clone());
        let entry = ico::IconDirEntry::encode(&icon).unwrap();
        let rec = &bytes[6 + 16 * k..22 + 16 * k];
        assert_eq!(rec[3], 0);
        assert_eq!(u16::from_le_bytes([rec[6], rec[7]]), entry.bits_per_pixel());
        let size = u32::from_le_bytes([rec[8], rec[9], rec[10], rec[11]]) as usize;
        let at = u32::from_le_bytes([rec[12], rec[13], rec[14], rec[15]]) as usize;
        assert_eq!(size, entry.data().len());
        assert_eq!(at, offset);
        assert_eq!(&bytes[at..at + size], entry.data());
        offset += size;
    }
    assert_eq!(offset, bytes.len());
    let read = ico::IconDir::read(std::io::Cursor::new(&bytes)).unwrap();
    assert_eq!(read.entries().len(), 3);
    for (entry, img) in read.entries().iter().zip(&images) {
        let decoded = entry.decode().unwrap();
        assert_eq!((decoded.width(), decoded.height()), (img.width, img.height));
    }
}

#[test]
fn slot_steps_skip_refuse_or_write() {
    let plan = plan_generation(32, Target::Ios, "out", "m.png").unwrap();
    let files = &plan.report.files[..plan.slot_count];
    let small = files.iter().find(|f| !f.upscale_blocked).unwrap();
    let large = files.iter().find(|f| f.upscale_blocked).unwrap();
    assert_eq!(slot_step(large, true, false), SlotStep::Skip);
    assert_eq!(slot_step(small, true, false), SlotStep::Refuse);
    assert_eq!(slot_step(small, true, true), SlotStep::Write);
    assert_eq!(slot_step(small, false, false), SlotStep::Write);
    let web = GeneratedFile { path: "out/web/favicon-16.png".to_string(), size: 16, upscale_blocked: false };
    assert_eq!(slot_step(&web, true, false), SlotStep::Write);
}
