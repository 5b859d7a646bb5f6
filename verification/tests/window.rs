use shadow_icon_factory::generate::plan_generation;
use shadow_icon_factory::spec::Target;
use shadow_icon_factory::window::{
    bg_rgba, drop_outcome, master_caption, short_master_notice, summary_message, warnings_text,
    DropOutcome,
};

#[test]
fn backgrounds_by_index() {
    assert_eq!(bg_rgba(0), [0, 0, 0, 0]);
    assert_eq!(bg_rgba(1), [255, 255, 255, 255]);
    assert_eq!(bg_rgba(2), [0, 0, 0, 255]);
    assert_eq!(bg_rgba(3), [27, 23, 64, 255]);
    assert_eq!(bg_rgba(9), [0, 0, 0, 0]);
}

#[test]
fn short_master_notice_text() {
    assert_eq!(
        short_master_notice(100, Target::Android),
        "Master short side is 100px. 192px is needed for every Android size. Larger slots will be skipped — never silently upscaled."
    );
    assert_eq!(short_master_notice(192, Target::Android), "");
}

#[test]
fn summary_counts_written_and_skipped() {
    let plan = plan_generation(32, Target::Web, "out", "m.png").unwrap();
    assert_eq!(summary_message(&plan.report, "~/out"), "Wrote 2 files to ~/out · skipped 4 oversized slots");
    let full = plan_generation(1024, Target::Web, "out", "m.png").unwrap();
    assert_eq!(summary_message(&full.report, "out"), "Wrote 6 files to out");
}

#[test]
fn warnings_are_joined_by_lines() {
    let plan = plan_generation(32, Target::Web, "out", "m.png").unwrap();
    let text = warnings_text(&plan.report);
    assert_eq!(text, plan.report.warnings.join("\n"));
    let full = plan_generation(1024, Target::Web, "out", "m.png").unwrap();
    assert_eq!(warnings_text(&full.report), "");
}

#[test]
fn drop_outcomes() {
    assert_eq!(drop_outcome(0, false), DropOutcome::NotLocalFile);
    assert_eq!(drop_outcome(2, true), DropOutcome::Folder);
    assert_eq!(drop_outcome(1, false), DropOutcome::LoadFirst { several: false });
    assert_eq!(drop_outcome(3, false), DropOutcome::LoadFirst { several: true });
}

#[test]
fn master_captions() {
    assert_eq!(
        master_caption("/x/logo.png", 1024, 512).unwrap(),
        "logo.png  ·  1024×512  ·  drop another file to replace"
    );
    let err = master_caption("/x/logo.png", 0, 5).unwrap_err();
    assert_eq!(err.human_message(), "That image has no pixels.");
}

#[test]
fn export_folders_are_the_platform_folders() {
    assert_eq!(
        shadow_icon_factory::window::export_folders("/o"),
        vec!["/o/ios", "/o/macos", "/o/linux", "/o/web", "/o/android"]
    );
    assert!(shadow_icon_factory::window::must_confirm_overwrite(true, false));
    assert!(!shadow_icon_factory::window::must_confirm_overwrite(true, true));
    assert!(!shadow_icon_factory::window::must_confirm_overwrite(false, false));
}
