use vstd::prelude::*;

use crate::error::{error_view, Error};
use crate::generate::{file_views, string_views, FileView, GenerateReport};
use crate::paths::{file_name, file_name_of};
use crate::paths::{join_path, path_join};
use crate::spec::{max_required, platforms, required_size, target_folder, target_label, Target};
use crate::text::{decimal, format_u32, format_usize};

verus! {

/// The background colour of a drop-down index: transparent, white, black,
/// or the brand indigo.
pub open spec fn background_of_index(index: u32) -> Seq<u8> {
    if index == 1 {
        seq![255u8, 255, 255, 255]
    } else if index == 2 {
        seq![0u8, 0, 0, 255]
    } else if index == 3 {
        seq![27u8, 23, 64, 255]
    } else {
        seq![0u8, 0, 0, 0]
    }
}

/// The RGBA background a drop-down index selects.
pub fn bg_rgba(index: u32) -> (c: [u8; 4])
    ensures
        c@ == background_of_index(index),
{
    let c: [u8; 4] = match index {
        1 => [255, 255, 255, 255],
        2 => [0, 0, 0, 255],
        3 => [27, 23, 64, 255],
        _ => [0, 0, 0, 0],
    };
    assert(c@ =~= background_of_index(index));
    c
}

/// The notice shown under the preview when the master is smaller than the
/// target needs.
pub open spec fn short_master_notice_of(min_side: u32, t: Target) -> Seq<char> {
    if (min_side as nat) < required_size(t) {
        "Master short side is "@ + decimal(min_side as nat) + "px. "@ + decimal(required_size(t))
            + "px is needed for every "@ + target_label(t)
            + " size. Larger slots will be skipped — never silently upscaled."@
    } else {
        Seq::empty()
    }
}

/// The notice for a master whose short side is `min_side`, generating for
/// `target`; empty when the master is large enough.
pub fn short_master_notice(min_side: u32, target: Target) -> (s: String)
    ensures
        s@ == short_master_notice_of(min_side, target),
{
    let need = max_required(target);
    if min_side < need {
        let have = format_u32(min_side);
        let need_digits = format_u32(need);
        let mut s = String::from_str("Master short side is ");
        s.append(have.as_str());
        s.append("px. ");
        s.append(need_digits.as_str());
        s.append("px is needed for every ");
        s.append(target.label());
        s.append(" size. Larger slots will be skipped — never silently upscaled.");
        s
    } else {
        String::new()
    }
}

/// How many files of a report were written.
pub open spec fn written_count(files: Seq<FileView>) -> nat
    decreases files.len(),
{
    if files.len() == 0 {
        0
    } else {
        written_count(files.drop_last()) + if files.last().upscale_blocked {
            0nat
        } else {
            1nat
        }
    }
}

/// How many slots of a report were skipped.
pub open spec fn skipped_count(files: Seq<FileView>) -> nat
    decreases files.len(),
{
    if files.len() == 0 {
        0
    } else {
        skipped_count(files.drop_last()) + if files.last().upscale_blocked {
            1nat
        } else {
            0nat
        }
    }
}

proof fn lemma_counts_bounded(files: Seq<FileView>)
    ensures
        written_count(files) + skipped_count(files) == files.len(),
    decreases files.len(),
{
    if files.len() > 0 {
        lemma_counts_bounded(files.drop_last());
    }
}

/// The message after a run: how many files were written to `shown_root`,
/// and how many oversized slots were skipped, when any were.
pub open spec fn summary_of(files: Seq<FileView>, shown_root: Seq<char>) -> Seq<char> {
    "Wrote "@ + decimal(written_count(files)) + " files to "@ + shown_root + if skipped_count(files) > 0 {
        " · skipped "@ + decimal(skipped_count(files)) + " oversized slots"@
    } else {
        Seq::empty()
    }
}

/// The message after a run of `report`, with its output folder shown as
/// `shown_root`.
pub fn summary_message(report: &GenerateReport, shown_root: &str) -> (s: String)
    ensures
        s@ == summary_of(file_views(report.files@), shown_root@),
{
    let ghost files = file_views(report.files@);
    let mut wrote: usize = 0;
    let mut skipped: usize = 0;
    for i in 0..report.files.len()
        invariant
            files == file_views(report.files@),
            wrote == written_count(files.take(i as int)),
            skipped == skipped_count(files.take(i as int)),
    {
        proof {
            assert(files.take(i + 1).drop_last() =~= files.take(i as int));
            lemma_counts_bounded(files.take(i as int));
        }
        if report.files[i].upscale_blocked {
            skipped = skipped + 1;
        } else {
            wrote = wrote + 1;
        }
    }
    assert(files.take(report.files@.len() as int) =~= files);
    let wrote_digits = format_usize(wrote);
    let mut s = String::from_str("Wrote ");
    s.append(wrote_digits.as_str());
    s.append(" files to ");
    s.append(shown_root);
    if skipped > 0 {
        let skipped_digits = format_usize(skipped);
        s.append(" · skipped ");
        s.append(skipped_digits.as_str());
        s.append(" oversized slots");
    }
    s
}

/// The lines of `lines` joined with newlines.
pub open spec fn joined_lines(lines: Seq<Seq<char>>) -> Seq<char>
    decreases lines.len(),
{
    if lines.len() == 0 {
        Seq::empty()
    } else if lines.len() == 1 {
        lines[0]
    } else {
        joined_lines(lines.drop_last()) + "\n"@ + lines.last()
    }
}

/// The warnings of `report`, one per line, as the warning dialog shows them.
pub fn warnings_text(report: &GenerateReport) -> (s: String)
    ensures
        s@ == joined_lines(string_views(report.warnings@)),
{
    let ghost lines = string_views(report.warnings@);
    let mut s = String::new();
    for i in 0..report.warnings.len()
        invariant
            lines == string_views(report.warnings@),
            s@ == joined_lines(lines.take(i as int)),
    {
        proof {
            assert(lines.take(i + 1).drop_last() =~= lines.take(i as int));
        }
        if i > 0 {
            s.append("\n");
        } else {
            assert(lines.take(1) =~= seq![lines[0]]);
        }
        s.append(report.warnings[i].as_str());
    }
    assert(lines.take(report.warnings@.len() as int) =~= lines);
    s
}

/// What a drop on the window leads to.
#[derive(Debug, Clone, Copy, PartialEq, Eq, Structural)]
pub enum DropOutcome {
    /// Nothing local was dropped.
    NotLocalFile,
    /// A folder was among the dropped files.
    Folder,
    /// Load the first file; `several` says more were dropped.
    LoadFirst { several: bool },
}

/// The outcome of dropping `count` local files, of which some are folders
/// when `any_folder` holds.
pub open spec fn drop_outcome_of(count: nat, any_folder: bool) -> DropOutcome {
    if count == 0 {
        DropOutcome::NotLocalFile
    } else if any_folder {
        DropOutcome::Folder
    } else {
        DropOutcome::LoadFirst { several: count > 1 }
    }
}

pub fn drop_outcome(count: usize, any_folder: bool) -> (o: DropOutcome)
    ensures
        o == drop_outcome_of(count as nat, any_folder),
{
    if count == 0 {
        DropOutcome::NotLocalFile
    } else if any_folder {
        DropOutcome::Folder
    } else {
        DropOutcome::LoadFirst { several: count > 1 }
    }
}

pub open spec fn no_pixels_message() -> Seq<char> {
    "That image has no pixels."@
}

/// The caption of a loaded master: its file name (or its whole path where it
/// has none), its size, and a hint.
pub open spec fn master_caption_of(path: Seq<char>, width: u32, height: u32) -> Seq<char> {
    (match file_name_of(path) {
        Some(n) => n,
        None => path,
    }) + "  ·  "@ + decimal(width as nat) + "×"@ + decimal(height as nat) + "  ·  drop another file to replace"@
}

/// The caption for a master of `width` by `height` read from `path`, or the
/// error for an image without pixels.
pub fn master_caption(path: &str, width: u32, height: u32) -> (r: Result<String, Error>)
    ensures
        r is Err <==> (width == 0 || height == 0),
        r matches Err(e) ==> error_view(e) == (no_pixels_message(), None::<Seq<char>>),
        r matches Ok(s) ==> s@ == master_caption_of(path@, width, height),
{
    if width == 0 || height == 0 {
        return Err(Error::user("That image has no pixels."));
    }
    let mut s = match file_name(path) {
        Some(n) => n,
        None => String::from_str(path),
    };
    let w = format_u32(width);
    let h = format_u32(height);
    s.append("  ·  ");
    s.append(w.as_str());
    s.append("×");
    s.append(h.as_str());
    s.append("  ·  drop another file to replace");
    Ok(s)
}

/// The platform folders under `output` that a run may write into, in
/// platform order.
pub open spec fn export_folders_of(output: Seq<char>) -> Seq<Seq<char>> {
    platforms().map_values(|t: Target| path_join(output, target_folder(t)))
}

/// The platform folders under `output` whose presence means an earlier set
/// would be overwritten.
pub fn export_folders(output: &str) -> (v: Vec<String>)
    ensures
        string_views(v@) == export_folders_of(output@),
{
    let mut v: Vec<String> = Vec::new();
    v.push(join_path(output, Target::Ios.folder()));
    v.push(join_path(output, Target::Macos.folder()));
    v.push(join_path(output, Target::Linux.folder()));
    v.push(join_path(output, Target::Web.folder()));
    v.push(join_path(output, Target::Android.folder()));
    assert(string_views(v@) =~= export_folders_of(output@));
    v
}

/// A run over existing platform folders goes ahead only once overwriting was
/// confirmed.
pub fn must_confirm_overwrite(occupied: bool, overwrite: bool) -> (b: bool)
    ensures
        b == (occupied && !overwrite),
{
    occupied && !overwrite
}

/// The confirmation before a run covers every file it writes: each file of a
/// platform's set lies inside that platform's folder under `output`.
pub proof fn lemma_overwrite_prompt_covers_platform_files(
    t: Target,
    output: Seq<char>,
    min_side: u32,
    source: Seq<char>,
)
    requires
        t != Target::All,
    ensures
        export_folders_of(output).contains(path_join(output, target_folder(t))),
        forall|i: int|
            0 <= i < crate::spec::slots_table(t).len() ==> (path_join(output, target_folder(t))
                + "/"@).is_prefix_of(
                #[trigger] crate::generate::report_files(t, output, min_side, source)[i].path,
            ),
{
    crate::spec::lemma_slots_in_platform_folder(t);
    reveal_strlit("ios");
    reveal_strlit("macos");
    reveal_strlit("linux");
    reveal_strlit("web");
    reveal_strlit("android");
    reveal_strlit("/");
    let folder = target_folder(t);
    let k: int = if t == Target::Ios {
        0
    } else if t == Target::Macos {
        1
    } else if t == Target::Linux {
        2
    } else if t == Target::Web {
        3
    } else {
        4
    };
    assert(export_folders_of(output)[k] == path_join(output, folder));
    let table = crate::spec::slots_table(t);
    let files = crate::generate::report_files(t, output, min_side, source);
    let base = path_join(output, folder);
    assert forall|i: int| 0 <= i < table.len() implies (base + "/"@).is_prefix_of(#[trigger] files[i].path) by {
        let rel = table[i].rel_path;
        let path = files[i].path;
        assert(path == path_join(output, rel));
        let pre = folder + "/"@;
        assert(pre.is_prefix_of(rel));
        assert(pre[0] == rel.subrange(0, pre.len() as int)[0]);
        assert(rel.len() > 0 && rel[0] == folder[0]);
        assert forall|j: int| 0 <= j < base.len() + 1 implies (base + "/"@)[j] == path[j] by {
            if output.len() == 0 || output.last() == '/' {
                if j >= output.len() {
                    let m = j - output.len();
                    assert(pre[m] == rel.subrange(0, pre.len() as int)[m]);
                }
            } else {
                if j > output.len() {
                    let m = j - output.len() - 1;
                    assert(pre[m] == rel.subrange(0, pre.len() as int)[m]);
                }
            }
        }
        assert((base + "/"@) =~= path.subrange(0, (base.len() + 1) as int));
    }
}

} // verus!
