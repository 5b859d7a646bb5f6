use vstd::prelude::*;

use crate::error::{error_view, Error};
use crate::paths::{
    contains_str, file_name, file_name_of, has_substring, has_svg_extension, is_svg_path,
    join_path, opt_string_view, path_join,
};
use crate::raster::{rgba_len, Raster};
use crate::spec::{
    lemma_writes_under_platform, max_required, required_size, slot_views, slots_for, slots_table,
    writes_under, RasterSlot, SlotView, Target,
};
use crate::text::{decimal, format_u32};

verus! {

/// One file of a generated icon set: where it was written (or would have
/// been), its size in pixels (0 for a copied SVG), and whether it was skipped
/// because the master is too small for it.
#[derive(Debug, Clone)]
pub struct GeneratedFile {
    pub path: String,
    pub size: u32,
    pub upscale_blocked: bool,
}

/// The model of a [`GeneratedFile`].
pub struct FileView {
    pub path: Seq<char>,
    pub size: u32,
    pub upscale_blocked: bool,
}

impl View for GeneratedFile {
    type V = FileView;

    open spec fn view(&self) -> FileView {
        FileView { path: self.path@, size: self.size, upscale_blocked: self.upscale_blocked }
    }
}

/// The models of a sequence of files, in order.
pub open spec fn file_views(v: Seq<GeneratedFile>) -> Seq<FileView> {
    v.map_values(|f: GeneratedFile| f@)
}

/// The models of a sequence of strings, in order.
pub open spec fn string_views(v: Seq<String>) -> Seq<Seq<char>> {
    v.map_values(|s: String| s@)
}

/// What one run of the generator reports: every file of the icon set, the
/// warnings for the user, and the folder it wrote into.
#[derive(Debug, Clone)]
pub struct GenerateReport {
    pub files: Vec<GeneratedFile>,
    pub warnings: Vec<String>,
    pub output_root: String,
}

/// The model of a [`GenerateReport`].
pub struct ReportView {
    pub files: Seq<FileView>,
    pub warnings: Seq<Seq<char>>,
    pub output_root: Seq<char>,
}

impl View for GenerateReport {
    type V = ReportView;

    open spec fn view(&self) -> ReportView {
        ReportView {
            files: file_views(self.files@),
            warnings: string_views(self.warnings@),
            output_root: self.output_root@,
        }
    }
}

pub fn generated_file_path(file: &GeneratedFile) -> (p: &str)
    ensures
        p@ == file.path@,
{
    file.path.as_str()
}

/// An App Icon set is never overwritten silently: writing `dest` is refused
/// when it exists, lies in an `AppIcon.appiconset`, and overwriting was not
/// confirmed.
pub open spec fn refuses_overwrite(dest: Seq<char>, exists: bool, overwrite_xcassets: bool) -> bool {
    exists && has_substring(dest, "AppIcon.appiconset"@) && !overwrite_xcassets
}

pub open spec fn overwrite_message() -> Seq<char> {
    "An existing AppIcon.appiconset would be overwritten. Confirm overwrite to continue."@
}

/// Whether writing `dest`, which `exists` on disk or not, must be refused.
pub fn overwrite_refused(dest: &str, exists: bool, overwrite_xcassets: bool) -> (b: bool)
    ensures
        b == refuses_overwrite(dest@, exists, overwrite_xcassets),
{
    exists && contains_str(dest, "AppIcon.appiconset") && !overwrite_xcassets
}

/// What the generator does with one planned slot file.
#[derive(Debug, Clone, Copy, PartialEq, Eq)]
pub enum SlotStep {
    /// The master is too small for it: nothing is written (the report
    /// carries its warning).
    Skip,
    /// It would overwrite an App Icon set without a confirmation: the run
    /// stops with [`overwrite_error`].
    Refuse,
    /// It is rendered, written, and read back to check its size.
    Write,
}

/// The step for `file`, which `exists` on disk or not.
pub open spec fn slot_step_of(file: FileView, exists: bool, overwrite_xcassets: bool) -> SlotStep {
    if file.upscale_blocked {
        SlotStep::Skip
    } else if refuses_overwrite(file.path, exists, overwrite_xcassets) {
        SlotStep::Refuse
    } else {
        SlotStep::Write
    }
}

/// Decides what happens to the planned slot `file`: skipped where the
/// master is too small, refused where it would overwrite an App Icon set
/// unconfirmed, written otherwise.
pub fn slot_step(file: &GeneratedFile, exists: bool, overwrite_xcassets: bool) -> (s: SlotStep)
    ensures
        s == slot_step_of(file@, exists, overwrite_xcassets),
{
    if file.upscale_blocked {
        SlotStep::Skip
    } else if overwrite_refused(file.path.as_str(), exists, overwrite_xcassets) {
        SlotStep::Refuse
    } else {
        SlotStep::Write
    }
}

/// The error for a refused overwrite of an App Icon set.
pub fn overwrite_error() -> (e: Error)
    ensures
        error_view(e) == (overwrite_message(), None::<Seq<char>>),
{
    Error::user("An existing AppIcon.appiconset would be overwritten. Confirm overwrite to continue.")
}

pub open spec fn wrong_size_message() -> Seq<char> {
    "An exported icon has the wrong size."@
}

/// `{path} is {w}×{h}, expected {e}×{e}`
pub open spec fn wrong_size_details(path: Seq<char>, width: u32, height: u32, expected: u32) -> Seq<char> {
    path + " is "@ + decimal(width as nat) + "×"@ + decimal(height as nat) + ", expected "@
        + decimal(expected as nat) + "×"@ + decimal(expected as nat)
}

/// Checks that an exported icon read back from `path` is `expected` pixels
/// square.
pub fn check_dimensions(path: &str, width: u32, height: u32, expected: u32) -> (r: Result<(), Error>)
    ensures
        r is Ok <==> (width == expected && height == expected),
        r matches Err(e) ==> error_view(e) == (
            wrong_size_message(),
            Some(wrong_size_details(path@, width, height, expected)),
        ),
{
    if width != expected || height != expected {
        let w = format_u32(width);
        let h = format_u32(height);
        let e = format_u32(expected);
        let mut details = String::from_str(path);
        details.append(" is ");
        details.append(w.as_str());
        details.append("×");
        details.append(h.as_str());
        details.append(", expected ");
        details.append(e.as_str());
        details.append("×");
        details.append(e.as_str());
        return Err(Error::detailed("An exported icon has the wrong size.", details));
    }
    Ok(())
}

/// One image entry of an App Icon set's `Contents.json`, without its point
/// size: the file name, the idiom, the scale, and the pixel size that the
/// point size is worked out from.
#[derive(Debug, Clone)]
pub struct ContentsImage {
    pub filename: String,
    pub idiom: &'static str,
    pub scale: &'static str,
    pub pixel_size: u32,
}

/// The model of a [`ContentsImage`].
pub struct ContentsImageView {
    pub filename: Seq<char>,
    pub idiom: Seq<char>,
    pub scale: Seq<char>,
    pub pixel_size: u32,
}

impl View for ContentsImage {
    type V = ContentsImageView;

    open spec fn view(&self) -> ContentsImageView {
        ContentsImageView {
            filename: self.filename@,
            idiom: self.idiom@,
            scale: self.scale@,
            pixel_size: self.pixel_size,
        }
    }
}

/// Each slot with an idiom has a file name.
pub open spec fn idiom_slots_named(slots: Seq<SlotView>) -> bool {
    forall|i: int| 0 <= i < slots.len() && #[trigger] slots[i].idiom is Some
        ==> file_name_of(slots[i].rel_path) is Some
}

/// A slot's scale as `Contents.json` writes it: its own, or 1x where it has
/// none.
pub open spec fn scale_or_1x(scale: Option<Seq<char>>) -> Seq<char> {
    match scale {
        Some(sc) => sc,
        None => "1x"@,
    }
}

/// The `Contents.json` entries for `slots`: one per slot with an idiom, in
/// order, with its file name, idiom, scale (1x where it has none) and size.
pub open spec fn contents_images_of(slots: Seq<SlotView>) -> Seq<ContentsImageView>
    decreases slots.len(),
{
    if slots.len() == 0 {
        Seq::empty()
    } else {
        let rest = contents_images_of(slots.drop_last());
        let s = slots.last();
        match s.idiom {
            Some(idiom) => rest.push(
                ContentsImageView {
                    filename: file_name_of(s.rel_path).unwrap(),
                    idiom,
                    scale: match s.scale {
                        Some(sc) => sc,
                        None => "1x"@,
                    },
                    pixel_size: s.size,
                },
            ),
            None => rest,
        }
    }
}

/// The image entries of the `Contents.json` that describes `slots`.
pub fn contents_images(slots: &Vec<RasterSlot>) -> (v: Vec<ContentsImage>)
    requires
        idiom_slots_named(crate::spec::slot_views(slots@)),
    ensures
        v@.map_values(|c: ContentsImage| c@) == contents_images_of(crate::spec::slot_views(slots@)),
        (forall|j: int| 0 <= j < slots@.len() ==> (#[trigger] slots@[j])@.idiom is Some) ==> v@.len()
            == slots@.len() && forall|i: int|
            0 <= i < v@.len() ==> (#[trigger] v@[i])@.scale == scale_or_1x(slots@[i]@.scale)
                && Some(v@[i]@.idiom) == slots@[i]@.idiom && v@[i].pixel_size == slots@[i].size,
{
    let ghost table = crate::spec::slot_views(slots@);
    let mut v: Vec<ContentsImage> = Vec::new();
    for i in 0..slots.len()
        invariant
            table == crate::spec::slot_views(slots@),
            idiom_slots_named(table),
            v@.map_values(|c: ContentsImage| c@) =~= contents_images_of(table.take(i as int)),
    {
        let s = &slots[i];
        proof {
            assert(table.take(i + 1).drop_last() =~= table.take(i as int));
            assert(table[i as int] == s@);
        }
        match s.idiom {
            Some(idiom) => {
                proof {
                    assert(table[i as int].idiom is Some);
                }
                let filename = file_name(s.rel_path.as_str()).unwrap();
                let scale = match s.scale {
                    Some(sc) => sc,
                    None => "1x",
                };
                v.push(ContentsImage { filename, idiom, scale, pixel_size: s.size });
            },
            None => {},
        }
    }
    assert(table.take(slots.len() as int) =~= table);
    proof {
        if forall|j: int| 0 <= j < slots@.len() ==> (#[trigger] slots@[j])@.idiom is Some {
            assert forall|j: int| 0 <= j < table.len() implies (#[trigger] table[j]).idiom is Some by {
                assert(table[j] == slots@[j]@);
            }
            lemma_contents_all_idioms(table);
            assert(v@.len() == v@.map_values(|c: ContentsImage| c@).len());
            assert forall|i: int| 0 <= i < v@.len() implies (#[trigger] v@[i])@.scale == scale_or_1x(slots@[i]@.scale)
                && Some(v@[i]@.idiom) == slots@[i]@.idiom && v@[i].pixel_size == slots@[i].size by {
                assert(v@.map_values(|c: ContentsImage| c@)[i] == v@[i]@);
                assert(table[i] == slots@[i]@);
            }
        }
    }
    v
}


pub open spec fn too_small_message() -> Seq<char> {
    "The master image is too small to make icons."@
}

/// The warning for a master shorter than the largest slot of the target.
pub open spec fn short_side_warning(min_side: u32) -> Seq<char> {
    "Master is "@ + decimal(min_side as nat)
        + "px on the short side. Sizes above that will be skipped (no silent upscale). A 1024px master is recommended."@
}

/// The warning for a slot that is skipped because the master is smaller.
pub open spec fn skip_warning(s: SlotView, min_side: u32) -> Seq<char> {
    "Skipped "@ + decimal(s.size as nat) + "px ("@ + s.rel_path + ") — master is only "@
        + decimal(min_side as nat) + "px."@
}

/// One warning per slot of `table` larger than the master, in order.
pub open spec fn skip_warnings(table: Seq<SlotView>, min_side: u32) -> Seq<Seq<char>>
    decreases table.len(),
{
    if table.len() == 0 {
        Seq::empty()
    } else {
        let rest = skip_warnings(table.drop_last(), min_side);
        if table.last().size > min_side {
            rest.push(skip_warning(table.last(), min_side))
        } else {
            rest
        }
    }
}

/// The report entry of a slot: written under `output`, or skipped where the
/// master is smaller than the slot.
pub open spec fn slot_file(output: Seq<char>, s: SlotView, min_side: u32) -> FileView {
    FileView { path: path_join(output, s.rel_path), size: s.size, upscale_blocked: s.size > min_side }
}

/// The report entries of every slot of `table`, in order.
pub open spec fn slot_files(output: Seq<char>, table: Seq<SlotView>, min_side: u32) -> Seq<FileView> {
    table.map_values(|s: SlotView| slot_file(output, s, min_side))
}

/// The sizes that `favicon.ico` holds when the master is large enough.
pub open spec fn favicon_candidates() -> Seq<u32> {
    seq![16, 32, 48]
}

/// The sizes of `sizes` that fit in the master, in order.
pub open spec fn sizes_within(sizes: Seq<u32>, min_side: u32) -> Seq<u32>
    decreases sizes.len(),
{
    if sizes.len() == 0 {
        Seq::empty()
    } else {
        let rest = sizes_within(sizes.drop_last(), min_side);
        if sizes.last() <= min_side {
            rest.push(sizes.last())
        } else {
            rest
        }
    }
}

/// The sizes of `sizes` larger than the master, in order.
pub open spec fn sizes_above(sizes: Seq<u32>, min_side: u32) -> Seq<u32>
    decreases sizes.len(),
{
    if sizes.len() == 0 {
        Seq::empty()
    } else {
        let rest = sizes_above(sizes.drop_last(), min_side);
        if sizes.last() > min_side {
            rest.push(sizes.last())
        } else {
            rest
        }
    }
}

/// The warning for a favicon size the master is too small for.
pub open spec fn favicon_warning(size: u32) -> Seq<char> {
    "favicon.ico skipped "@ + decimal(size as nat) + "px — master too small."@
}

pub open spec fn favicon_warnings(min_side: u32) -> Seq<Seq<char>> {
    sizes_above(favicon_candidates(), min_side).map_values(|s: u32| favicon_warning(s))
}

/// iOS sets come with an Xcode `Contents.json`.
pub open spec fn writes_contents_json(t: Target) -> bool {
    t == Target::Ios || t == Target::All
}

/// Web sets come with a `favicon.ico`.
pub open spec fn writes_favicon(t: Target) -> bool {
    t == Target::Web || t == Target::All
}

/// Linux sets from an SVG master also carry the SVG as the scalable icon.
pub open spec fn copies_svg(t: Target, source: Seq<char>) -> bool {
    (t == Target::Linux || t == Target::All) && is_svg_path(source)
}

pub open spec fn contents_json_path(output: Seq<char>) -> Seq<char> {
    path_join(output, "ios/AppIcon.appiconset/Contents.json"@)
}

pub open spec fn favicon_path(output: Seq<char>) -> Seq<char> {
    path_join(output, "web/favicon.ico"@)
}

pub open spec fn scalable_svg_path(output: Seq<char>) -> Seq<char> {
    path_join(output, "linux/hicolor/scalable/apps/icon.svg"@)
}

/// Every warning of a run, in the order the generator raises them: the short
/// master, each skipped slot, then each skipped favicon size.
pub open spec fn report_warnings(t: Target, min_side: u32) -> Seq<Seq<char>> {
    (if (min_side as nat) < required_size(t) {
        seq![short_side_warning(min_side)]
    } else {
        Seq::empty()
    }) + skip_warnings(slots_table(t), min_side) + (if writes_favicon(t) {
        favicon_warnings(min_side)
    } else {
        Seq::empty()
    })
}

/// Every file of a run: each slot in order, then the copied SVG.
pub open spec fn report_files(t: Target, output: Seq<char>, min_side: u32, source: Seq<char>) -> Seq<FileView> {
    slot_files(output, slots_table(t), min_side) + (if copies_svg(t, source) {
        seq![FileView { path: scalable_svg_path(output), size: 0, upscale_blocked: false }]
    } else {
        Seq::empty()
    })
}

/// The report a run returns when every file is written.
pub open spec fn planned_report(t: Target, output: Seq<char>, min_side: u32, source: Seq<char>) -> ReportView {
    ReportView {
        files: report_files(t, output, min_side, source),
        warnings: report_warnings(t, min_side),
        output_root: output,
    }
}

/// What a run of the generator does, worked out before any file is touched:
/// the slots to write or skip (the first `slot_count` files of the report),
/// the extra files, and the report it returns when every write succeeds.
#[derive(Debug)]
pub struct GeneratePlan {
    pub slot_count: usize,
    pub contents_json: Option<String>,
    pub favicon: Option<String>,
    pub favicon_sizes: Vec<u32>,
    pub scalable_svg: Option<String>,
    pub report: GenerateReport,
}

/// `p` is the plan for `target` from a master whose short side is
/// `min_side`, read from `source`, writing under `output`.
pub open spec fn plan_matches(
    p: GeneratePlan,
    target: Target,
    output: Seq<char>,
    min_side: u32,
    source: Seq<char>,
) -> bool {
    &&& p.slot_count == slots_table(target).len()
    &&& opt_string_view(p.contents_json) == (if writes_contents_json(target) {
        Some(contents_json_path(output))
    } else {
        None
    })
    &&& opt_string_view(p.favicon) == (if writes_favicon(target) {
        Some(favicon_path(output))
    } else {
        None
    })
    &&& p.favicon_sizes@ == (if writes_favicon(target) {
        sizes_within(favicon_candidates(), min_side)
    } else {
        Seq::empty()
    })
    &&& opt_string_view(p.scalable_svg) == (if copies_svg(target, source) {
        Some(scalable_svg_path(output))
    } else {
        None
    })
    &&& p.report@ == planned_report(target, output, min_side, source)
}

fn skip_warning_text(rel_path: &str, size: u32, min_side: u32) -> (w: String)
    ensures
        w@ == "Skipped "@ + decimal(size as nat) + "px ("@ + rel_path@ + ") — master is only "@
            + decimal(min_side as nat) + "px."@,
{
    let size_digits = format_u32(size);
    let min_digits = format_u32(min_side);
    let mut w = String::from_str("Skipped ");
    w.append(size_digits.as_str());
    w.append("px (");
    w.append(rel_path);
    w.append(") — master is only ");
    w.append(min_digits.as_str());
    w.append("px.");
    w
}

fn favicon_warning_text(size: u32) -> (w: String)
    ensures
        w@ == favicon_warning(size),
{
    let digits = format_u32(size);
    let mut w = String::from_str("favicon.ico skipped ");
    w.append(digits.as_str());
    w.append("px — master too small.");
    w
}

proof fn lemma_file_views_push(v: Seq<GeneratedFile>, f: GeneratedFile)
    ensures
        file_views(v.push(f)) == file_views(v).push(f@),
{
    assert(file_views(v.push(f)) =~= file_views(v).push(f@));
}

proof fn lemma_string_views_push(v: Seq<String>, s: String)
    ensures
        string_views(v.push(s)) == string_views(v).push(s@),
{
    assert(string_views(v.push(s)) =~= string_views(v).push(s@));
}

/// Works out a run of the generator for `target` from a master whose short
/// side is `min_side` pixels, read from `source`, writing under `output`.
/// A master under 16 pixels is refused.
pub fn plan_generation(min_side: u32, target: Target, output: &str, source: &str) -> (r: Result<GeneratePlan, Error>)
    ensures
        r is Err <==> min_side < 16,
        r matches Err(e) ==> error_view(e) == (too_small_message(), None::<Seq<char>>),
        r matches Ok(p) ==> plan_matches(p, target, output@, min_side, source@),
{
    if min_side < 16 {
        return Err(Error::user("The master image is too small to make icons."));
    }
    let required = max_required(target);
    let mut warnings: Vec<String> = Vec::new();
    if min_side < required {
        let digits = format_u32(min_side);
        let mut w = String::from_str("Master is ");
        w.append(digits.as_str());
        w.append(
            "px on the short side. Sizes above that will be skipped (no silent upscale). A 1024px master is recommended.",
        );
        warnings.push(w);
    }
    let ghost head = string_views(warnings@);
    assert(head =~= (if (min_side as nat) < required_size(target) {
        seq![short_side_warning(min_side)]
    } else {
        Seq::empty()
    }));
    let table_slots = slots_for(target);
    let ghost table = slots_table(target);
    let mut files: Vec<GeneratedFile> = Vec::new();
    for i in 0..table_slots.len()
        invariant
            slot_views(table_slots@) == table,
            file_views(files@) =~= slot_files(output@, table.take(i as int), min_side),
            string_views(warnings@) =~= head + skip_warnings(table.take(i as int), min_side),
    {
        let slot = &table_slots[i];
        proof {
            assert(table.take(i + 1).drop_last() =~= table.take(i as int));
            assert(table[i as int] == slot@);
            assert(table.take(i + 1).last() == slot@);
        }
        let dest = join_path(output, slot.rel_path.as_str());
        let blocked = slot.size > min_side;
        if blocked {
            let w = skip_warning_text(slot.rel_path.as_str(), slot.size, min_side);
            proof {
                lemma_string_views_push(warnings@, w);
            }
            warnings.push(w);
        }
        let reported = GeneratedFile { path: dest, size: slot.size, upscale_blocked: blocked };
        proof {
            lemma_file_views_push(files@, reported);
            assert(slot_files(output@, table.take(i + 1), min_side) =~= slot_files(
                output@,
                table.take(i as int),
                min_side,
            ).push(slot_file(output@, slot@, min_side)));
        }
        files.push(reported);
    }
    proof {
        assert(table.take(table_slots@.len() as int) =~= table);
    }
    let mut favicon_sizes: Vec<u32> = Vec::new();
    let favicon = match target {
        Target::Web | Target::All => {
            let candidates: [u32; 3] = [16, 32, 48];
            assert(candidates@ =~= favicon_candidates());
            let ghost before = string_views(warnings@);
            for i in 0..3
                invariant
                    candidates@ == favicon_candidates(),
                    favicon_sizes@ =~= sizes_within(favicon_candidates().take(i as int), min_side),
                    string_views(warnings@) =~= before + sizes_above(
                        favicon_candidates().take(i as int),
                        min_side,
                    ).map_values(|s: u32| favicon_warning(s)),
            {
                let size = candidates[i];
                proof {
                    assert(favicon_candidates().take(i + 1).drop_last() =~= favicon_candidates().take(i as int));
                }
                if size > min_side {
                    let w = favicon_warning_text(size);
                    proof {
                        lemma_string_views_push(warnings@, w);
                    }
                    warnings.push(w);
                } else {
                    favicon_sizes.push(size);
                }
            }
            assert(favicon_candidates().take(3) =~= favicon_candidates());
            Some(join_path(output, "web/favicon.ico"))
        },
        _ => None,
    };
    let contents_json = match target {
        Target::Ios | Target::All => Some(join_path(output, "ios/AppIcon.appiconset/Contents.json")),
        _ => None,
    };
    let scalable_svg = match target {
        Target::Linux | Target::All => {
            if has_svg_extension(source) {
                let svg = join_path(output, "linux/hicolor/scalable/apps/icon.svg");
                let copied = GeneratedFile { path: svg.clone(), size: 0, upscale_blocked: false };
                proof {
                    lemma_file_views_push(files@, copied);
                }
                files.push(copied);
                Some(svg)
            } else {
                None
            }
        },
        _ => None,
    };
    assert(file_views(files@) =~= report_files(target, output@, min_side, source@));
    assert(string_views(warnings@) =~= report_warnings(target, min_side));
    let report = GenerateReport { files, warnings, output_root: String::from_str(output) };
    let slot_count = table_slots.len();
    Ok(GeneratePlan { slot_count, contents_json, favicon, favicon_sizes, scalable_svg, report })
}

#[verifier::external_type_specification]
#[verifier::external_body]
pub struct ExIconDir(ico::IconDir);

#[verifier::external_type_specification]
#[verifier::external_body]
pub struct ExIconDirEntry(ico::IconDirEntry);

#[verifier::external_type_specification]
#[verifier::external_body]
pub struct ExIconImage(ico::IconImage);

/// One entry of an ICO file as plain values, in the order of its directory
/// fields: width, height, colour count, colour planes, bits per pixel, and the
/// encoded image data.
pub type IcoEntry = (u32, u32, u8, u16, u16, Seq<u8>);

/// What an `ico::IconDir` holds: its entries, in order.
pub uninterp spec fn icon_dir_entries(dir: ico::IconDir) -> Seq<IcoEntry>;

/// The collection was made for icons (resource type 1), not cursors.
pub uninterp spec fn icon_dir_holds_icons(dir: ico::IconDir) -> bool;

/// What an `ico::IconImage` holds: width, height, RGBA data, and whether it
/// carries a cursor hotspot.
pub uninterp spec fn icon_image_parts(img: ico::IconImage) -> (u32, u32, Seq<u8>, bool);

/// What an `ico::IconDirEntry` holds: width, height, colour count, colour
/// planes, bits per pixel, encoded data, and whether its resource type is an
/// icon (rather than a cursor).
pub uninterp spec fn icon_entry_parts(entry: ico::IconDirEntry) -> (u32, u32, u8, u16, u16, Seq<u8>, bool);

/// What `ico::IconDirEntry::encode` makes of a `width` by `height` image with
/// the RGBA bytes `rgba` and no cursor hotspot: the colour count, colour
/// planes, bits per pixel and encoded data (a BMP or a PNG, as the crate
/// chooses).
pub uninterp spec fn ico_encoded(width: u32, height: u32, rgba: Seq<u8>) -> (u8, u16, u16, Seq<u8>);

/// Calls `ico::IconDir::new` for an icon (not a cursor) collection, which the
/// crate's source makes with no entries.
#[verifier::external_body]
fn new_icon_dir() -> (d: ico::IconDir)
    ensures
        icon_dir_entries(d) == Seq::<IcoEntry>::empty(),
        icon_dir_holds_icons(d),
{
    ico::IconDir::new(ico::ResourceType::Icon)
}

/// Calls `ico::IconImage::from_rgba_data` with the pixels of `image`. The
/// crate panics unless the image is at least 1 by 1 and its data holds 4
/// bytes per pixel: the `requires`. The source keeps the size and the data
/// and sets no cursor hotspot.
#[verifier::external_body]
fn icon_image(image: &Raster) -> (img: ico::IconImage)
    requires
        image.wf(),
        image.width >= 1,
        image.height >= 1,
    ensures
        icon_image_parts(img) == (image.width, image.height, image.pixels@, false),
{
    ico::IconImage::from_rgba_data(image.width, image.height, image.pixels.clone())
}

/// Calls `ico::IconDirEntry::encode`; an error would come back as its text.
/// The source multiplies width by height in `u32` (it panics where the
/// product overflows: the `requires`). It writes a BMP or a PNG into a `Vec`,
/// which cannot fail for an image of at least 1 by 1 with 4 bytes per pixel,
/// so encoding succeeds. The entry keeps the image's size; its colour count
/// and data are those the encoder chose (named [`ico_encoded`], which does
/// not depend on the hotspot); it is an icon exactly when the image has no
/// cursor hotspot, and then its planes and bits per pixel are the encoder's
/// too (a cursor stores its hotspot there instead).
#[verifier::external_body]
fn encode_icon_entry(icon: &ico::IconImage) -> (r: Result<ico::IconDirEntry, String>)
    requires
        icon_image_parts(*icon).0 as int * icon_image_parts(*icon).1 as int <= u32::MAX,
    ensures
        icon_image_parts(*icon).0 >= 1 && icon_image_parts(*icon).1 >= 1
            && icon_image_parts(*icon).2.len() == rgba_len(icon_image_parts(*icon).0, icon_image_parts(*icon).1)
            ==> r is Ok,
        r matches Ok(e) ==> {
            let (w, h, rgba, hotspot) = icon_image_parts(*icon);
            let enc = ico_encoded(w, h, rgba);
            let parts = icon_entry_parts(e);
            &&& parts.0 == w && parts.1 == h
            &&& parts.2 == enc.0
            &&& parts.5 == enc.3
            &&& parts.6 == !hotspot
            &&& !hotspot ==> parts.3 == enc.1 && parts.4 == enc.2
        },
{
    ico::IconDirEntry::encode(icon).map_err(|e| e.to_string())
}

/// Calls `ico::IconDirEntry::data` and gives the length of the slice it
/// returns: the entry's encoded data.
#[verifier::external_body]
fn icon_entry_data_len(entry: &ico::IconDirEntry) -> (n: usize)
    ensures
        n == icon_entry_parts(*entry).5.len(),
{
    entry.data().len()
}

/// Calls `ico::IconDir::add_entry`, which panics unless the entry's resource
/// type is the collection's: the `requires`. The source pushes the entry
/// after the ones already held; the resource type stays.
#[verifier::external_body]
fn add_icon_entry(dir: &mut ico::IconDir, entry: ico::IconDirEntry)
    requires
        icon_entry_parts(entry).6 == icon_dir_holds_icons(*old(dir)),
    ensures
        icon_dir_entries(*final(dir)) == icon_dir_entries(*old(dir)).push(
            {
                let p = icon_entry_parts(entry);
                (p.0, p.1, p.2, p.3, p.4, p.5)
            },
        ),
        icon_dir_holds_icons(*final(dir)) == icon_dir_holds_icons(*old(dir)),
{
    dir.add_entry(entry)
}

/// The byte an ICO directory entry holds for a width or height: the size
/// itself up to 255, and 0 for 256 or more.
pub open spec fn ico_size_byte(size: u32) -> u8 {
    if size > 255 {
        0
    } else {
        size as u8
    }
}

/// `v` as two little-endian bytes.
pub open spec fn le16(v: u16) -> Seq<u8> {
    seq![(v % 256) as u8, (v / 256) as u8]
}

/// `v` (below 2^32) as four little-endian bytes.
pub open spec fn le32(v: int) -> Seq<u8> {
    seq![(v % 256) as u8, ((v / 256) % 256) as u8, ((v / 65536) % 256) as u8, ((v / 16777216) % 256) as u8]
}

/// The 6-byte ICO header for `count` entries: reserved 0, the resource type
/// (1 for icons, 2 for cursors) and the count, each little-endian 16-bit.
pub open spec fn ico_header(count: nat, icons: bool) -> Seq<u8> {
    seq![0u8, 0u8, if icons { 1u8 } else { 2u8 }, 0u8, (count % 256) as u8, (count / 256) as u8]
}

/// The data of `entries`, one after the other.
pub open spec fn ico_data(entries: Seq<IcoEntry>) -> Seq<u8>
    decreases entries.len(),
{
    if entries.len() == 0 {
        Seq::empty()
    } else {
        ico_data(entries.drop_last()) + entries.last().5
    }
}

/// The 16-byte directory entry for `e` whose data starts at byte `offset`:
/// width and height bytes, colour count, a reserved 0, colour planes, bits
/// per pixel, the data's size and its offset.
pub open spec fn ico_dir_entry(e: IcoEntry, offset: int) -> Seq<u8> {
    seq![ico_size_byte(e.0), ico_size_byte(e.1), e.2, 0u8] + le16(e.3) + le16(e.4) + le32(e.5.len() as int)
        + le32(offset)
}

/// The directory of `entries` whose data starts at byte `base`: one entry
/// after the other, each pointing past the data of those before it.
pub open spec fn ico_directory(entries: Seq<IcoEntry>, base: int) -> Seq<u8>
    decreases entries.len(),
{
    if entries.len() == 0 {
        Seq::empty()
    } else {
        ico_directory(entries.drop_last(), base) + ico_dir_entry(
            entries.last(),
            base + ico_data(entries.drop_last()).len(),
        )
    }
}

/// Where the data of `entries` starts in an ICO file: after the header and
/// the directory.
pub open spec fn ico_data_start(entries: Seq<IcoEntry>) -> int {
    6 + 16 * (entries.len() as int)
}

/// The bytes of an ICO (or, for `icons` false, CUR) file holding `entries`:
/// header, directory, data.
pub open spec fn ico_file(entries: Seq<IcoEntry>, icons: bool) -> Seq<u8> {
    ico_header(entries.len(), icons) + ico_directory(entries, ico_data_start(entries)) + ico_data(entries)
}

/// The directory's offsets fit the 32-bit fields they are written to.
pub open spec fn ico_offsets_fit(entries: Seq<IcoEntry>) -> bool {
    ico_data_start(entries) + ico_data(entries).len() <= u32::MAX
}

/// Calls `ico::IconDir::write` into a byte buffer and returns the bytes, or
/// the error's text. Writing into a `Vec` cannot fail, so, as the source
/// shows, the only error is a collection of more than 65535 entries. The
/// source keeps each data offset in a `u32` that it advances past every
/// entry's data; that addition overflows (a panic in a debug build) unless
/// the header, the directory and all the data fit in 2^32 bytes: the
/// `requires`. The bytes are the header, then one directory entry per entry
/// with its fields and its data's size and offset, then the data.
#[verifier::external_body]
fn write_icon_dir(dir: &ico::IconDir) -> (r: Result<Vec<u8>, String>)
    requires
        icon_dir_entries(*dir).len() > 65535 || ico_offsets_fit(icon_dir_entries(*dir)),
    ensures
        r is Ok <==> icon_dir_entries(*dir).len() <= 65535,
        r matches Ok(b) ==> b@ == ico_file(icon_dir_entries(*dir), icon_dir_holds_icons(*dir)),
{
    let mut bytes: Vec<u8> = Vec::new();
    dir.write(&mut bytes).map(|_| bytes).map_err(|e| e.to_string())
}

pub open spec fn favicon_encode_message() -> Seq<char> {
    "Could not encode favicon.ico."@
}

pub open spec fn favicon_write_message() -> Seq<char> {
    "Could not write favicon.ico."@
}

/// The ICO entry for `r`: its size and what the encoder makes of its pixels.
pub open spec fn favicon_entry(r: Raster) -> IcoEntry {
    let enc = ico_encoded(r.width, r.height, r.pixels@);
    (r.width, r.height, enc.0, enc.1, enc.2, enc.3)
}

/// The ICO entries for `images`, in order.
pub open spec fn favicon_entries(images: Seq<Raster>) -> Seq<IcoEntry> {
    images.map_values(|r: Raster| favicon_entry(r))
}

/// An image an ICO entry can be encoded from: at least 1 by 1, 4 bytes per
/// pixel, and fewer than 2^32 pixels.
pub open spec fn ico_encodable(r: Raster) -> bool {
    r.wf() && r.width >= 1 && r.height >= 1 && r.width as int * r.height as int <= u32::MAX
}

/// The data of the first `i` entries is part of the data of all of them.
proof fn lemma_ico_data_prefix(entries: Seq<IcoEntry>, i: int)
    requires
        0 <= i <= entries.len(),
    ensures
        ico_data(entries.take(i)).len() <= ico_data(entries).len(),
        ico_data(entries.take(i)) == ico_data(entries).take(ico_data(entries.take(i)).len() as int),
    decreases entries.len(),
{
    if i == entries.len() {
        assert(entries.take(i) =~= entries);
    } else {
        assert(entries.drop_last().take(i) =~= entries.take(i));
        lemma_ico_data_prefix(entries.drop_last(), i);
        let p = ico_data(entries.take(i));
        let d = ico_data(entries.drop_last());
        assert(ico_data(entries) == d + entries.last().5);
        assert((d + entries.last().5).take(p.len() as int) =~= d.take(p.len() as int));
    }
}

/// The directory has 16 bytes per entry, and entry `k`'s record names the
/// data offset just past the data of the entries before it.
proof fn lemma_ico_directory_record(entries: Seq<IcoEntry>, base: int, k: int)
    requires
        0 <= k < entries.len(),
    ensures
        ico_directory(entries, base).len() == 16 * entries.len(),
        ico_directory(entries, base).subrange(16 * k, 16 * k + 16) == ico_dir_entry(
            entries[k],
            base + ico_data(entries.take(k)).len(),
        ),
    decreases entries.len(),
{
    lemma_ico_directory_len(entries.drop_last(), base);
    let front = ico_directory(entries.drop_last(), base);
    let last = ico_dir_entry(entries.last(), base + ico_data(entries.drop_last()).len());
    assert(ico_directory(entries, base) == front + last);
    if k == entries.len() - 1 {
        assert(entries.take(k) =~= entries.drop_last());
        assert((front + last).subrange(16 * k, 16 * k + 16) =~= last);
    } else {
        lemma_ico_directory_record(entries.drop_last(), base, k);
        assert(entries.drop_last().take(k) =~= entries.take(k));
        assert((front + last).subrange(16 * k, 16 * k + 16) =~= front.subrange(16 * k, 16 * k + 16));
    }
}

proof fn lemma_ico_directory_len(entries: Seq<IcoEntry>, base: int)
    ensures
        ico_directory(entries, base).len() == 16 * entries.len(),
    decreases entries.len(),
{
    if entries.len() > 0 {
        lemma_ico_directory_len(entries.drop_last(), base);
    }
}

/// How a reader finds entry `k` of an ICO file: its 16-byte record stands at
/// byte 6 + 16k and holds the entry's fields with its data's size and
/// offset, and the file holds exactly that data at that offset.
pub proof fn lemma_ico_file_layout(entries: Seq<IcoEntry>, icons: bool, k: int)
    requires
        0 <= k < entries.len(),
    ensures
        ({
            let file = ico_file(entries, icons);
            let offset = ico_data_start(entries) + ico_data(entries.take(k)).len();
            &&& file.len() == ico_data_start(entries) + ico_data(entries).len()
            &&& file.subrange(6 + 16 * k, 22 + 16 * k) == ico_dir_entry(entries[k], offset)
            &&& file.subrange(offset, offset + entries[k].5.len()) == entries[k].5
        }),
{
    let start = ico_data_start(entries);
    let head = ico_header(entries.len(), icons);
    let dir = ico_directory(entries, start);
    let data = ico_data(entries);
    lemma_ico_directory_record(entries, start, k);
    assert(ico_file(entries, icons) == head + dir + data);
    assert((head + dir + data).subrange(6 + 16 * k, 22 + 16 * k) =~= dir.subrange(16 * k, 16 * k + 16));
    let before = ico_data(entries.take(k));
    lemma_ico_data_prefix(entries, k + 1);
    assert(entries.take(k + 1).drop_last() =~= entries.take(k));
    assert(ico_data(entries.take(k + 1)) == before + entries[k].5);
    assert(data.subrange(before.len() as int, (before.len() + entries[k].5.len()) as int) =~= entries[k].5) by {
        let upto = ico_data(entries.take(k + 1));
        assert(upto == data.take(upto.len() as int));
        assert forall|j: int| 0 <= j < entries[k].5.len() implies data[before.len() + j] == entries[k].5[j] by {
            assert(data[before.len() + j] == upto[before.len() + j]);
        }
    }
    let offset = start + before.len();
    assert((head + dir + data).subrange(offset, offset + entries[k].5.len()) =~= data.subrange(
        before.len() as int,
        (before.len() + entries[k].5.len()) as int,
    ));
}

/// The bytes of a `favicon.ico` holding `images`, in order: the header, one
/// directory entry per image with its size, colour and depth fields and its
/// data's size and offset, then each image's encoded data. It fails for more
/// than 65535 images, and where the file would reach 2^32 bytes, whose
/// offsets the format cannot hold.
pub fn encode_favicon(images: &Vec<Raster>) -> (r: Result<Vec<u8>, Error>)
    requires
        forall|i: int| 0 <= i < images@.len() ==> ico_encodable(#[trigger] images@[i]),
    ensures
        r is Ok <==> images@.len() <= 65535 && ico_offsets_fit(favicon_entries(images@)),
        r matches Err(e) ==> e.details is Some && e.message@ == favicon_write_message(),
        r matches Ok(b) ==> b@ == ico_file(favicon_entries(images@), true),
{
    let ghost all = favicon_entries(images@);
    let mut dir = new_icon_dir();
    let mut total: u64 = 0;
    for i in 0..images.len()
        invariant
            forall|j: int| 0 <= j < images@.len() ==> ico_encodable(#[trigger] images@[j]),
            all == favicon_entries(images@),
            icon_dir_entries(dir) =~= all.take(i as int),
            icon_dir_holds_icons(dir),
            total == ico_data(icon_dir_entries(dir)).len(),
            total <= u32::MAX,
    {
        let icon = icon_image(&images[i]);
        proof {
            assert(ico_encodable(images@[i as int]));
        }
        match encode_icon_entry(&icon) {
            Ok(entry) => {
                let len = icon_entry_data_len(&entry);
                proof {
                    assert(all[i as int] == favicon_entry(images@[i as int]));
                    assert(all.take(i + 1) =~= all.take(i as int).push(all[i as int]));
                    assert(all.take(i + 1).drop_last() =~= all.take(i as int));
                }
                if len as u64 > 4294967295u64 - total {
                    proof {
                        lemma_ico_data_prefix(all, i + 1);
                    }
                    return Err(Error::detailed("Could not write favicon.ico.", String::from_str("ICO data offsets would exceed 32 bits")));
                }
                total = total + len as u64;
                add_icon_entry(&mut dir, entry);
            },
            Err(details) => return Err(Error::detailed("Could not encode favicon.ico.", details)),
        }
    }
    assert(all.take(images@.len() as int) =~= all);
    let n = images.len();
    if n <= 65535 && total > 4294967295u64 - 6 - 16 * (n as u64) {
        return Err(Error::detailed("Could not write favicon.ico.", String::from_str("ICO data offsets would exceed 32 bits")));
    }
    match write_icon_dir(&dir) {
        Ok(bytes) => Ok(bytes),
        Err(details) => Err(Error::detailed("Could not write favicon.ico.", details)),
    }
}

/// Where an App Icon set is copied from and to when it goes into an Xcode
/// asset catalog.
#[derive(Debug, Clone)]
pub struct XcassetsCopy {
    pub from: String,
    pub to: String,
}

pub open spec fn xcassets_confirm_message() -> Seq<char> {
    "Writing into an existing xcassets folder needs an explicit confirm."@
}

/// Works out the copy of the generated App Icon set of `report` into the
/// asset catalog `xcassets`; refused unless confirmed.
pub fn xcassets_copy(report: &GenerateReport, xcassets: &str, confirm: bool) -> (r: Result<XcassetsCopy, Error>)
    ensures
        r is Err <==> !confirm,
        r matches Err(e) ==> error_view(e) == (xcassets_confirm_message(), None::<Seq<char>>),
        r matches Ok(c) ==> c.from@ == path_join(report.output_root@, "ios/AppIcon.appiconset"@)
            && c.to@ == path_join(xcassets@, "AppIcon.appiconset"@),
{
    if !confirm {
        return Err(Error::user("Writing into an existing xcassets folder needs an explicit confirm."));
    }
    let to = join_path(xcassets, "AppIcon.appiconset");
    let from = join_path(report.output_root.as_str(), "ios/AppIcon.appiconset");
    Ok(XcassetsCopy { from, to })
}

proof fn lemma_skip_warnings_cover(table: Seq<SlotView>, min_side: u32, i: int)
    requires
        0 <= i < table.len(),
        table[i].size > min_side,
    ensures
        skip_warnings(table, min_side).contains(skip_warning(table[i], min_side)),
    decreases table.len(),
{
    let rest = skip_warnings(table.drop_last(), min_side);
    if i == table.len() - 1 {
        assert(skip_warnings(table, min_side).last() == skip_warning(table[i], min_side));
    } else {
        lemma_skip_warnings_cover(table.drop_last(), min_side, i);
        let k = choose|k: int| 0 <= k < rest.len() && rest[k] == skip_warning(table[i], min_side);
        assert(skip_warnings(table, min_side)[k] == rest[k]);
    }
}

/// No silent upscale: a slot is written only when the master is at least as
/// large as the slot; every larger slot is reported as skipped and has a
/// warning naming it.
pub proof fn lemma_no_silent_upscale(t: Target, output: Seq<char>, min_side: u32, source: Seq<char>)
    ensures
        forall|i: int|
            0 <= i < slots_table(t).len() ==> (#[trigger] report_files(t, output, min_side, source)[i]).upscale_blocked
                == (slots_table(t)[i].size > min_side),
        forall|i: int|
            0 <= i < report_files(t, output, min_side, source).len()
                && !(#[trigger] report_files(t, output, min_side, source)[i]).upscale_blocked
                ==> report_files(t, output, min_side, source)[i].size <= min_side,
        forall|i: int|
            0 <= i < slots_table(t).len() && (#[trigger] slots_table(t)[i]).size > min_side
                ==> report_warnings(t, min_side).contains(skip_warning(slots_table(t)[i], min_side)),
{
    let table = slots_table(t);
    let files = report_files(t, output, min_side, source);
    assert forall|i: int|
        0 <= i < table.len() && (#[trigger] table[i]).size > min_side implies report_warnings(
        t,
        min_side,
    ).contains(skip_warning(table[i], min_side)) by {
        lemma_skip_warnings_cover(table, min_side, i);
        let skips = skip_warnings(table, min_side);
        let k = choose|k: int| 0 <= k < skips.len() && skips[k] == skip_warning(table[i], min_side);
        let head = if (min_side as nat) < required_size(t) {
            seq![short_side_warning(min_side)]
        } else {
            Seq::empty()
        };
        assert(report_warnings(t, min_side)[head.len() + k] == skips[k]);
    }
    assert forall|i: int|
        0 <= i < files.len() && !(#[trigger] files[i]).upscale_blocked implies files[i].size
        <= min_side by {
        if i >= table.len() {
            assert(files[i].size == 0);
        }
    }
}

/// The report lists every slot of the target, in order, at its path under
/// the output folder, with the SVG copy (when there is one) last.
pub proof fn lemma_report_lists_every_slot(t: Target, output: Seq<char>, min_side: u32, source: Seq<char>)
    ensures
        report_files(t, output, min_side, source).len() == slots_table(t).len() + (if copies_svg(
            t,
            source,
        ) {
            1int
        } else {
            0int
        }),
        forall|i: int|
            0 <= i < slots_table(t).len() ==> (#[trigger] report_files(t, output, min_side, source)[i]).path
                == path_join(output, slots_table(t)[i].rel_path) && report_files(
                t,
                output,
                min_side,
                source,
            )[i].size == slots_table(t)[i].size,
        copies_svg(t, source) ==> report_files(t, output, min_side, source).last().path
            == scalable_svg_path(output),
{
}

proof fn lemma_no_skips(table: Seq<SlotView>, min_side: u32)
    requires
        forall|i: int| 0 <= i < table.len() ==> (#[trigger] table[i]).size <= min_side,
    ensures
        skip_warnings(table, min_side) == Seq::<Seq<char>>::empty(),
    decreases table.len(),
{
    if table.len() > 0 {
        assert(table.last() == table[table.len() - 1]);
        lemma_no_skips(table.drop_last(), min_side);
    }
}

proof fn lemma_sizes_above_none(sizes: Seq<u32>, min_side: u32)
    requires
        forall|i: int| 0 <= i < sizes.len() ==> sizes[i] <= min_side,
    ensures
        sizes_above(sizes, min_side) == Seq::<u32>::empty(),
    decreases sizes.len(),
{
    if sizes.len() > 0 {
        assert(sizes.last() == sizes[sizes.len() - 1]);
        lemma_sizes_above_none(sizes.drop_last(), min_side);
    }
}

/// A master at least as large as the target requires draws no warning and
/// loses no slot; a smaller one is warned about first of all.
pub proof fn lemma_short_side_warning(t: Target, min_side: u32)
    ensures
        (min_side as nat) >= required_size(t) ==> report_warnings(t, min_side) == Seq::<Seq<char>>::empty(),
        (min_side as nat) >= required_size(t) ==> forall|i: int|
            0 <= i < slots_table(t).len() ==> (#[trigger] slots_table(t)[i]).size <= min_side,
        (min_side as nat) < required_size(t) ==> report_warnings(t, min_side)[0] == short_side_warning(min_side),
{
    crate::spec::lemma_required_size_is_largest_slot(t);
    let table = slots_table(t);
    if (min_side as nat) >= required_size(t) {
        lemma_no_skips(table, min_side);
        if writes_favicon(t) {
            let k = if t == Target::Web { 2int } else { 39int };
            assert(table[k].size == 48);
            assert(favicon_candidates() =~= seq![16u32, 32, 48]);
            lemma_sizes_above_none(favicon_candidates(), min_side);
        }
        assert(report_warnings(t, min_side) =~= Seq::<Seq<char>>::empty());
    }
}

proof fn lemma_sizes_partition(sizes: Seq<u32>, min_side: u32)
    ensures
        sizes_within(sizes, min_side).len() + sizes_above(sizes, min_side).len() == sizes.len(),
        forall|i: int|
            0 <= i < sizes_within(sizes, min_side).len() ==> #[trigger] sizes_within(sizes, min_side)[i]
                <= min_side && sizes.contains(sizes_within(sizes, min_side)[i]),
        forall|i: int|
            0 <= i < sizes_above(sizes, min_side).len() ==> #[trigger] sizes_above(sizes, min_side)[i]
                > min_side && sizes.contains(sizes_above(sizes, min_side)[i]),
        forall|i: int|
            0 <= i < sizes.len() && sizes[i] <= min_side ==> sizes_within(sizes, min_side).contains(
                #[trigger] sizes[i],
            ),
    decreases sizes.len(),
{
    if sizes.len() > 0 {
        let rest = sizes.drop_last();
        lemma_sizes_partition(rest, min_side);
        let w = sizes_within(sizes, min_side);
        let a = sizes_above(sizes, min_side);
        assert forall|i: int| 0 <= i < w.len() implies #[trigger] w[i] <= min_side && sizes.contains(w[i]) by {
            if i < sizes_within(rest, min_side).len() {
                let x = sizes_within(rest, min_side)[i];
                let j = choose|j: int| 0 <= j < rest.len() && rest[j] == x;
                assert(sizes[j] == rest[j]);
            } else {
                assert(sizes[sizes.len() - 1] == sizes.last());
            }
        }
        assert forall|i: int| 0 <= i < a.len() implies #[trigger] a[i] > min_side && sizes.contains(a[i]) by {
            if i < sizes_above(rest, min_side).len() {
                let x = sizes_above(rest, min_side)[i];
                let j = choose|j: int| 0 <= j < rest.len() && rest[j] == x;
                assert(sizes[j] == rest[j]);
            } else {
                assert(sizes[sizes.len() - 1] == sizes.last());
            }
        }
        assert forall|i: int| 0 <= i < sizes.len() && sizes[i] <= min_side implies w.contains(
            #[trigger] sizes[i],
        ) by {
            if i < rest.len() {
                assert(rest[i] == sizes[i]);
                let k = choose|k: int| 0 <= k < sizes_within(rest, min_side).len() && sizes_within(rest, min_side)[k] == rest[i];
                assert(w[k] == sizes_within(rest, min_side)[k]);
            } else {
                assert(w.last() == sizes.last());
            }
        }
    }
}

/// `favicon.ico` holds each of 16, 32 and 48 that the master is large enough
/// for, and every other one of them is warned about; none is upscaled.
pub proof fn lemma_favicon_sizes(min_side: u32)
    ensures
        sizes_within(favicon_candidates(), min_side).len() + favicon_warnings(min_side).len() == 3,
        forall|i: int|
            0 <= i < sizes_within(favicon_candidates(), min_side).len() ==> #[trigger] sizes_within(
                favicon_candidates(),
                min_side,
            )[i] <= min_side,
        forall|s: u32|
            favicon_candidates().contains(s) && s <= min_side ==> #[trigger] sizes_within(
                favicon_candidates(),
                min_side,
            ).contains(s),
        forall|i: int|
            0 <= i < favicon_warnings(min_side).len() ==> #[trigger] favicon_warnings(min_side)[i]
                == favicon_warning(sizes_above(favicon_candidates(), min_side)[i])
                && sizes_above(favicon_candidates(), min_side)[i] > min_side
                && favicon_candidates().contains(sizes_above(favicon_candidates(), min_side)[i]),
{
    let c = favicon_candidates();
    lemma_sizes_partition(c, min_side);
    assert forall|s: u32| c.contains(s) && s <= min_side implies #[trigger] sizes_within(c, min_side).contains(s) by {
        let j = choose|j: int| 0 <= j < c.len() && c[j] == s;
        assert(c[j] <= min_side);
    }
}

/// Where every slot has an idiom, `Contents.json` has one entry per slot, in
/// the slots' order, each with that slot's file name, size, idiom and scale
/// (1x where the slot has none).
pub proof fn lemma_contents_all_idioms(slots: Seq<SlotView>)
    requires
        forall|i: int| 0 <= i < slots.len() ==> (#[trigger] slots[i]).idiom is Some,
    ensures
        contents_images_of(slots).len() == slots.len(),
        forall|i: int|
            0 <= i < slots.len() ==> (#[trigger] contents_images_of(slots)[i]).filename == file_name_of(
                slots[i].rel_path,
            ).unwrap() && contents_images_of(slots)[i].pixel_size == slots[i].size
                && Some(contents_images_of(slots)[i].idiom) == slots[i].idiom
                && contents_images_of(slots)[i].scale == scale_or_1x(slots[i].scale),
    decreases slots.len(),
{
    if slots.len() > 0 {
        let rest = slots.drop_last();
        assert(slots.last() == slots[slots.len() - 1]);
        assert forall|i: int| 0 <= i < rest.len() implies (#[trigger] rest[i]).idiom is Some by {
            assert(rest[i] == slots[i]);
        }
        lemma_contents_all_idioms(rest);
        assert forall|i: int| 0 <= i < slots.len() implies (#[trigger] contents_images_of(slots)[i]).filename
            == file_name_of(slots[i].rel_path).unwrap() && contents_images_of(slots)[i].pixel_size
            == slots[i].size && Some(contents_images_of(slots)[i].idiom) == slots[i].idiom
            && contents_images_of(slots)[i].scale == scale_or_1x(slots[i].scale) by {
            if i < rest.len() {
                assert(rest[i] == slots[i]);
                assert(contents_images_of(slots)[i] == contents_images_of(rest)[i]);
            }
        }
    }
}

pub proof fn lemma_contents_match_ios_files()
    ensures
        idiom_slots_named(slots_table(Target::Ios)),
        contents_images_of(slots_table(Target::Ios)).len() == slots_table(Target::Ios).len(),
        forall|i: int|
            0 <= i < slots_table(Target::Ios).len() ==> (#[trigger] contents_images_of(
                slots_table(Target::Ios),
            )[i]).filename == file_name_of(slots_table(Target::Ios)[i].rel_path).unwrap()
                && contents_images_of(slots_table(Target::Ios))[i].pixel_size == slots_table(
                Target::Ios,
            )[i].size && Some(contents_images_of(slots_table(Target::Ios))[i].idiom) == slots_table(
                Target::Ios,
            )[i].idiom && contents_images_of(slots_table(Target::Ios))[i].scale == scale_or_1x(
                slots_table(Target::Ios)[i].scale,
            ),
{
    let t = slots_table(Target::Ios);
    assert forall|i: int| 0 <= i < t.len() implies (#[trigger] t[i]).idiom is Some by {}
    lemma_contents_all_idioms(t);
    crate::spec::lemma_ios_paths_are_files();
}

/// A plan writes the App Icon set's `Contents.json` exactly when its target
/// has slots in the `ios` folder, and then at
/// `ios/AppIcon.appiconset/Contents.json` under the output folder.
pub proof fn lemma_contents_json_with_ios_slots(
    p: GeneratePlan,
    t: Target,
    output: Seq<char>,
    min_side: u32,
    source: Seq<char>,
)
    requires
        plan_matches(p, t, output, min_side, source),
    ensures
        p.contents_json is Some <==> writes_under(t, "ios"@),
        writes_under(t, "ios"@) ==> opt_string_view(p.contents_json) == Some(contents_json_path(output)),
{
    lemma_writes_under_platform(t);
}

/// A plan copies an SVG master as the scalable icon exactly when its target
/// has slots in the `linux` folder and the master is an SVG; the copy then
/// goes to `linux/hicolor/scalable/apps/icon.svg` under the output folder
/// and is the report's last file, after one file per slot.
pub proof fn lemma_scalable_svg_with_linux_slots(
    p: GeneratePlan,
    t: Target,
    output: Seq<char>,
    min_side: u32,
    source: Seq<char>,
)
    requires
        plan_matches(p, t, output, min_side, source),
    ensures
        p.scalable_svg is Some <==> writes_under(t, "linux"@) && is_svg_path(source),
        p.report@.files.len() == p.slot_count + (if writes_under(t, "linux"@) && is_svg_path(source) {
            1int
        } else {
            0int
        }),
        writes_under(t, "linux"@) && is_svg_path(source) ==> opt_string_view(p.scalable_svg) == Some(
            scalable_svg_path(output),
        ) && p.report@.files.last() == (FileView {
            path: scalable_svg_path(output),
            size: 0,
            upscale_blocked: false,
        }),
{
    lemma_writes_under_platform(t);
}

/// How a master image is read.
#[derive(Debug, Clone, Copy, PartialEq, Eq, Structural)]
pub enum MasterFormat {
    /// Rasterized from SVG first.
    Svg,
    /// Decoded directly.
    Raster,
}

pub open spec fn folder_master_message() -> Seq<char> {
    "Drop a master image, not a folder."@
}

/// How the master at `path` is read; a folder is refused.
pub fn master_format(path: &str, is_dir: bool) -> (r: Result<MasterFormat, Error>)
    ensures
        r is Err <==> is_dir,
        r matches Err(e) ==> error_view(e) == (folder_master_message(), None::<Seq<char>>),
        r matches Ok(f) ==> (f == MasterFormat::Svg <==> is_svg_path(path@)),
{
    if is_dir {
        return Err(Error::user("Drop a master image, not a folder."));
    }
    if has_svg_extension(path) {
        Ok(MasterFormat::Svg)
    } else {
        Ok(MasterFormat::Raster)
    }
}

/// The name of the temporary PNG an SVG master of process `pid` is
/// rasterized to.
pub open spec fn svg_raster_name_of(pid: u32) -> Seq<char> {
    "shadow-icon-factory-"@ + decimal(pid as nat) + ".png"@
}

pub fn svg_raster_name(pid: u32) -> (s: String)
    ensures
        s@ == svg_raster_name_of(pid),
{
    let digits = format_u32(pid);
    let mut s = String::from_str("shadow-icon-factory-");
    s.append(digits.as_str());
    s.append(".png");
    s
}

proof fn lemma_join_keeps_base(base: Seq<char>, rel: Seq<char>)
    requires
        crate::spec::is_relative(rel),
    ensures
        base.is_prefix_of(path_join(base, rel)),
        path_join(base, rel).len() > base.len(),
{
    let j = path_join(base, rel);
    assert forall|k: int| 0 <= k < base.len() implies base[k] == #[trigger] j[k] by {}
}

/// Every file of an icon set lies inside the output folder: its path starts
/// with the folder's and goes on past it.
pub proof fn lemma_files_stay_under_output(t: Target, output: Seq<char>, min_side: u32, source: Seq<char>)
    ensures
        forall|i: int|
            0 <= i < report_files(t, output, min_side, source).len() ==> output.is_prefix_of(
                #[trigger] report_files(t, output, min_side, source)[i].path,
            ) && report_files(t, output, min_side, source)[i].path.len() > output.len(),
{
    crate::spec::lemma_slot_paths_relative(t);
    let files = report_files(t, output, min_side, source);
    let table = slots_table(t);
    reveal_strlit("linux/hicolor/scalable/apps/icon.svg");
    assert forall|i: int| 0 <= i < files.len() implies output.is_prefix_of(#[trigger] files[i].path)
        && files[i].path.len() > output.len() by {
        if i < table.len() {
            lemma_join_keeps_base(output, table[i].rel_path);
        } else {
            lemma_join_keeps_base(output, "linux/hicolor/scalable/apps/icon.svg"@);
        }
    }
}

proof fn lemma_join_injective(base: Seq<char>, a: Seq<char>, b: Seq<char>)
    requires
        crate::spec::is_relative(a),
        crate::spec::is_relative(b),
        path_join(base, a) == path_join(base, b),
    ensures
        a == b,
{
    let p = if base.len() == 0 || base.last() == '/' { base } else { base + "/"@ };
    assert(path_join(base, a) =~= p + a);
    assert(path_join(base, b) =~= p + b);
    assert(a =~= (p + a).subrange(p.len() as int, (p + a).len() as int));
    assert(b =~= (p + b).subrange(p.len() as int, (p + b).len() as int));
}

/// A run never writes one file twice: the slots of the report all have
/// different paths.
pub proof fn lemma_slot_files_distinct(t: Target, output: Seq<char>, min_side: u32, source: Seq<char>)
    ensures
        forall|i: int, j: int|
            0 <= i < j < slots_table(t).len() ==> #[trigger] report_files(t, output, min_side, source)[i].path
                != #[trigger] report_files(t, output, min_side, source)[j].path,
{
    crate::spec::lemma_slot_paths_relative(t);
    crate::spec::lemma_slot_paths_distinct(t);
    let table = slots_table(t);
    let files = report_files(t, output, min_side, source);
    assert forall|i: int, j: int| 0 <= i < j < table.len() implies #[trigger] files[i].path
        != #[trigger] files[j].path by {
        if files[i].path == files[j].path {
            lemma_join_injective(output, table[i].rel_path, table[j].rel_path);
        }
    }
}

} // verus!
