use vstd::prelude::*;

use crate::text::{decimal, digit_char, format_u32};

verus! {

/// The platforms an icon set can be generated for.
#[derive(Debug, Clone, Copy, PartialEq, Eq, Structural)]
pub enum Target {
    Ios,
    Macos,
    Linux,
    Web,
    Android,
    All,
}

/// The target that a drop-down index selects: 0 to 4 pick a platform, any
/// other index picks every platform.
pub open spec fn target_of_index(i: u32) -> Target {
    if i == 0 {
        Target::Ios
    } else if i == 1 {
        Target::Macos
    } else if i == 2 {
        Target::Linux
    } else if i == 3 {
        Target::Web
    } else if i == 4 {
        Target::Android
    } else {
        Target::All
    }
}

/// The human-readable name of a target.
pub open spec fn target_label(t: Target) -> Seq<char> {
    match t {
        Target::Ios => "iOS"@,
        Target::Macos => "macOS"@,
        Target::Linux => "Linux"@,
        Target::Web => "Web"@,
        Target::Android => "Android"@,
        Target::All => "All"@,
    }
}

/// The folder name of a target.
pub open spec fn target_folder(t: Target) -> Seq<char> {
    match t {
        Target::Ios => "ios"@,
        Target::Macos => "macos"@,
        Target::Linux => "linux"@,
        Target::Web => "web"@,
        Target::Android => "android"@,
        Target::All => "all"@,
    }
}

impl Target {
    pub fn from_index(i: u32) -> (t: Self)
        ensures
            t == target_of_index(i),
    {
        match i {
            0 => Self::Ios,
            1 => Self::Macos,
            2 => Self::Linux,
            3 => Self::Web,
            4 => Self::Android,
            _ => Self::All,
        }
    }

    pub fn label(self) -> (s: &'static str)
        ensures
            s@ == target_label(self),
    {
        match self {
            Self::Ios => "iOS",
            Self::Macos => "macOS",
            Self::Linux => "Linux",
            Self::Web => "Web",
            Self::Android => "Android",
            Self::All => "All",
        }
    }

    pub fn folder(self) -> (s: &'static str)
        ensures
            s@ == target_folder(self),
    {
        match self {
            Self::Ios => "ios",
            Self::Macos => "macos",
            Self::Linux => "linux",
            Self::Web => "web",
            Self::Android => "android",
            Self::All => "all",
        }
    }
}


/// One raster file of an icon set: where it goes, its square size in pixels,
/// and, for Xcode's App Icon set, its idiom, scale and role.
#[derive(Debug, Clone)]
pub struct RasterSlot {
    pub rel_path: String,
    pub size: u32,
    pub idiom: Option<&'static str>,
    pub scale: Option<&'static str>,
    pub role: Option<&'static str>,
}

/// The mathematical model of a [`RasterSlot`].
pub struct SlotView {
    pub rel_path: Seq<char>,
    pub size: u32,
    pub idiom: Option<Seq<char>>,
    pub scale: Option<Seq<char>>,
    pub role: Option<Seq<char>>,
}

pub open spec fn opt_str_view(o: Option<&'static str>) -> Option<Seq<char>> {
    match o {
        Some(s) => Some(s@),
        None => None,
    }
}

impl View for RasterSlot {
    type V = SlotView;

    open spec fn view(&self) -> SlotView {
        SlotView {
            rel_path: self.rel_path@,
            size: self.size,
            idiom: opt_str_view(self.idiom),
            scale: opt_str_view(self.scale),
            role: opt_str_view(self.role),
        }
    }
}

/// The models of a sequence of slots, in order.
pub open spec fn slot_views(v: Seq<RasterSlot>) -> Seq<SlotView> {
    v.map_values(|s: RasterSlot| s@)
}

pub open spec fn sv(
    rel_path: Seq<char>,
    size: u32,
    idiom: Option<Seq<char>>,
    scale: Option<Seq<char>>,
    role: Option<Seq<char>>,
) -> SlotView {
    SlotView { rel_path, size, idiom, scale, role }
}

/// A slot of the generic platforms, with no Xcode metadata.
pub open spec fn plain(rel_path: Seq<char>, size: u32) -> SlotView {
    sv(rel_path, size, None, None, None)
}

fn slot(
    path: &str,
    size: u32,
    idiom: Option<&'static str>,
    scale: Option<&'static str>,
    role: Option<&'static str>,
) -> (r: RasterSlot)
    ensures
        r@ == sv(path@, size, opt_str_view(idiom), opt_str_view(scale), opt_str_view(role)),
{
    RasterSlot { rel_path: String::from_str(path), size, idiom, scale, role }
}

/// The current Xcode App Icon set: points times scale, per device idiom.
pub open spec fn ios_table() -> Seq<SlotView> {
    seq![
        sv("ios/AppIcon.appiconset/icon-20@2x.png"@, 40, Some("iphone"@), Some("2x"@), Some("notification"@)),
        sv("ios/AppIcon.appiconset/icon-20@3x.png"@, 60, Some("iphone"@), Some("3x"@), Some("notification"@)),
        sv("ios/AppIcon.appiconset/icon-29@2x.png"@, 58, Some("iphone"@), Some("2x"@), Some("settings"@)),
        sv("ios/AppIcon.appiconset/icon-29@3x.png"@, 87, Some("iphone"@), Some("3x"@), Some("settings"@)),
        sv("ios/AppIcon.appiconset/icon-40@2x.png"@, 80, Some("iphone"@), Some("2x"@), Some("spotlight"@)),
        sv("ios/AppIcon.appiconset/icon-40@3x.png"@, 120, Some("iphone"@), Some("3x"@), Some("spotlight"@)),
        sv("ios/AppIcon.appiconset/icon-60@2x.png"@, 120, Some("iphone"@), Some("2x"@), Some("app"@)),
        sv("ios/AppIcon.appiconset/icon-60@3x.png"@, 180, Some("iphone"@), Some("3x"@), Some("app"@)),
        sv("ios/AppIcon.appiconset/icon-20-ipad.png"@, 20, Some("ipad"@), Some("1x"@), Some("notification"@)),
        sv("ios/AppIcon.appiconset/icon-20@2x-ipad.png"@, 40, Some("ipad"@), Some("2x"@), Some("notification"@)),
        sv("ios/AppIcon.appiconset/icon-29-ipad.png"@, 29, Some("ipad"@), Some("1x"@), Some("settings"@)),
        sv("ios/AppIcon.appiconset/icon-29@2x-ipad.png"@, 58, Some("ipad"@), Some("2x"@), Some("settings"@)),
        sv("ios/AppIcon.appiconset/icon-40-ipad.png"@, 40, Some("ipad"@), Some("1x"@), Some("spotlight"@)),
        sv("ios/AppIcon.appiconset/icon-40@2x-ipad.png"@, 80, Some("ipad"@), Some("2x"@), Some("spotlight"@)),
        sv("ios/AppIcon.appiconset/icon-76.png"@, 76, Some("ipad"@), Some("1x"@), Some("app"@)),
        sv("ios/AppIcon.appiconset/icon-76@2x.png"@, 152, Some("ipad"@), Some("2x"@), Some("app"@)),
        sv("ios/AppIcon.appiconset/icon-83.5@2x.png"@, 167, Some("ipad"@), Some("2x"@), Some("app"@)),
        sv("ios/AppIcon.appiconset/icon-1024.png"@, 1024, Some("ios-marketing"@), Some("1x"@), Some("marketing"@)),
    ]
}

/// The macOS `.iconset`, 16 to 512 at 1x and 2x.
pub open spec fn macos_table() -> Seq<SlotView> {
    seq![
        plain("macos/AppIcon.iconset/icon_16x16.png"@, 16),
        plain("macos/AppIcon.iconset/icon_16x16@2x.png"@, 32),
        plain("macos/AppIcon.iconset/icon_32x32.png"@, 32),
        plain("macos/AppIcon.iconset/icon_32x32@2x.png"@, 64),
        plain("macos/AppIcon.iconset/icon_128x128.png"@, 128),
        plain("macos/AppIcon.iconset/icon_128x128@2x.png"@, 256),
        plain("macos/AppIcon.iconset/icon_256x256.png"@, 256),
        plain("macos/AppIcon.iconset/icon_256x256@2x.png"@, 512),
        plain("macos/AppIcon.iconset/icon_512x512.png"@, 512),
        plain("macos/AppIcon.iconset/icon_512x512@2x.png"@, 1024),
    ]
}

/// Web favicons and the Apple touch icon.
pub open spec fn web_table() -> Seq<SlotView> {
    seq![
        plain("web/favicon-16.png"@, 16),
        plain("web/favicon-32.png"@, 32),
        plain("web/favicon-48.png"@, 48),
        plain("web/favicon-192.png"@, 192),
        plain("web/favicon-512.png"@, 512),
        plain("web/apple-touch-icon.png"@, 180),
    ]
}

/// Android launcher icons, one per density bucket.
pub open spec fn android_table() -> Seq<SlotView> {
    seq![
        plain("android/mipmap-mdpi/ic_launcher.png"@, 48),
        plain("android/mipmap-hdpi/ic_launcher.png"@, 72),
        plain("android/mipmap-xhdpi/ic_launcher.png"@, 96),
        plain("android/mipmap-xxhdpi/ic_launcher.png"@, 144),
        plain("android/mipmap-xxxhdpi/ic_launcher.png"@, 192),
    ]
}

/// The iOS App Icon slots.
fn ios_slots() -> (v: Vec<RasterSlot>)
    ensures
        slot_views(v@) == ios_table(),
{
    let mut v: Vec<RasterSlot> = Vec::new();
    v.push(slot("ios/AppIcon.appiconset/icon-20@2x.png", 40, Some("iphone"), Some("2x"), Some("notification")));
    v.push(slot("ios/AppIcon.appiconset/icon-20@3x.png", 60, Some("iphone"), Some("3x"), Some("notification")));
    v.push(slot("ios/AppIcon.appiconset/icon-29@2x.png", 58, Some("iphone"), Some("2x"), Some("settings")));
    v.push(slot("ios/AppIcon.appiconset/icon-29@3x.png", 87, Some("iphone"), Some("3x"), Some("settings")));
    v.push(slot("ios/AppIcon.appiconset/icon-40@2x.png", 80, Some("iphone"), Some("2x"), Some("spotlight")));
    v.push(slot("ios/AppIcon.appiconset/icon-40@3x.png", 120, Some("iphone"), Some("3x"), Some("spotlight")));
    v.push(slot("ios/AppIcon.appiconset/icon-60@2x.png", 120, Some("iphone"), Some("2x"), Some("app")));
    v.push(slot("ios/AppIcon.appiconset/icon-60@3x.png", 180, Some("iphone"), Some("3x"), Some("app")));
    v.push(slot("ios/AppIcon.appiconset/icon-20-ipad.png", 20, Some("ipad"), Some("1x"), Some("notification")));
    v.push(slot("ios/AppIcon.appiconset/icon-20@2x-ipad.png", 40, Some("ipad"), Some("2x"), Some("notification")));
    v.push(slot("ios/AppIcon.appiconset/icon-29-ipad.png", 29, Some("ipad"), Some("1x"), Some("settings")));
    v.push(slot("ios/AppIcon.appiconset/icon-29@2x-ipad.png", 58, Some("ipad"), Some("2x"), Some("settings")));
    v.push(slot("ios/AppIcon.appiconset/icon-40-ipad.png", 40, Some("ipad"), Some("1x"), Some("spotlight")));
    v.push(slot("ios/AppIcon.appiconset/icon-40@2x-ipad.png", 80, Some("ipad"), Some("2x"), Some("spotlight")));
    v.push(slot("ios/AppIcon.appiconset/icon-76.png", 76, Some("ipad"), Some("1x"), Some("app")));
    v.push(slot("ios/AppIcon.appiconset/icon-76@2x.png", 152, Some("ipad"), Some("2x"), Some("app")));
    v.push(slot("ios/AppIcon.appiconset/icon-83.5@2x.png", 167, Some("ipad"), Some("2x"), Some("app")));
    v.push(slot("ios/AppIcon.appiconset/icon-1024.png", 1024, Some("ios-marketing"), Some("1x"), Some("marketing")));
    assert(slot_views(v@) =~= ios_table());
    v
}

/// The macOS slots.
fn macos_slots() -> (v: Vec<RasterSlot>)
    ensures
        slot_views(v@) == macos_table(),
{
    let mut v: Vec<RasterSlot> = Vec::new();
    v.push(slot("macos/AppIcon.iconset/icon_16x16.png", 16, None, None, None));
    v.push(slot("macos/AppIcon.iconset/icon_16x16@2x.png", 32, None, None, None));
    v.push(slot("macos/AppIcon.iconset/icon_32x32.png", 32, None, None, None));
    v.push(slot("macos/AppIcon.iconset/icon_32x32@2x.png", 64, None, None, None));
    v.push(slot("macos/AppIcon.iconset/icon_128x128.png", 128, None, None, None));
    v.push(slot("macos/AppIcon.iconset/icon_128x128@2x.png", 256, None, None, None));
    v.push(slot("macos/AppIcon.iconset/icon_256x256.png", 256, None, None, None));
    v.push(slot("macos/AppIcon.iconset/icon_256x256@2x.png", 512, None, None, None));
    v.push(slot("macos/AppIcon.iconset/icon_512x512.png", 512, None, None, None));
    v.push(slot("macos/AppIcon.iconset/icon_512x512@2x.png", 1024, None, None, None));
    assert(slot_views(v@) =~= macos_table());
    v
}

/// The web slots.
fn web_slots() -> (v: Vec<RasterSlot>)
    ensures
        slot_views(v@) == web_table(),
{
    let mut v: Vec<RasterSlot> = Vec::new();
    v.push(slot("web/favicon-16.png", 16, None, None, None));
    v.push(slot("web/favicon-32.png", 32, None, None, None));
    v.push(slot("web/favicon-48.png", 48, None, None, None));
    v.push(slot("web/favicon-192.png", 192, None, None, None));
    v.push(slot("web/favicon-512.png", 512, None, None, None));
    v.push(slot("web/apple-touch-icon.png", 180, None, None, None));
    assert(slot_views(v@) =~= web_table());
    v
}

/// The Android slots.
fn android_slots() -> (v: Vec<RasterSlot>)
    ensures
        slot_views(v@) == android_table(),
{
    let mut v: Vec<RasterSlot> = Vec::new();
    v.push(slot("android/mipmap-mdpi/ic_launcher.png", 48, None, None, None));
    v.push(slot("android/mipmap-hdpi/ic_launcher.png", 72, None, None, None));
    v.push(slot("android/mipmap-xhdpi/ic_launcher.png", 96, None, None, None));
    v.push(slot("android/mipmap-xxhdpi/ic_launcher.png", 144, None, None, None));
    v.push(slot("android/mipmap-xxxhdpi/ic_launcher.png", 192, None, None, None));
    assert(slot_views(v@) =~= android_table());
    v
}

/// The hicolor theme sizes written for Linux.
pub open spec fn linux_sizes() -> Seq<u32> {
    seq![16, 24, 32, 48, 64, 128, 256, 512, 1024]
}

/// `linux/hicolor/{s}x{s}/apps/icon.png`
pub open spec fn linux_path(s: u32) -> Seq<char> {
    "linux/hicolor/"@ + decimal(s as nat) + "x"@ + decimal(s as nat) + "/apps/icon.png"@
}

/// The Linux hicolor slots, one per size of [`linux_sizes`].
pub open spec fn linux_table() -> Seq<SlotView> {
    linux_sizes().map_values(|s: u32| plain(linux_path(s), s))
}

fn linux_path_for(size: u32) -> (p: String)
    ensures
        p@ == linux_path(size),
{
    let digits = format_u32(size);
    let mut p = String::from_str("linux/hicolor/");
    p.append(digits.as_str());
    p.append("x");
    p.append(digits.as_str());
    p.append("/apps/icon.png");
    p
}

/// The Linux slots.
fn linux_slots() -> (v: Vec<RasterSlot>)
    ensures
        slot_views(v@) == linux_table(),
{
    let sizes: [u32; 9] = [16, 24, 32, 48, 64, 128, 256, 512, 1024];
    assert(sizes@ =~= linux_sizes());
    let mut v: Vec<RasterSlot> = Vec::new();
    for i in 0..9
        invariant
            sizes@ == linux_sizes(),
            slot_views(v@) =~= linux_table().take(i as int),
    {
        let size = sizes[i];
        let path = linux_path_for(size);
        v.push(RasterSlot { rel_path: path, size, idiom: None, scale: None, role: None });
        assert(linux_table().take(i + 1) =~= linux_table().take(i as int).push(plain(linux_path(size), size)));
    }
    assert(linux_table().take(9) =~= linux_table());
    v
}

/// The slots of a target, in the order they are written. `All` is every
/// platform's slots, iOS, macOS, Linux, Web, then Android.
pub open spec fn slots_table(t: Target) -> Seq<SlotView> {
    match t {
        Target::Ios => ios_table(),
        Target::Macos => macos_table(),
        Target::Linux => linux_table(),
        Target::Web => web_table(),
        Target::Android => android_table(),
        Target::All => ios_table() + macos_table() + linux_table() + web_table() + android_table(),
    }
}

proof fn lemma_slot_views_append(a: Seq<RasterSlot>, b: Seq<RasterSlot>)
    ensures
        slot_views(a + b) == slot_views(a) + slot_views(b),
{
    assert(slot_views(a + b) =~= slot_views(a) + slot_views(b));
}

/// Appends `other` to `v`, leaving `other` empty.
fn append_slots(v: &mut Vec<RasterSlot>, mut other: Vec<RasterSlot>)
    ensures
        slot_views(final(v)@) == slot_views(old(v)@) + slot_views(other@),
{
    proof {
        lemma_slot_views_append(v@, other@);
    }
    v.append(&mut other);
}

/// Every slot of `target`, in order.
pub fn slots_for(target: Target) -> (v: Vec<RasterSlot>)
    ensures
        slot_views(v@) == slots_table(target),
{
    match target {
        Target::Ios => ios_slots(),
        Target::Macos => macos_slots(),
        Target::Linux => linux_slots(),
        Target::Web => web_slots(),
        Target::Android => android_slots(),
        Target::All => {
            let mut v = ios_slots();
            append_slots(&mut v, macos_slots());
            append_slots(&mut v, linux_slots());
            append_slots(&mut v, web_slots());
            append_slots(&mut v, android_slots());
            v
        },
    }
}

/// The largest size in `table`, or 0 for an empty table.
pub open spec fn max_size(table: Seq<SlotView>) -> nat
    decreases table.len(),
{
    if table.len() == 0 {
        0
    } else {
        let m = max_size(table.drop_last());
        if table.last().size > m {
            table.last().size as nat
        } else {
            m
        }
    }
}

/// The master size that every slot of `t` needs: its largest slot, or 1024
/// where it has none.
pub open spec fn required_size(t: Target) -> nat {
    if slots_table(t).len() == 0 {
        1024
    } else {
        max_size(slots_table(t))
    }
}

/// `max_size` is one of the sizes of a non-empty table, and no size exceeds it.
pub proof fn lemma_max_size(table: Seq<SlotView>)
    ensures
        forall|i: int| 0 <= i < table.len() ==> table[i].size <= max_size(table),
        table.len() > 0 ==> exists|i: int| 0 <= i < table.len() && table[i].size == max_size(table),
    decreases table.len(),
{
    if table.len() > 0 {
        let rest = table.drop_last();
        lemma_max_size(rest);
        assert forall|i: int| 0 <= i < table.len() implies table[i].size <= max_size(table) by {
            if i < table.len() - 1 {
                assert(table[i] == rest[i]);
            }
        }
        if table.last().size <= max_size(rest) && rest.len() > 0 {
            let j = choose|j: int| 0 <= j < rest.len() && rest[j].size == max_size(rest);
            assert(table[j] == rest[j]);
        }
    }
}

/// The size a master needs so that no slot of `target` is skipped.
pub fn max_required(target: Target) -> (m: u32)
    ensures
        m == required_size(target),
{
    let slots = slots_for(target);
    let ghost table = slots_table(target);
    if slots.len() == 0 {
        return 1024;
    }
    let mut m: u32 = 0;
    for i in 0..slots.len()
        invariant
            slot_views(slots@) == table,
            m == max_size(table.take(i as int)),
    {
        proof {
            assert(table.take(i + 1).drop_last() =~= table.take(i as int));
            assert(table[i as int] == slots@[i as int]@);
        }
        if slots[i].size > m {
            m = slots[i].size;
        }
    }
    assert(table.take(slots.len() as int) =~= table);
    m
}

/// `All` is every platform's slots, in platform order, so its count is the
/// sum of the platforms' counts.
pub proof fn lemma_all_covers_each_platform()
    ensures
        slots_table(Target::All) == slots_table(Target::Ios) + slots_table(Target::Macos)
            + slots_table(Target::Linux) + slots_table(Target::Web) + slots_table(Target::Android),
        slots_table(Target::All).len() == slots_table(Target::Ios).len() + slots_table(
            Target::Macos,
        ).len() + slots_table(Target::Linux).len() + slots_table(Target::Web).len()
            + slots_table(Target::Android).len(),
{
}

/// The size a target requires is one of its slot sizes, and no slot of the
/// target is larger.
pub proof fn lemma_required_size_is_largest_slot(t: Target)
    ensures
        forall|i: int|
            0 <= i < slots_table(t).len() ==> #[trigger] slots_table(t)[i].size <= required_size(t),
        exists|i: int| 0 <= i < slots_table(t).len() && slots_table(t)[i].size == required_size(t),
{
    lemma_max_size(slots_table(t));
    assert(slots_table(t).len() > 0) by {
        assert(ios_table().len() > 0);
        assert(macos_table().len() > 0);
        assert(linux_table().len() > 0);
        assert(web_table().len() > 0);
        assert(android_table().len() > 0);
    }
}

/// The drop-down order of targets: index `i` below 6 selects the target whose
/// label is the `i`-th entry of the list shown to the user.
pub proof fn lemma_index_labels(i: u32)
    requires
        i < 6,
    ensures
        target_label(target_of_index(i)) == seq![
            "iOS"@,
            "macOS"@,
            "Linux"@,
            "Web"@,
            "Android"@,
            "All"@,
        ][i as int],
{
}

proof fn lemma_plain_file_name(p: Seq<char>)
    requires
        p.len() > 0,
        p.last() != '/',
        p.last() != '.',
    ensures
        crate::paths::file_name_of(p) is Some,
{
    assert(crate::paths::last_segment(p).last() == p.last());
}

/// What the literal slot paths of each platform table show: each starts with
/// its platform's folder and a `/`, no two are equal, and the iOS ones end in
/// `g`.
proof fn lemma_table_literals()
    ensures
        forall|i: int|
            0 <= i < ios_table().len() ==> (target_folder(Target::Ios) + "/"@).is_prefix_of(
                #[trigger] ios_table()[i].rel_path,
            ),
        forall|i: int, j: int|
            0 <= i < j < ios_table().len() ==> #[trigger] ios_table()[i].rel_path
                != #[trigger] ios_table()[j].rel_path,
        forall|i: int|
            0 <= i < macos_table().len() ==> (target_folder(Target::Macos) + "/"@).is_prefix_of(
                #[trigger] macos_table()[i].rel_path,
            ),
        forall|i: int, j: int|
            0 <= i < j < macos_table().len() ==> #[trigger] macos_table()[i].rel_path
                != #[trigger] macos_table()[j].rel_path,
        forall|i: int|
            0 <= i < linux_table().len() ==> (target_folder(Target::Linux) + "/"@).is_prefix_of(
                #[trigger] linux_table()[i].rel_path,
            ),
        forall|i: int, j: int|
            0 <= i < j < linux_table().len() ==> #[trigger] linux_table()[i].rel_path
                != #[trigger] linux_table()[j].rel_path,
        forall|i: int|
            0 <= i < web_table().len() ==> (target_folder(Target::Web) + "/"@).is_prefix_of(
                #[trigger] web_table()[i].rel_path,
            ),
        forall|i: int, j: int|
            0 <= i < j < web_table().len() ==> #[trigger] web_table()[i].rel_path
                != #[trigger] web_table()[j].rel_path,
        forall|i: int|
            0 <= i < android_table().len() ==> (target_folder(Target::Android) + "/"@).is_prefix_of(
                #[trigger] android_table()[i].rel_path,
            ),
        forall|i: int, j: int|
            0 <= i < j < android_table().len() ==> #[trigger] android_table()[i].rel_path
                != #[trigger] android_table()[j].rel_path,
        forall|i: int|
            0 <= i < ios_table().len() ==> (#[trigger] ios_table()[i].rel_path).len() > 0
                && ios_table()[i].rel_path.last() == 'g',
{
    reveal_strlit("ios/AppIcon.appiconset/icon-20@2x.png");
    reveal_strlit("ios/AppIcon.appiconset/icon-20@3x.png");
    reveal_strlit("ios/AppIcon.appiconset/icon-29@2x.png");
    reveal_strlit("ios/AppIcon.appiconset/icon-29@3x.png");
    reveal_strlit("ios/AppIcon.appiconset/icon-40@2x.png");
    reveal_strlit("ios/AppIcon.appiconset/icon-40@3x.png");
    reveal_strlit("ios/AppIcon.appiconset/icon-60@2x.png");
    reveal_strlit("ios/AppIcon.appiconset/icon-60@3x.png");
    reveal_strlit("ios/AppIcon.appiconset/icon-20-ipad.png");
    reveal_strlit("ios/AppIcon.appiconset/icon-20@2x-ipad.png");
    reveal_strlit("ios/AppIcon.appiconset/icon-29-ipad.png");
    reveal_strlit("ios/AppIcon.appiconset/icon-29@2x-ipad.png");
    reveal_strlit("ios/AppIcon.appiconset/icon-40-ipad.png");
    reveal_strlit("ios/AppIcon.appiconset/icon-40@2x-ipad.png");
    reveal_strlit("ios/AppIcon.appiconset/icon-76.png");
    reveal_strlit("ios/AppIcon.appiconset/icon-76@2x.png");
    reveal_strlit("ios/AppIcon.appiconset/icon-83.5@2x.png");
    reveal_strlit("ios/AppIcon.appiconset/icon-1024.png");
    reveal_strlit("macos/AppIcon.iconset/icon_16x16.png");
    reveal_strlit("macos/AppIcon.iconset/icon_16x16@2x.png");
    reveal_strlit("macos/AppIcon.iconset/icon_32x32.png");
    reveal_strlit("macos/AppIcon.iconset/icon_32x32@2x.png");
    reveal_strlit("macos/AppIcon.iconset/icon_128x128.png");
    reveal_strlit("macos/AppIcon.iconset/icon_128x128@2x.png");
    reveal_strlit("macos/AppIcon.iconset/icon_256x256.png");
    reveal_strlit("macos/AppIcon.iconset/icon_256x256@2x.png");
    reveal_strlit("macos/AppIcon.iconset/icon_512x512.png");
    reveal_strlit("macos/AppIcon.iconset/icon_512x512@2x.png");
    reveal_strlit("web/favicon-16.png");
    reveal_strlit("web/favicon-32.png");
    reveal_strlit("web/favicon-48.png");
    reveal_strlit("web/favicon-192.png");
    reveal_strlit("web/favicon-512.png");
    reveal_strlit("web/apple-touch-icon.png");
    reveal_strlit("android/mipmap-mdpi/ic_launcher.png");
    reveal_strlit("android/mipmap-hdpi/ic_launcher.png");
    reveal_strlit("android/mipmap-xhdpi/ic_launcher.png");
    reveal_strlit("android/mipmap-xxhdpi/ic_launcher.png");
    reveal_strlit("android/mipmap-xxxhdpi/ic_launcher.png");
    reveal_strlit("linux/hicolor/");
    reveal_strlit("/");
    reveal_strlit("ios");
    reveal_strlit("macos");
    reveal_strlit("linux");
    reveal_strlit("web");
    reveal_strlit("android");
    assert forall|i: int| 0 <= i < ios_table().len() implies (target_folder(Target::Ios) + "/"@).is_prefix_of(
        #[trigger] ios_table()[i].rel_path,
    ) by {
        let p = ios_table()[i].rel_path;
        let pre = target_folder(Target::Ios) + "/"@;
        assert forall|k: int| 0 <= k < pre.len() implies pre[k] == p[k] by {}
        assert(pre =~= p.subrange(0, pre.len() as int));
    }
    assert forall|i: int| 0 <= i < macos_table().len() implies (target_folder(Target::Macos) + "/"@).is_prefix_of(
        #[trigger] macos_table()[i].rel_path,
    ) by {
        let p = macos_table()[i].rel_path;
        let pre = target_folder(Target::Macos) + "/"@;
        assert forall|k: int| 0 <= k < pre.len() implies pre[k] == p[k] by {}
        assert(pre =~= p.subrange(0, pre.len() as int));
    }
    assert forall|i: int| 0 <= i < linux_table().len() implies (target_folder(Target::Linux) + "/"@).is_prefix_of(
        #[trigger] linux_table()[i].rel_path,
    ) by {
        let p = linux_table()[i].rel_path;
        let pre = target_folder(Target::Linux) + "/"@;
        assert(p == linux_path(linux_sizes()[i]));
        assert forall|k: int| 0 <= k < pre.len() implies pre[k] == p[k] by {
            assert(p[k] == "linux/hicolor/"@[k]);
        }
        assert(pre =~= p.subrange(0, pre.len() as int));
    }
    assert forall|i: int| 0 <= i < web_table().len() implies (target_folder(Target::Web) + "/"@).is_prefix_of(
        #[trigger] web_table()[i].rel_path,
    ) by {
        let p = web_table()[i].rel_path;
        let pre = target_folder(Target::Web) + "/"@;
        assert forall|k: int| 0 <= k < pre.len() implies pre[k] == p[k] by {}
        assert(pre =~= p.subrange(0, pre.len() as int));
    }
    assert forall|i: int| 0 <= i < android_table().len() implies (target_folder(Target::Android) + "/"@).is_prefix_of(
        #[trigger] android_table()[i].rel_path,
    ) by {
        let p = android_table()[i].rel_path;
        let pre = target_folder(Target::Android) + "/"@;
        assert forall|k: int| 0 <= k < pre.len() implies pre[k] == p[k] by {}
        assert(pre =~= p.subrange(0, pre.len() as int));
    }
    assert forall|i: int, j: int| 0 <= i < j < 18 implies #[trigger] ios_table()[i].rel_path != #[trigger] ios_table()[j].rel_path by {
        if i == 0 {
            if j == 1 {
                assert(ios_table()[0].rel_path[31] != ios_table()[1].rel_path[31]);
            } else if j == 2 {
                assert(ios_table()[0].rel_path[29] != ios_table()[2].rel_path[29]);
            } else if j == 3 {
                assert(ios_table()[0].rel_path[29] != ios_table()[3].rel_path[29]);
            } else if j == 4 {
                assert(ios_table()[0].rel_path[28] != ios_table()[4].rel_path[28]);
            } else if j == 5 {
                assert(ios_table()[0].rel_path[28] != ios_table()[5].rel_path[28]);
            } else if j == 6 {
                assert(ios_table()[0].rel_path[28] != ios_table()[6].rel_path[28]);
            } else if j == 7 {
                assert(ios_table()[0].rel_path[28] != ios_table()[7].rel_path[28]);
            } else if j == 8 {
                assert(ios_table()[0].rel_path[30] != ios_table()[8].rel_path[30]);
            } else if j == 9 {
                assert(ios_table()[0].rel_path[33] != ios_table()[9].rel_path[33]);
            } else if j == 10 {
                assert(ios_table()[0].rel_path[29] != ios_table()[10].rel_path[29]);
            } else if j == 11 {
                assert(ios_table()[0].rel_path[29] != ios_table()[11].rel_path[29]);
            } else if j == 12 {
                assert(ios_table()[0].rel_path[28] != ios_table()[12].rel_path[28]);
            } else if j == 13 {
                assert(ios_table()[0].rel_path[28] != ios_table()[13].rel_path[28]);
            } else if j == 14 {
                assert(ios_table()[0].rel_path[28] != ios_table()[14].rel_path[28]);
            } else if j == 15 {
                assert(ios_table()[0].rel_path[28] != ios_table()[15].rel_path[28]);
            } else if j == 16 {
                assert(ios_table()[0].rel_path[28] != ios_table()[16].rel_path[28]);
            } else if j == 17 {
                assert(ios_table()[0].rel_path[28] != ios_table()[17].rel_path[28]);
            }
        } else if i == 1 {
            if j == 2 {
                assert(ios_table()[1].rel_path[29] != ios_table()[2].rel_path[29]);
            } else if j == 3 {
                assert(ios_table()[1].rel_path[29] != ios_table()[3].rel_path[29]);
            } else if j == 4 {
                assert(ios_table()[1].rel_path[28] != ios_table()[4].rel_path[28]);
            } else if j == 5 {
                assert(ios_table()[1].rel_path[28] != ios_table()[5].rel_path[28]);
            } else if j == 6 {
                assert(ios_table()[1].rel_path[28] != ios_table()[6].rel_path[28]);
            } else if j == 7 {
                assert(ios_table()[1].rel_path[28] != ios_table()[7].rel_path[28]);
            } else if j == 8 {
                assert(ios_table()[1].rel_path[30] != ios_table()[8].rel_path[30]);
            } else if j == 9 {
                assert(ios_table()[1].rel_path[31] != ios_table()[9].rel_path[31]);
            } else if j == 10 {
                assert(ios_table()[1].rel_path[29] != ios_table()[10].rel_path[29]);
            } else if j == 11 {
                assert(ios_table()[1].rel_path[29] != ios_table()[11].rel_path[29]);
            } else if j == 12 {
                assert(ios_table()[1].rel_path[28] != ios_table()[12].rel_path[28]);
            } else if j == 13 {
                assert(ios_table()[1].rel_path[28] != ios_table()[13].rel_path[28]);
            } else if j == 14 {
                assert(ios_table()[1].rel_path[28] != ios_table()[14].rel_path[28]);
            } else if j == 15 {
                assert(ios_table()[1].rel_path[28] != ios_table()[15].rel_path[28]);
            } else if j == 16 {
                assert(ios_table()[1].rel_path[28] != ios_table()[16].rel_path[28]);
            } else if j == 17 {
                assert(ios_table()[1].rel_path[28] != ios_table()[17].rel_path[28]);
            }
        } else if i == 2 {
            if j == 3 {
                assert(ios_table()[2].rel_path[31] != ios_table()[3].rel_path[31]);
            } else if j == 4 {
                assert(ios_table()[2].rel_path[28] != ios_table()[4].rel_path[28]);
            } else if j == 5 {
                assert(ios_table()[2].rel_path[28] != ios_table()[5].rel_path[28]);
            } else if j == 6 {
                assert(ios_table()[2].rel_path[28] != ios_table()[6].rel_path[28]);
            } else if j == 7 {
                assert(ios_table()[2].rel_path[28] != ios_table()[7].rel_path[28]);
            } else if j == 8 {
                assert(ios_table()[2].rel_path[29] != ios_table()[8].rel_path[29]);
            } else if j == 9 {
                assert(ios_table()[2].rel_path[29] != ios_table()[9].rel_path[29]);
            } else if j == 10 {
                assert(ios_table()[2].rel_path[30] != ios_table()[10].rel_path[30]);
            } else if j == 11 {
                assert(ios_table()[2].rel_path[33] != ios_table()[11].rel_path[33]);
            } else if j == 12 {
                assert(ios_table()[2].rel_path[28] != ios_table()[12].rel_path[28]);
            } else if j == 13 {
                assert(ios_table()[2].rel_path[28] != ios_table()[13].rel_path[28]);
            } else if j == 14 {
                assert(ios_table()[2].rel_path[28] != ios_table()[14].rel_path[28]);
            } else if j == 15 {
                assert(ios_table()[2].rel_path[28] != ios_table()[15].rel_path[28]);
            } else if j == 16 {
                assert(ios_table()[2].rel_path[28] != ios_table()[16].rel_path[28]);
            } else if j == 17 {
                assert(ios_table()[2].rel_path[28] != ios_table()[17].rel_path[28]);
            }
        } else if i == 3 {
            if j == 4 {
                assert(ios_table()[3].rel_path[28] != ios_table()[4].rel_path[28]);
            } else if j == 5 {
                assert(ios_table()[3].rel_path[28] != ios_table()[5].rel_path[28]);
            } else if j == 6 {
                assert(ios_table()[3].rel_path[28] != ios_table()[6].rel_path[28]);
            } else if j == 7 {
                assert(ios_table()[3].rel_path[28] != ios_table()[7].rel_path[28]);
            } else if j == 8 {
                assert(ios_table()[3].rel_path[29] != ios_table()[8].rel_path[29]);
            } else if j == 9 {
                assert(ios_table()[3].rel_path[29] != ios_table()[9].rel_path[29]);
            } else if j == 10 {
                assert(ios_table()[3].rel_path[30] != ios_table()[10].rel_path[30]);
            } else if j == 11 {
                assert(ios_table()[3].rel_path[31] != ios_table()[11].rel_path[31]);
            } else if j == 12 {
                assert(ios_table()[3].rel_path[28] != ios_table()[12].rel_path[28]);
            } else if j == 13 {
                assert(ios_table()[3].rel_path[28] != ios_table()[13].rel_path[28]);
            } else if j == 14 {
                assert(ios_table()[3].rel_path[28] != ios_table()[14].rel_path[28]);
            } else if j == 15 {
                assert(ios_table()[3].rel_path[28] != ios_table()[15].rel_path[28]);
            } else if j == 16 {
                assert(ios_table()[3].rel_path[28] != ios_table()[16].rel_path[28]);
            } else if j == 17 {
                assert(ios_table()[3].rel_path[28] != ios_table()[17].rel_path[28]);
            }
        } else if i == 4 {
            if j == 5 {
                assert(ios_table()[4].rel_path[31] != ios_table()[5].rel_path[31]);
            } else if j == 6 {
                assert(ios_table()[4].rel_path[28] != ios_table()[6].rel_path[28]);
            } else if j == 7 {
                assert(ios_table()[4].rel_path[28] != ios_table()[7].rel_path[28]);
            } else if j == 8 {
                assert(ios_table()[4].rel_path[28] != ios_table()[8].rel_path[28]);
            } else if j == 9 {
                assert(ios_table()[4].rel_path[28] != ios_table()[9].rel_path[28]);
            } else if j == 10 {
                assert(ios_table()[4].rel_path[28] != ios_table()[10].rel_path[28]);
            } else if j == 11 {
                assert(ios_table()[4].rel_path[28] != ios_table()[11].rel_path[28]);
            } else if j == 12 {
                assert(ios_table()[4].rel_path[30] != ios_table()[12].rel_path[30]);
            } else if j == 13 {
                assert(ios_table()[4].rel_path[33] != ios_table()[13].rel_path[33]);
            } else if j == 14 {
                assert(ios_table()[4].rel_path[28] != ios_table()[14].rel_path[28]);
            } else if j == 15 {
                assert(ios_table()[4].rel_path[28] != ios_table()[15].rel_path[28]);
            } else if j == 16 {
                assert(ios_table()[4].rel_path[28] != ios_table()[16].rel_path[28]);
            } else if j == 17 {
                assert(ios_table()[4].rel_path[28] != ios_table()[17].rel_path[28]);
            }
        } else if i == 5 {
            if j == 6 {
                assert(ios_table()[5].rel_path[28] != ios_table()[6].rel_path[28]);
            } else if j == 7 {
                assert(ios_table()[5].rel_path[28] != ios_table()[7].rel_path[28]);
            } else if j == 8 {
                assert(ios_table()[5].rel_path[28] != ios_table()[8].rel_path[28]);
            } else if j == 9 {
                assert(ios_table()[5].rel_path[28] != ios_table()[9].rel_path[28]);
            } else if j == 10 {
                assert(ios_table()[5].rel_path[28] != ios_table()[10].rel_path[28]);
            } else if j == 11 {
                assert(ios_table()[5].rel_path[28] != ios_table()[11].rel_path[28]);
            } else if j == 12 {
                assert(ios_table()[5].rel_path[30] != ios_table()[12].rel_path[30]);
            } else if j == 13 {
                assert(ios_table()[5].rel_path[31] != ios_table()[13].rel_path[31]);
            } else if j == 14 {
                assert(ios_table()[5].rel_path[28] != ios_table()[14].rel_path[28]);
            } else if j == 15 {
                assert(ios_table()[5].rel_path[28] != ios_table()[15].rel_path[28]);
            } else if j == 16 {
                assert(ios_table()[5].rel_path[28] != ios_table()[16].rel_path[28]);
            } else if j == 17 {
                assert(ios_table()[5].rel_path[28] != ios_table()[17].rel_path[28]);
            }
        } else if i == 6 {
            if j == 7 {
                assert(ios_table()[6].rel_path[31] != ios_table()[7].rel_path[31]);
            } else if j == 8 {
                assert(ios_table()[6].rel_path[28] != ios_table()[8].rel_path[28]);
            } else if j == 9 {
                assert(ios_table()[6].rel_path[28] != ios_table()[9].rel_path[28]);
            } else if j == 10 {
                assert(ios_table()[6].rel_path[28] != ios_table()[10].rel_path[28]);
            } else if j == 11 {
                assert(ios_table()[6].rel_path[28] != ios_table()[11].rel_path[28]);
            } else if j == 12 {
                assert(ios_table()[6].rel_path[28] != ios_table()[12].rel_path[28]);
            } else if j == 13 {
                assert(ios_table()[6].rel_path[28] != ios_table()[13].rel_path[28]);
            } else if j == 14 {
                assert(ios_table()[6].rel_path[28] != ios_table()[14].rel_path[28]);
            } else if j == 15 {
                assert(ios_table()[6].rel_path[28] != ios_table()[15].rel_path[28]);
            } else if j == 16 {
                assert(ios_table()[6].rel_path[28] != ios_table()[16].rel_path[28]);
            } else if j == 17 {
                assert(ios_table()[6].rel_path[28] != ios_table()[17].rel_path[28]);
            }
        } else if i == 7 {
            if j == 8 {
                assert(ios_table()[7].rel_path[28] != ios_table()[8].rel_path[28]);
            } else if j == 9 {
                assert(ios_table()[7].rel_path[28] != ios_table()[9].rel_path[28]);
            } else if j == 10 {
                assert(ios_table()[7].rel_path[28] != ios_table()[10].rel_path[28]);
            } else if j == 11 {
                assert(ios_table()[7].rel_path[28] != ios_table()[11].rel_path[28]);
            } else if j == 12 {
                assert(ios_table()[7].rel_path[28] != ios_table()[12].rel_path[28]);
            } else if j == 13 {
                assert(ios_table()[7].rel_path[28] != ios_table()[13].rel_path[28]);
            } else if j == 14 {
                assert(ios_table()[7].rel_path[28] != ios_table()[14].rel_path[28]);
            } else if j == 15 {
                assert(ios_table()[7].rel_path[28] != ios_table()[15].rel_path[28]);
            } else if j == 16 {
                assert(ios_table()[7].rel_path[28] != ios_table()[16].rel_path[28]);
            } else if j == 17 {
                assert(ios_table()[7].rel_path[28] != ios_table()[17].rel_path[28]);
            }
        } else if i == 8 {
            if j == 9 {
                assert(ios_table()[8].rel_path[30] != ios_table()[9].rel_path[30]);
            } else if j == 10 {
                assert(ios_table()[8].rel_path[29] != ios_table()[10].rel_path[29]);
            } else if j == 11 {
                assert(ios_table()[8].rel_path[29] != ios_table()[11].rel_path[29]);
            } else if j == 12 {
                assert(ios_table()[8].rel_path[28] != ios_table()[12].rel_path[28]);
            } else if j == 13 {
                assert(ios_table()[8].rel_path[28] != ios_table()[13].rel_path[28]);
            } else if j == 14 {
                assert(ios_table()[8].rel_path[28] != ios_table()[14].rel_path[28]);
            } else if j == 15 {
                assert(ios_table()[8].rel_path[28] != ios_table()[15].rel_path[28]);
            } else if j == 16 {
                assert(ios_table()[8].rel_path[28] != ios_table()[16].rel_path[28]);
            } else if j == 17 {
                assert(ios_table()[8].rel_path[28] != ios_table()[17].rel_path[28]);
            }
        } else if i == 9 {
            if j == 10 {
                assert(ios_table()[9].rel_path[29] != ios_table()[10].rel_path[29]);
            } else if j == 11 {
                assert(ios_table()[9].rel_path[29] != ios_table()[11].rel_path[29]);
            } else if j == 12 {
                assert(ios_table()[9].rel_path[28] != ios_table()[12].rel_path[28]);
            } else if j == 13 {
                assert(ios_table()[9].rel_path[28] != ios_table()[13].rel_path[28]);
            } else if j == 14 {
                assert(ios_table()[9].rel_path[28] != ios_table()[14].rel_path[28]);
            } else if j == 15 {
                assert(ios_table()[9].rel_path[28] != ios_table()[15].rel_path[28]);
            } else if j == 16 {
                assert(ios_table()[9].rel_path[28] != ios_table()[16].rel_path[28]);
            } else if j == 17 {
                assert(ios_table()[9].rel_path[28] != ios_table()[17].rel_path[28]);
            }
        } else if i == 10 {
            if j == 11 {
                assert(ios_table()[10].rel_path[30] != ios_table()[11].rel_path[30]);
            } else if j == 12 {
                assert(ios_table()[10].rel_path[28] != ios_table()[12].rel_path[28]);
            } else if j == 13 {
                assert(ios_table()[10].rel_path[28] != ios_table()[13].rel_path[28]);
            } else if j == 14 {
                assert(ios_table()[10].rel_path[28] != ios_table()[14].rel_path[28]);
            } else if j == 15 {
                assert(ios_table()[10].rel_path[28] != ios_table()[15].rel_path[28]);
            } else if j == 16 {
                assert(ios_table()[10].rel_path[28] != ios_table()[16].rel_path[28]);
            } else if j == 17 {
                assert(ios_table()[10].rel_path[28] != ios_table()[17].rel_path[28]);
            }
        } else if i == 11 {
            if j == 12 {
                assert(ios_table()[11].rel_path[28] != ios_table()[12].rel_path[28]);
            } else if j == 13 {
                assert(ios_table()[11].rel_path[28] != ios_table()[13].rel_path[28]);
            } else if j == 14 {
                assert(ios_table()[11].rel_path[28] != ios_table()[14].rel_path[28]);
            } else if j == 15 {
                assert(ios_table()[11].rel_path[28] != ios_table()[15].rel_path[28]);
            } else if j == 16 {
                assert(ios_table()[11].rel_path[28] != ios_table()[16].rel_path[28]);
            } else if j == 17 {
                assert(ios_table()[11].rel_path[28] != ios_table()[17].rel_path[28]);
            }
        } else if i == 12 {
            if j == 13 {
                assert(ios_table()[12].rel_path[30] != ios_table()[13].rel_path[30]);
            } else if j == 14 {
                assert(ios_table()[12].rel_path[28] != ios_table()[14].rel_path[28]);
            } else if j == 15 {
                assert(ios_table()[12].rel_path[28] != ios_table()[15].rel_path[28]);
            } else if j == 16 {
                assert(ios_table()[12].rel_path[28] != ios_table()[16].rel_path[28]);
            } else if j == 17 {
                assert(ios_table()[12].rel_path[28] != ios_table()[17].rel_path[28]);
            }
        } else if i == 13 {
            if j == 14 {
                assert(ios_table()[13].rel_path[28] != ios_table()[14].rel_path[28]);
            } else if j == 15 {
                assert(ios_table()[13].rel_path[28] != ios_table()[15].rel_path[28]);
            } else if j == 16 {
                assert(ios_table()[13].rel_path[28] != ios_table()[16].rel_path[28]);
            } else if j == 17 {
                assert(ios_table()[13].rel_path[28] != ios_table()[17].rel_path[28]);
            }
        } else if i == 14 {
            if j == 15 {
                assert(ios_table()[14].rel_path[30] != ios_table()[15].rel_path[30]);
            } else if j == 16 {
                assert(ios_table()[14].rel_path[28] != ios_table()[16].rel_path[28]);
            } else if j == 17 {
                assert(ios_table()[14].rel_path[28] != ios_table()[17].rel_path[28]);
            }
        } else if i == 15 {
            if j == 16 {
                assert(ios_table()[15].rel_path[28] != ios_table()[16].rel_path[28]);
            } else if j == 17 {
                assert(ios_table()[15].rel_path[28] != ios_table()[17].rel_path[28]);
            }
        } else if i == 16 {
            if j == 17 {
                assert(ios_table()[16].rel_path[28] != ios_table()[17].rel_path[28]);
            }
        } else if i == 17 {
        }
    }
    assert forall|i: int, j: int| 0 <= i < j < 10 implies #[trigger] macos_table()[i].rel_path != #[trigger] macos_table()[j].rel_path by {
        if i == 0 {
            if j == 1 {
                assert(macos_table()[0].rel_path[32] != macos_table()[1].rel_path[32]);
            } else if j == 2 {
                assert(macos_table()[0].rel_path[27] != macos_table()[2].rel_path[27]);
            } else if j == 3 {
                assert(macos_table()[0].rel_path[27] != macos_table()[3].rel_path[27]);
            } else if j == 4 {
                assert(macos_table()[0].rel_path[28] != macos_table()[4].rel_path[28]);
            } else if j == 5 {
                assert(macos_table()[0].rel_path[28] != macos_table()[5].rel_path[28]);
            } else if j == 6 {
                assert(macos_table()[0].rel_path[27] != macos_table()[6].rel_path[27]);
            } else if j == 7 {
                assert(macos_table()[0].rel_path[27] != macos_table()[7].rel_path[27]);
            } else if j == 8 {
                assert(macos_table()[0].rel_path[27] != macos_table()[8].rel_path[27]);
            } else if j == 9 {
                assert(macos_table()[0].rel_path[27] != macos_table()[9].rel_path[27]);
            }
        } else if i == 1 {
            if j == 2 {
                assert(macos_table()[1].rel_path[27] != macos_table()[2].rel_path[27]);
            } else if j == 3 {
                assert(macos_table()[1].rel_path[27] != macos_table()[3].rel_path[27]);
            } else if j == 4 {
                assert(macos_table()[1].rel_path[28] != macos_table()[4].rel_path[28]);
            } else if j == 5 {
                assert(macos_table()[1].rel_path[28] != macos_table()[5].rel_path[28]);
            } else if j == 6 {
                assert(macos_table()[1].rel_path[27] != macos_table()[6].rel_path[27]);
            } else if j == 7 {
                assert(macos_table()[1].rel_path[27] != macos_table()[7].rel_path[27]);
            } else if j == 8 {
                assert(macos_table()[1].rel_path[27] != macos_table()[8].rel_path[27]);
            } else if j == 9 {
                assert(macos_table()[1].rel_path[27] != macos_table()[9].rel_path[27]);
            }
        } else if i == 2 {
            if j == 3 {
                assert(macos_table()[2].rel_path[32] != macos_table()[3].rel_path[32]);
            } else if j == 4 {
                assert(macos_table()[2].rel_path[27] != macos_table()[4].rel_path[27]);
            } else if j == 5 {
                assert(macos_table()[2].rel_path[27] != macos_table()[5].rel_path[27]);
            } else if j == 6 {
                assert(macos_table()[2].rel_path[27] != macos_table()[6].rel_path[27]);
            } else if j == 7 {
                assert(macos_table()[2].rel_path[27] != macos_table()[7].rel_path[27]);
            } else if j == 8 {
                assert(macos_table()[2].rel_path[27] != macos_table()[8].rel_path[27]);
            } else if j == 9 {
                assert(macos_table()[2].rel_path[27] != macos_table()[9].rel_path[27]);
            }
        } else if i == 3 {
            if j == 4 {
                assert(macos_table()[3].rel_path[27] != macos_table()[4].rel_path[27]);
            } else if j == 5 {
                assert(macos_table()[3].rel_path[27] != macos_table()[5].rel_path[27]);
            } else if j == 6 {
                assert(macos_table()[3].rel_path[27] != macos_table()[6].rel_path[27]);
            } else if j == 7 {
                assert(macos_table()[3].rel_path[27] != macos_table()[7].rel_path[27]);
            } else if j == 8 {
                assert(macos_table()[3].rel_path[27] != macos_table()[8].rel_path[27]);
            } else if j == 9 {
                assert(macos_table()[3].rel_path[27] != macos_table()[9].rel_path[27]);
            }
        } else if i == 4 {
            if j == 5 {
                assert(macos_table()[4].rel_path[34] != macos_table()[5].rel_path[34]);
            } else if j == 6 {
                assert(macos_table()[4].rel_path[27] != macos_table()[6].rel_path[27]);
            } else if j == 7 {
                assert(macos_table()[4].rel_path[27] != macos_table()[7].rel_path[27]);
            } else if j == 8 {
                assert(macos_table()[4].rel_path[27] != macos_table()[8].rel_path[27]);
            } else if j == 9 {
                assert(macos_table()[4].rel_path[27] != macos_table()[9].rel_path[27]);
            }
        } else if i == 5 {
            if j == 6 {
                assert(macos_table()[5].rel_path[27] != macos_table()[6].rel_path[27]);
            } else if j == 7 {
                assert(macos_table()[5].rel_path[27] != macos_table()[7].rel_path[27]);
            } else if j == 8 {
                assert(macos_table()[5].rel_path[27] != macos_table()[8].rel_path[27]);
            } else if j == 9 {
                assert(macos_table()[5].rel_path[27] != macos_table()[9].rel_path[27]);
            }
        } else if i == 6 {
            if j == 7 {
                assert(macos_table()[6].rel_path[34] != macos_table()[7].rel_path[34]);
            } else if j == 8 {
                assert(macos_table()[6].rel_path[27] != macos_table()[8].rel_path[27]);
            } else if j == 9 {
                assert(macos_table()[6].rel_path[27] != macos_table()[9].rel_path[27]);
            }
        } else if i == 7 {
            if j == 8 {
                assert(macos_table()[7].rel_path[27] != macos_table()[8].rel_path[27]);
            } else if j == 9 {
                assert(macos_table()[7].rel_path[27] != macos_table()[9].rel_path[27]);
            }
        } else if i == 8 {
            if j == 9 {
                assert(macos_table()[8].rel_path[34] != macos_table()[9].rel_path[34]);
            }
        } else if i == 9 {
        }
    }
    assert forall|i: int, j: int| 0 <= i < j < 6 implies #[trigger] web_table()[i].rel_path != #[trigger] web_table()[j].rel_path by {
        if i == 0 {
            if j == 1 {
                assert(web_table()[0].rel_path[12] != web_table()[1].rel_path[12]);
            } else if j == 2 {
                assert(web_table()[0].rel_path[12] != web_table()[2].rel_path[12]);
            } else if j == 3 {
                assert(web_table()[0].rel_path[13] != web_table()[3].rel_path[13]);
            } else if j == 4 {
                assert(web_table()[0].rel_path[12] != web_table()[4].rel_path[12]);
            } else if j == 5 {
                assert(web_table()[0].rel_path[4] != web_table()[5].rel_path[4]);
            }
        } else if i == 1 {
            if j == 2 {
                assert(web_table()[1].rel_path[12] != web_table()[2].rel_path[12]);
            } else if j == 3 {
                assert(web_table()[1].rel_path[12] != web_table()[3].rel_path[12]);
            } else if j == 4 {
                assert(web_table()[1].rel_path[12] != web_table()[4].rel_path[12]);
            } else if j == 5 {
                assert(web_table()[1].rel_path[4] != web_table()[5].rel_path[4]);
            }
        } else if i == 2 {
            if j == 3 {
                assert(web_table()[2].rel_path[12] != web_table()[3].rel_path[12]);
            } else if j == 4 {
                assert(web_table()[2].rel_path[12] != web_table()[4].rel_path[12]);
            } else if j == 5 {
                assert(web_table()[2].rel_path[4] != web_table()[5].rel_path[4]);
            }
        } else if i == 3 {
            if j == 4 {
                assert(web_table()[3].rel_path[12] != web_table()[4].rel_path[12]);
            } else if j == 5 {
                assert(web_table()[3].rel_path[4] != web_table()[5].rel_path[4]);
            }
        } else if i == 4 {
            if j == 5 {
                assert(web_table()[4].rel_path[4] != web_table()[5].rel_path[4]);
            }
        } else if i == 5 {
        }
    }
    assert forall|i: int, j: int| 0 <= i < j < 5 implies #[trigger] android_table()[i].rel_path != #[trigger] android_table()[j].rel_path by {
        if i == 0 {
            if j == 1 {
                assert(android_table()[0].rel_path[15] != android_table()[1].rel_path[15]);
            } else if j == 2 {
                assert(android_table()[0].rel_path[15] != android_table()[2].rel_path[15]);
            } else if j == 3 {
                assert(android_table()[0].rel_path[15] != android_table()[3].rel_path[15]);
            } else if j == 4 {
                assert(android_table()[0].rel_path[15] != android_table()[4].rel_path[15]);
            }
        } else if i == 1 {
            if j == 2 {
                assert(android_table()[1].rel_path[15] != android_table()[2].rel_path[15]);
            } else if j == 3 {
                assert(android_table()[1].rel_path[15] != android_table()[3].rel_path[15]);
            } else if j == 4 {
                assert(android_table()[1].rel_path[15] != android_table()[4].rel_path[15]);
            }
        } else if i == 2 {
            if j == 3 {
                assert(android_table()[2].rel_path[16] != android_table()[3].rel_path[16]);
            } else if j == 4 {
                assert(android_table()[2].rel_path[16] != android_table()[4].rel_path[16]);
            }
        } else if i == 3 {
            if j == 4 {
                assert(android_table()[3].rel_path[17] != android_table()[4].rel_path[17]);
            }
        } else if i == 4 {
        }
    }
    reveal_with_fuel(decimal, 5);
    assert(decimal(16) =~= seq![digit_char(1), digit_char(6)]);
    assert(decimal(24) =~= seq![digit_char(2), digit_char(4)]);
    assert(decimal(32) =~= seq![digit_char(3), digit_char(2)]);
    assert(decimal(48) =~= seq![digit_char(4), digit_char(8)]);
    assert(decimal(64) =~= seq![digit_char(6), digit_char(4)]);
    assert(decimal(128) =~= seq![digit_char(1), digit_char(2), digit_char(8)]);
    assert(decimal(256) =~= seq![digit_char(2), digit_char(5), digit_char(6)]);
    assert(decimal(512) =~= seq![digit_char(5), digit_char(1), digit_char(2)]);
    assert(decimal(1024) =~= seq![digit_char(1), digit_char(0), digit_char(2), digit_char(4)]);
    assert(linux_sizes() =~= seq![16u32, 24, 32, 48, 64, 128, 256, 512, 1024]);
    assert forall|i: int, j: int| 0 <= i < j < 9 implies #[trigger] linux_table()[i].rel_path != #[trigger] linux_table()[j].rel_path by {
        if i == 0 {
            if j == 1 {
                assert(linux_path(16)[14] != linux_path(24)[14]);
            } else if j == 2 {
                assert(linux_path(16)[14] != linux_path(32)[14]);
            } else if j == 3 {
                assert(linux_path(16)[14] != linux_path(48)[14]);
            } else if j == 4 {
                assert(linux_path(16)[14] != linux_path(64)[14]);
            } else if j == 5 {
                assert(linux_path(16)[15] != linux_path(128)[15]);
            } else if j == 6 {
                assert(linux_path(16)[14] != linux_path(256)[14]);
            } else if j == 7 {
                assert(linux_path(16)[14] != linux_path(512)[14]);
            } else if j == 8 {
                assert(linux_path(16)[15] != linux_path(1024)[15]);
            }
        } else if i == 1 {
            if j == 2 {
                assert(linux_path(24)[14] != linux_path(32)[14]);
            } else if j == 3 {
                assert(linux_path(24)[14] != linux_path(48)[14]);
            } else if j == 4 {
                assert(linux_path(24)[14] != linux_path(64)[14]);
            } else if j == 5 {
                assert(linux_path(24)[14] != linux_path(128)[14]);
            } else if j == 6 {
                assert(linux_path(24)[15] != linux_path(256)[15]);
            } else if j == 7 {
                assert(linux_path(24)[14] != linux_path(512)[14]);
            } else if j == 8 {
                assert(linux_path(24)[14] != linux_path(1024)[14]);
            }
        } else if i == 2 {
            if j == 3 {
                assert(linux_path(32)[14] != linux_path(48)[14]);
            } else if j == 4 {
                assert(linux_path(32)[14] != linux_path(64)[14]);
            } else if j == 5 {
                assert(linux_path(32)[14] != linux_path(128)[14]);
            } else if j == 6 {
                assert(linux_path(32)[14] != linux_path(256)[14]);
            } else if j == 7 {
                assert(linux_path(32)[14] != linux_path(512)[14]);
            } else if j == 8 {
                assert(linux_path(32)[14] != linux_path(1024)[14]);
            }
        } else if i == 3 {
            if j == 4 {
                assert(linux_path(48)[14] != linux_path(64)[14]);
            } else if j == 5 {
                assert(linux_path(48)[14] != linux_path(128)[14]);
            } else if j == 6 {
                assert(linux_path(48)[14] != linux_path(256)[14]);
            } else if j == 7 {
                assert(linux_path(48)[14] != linux_path(512)[14]);
            } else if j == 8 {
                assert(linux_path(48)[14] != linux_path(1024)[14]);
            }
        } else if i == 4 {
            if j == 5 {
                assert(linux_path(64)[14] != linux_path(128)[14]);
            } else if j == 6 {
                assert(linux_path(64)[14] != linux_path(256)[14]);
            } else if j == 7 {
                assert(linux_path(64)[14] != linux_path(512)[14]);
            } else if j == 8 {
                assert(linux_path(64)[14] != linux_path(1024)[14]);
            }
        } else if i == 5 {
            if j == 6 {
                assert(linux_path(128)[14] != linux_path(256)[14]);
            } else if j == 7 {
                assert(linux_path(128)[14] != linux_path(512)[14]);
            } else if j == 8 {
                assert(linux_path(128)[15] != linux_path(1024)[15]);
            }
        } else if i == 6 {
            if j == 7 {
                assert(linux_path(256)[14] != linux_path(512)[14]);
            } else if j == 8 {
                assert(linux_path(256)[14] != linux_path(1024)[14]);
            }
        } else if i == 7 {
            if j == 8 {
                assert(linux_path(512)[14] != linux_path(1024)[14]);
            }
        } else if i == 8 {
        }
    }
}

/// Every iOS slot names a file: its path ends in neither `/` nor `.`.
pub proof fn lemma_ios_paths_are_files()
    ensures
        forall|i: int|
            0 <= i < ios_table().len() ==> (#[trigger] crate::paths::file_name_of(ios_table()[i].rel_path)) is Some,
{
    lemma_table_literals();
    assert forall|i: int| 0 <= i < ios_table().len() implies (#[trigger] crate::paths::file_name_of(ios_table()[i].rel_path)) is Some by {
        lemma_plain_file_name(ios_table()[i].rel_path);
    }
}

/// Every slot path is relative: it is not empty and does not start with `/`.
pub open spec fn is_relative(p: Seq<char>) -> bool {
    p.len() > 0 && p[0] != '/'
}

/// The platforms, in the order their sets are generated for `All`.
pub open spec fn platforms() -> Seq<Target> {
    seq![Target::Ios, Target::Macos, Target::Linux, Target::Web, Target::Android]
}

/// Each platform writes only inside its own folder: every slot path of a
/// platform starts with the platform's folder name and a `/`.
pub proof fn lemma_slots_in_platform_folder(t: Target)
    requires
        t != Target::All,
    ensures
        forall|i: int|
            0 <= i < slots_table(t).len() ==> (target_folder(t) + "/"@).is_prefix_of(
                #[trigger] slots_table(t)[i].rel_path,
            ),
{
    lemma_table_literals();
}

/// The first character of a platform's slot paths: the first letter of its
/// folder, which differs between platforms.
proof fn lemma_first_chars(t: Target, i: int)
    requires
        t != Target::All,
        0 <= i < slots_table(t).len(),
    ensures
        slots_table(t)[i].rel_path.len() > 0,
        slots_table(t)[i].rel_path[0] == target_folder(t)[0],
        target_folder(t)[0] == (if t == Target::Ios {
            'i'
        } else if t == Target::Macos {
            'm'
        } else if t == Target::Linux {
            'l'
        } else if t == Target::Web {
            'w'
        } else {
            'a'
        }),
{
    lemma_table_literals();
    reveal_strlit("ios");
    reveal_strlit("macos");
    reveal_strlit("linux");
    reveal_strlit("web");
    reveal_strlit("android");
    let p = slots_table(t)[i].rel_path;
    let pre = target_folder(t) + "/"@;
    assert(pre.is_prefix_of(p));
    assert(pre[0] == p.subrange(0, pre.len() as int)[0]);
}

/// Where the `k`-th slot of `All` comes from: the platform and the index in
/// that platform's table.
pub open spec fn all_slot_origin(k: int) -> (Target, int) {
    let a = ios_table().len() as int;
    let b = a + macos_table().len();
    let c = b + linux_table().len();
    let d = c + web_table().len();
    if k < a {
        (Target::Ios, k)
    } else if k < b {
        (Target::Macos, k - a)
    } else if k < c {
        (Target::Linux, k - b)
    } else if k < d {
        (Target::Web, k - c)
    } else {
        (Target::Android, k - d)
    }
}

proof fn lemma_all_slot_origin(k: int)
    requires
        0 <= k < slots_table(Target::All).len(),
    ensures
        all_slot_origin(k).0 != Target::All,
        0 <= all_slot_origin(k).1 < slots_table(all_slot_origin(k).0).len(),
        slots_table(Target::All)[k] == slots_table(all_slot_origin(k).0)[all_slot_origin(k).1],
{
}

/// Every slot of every target has a relative path, so the files of an icon
/// set all go inside the output folder.
pub proof fn lemma_slot_paths_relative(t: Target)
    ensures
        forall|i: int| 0 <= i < slots_table(t).len() ==> is_relative(#[trigger] slots_table(t)[i].rel_path),
{
    assert forall|i: int| 0 <= i < slots_table(t).len() implies is_relative(#[trigger] slots_table(t)[i].rel_path) by {
        if t == Target::All {
            lemma_all_slot_origin(i);
            lemma_first_chars(all_slot_origin(i).0, all_slot_origin(i).1);
        } else {
            lemma_first_chars(t, i);
        }
    }
}

/// No two slots of a target share a path, so a run never writes one file
/// twice.
pub proof fn lemma_slot_paths_distinct(t: Target)
    ensures
        forall|i: int, j: int|
            0 <= i < j < slots_table(t).len() ==> #[trigger] slots_table(t)[i].rel_path
                != #[trigger] slots_table(t)[j].rel_path,
{
    lemma_table_literals();
    if t == Target::All {
        assert forall|i: int, j: int| 0 <= i < j < slots_table(t).len() implies #[trigger] slots_table(t)[i].rel_path
            != #[trigger] slots_table(t)[j].rel_path by {
            lemma_all_slot_origin(i);
            lemma_all_slot_origin(j);
            let (pi, ki) = all_slot_origin(i);
            let (pj, kj) = all_slot_origin(j);
            if pi == pj {
                assert(ki < kj);
                assert(slots_table(pi)[ki].rel_path != slots_table(pi)[kj].rel_path);
            } else {
                lemma_first_chars(pi, ki);
                lemma_first_chars(pj, kj);
            }
        }
    }
}

/// Every slot size lies between 16 and 1024 pixels.
pub proof fn lemma_slot_sizes_in_range(t: Target)
    ensures
        forall|i: int|
            0 <= i < slots_table(t).len() ==> 16 <= (#[trigger] slots_table(t)[i]).size <= 1024,
{
    assert(linux_sizes() =~= seq![16u32, 24, 32, 48, 64, 128, 256, 512, 1024]);
    assert forall|i: int| 0 <= i < slots_table(t).len() implies 16 <= (#[trigger] slots_table(t)[i]).size <= 1024 by {
        if t == Target::All {
            lemma_all_slot_origin(i);
        }
    }
}


/// Some slot of `t` is written inside the folder `folder`.
pub open spec fn writes_under(t: Target, folder: Seq<char>) -> bool {
    exists|i: int|
        0 <= i < slots_table(t).len() && (folder + "/"@).is_prefix_of(#[trigger] slots_table(t)[i].rel_path)
}

/// Slot `i` of `t` lies in the folder of platform `p` (not `All`).
proof fn lemma_slot_under_platform(t: Target, i: int, p: Target)
    requires
        t != Target::All,
        p != Target::All,
        0 <= i < slots_table(t).len(),
    ensures
        (target_folder(p) + "/"@).is_prefix_of(slots_table(t)[i].rel_path) ==> t == p,
{
    lemma_first_chars(t, i);
    lemma_first_chars(p, 0);
    reveal_strlit("ios");
    reveal_strlit("macos");
    reveal_strlit("linux");
    reveal_strlit("web");
    reveal_strlit("android");
    let path = slots_table(t)[i].rel_path;
    let pre = target_folder(p) + "/"@;
    if pre.is_prefix_of(path) {
        assert(pre[0] == path.subrange(0, pre.len() as int)[0]);
        assert(pre[0] == target_folder(p)[0]);
    }
}

/// Which targets write the iOS App Icon set and which the Linux hicolor
/// tree: a target has slots in the `ios` folder exactly when it is iOS or
/// All, and in the `linux` folder exactly when it is Linux or All.
pub proof fn lemma_writes_under_platform(t: Target)
    ensures
        writes_under(t, "ios"@) <==> (t == Target::Ios || t == Target::All),
        writes_under(t, "linux"@) <==> (t == Target::Linux || t == Target::All),
{
    lemma_slots_in_platform_folder(Target::Ios);
    lemma_slots_in_platform_folder(Target::Linux);
    lemma_first_chars(Target::Ios, 0);
    lemma_first_chars(Target::Linux, 0);
    assert(target_folder(Target::Ios) == "ios"@);
    assert(target_folder(Target::Linux) == "linux"@);
    if t == Target::All {
        let k = (ios_table().len() + macos_table().len()) as int;
        lemma_all_slot_origin(0);
        lemma_all_slot_origin(k);
        assert(all_slot_origin(0) == (Target::Ios, 0int));
        assert(all_slot_origin(k) == (Target::Linux, 0int));
        let _ = slots_table(t)[0];
        let _ = slots_table(t)[k];
    } else {
        assert forall|i: int| 0 <= i < slots_table(t).len() implies (("ios"@ + "/"@).is_prefix_of(
            #[trigger] slots_table(t)[i].rel_path,
        ) ==> t == Target::Ios) && (("linux"@ + "/"@).is_prefix_of(slots_table(t)[i].rel_path) ==> t
            == Target::Linux) by {
            lemma_slot_under_platform(t, i, Target::Ios);
            lemma_slot_under_platform(t, i, Target::Linux);
        }
        if t == Target::Ios || t == Target::Linux {
            let _ = slots_table(t)[0];
        }
    }
}

} // verus!
