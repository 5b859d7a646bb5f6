use vstd::prelude::*;

use crate::error::{error_view, Error};

verus! {

pub const APP_ID: &'static str = "com.shadowfetch.IconFactory";

pub const APP_NAME: &'static str = "Shadow Icon Factory";

pub const APP_ICON: &'static str = "shadow-icon-factory";

pub const APP_WEBSITE: &'static str = "https://github.com/ShadowfetchLinux/Shadow-Icon-Factory";

/// The model of an optional string.
pub open spec fn opt_string_view(o: Option<String>) -> Option<Seq<char>> {
    match o {
        Some(s) => Some(s@),
        None => None,
    }
}

/// `base` joined with `rel` as a Unix `PathBuf::push` does: an absolute `rel`
/// replaces `base`; otherwise a `/` goes between them unless `base` is empty
/// or already ends in one.
pub open spec fn path_join(base: Seq<char>, rel: Seq<char>) -> Seq<char> {
    if rel.len() > 0 && rel[0] == '/' {
        rel
    } else if base.len() == 0 || base.last() == '/' {
        base + rel
    } else {
        base + "/"@ + rel
    }
}

/// Joins `rel` onto `base`, as `Path::join` does on Unix.
pub fn join_path(base: &str, rel: &str) -> (p: String)
    ensures
        p@ == path_join(base@, rel@),
{
    proof {
        reveal_strlit("/");
    }
    let rel_len = rel.unicode_len();
    if rel_len > 0 && rel.get_char(0) == '/' {
        return String::from_str(rel);
    }
    let base_len = base.unicode_len();
    let mut p = String::from_str(base);
    if base_len > 0 && base.get_char(base_len - 1) != '/' {
        p.append("/");
    }
    p.append(rel);
    p
}


/// The characters of `s`, one by one.
pub fn str_chars(s: &str) -> (v: Vec<char>)
    ensures
        v@ == s@,
{
    let n = s.unicode_len();
    let mut v: Vec<char> = Vec::new();
    for i in 0..n
        invariant
            n == s@.len(),
            v@ =~= s@.take(i as int),
    {
        v.push(s.get_char(i));
    }
    assert(s@.take(n as int) =~= s@);
    v
}

/// The characters after the last `/` of `p` (all of `p` where it has none).
pub open spec fn last_segment(p: Seq<char>) -> Seq<char>
    decreases p.len(),
{
    if p.len() == 0 {
        p
    } else if p.last() == '/' {
        Seq::empty()
    } else {
        last_segment(p.drop_last()).push(p.last())
    }
}

/// The final component of a Unix path, as `Path::file_name` finds it:
/// trailing `/` and `.` components are ignored, and there is none where the
/// path is empty, is only a root or `.`, or ends in `..`.
pub open spec fn file_name_of(p: Seq<char>) -> Option<Seq<char>>
    decreases p.len(),
{
    if p.len() == 0 {
        None
    } else if p.last() == '/' {
        file_name_of(p.drop_last())
    } else if last_segment(p) == seq!['.'] {
        file_name_of(p.drop_last())
    } else if last_segment(p) == seq!['.', '.'] {
        None
    } else {
        Some(last_segment(p))
    }
}

/// The extension of a file name, as `Path::extension` finds it: the part
/// after the last `.`, where that `.` is not the first character.
pub open spec fn name_extension(f: Seq<char>) -> Option<Seq<char>>
    decreases f.len(),
{
    if f.len() <= 1 {
        None
    } else if f.last() == '.' {
        Some(Seq::empty())
    } else {
        match name_extension(f.drop_last()) {
            Some(e) => Some(e.push(f.last())),
            None => None,
        }
    }
}

/// The extension of a path's file name.
pub open spec fn extension_of(p: Seq<char>) -> Option<Seq<char>> {
    match file_name_of(p) {
        Some(f) => name_extension(f),
        None => None,
    }
}

proof fn lemma_last_segment_split(p: Seq<char>, k: int)
    requires
        0 <= k <= p.len(),
        k == 0 || p[k - 1] == '/',
        forall|j: int| k <= j < p.len() ==> p[j] != '/',
    ensures
        last_segment(p) == p.subrange(k, p.len() as int),
    decreases p.len(),
{
    if p.len() == k {
        if p.len() > 0 {
            assert(p.last() == '/');
        }
        assert(p.subrange(k, p.len() as int) =~= Seq::<char>::empty());
    } else {
        lemma_last_segment_split(p.drop_last(), k);
        assert(p.subrange(k, p.len() as int) =~= p.drop_last().subrange(k, p.len() - 1).push(p.last()));
    }
}

/// The start of the last segment of `cs[..end]`.
fn segment_start(cs: &Vec<char>, end: usize) -> (k: usize)
    requires
        end <= cs@.len(),
    ensures
        k <= end,
        last_segment(cs@.subrange(0, end as int)) == cs@.subrange(k as int, end as int),
{
    let mut k = end;
    while k > 0 && cs[k - 1] != '/'
        invariant
            k <= end <= cs@.len(),
            forall|j: int| k <= j < end ==> cs@[j] != '/',
        decreases k,
    {
        k = k - 1;
    }
    proof {
        let p = cs@.subrange(0, end as int);
        lemma_last_segment_split(p, k as int);
        assert(p.subrange(k as int, end as int) =~= cs@.subrange(k as int, end as int));
    }
    k
}

/// The final component of `path`, as `Path::file_name` gives it.
pub fn file_name(path: &str) -> (r: Option<String>)
    ensures
        opt_string_view(r) == file_name_of(path@),
{
    let cs = str_chars(path);
    let mut end = cs.len();
    assert(cs@.subrange(0, end as int) =~= path@);
    while end > 0
        invariant
            end <= cs@.len(),
            cs@ == path@,
            file_name_of(cs@.subrange(0, end as int)) == file_name_of(path@),
        decreases end,
    {
        let ghost p = cs@.subrange(0, end as int);
        assert(p.drop_last() =~= cs@.subrange(0, end - 1));
        if cs[end - 1] == '/' {
            end = end - 1;
        } else {
            let k = segment_start(&cs, end);
            let len = end - k;
            if len == 1 && cs[k] == '.' {
                assert(cs@.subrange(k as int, end as int) =~= seq!['.']);
                end = end - 1;
            } else if len == 2 && cs[k] == '.' && cs[k + 1] == '.' {
                assert(cs@.subrange(k as int, end as int) =~= seq!['.', '.']);
                return None;
            } else {
                assert(cs@.subrange(k as int, end as int) != seq!['.']) by {
                    if len == 1 {
                        assert(cs@.subrange(k as int, end as int)[0] == cs@[k as int]);
                    } else {
                        assert(seq!['.'].len() == 1);
                    }
                }
                assert(cs@.subrange(k as int, end as int) != seq!['.', '.']) by {
                    if len == 2 {
                        assert(cs@.subrange(k as int, end as int)[0] == cs@[k as int]);
                        assert(cs@.subrange(k as int, end as int)[1] == cs@[k + 1]);
                    } else {
                        assert(seq!['.', '.'].len() == 2);
                    }
                }
                return Some(String::from_str(path.substring_char(k, end)));
            }
        }
    }
    assert(cs@.subrange(0, 0) =~= Seq::<char>::empty());
    None
}


proof fn lemma_name_extension_at(f: Seq<char>, k: int)
    requires
        1 <= k < f.len(),
        f[k] == '.',
        forall|j: int| k < j < f.len() ==> f[j] != '.',
    ensures
        name_extension(f) == Some(f.subrange(k + 1, f.len() as int)),
    decreases f.len(),
{
    if k == f.len() - 1 {
        assert(f.subrange(k + 1, f.len() as int) =~= Seq::<char>::empty());
    } else {
        lemma_name_extension_at(f.drop_last(), k);
        assert(f.subrange(k + 1, f.len() as int) =~= f.drop_last().subrange(k + 1, f.len() - 1).push(f.last()));
    }
}

proof fn lemma_name_extension_none(f: Seq<char>)
    requires
        forall|j: int| 1 <= j < f.len() ==> f[j] != '.',
    ensures
        name_extension(f) is None,
    decreases f.len(),
{
    if f.len() > 1 {
        lemma_name_extension_none(f.drop_last());
    }
}

/// The extension of `path`, as `Path::extension` gives it.
pub fn extension(path: &str) -> (r: Option<String>)
    ensures
        opt_string_view(r) == extension_of(path@),
{
    let name = match file_name(path) {
        Some(n) => n,
        None => return None,
    };
    let cs = str_chars(name.as_str());
    let n = cs.len();
    let mut k = n;
    while k > 1 && cs[k - 1] != '.'
        invariant
            k <= n == cs@.len(),
            forall|j: int| k <= j < n ==> cs@[j] != '.',
        decreases k,
    {
        k = k - 1;
    }
    if k > 1 {
        proof {
            lemma_name_extension_at(cs@, k - 1);
        }
        Some(String::from_str(name.as_str().substring_char(k, n)))
    } else {
        proof {
            lemma_name_extension_none(cs@);
        }
        None
    }
}

/// `c` with ASCII capitals made lower case.
pub open spec fn ascii_lower(c: char) -> char {
    if 'A' <= c && c <= 'Z' {
        ((c as u32) + 32) as char
    } else {
        c
    }
}

/// The path names an SVG file: its extension is `svg` in any ASCII case.
pub open spec fn is_svg_path(p: Seq<char>) -> bool {
    match extension_of(p) {
        Some(e) => e.len() == 3 && ascii_lower(e[0]) == 's' && ascii_lower(e[1]) == 'v'
            && ascii_lower(e[2]) == 'g',
        None => false,
    }
}

fn lower_ascii(c: char) -> (l: char)
    ensures
        l == ascii_lower(c),
{
    if 'A' <= c && c <= 'Z' {
        ((c as u8) + 32) as char
    } else {
        c
    }
}

/// Whether `path` names an SVG master.
pub fn has_svg_extension(path: &str) -> (b: bool)
    ensures
        b == is_svg_path(path@),
{
    match extension(path) {
        Some(e) => {
            let cs = str_chars(e.as_str());
            cs.len() == 3 && lower_ascii(cs[0]) == 's' && lower_ascii(cs[1]) == 'v'
                && lower_ascii(cs[2]) == 'g'
        },
        None => false,
    }
}

/// `needle` occurs in `hay`.
pub open spec fn has_substring(hay: Seq<char>, needle: Seq<char>) -> bool {
    exists|i: int|
        0 <= i && i + needle.len() <= hay.len() && #[trigger] hay.subrange(i, i + needle.len())
            == needle
}

/// Whether `needle` occurs in `hay`, as `str::contains` finds it.
pub fn contains_str(hay: &str, needle: &str) -> (b: bool)
    ensures
        b == has_substring(hay@, needle@),
{
    let h = str_chars(hay);
    let n = str_chars(needle);
    if n.len() > h.len() {
        return false;
    }
    if n.len() == 0 {
        assert(hay@.subrange(0int, 0int + needle@.len()) =~= needle@);
        return true;
    }
    let last = h.len() - n.len();
    let mut i: usize = 0;
    while i <= last
        invariant
            h@ == hay@,
            n@ == needle@,
            last == h@.len() - n@.len(),
            n@.len() > 0,
            h@.len() <= usize::MAX,
            forall|s: int| 0 <= s < i ==> #[trigger] h@.subrange(s, s + n@.len()) != n@,
        decreases last + 1 - i,
    {
        let mut j: usize = 0;
        while j < n.len() && h[i + j] == n[j]
            invariant
                i <= last,
                last == h@.len() - n@.len(),
                n@.len() > 0,
                h@.len() <= usize::MAX,
                j <= n@.len(),
                forall|t: int| 0 <= t < j ==> h@[i + t] == n@[t],
            decreases n@.len() - j,
        {
            j = j + 1;
        }
        if j == n.len() {
            assert(h@.subrange(i as int, i + n@.len()) =~= n@);
            return true;
        }
        assert(h@.subrange(i as int, i + n@.len())[j as int] == h@[i + j]);
        i = i + 1;
    }
    assert forall|s: int| 0 <= s && s + needle@.len() <= hay@.len() implies #[trigger] hay@.subrange(s, s + needle@.len()) != needle@ by {
        assert(s < i);
    }
    false
}

/// The folder of this application's settings inside the user's
/// configuration folder.
pub open spec fn app_config_dir(base: Seq<char>) -> Seq<char> {
    path_join(base, "shadow-icon-factory"@)
}

/// The settings file inside the user's configuration folder.
pub open spec fn app_settings_path(base: Seq<char>) -> Seq<char> {
    path_join(app_config_dir(base), "settings.json"@)
}

pub open spec fn no_config_dir_message() -> Seq<char> {
    "Could not find the user configuration directory."@
}

/// The user's configuration folder, as `dirs::config_dir` finds it from the
/// environment (`$XDG_CONFIG_HOME`, else `~/.config`), converted to UTF-8
/// lossily. Nothing is promised of the result: it depends on the
/// environment.
#[verifier::external_body]
fn user_config_dir() -> Option<String> {
    dirs::config_dir().map(|p| p.to_string_lossy().into_owned())
}

/// The user's home folder, as `dirs::home_dir` finds it from the environment,
/// converted to UTF-8 lossily. Nothing is promised of the result.
#[verifier::external_body]
fn user_home_dir() -> Option<String> {
    dirs::home_dir().map(|p| p.to_string_lossy().into_owned())
}

/// The user's pictures folder, as `dirs::picture_dir` finds it from the
/// environment, converted to UTF-8 lossily. Nothing is promised of the result.
#[verifier::external_body]
fn user_picture_dir() -> Option<String> {
    dirs::picture_dir().map(|p| p.to_string_lossy().into_owned())
}

/// This application's configuration folder under `base`, or the error that
/// no configuration folder could be found.
pub fn config_dir_in(base: Option<String>) -> (r: Result<String, Error>)
    ensures
        match base {
            Some(b) => r matches Ok(p) && p@ == app_config_dir(b@),
            None => r matches Err(e) && error_view(e) == (no_config_dir_message(), None::<Seq<char>>),
        },
{
    match base {
        Some(b) => Ok(join_path(b.as_str(), "shadow-icon-factory")),
        None => Err(Error::user("Could not find the user configuration directory.")),
    }
}

/// This application's configuration folder.
pub fn config_dir() -> (r: Result<String, Error>)
    ensures
        r matches Ok(p) ==> exists|b: Seq<char>| p@ == app_config_dir(b),
        r matches Err(e) ==> error_view(e) == (no_config_dir_message(), None::<Seq<char>>),
{
    config_dir_in(user_config_dir())
}

/// The settings file under the configuration folder `base`.
pub fn settings_path_in(base: Option<String>) -> (r: Result<String, Error>)
    ensures
        match base {
            Some(b) => r matches Ok(p) && p@ == app_settings_path(b@),
            None => r matches Err(e) && error_view(e) == (no_config_dir_message(), None::<Seq<char>>),
        },
{
    let dir = config_dir_in(base)?;
    Ok(join_path(dir.as_str(), "settings.json"))
}

/// The settings file of this application.
pub fn settings_path() -> (r: Result<String, Error>)
    ensures
        r matches Ok(p) ==> exists|b: Seq<char>| p@ == app_settings_path(b),
        r matches Err(e) ==> error_view(e) == (no_config_dir_message(), None::<Seq<char>>),
{
    settings_path_in(user_config_dir())
}

/// What `std::path::Path::strip_prefix` gives for `path` and `base`: the rest
/// of `path` after the components of `base`, or nothing where `base` is not a
/// prefix of `path` component by component.
pub uninterp spec fn stripped_prefix(path: Seq<char>, base: Seq<char>) -> Option<Seq<char>>;

/// Calls `std::path::Path::strip_prefix`; its result is named
/// [`stripped_prefix`]. The rest of a UTF-8 path is UTF-8, so the conversion
/// back to a string is exact.
#[verifier::external_body]
fn strip_path_prefix(path: &str, base: &str) -> (r: Option<String>)
    ensures
        opt_string_view(r) == stripped_prefix(path@, base@),
{
    std::path::Path::new(path).strip_prefix(base).ok().map(|p| p.to_string_lossy().into_owned())
}

/// How a path is shown: under the home folder `home` it reads `~/rest`,
/// elsewhere it is shown as it is.
pub open spec fn home_display(path: Seq<char>, home: Option<Seq<char>>) -> Seq<char> {
    match home {
        Some(h) => match stripped_prefix(path, h) {
            Some(rest) => "~/"@ + rest,
            None => path,
        },
        None => path,
    }
}

/// Shows `path` relative to the home folder `home` where it lies under it.
pub fn display_home_path_with(path: &str, home: Option<&str>) -> (s: String)
    ensures
        s@ == home_display(path@, match home {
            Some(h) => Some(h@),
            None => None,
        }),
{
    if let Some(h) = home {
        if let Some(rest) = strip_path_prefix(path, h) {
            let mut s = String::from_str("~/");
            s.append(rest.as_str());
            return s;
        }
    }
    String::from_str(path)
}

/// Shows `path` relative to the user's home folder where it lies under it.
pub fn display_home_path(path: &str) -> (s: String)
    ensures
        exists|home: Option<Seq<char>>| s@ == home_display(path@, home),
{
    let home = user_home_dir();
    let s = match &home {
        Some(h) => display_home_path_with(path, Some(h.as_str())),
        None => display_home_path_with(path, None),
    };
    s
}

/// The folder icon sets go to by default: `Shadow Icon Factory` inside the
/// pictures folder, else inside the home folder, else inside the current
/// folder.
pub open spec fn default_output_under(pictures: Option<Seq<char>>, home: Option<Seq<char>>) -> Seq<char> {
    let base = match pictures {
        Some(p) => p,
        None => match home {
            Some(h) => h,
            None => "."@,
        },
    };
    path_join(base, "Shadow Icon Factory"@)
}

/// The default output folder, given the pictures and home folders.
pub fn default_output_from(pictures: Option<String>, home: Option<String>) -> (p: String)
    ensures
        p@ == default_output_under(opt_string_view(pictures), opt_string_view(home)),
{
    proof {
        reveal_strlit(".");
    }
    let base = match pictures {
        Some(p) => p,
        None => match home {
            Some(h) => h,
            None => String::from_str("."),
        },
    };
    join_path(base.as_str(), "Shadow Icon Factory")
}

/// The default output folder.
pub fn default_output() -> (p: String)
    ensures
        exists|pictures: Option<Seq<char>>, home: Option<Seq<char>>|
            p@ == default_output_under(pictures, home),
{
    let pictures = user_picture_dir();
    match pictures {
        Some(_) => default_output_from(pictures, None),
        None => default_output_from(None, user_home_dir()),
    }
}

} // verus!
