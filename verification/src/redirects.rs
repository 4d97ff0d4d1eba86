//! Cross-platform save-restore redirect generation.
//!
//! A backup made on another OS or machine records absolute paths that do not
//! exist locally. The recorded paths are classified by their literal format
//! (`X:/…` Windows, `…/drive_c/…` wine prefix, or native Linux) and reconciled
//! against the local platform and prefix into `{kind, source, target}` redirect
//! rules. Decisions key off the path format, never the backup's `os` field.

use vstd::prelude::*;
use crate::save_template::{is_windows_drive_path, spec_is_windows_drive_path, opt_view};
use crate::text::{
    Pair, chars_of, chars_of_all, concat, contains, contains_exec, eq_ci, eq_ci_exec, find,
    find_exec, insert_sorted, join_prefix_exec, join_with, pair_views, rindex_of, rindex_of_exec,
    slice_vec, sorted_pairs, split_char, split_char_exec, starts_with, starts_with_exec, str_views,
    string_of, trim_end_char, trim_end_char_exec, trim_start_char, trim_start_char_exec,
    replace_char, replace_char_exec, views, index_of, pair_lt, lemma_pair_lt_order, lemma_find_from,
    match_at, ends_with,
};

verus! {

/// The OS that produced a backup, as recorded in `backups[].os`. Kept for
/// reporting only: redirect derivation keys off the path format.
#[derive(Debug, Clone, Copy, PartialEq, Eq, Structural)]
pub enum BackupOs {
    Windows,
    Linux,
    Unknown,
}

impl BackupOs {
    /// The OS named by `s`, ignoring case; anything else is `Unknown`.
    pub fn from_str(s: &str) -> (r: BackupOs)
        ensures
            r == (if eq_ci(s@, "windows"@) {
                BackupOs::Windows
            } else if eq_ci(s@, "linux"@) {
                BackupOs::Linux
            } else {
                BackupOs::Unknown
            }),
    {
        let v = chars_of(s);
        let w = chars_of("windows");
        let l = chars_of("linux");
        if eq_ci_exec(&v, &w) {
            BackupOs::Windows
        } else if eq_ci_exec(&v, &l) {
            BackupOs::Linux
        } else {
            BackupOs::Unknown
        }
    }
}

/// Everything redirect derivation needs from a backup's `mapping.yaml`.
pub struct BackupOrigin {
    pub os: BackupOs,
    /// Every absolute source path recorded in the backup (the full backup and
    /// all its differential children).
    pub paths: Vec<String>,
}

/// One ludusavi redirect rule.
pub struct Redirect {
    /// `restore` or `backup`.
    pub kind: String,
    pub source: String,
    pub target: String,
}

/// The view of a [`Redirect`].
pub struct RedirectView {
    pub kind: Seq<char>,
    pub source: Seq<char>,
    pub target: Seq<char>,
}

impl View for Redirect {
    type V = RedirectView;

    open spec fn view(&self) -> RedirectView {
        RedirectView { kind: self.kind@, source: self.source@, target: self.target@ }
    }
}

/// The views of a list of redirects.
pub open spec fn redirect_views(v: Seq<Redirect>) -> Seq<RedirectView> {
    v.map_values(|r: Redirect| r@)
}

/// The (source, target) pairs of a list of redirect views.
pub open spec fn redirect_pairs(v: Seq<RedirectView>) -> Seq<Pair> {
    v.map_values(|r: RedirectView| (r.source, r.target))
}

/// The literal format of a recorded save path.
pub enum PathFormat {
    /// Windows drive path, e.g. `C:/Users/akinz/...`.
    Windows,
    /// Wine/Proton prefix path; `drive_c` is the path up to and including its
    /// `…/drive_c` segment.
    WinePrefix { drive_c: String },
    /// An absolute Linux path outside any wine prefix.
    NativeLinux,
}

/// The specification-level path format.
pub enum SpecFormat {
    Windows,
    WinePrefix(Seq<char>),
    NativeLinux,
}

/// The format of a recorded path.
pub open spec fn spec_classify_format(path: Seq<char>) -> SpecFormat {
    let p = replace_char(path, '\\', '/');
    match find(p, "/drive_c/"@) {
        Some(idx) => SpecFormat::WinePrefix(p.take(idx + "/drive_c"@.len())),
        None => if crate::text::ends_with(p, "/drive_c"@) {
            SpecFormat::WinePrefix(p)
        } else if spec_is_windows_drive_path(p) {
            SpecFormat::Windows
        } else {
            SpecFormat::NativeLinux
        },
    }
}

/// The view of a [`PathFormat`].
pub open spec fn format_view(f: PathFormat) -> SpecFormat {
    match f {
        PathFormat::Windows => SpecFormat::Windows,
        PathFormat::WinePrefix { drive_c } => SpecFormat::WinePrefix(drive_c@),
        PathFormat::NativeLinux => SpecFormat::NativeLinux,
    }
}

/// Classify a recorded path by its literal format.
pub fn classify_format(path: &str) -> (r: PathFormat)
    ensures
        format_view(r) == spec_classify_format(path@),
{
    let v = chars_of(path);
    let p = replace_char_exec(&v, '\\', '/');
    let needle = chars_of("/drive_c/");
    let dc = chars_of("/drive_c");
    let n = p.len();
    if let Some(idx) = find_exec(&p, &needle) {
        proof {
            crate::text::lemma_find_from(p@, needle@, 0);
        }
        assert(idx + dc@.len() <= n) by {
            reveal_strlit("/drive_c/");
            reveal_strlit("/drive_c");
        }
        let d = slice_vec(&p, 0, idx + dc.len());
        assert(d@ =~= p@.take(idx + dc@.len()));
        return PathFormat::WinePrefix { drive_c: string_of(&d) };
    }
    if crate::text::ends_with_exec(&p, &dc) {
        return PathFormat::WinePrefix { drive_c: string_of(&p) };
    }
    if is_windows_drive_path(&p) {
        return PathFormat::Windows;
    }
    PathFormat::NativeLinux
}

} // verus!

verus! {

/// The profile name in a `C:/Users/<name>/…` path, unless it is one of the
/// shared profiles.
pub open spec fn spec_username_at(p: Seq<char>) -> Option<Seq<char>> {
    if starts_with(p, "C:/Users/"@) {
        let name = crate::save_template::spec_split_first_segment(
            p.skip("C:/Users/"@.len() as int),
        ).0;
        if name.len() > 0 && name != "Public"@ && name != "Default"@ && name != "All Users"@ {
            Some(name)
        } else {
            None
        }
    } else {
        None
    }
}

/// The Windows username from the first path that names one.
pub open spec fn spec_username_from(paths: Seq<Seq<char>>) -> Option<Seq<char>>
    decreases paths.len(),
{
    if paths.len() == 0 {
        None
    } else {
        match spec_username_at(paths[0]) {
            Some(n) => Some(n),
            None => spec_username_from(paths.drop_first()),
        }
    }
}

fn username_at(p: &[char]) -> (r: Option<Vec<char>>)
    ensures
        r matches Some(v) ==> spec_username_at(p@) == Some(v@),
        r is None ==> spec_username_at(p@) is None,
{
    let pre = chars_of("C:/Users/");
    if !starts_with_exec(p, &pre) {
        return None;
    }
    let rest = slice_vec(p, pre.len(), p.len());
    assert(rest@ =~= p@.skip(pre@.len() as int));
    let name = first_segment(&rest);
    let public = chars_of("Public");
    let default = chars_of("Default");
    let all = chars_of("All Users");
    if name.len() > 0 && !crate::text::eq_exec(&name, &public) && !crate::text::eq_exec(
        &name,
        &default,
    ) && !crate::text::eq_exec(&name, &all) {
        Some(name)
    } else {
        None
    }
}

fn first_segment(s: &[char]) -> (r: Vec<char>)
    ensures
        r@ == crate::save_template::spec_split_first_segment(s@).0,
{
    match crate::text::index_of_exec(s, '/') {
        Some(k) => {
            let h = slice_vec(s, 0, k);
            assert(h@ =~= s@.take(k as int));
            h
        },
        None => {
            let h = slice_vec(s, 0, s.len());
            assert(h@ =~= s@);
            h
        },
    }
}

/// The Windows username from the first `C:/Users/<name>/…` path.
pub fn windows_username_from_paths(paths: &[String]) -> (r: Option<String>)
    ensures
        r matches Some(s) ==> spec_username_from(str_views(paths@)) == Some(s@),
        r is None ==> spec_username_from(str_views(paths@)) is None,
{
    let v = chars_of_all(paths);
    match username_from(&v) {
        Some(n) => Some(string_of(&n)),
        None => None,
    }
}

fn username_from(paths: &[Vec<char>]) -> (r: Option<Vec<char>>)
    ensures
        r matches Some(v) ==> spec_username_from(views(paths@)) == Some(v@),
        r is None ==> spec_username_from(views(paths@)) is None,
{
    let mut i: usize = 0;
    assert(views(paths@).skip(0) =~= views(paths@));
    while i < paths.len()
        invariant
            i <= paths.len(),
            spec_username_from(views(paths@)) == spec_username_from(views(paths@).skip(i as int)),
        decreases paths.len() - i,
    {
        assert(views(paths@).skip(i as int)[0] == paths@[i as int]@);
        assert(views(paths@).skip(i as int).drop_first() =~= views(paths@).skip(i + 1));
        if let Some(n) = username_at(&paths[i]) {
            return Some(n);
        }
        i += 1;
    }
    None
}

/// The last component of a Unix path (`Path::file_name`): empty and `.`
/// components are skipped; a trailing `..` or no component gives `None`.
pub open spec fn spec_last_component(parts: Seq<Seq<char>>) -> Option<Seq<char>>
    decreases parts.len(),
{
    if parts.len() == 0 {
        None
    } else {
        let l = parts.last();
        if l.len() == 0 || l == "."@ {
            spec_last_component(parts.drop_last())
        } else if l == ".."@ {
            None
        } else {
            Some(l)
        }
    }
}

/// `Path::file_name` of a Unix path.
pub open spec fn spec_file_name(path: Seq<char>) -> Option<Seq<char>> {
    spec_last_component(split_char(path, '/'))
}

/// The last component of a Unix path.
pub fn file_name(path: &[char]) -> (r: Option<Vec<char>>)
    ensures
        r matches Some(v) ==> spec_file_name(path@) == Some(v@),
        r is None ==> spec_file_name(path@) is None,
{
    let parts = split_char_exec(path, '/');
    let dot = chars_of(".");
    let dotdot = chars_of("..");
    let mut j = parts.len();
    assert(views(parts@).take(j as int) =~= views(parts@));
    while j > 0
        invariant
            j <= parts.len(),
            spec_file_name(path@) == spec_last_component(views(parts@).take(j as int)),
            dot@ == "."@,
            dotdot@ == ".."@,
        decreases j,
    {
        let l = &parts[j - 1];
        assert(views(parts@).take(j as int).last() == l@);
        assert(views(parts@).take(j as int).drop_last() =~= views(parts@).take(j - 1));
        if l.len() == 0 || crate::text::eq_exec(l, &dot) {
            j -= 1;
        } else if crate::text::eq_exec(l, &dotdot) {
            return None;
        } else {
            return Some(slice_vec(l, 0, l.len()));
        }
    }
    None
}

/// The first part equal to `name` ignoring ASCII case, at or after `i`.
pub open spec fn spec_first_ci(parts: Seq<Seq<char>>, name: Seq<char>, i: int) -> Option<int>
    decreases parts.len() - i,
{
    if i < 0 || i >= parts.len() {
        None
    } else if eq_ci(parts[i], name) {
        Some(i)
    } else {
        spec_first_ci(parts, name, i + 1)
    }
}

/// The install root of an install-folder save file: the filename is dropped,
/// then everything up to the first component equal to the game's folder name
/// (ignoring case) is kept, or else the drive and at most two directories.
pub open spec fn spec_install_dir_root(path: Seq<char>, basename: Option<Seq<char>>) -> Seq<
    char,
> {
    match rindex_of(path, '/') {
        None => path,
        Some(k) => {
            let parts = split_char(path.take(k), '/');
            let anchor = match basename {
                Some(n) => if n.len() > 0 {
                    spec_first_ci(parts, n, 0)
                } else {
                    None
                },
                None => None,
            };
            match anchor {
                Some(idx) => join_with(parts.take(idx + 1), '/'),
                None => join_with(parts.take(if parts.len() < 3 { parts.len() as int } else { 3 }), '/'),
            }
        },
    }
}

/// The install-directory root of an install-folder save file path.
#[verifier::loop_isolation(false)]
pub fn install_dir_root(path: &[char], basename: Option<&[char]>) -> (r: Vec<char>)
    ensures
        r@ == spec_install_dir_root(
            path@,
            match basename {
                Some(b) => Some(b@),
                None => None,
            },
        ),
{
    let k = match rindex_of_exec(path, '/') {
        Some(k) => k,
        None => return slice_vec(path, 0, path.len()),
    };
    let dir = slice_vec(path, 0, k);
    assert(dir@ =~= path@.take(k as int));
    let parts = split_char_exec(&dir, '/');
    let ghost ps = views(parts@);
    if let Some(name) = basename {
        if name.len() > 0 {
            let mut i: usize = 0;
            while i < parts.len()
                invariant
                    i <= parts.len(),
                    ps == views(parts@),
                    spec_first_ci(ps, name@, 0) == spec_first_ci(ps, name@, i as int),
                decreases parts.len() - i,
            {
                assert(ps[i as int] == parts@[i as int]@);
                if eq_ci_exec(&parts[i], name) {
                    return join_prefix_exec(&parts, i + 1, '/');
                }
                i += 1;
            }
        }
    }
    let take = if parts.len() < 3 {
        parts.len()
    } else {
        3
    };
    join_prefix_exec(&parts, take, '/')
}

} // verus!

verus! {

/// A Windows-format save path mapped into the local Proton prefix: the
/// `(source, target)` root pair, or `None` for Xbox/UWP paths, unknown paths,
/// and install-folder saves without a local game folder.
pub open spec fn spec_windows_path_to_prefix(
    path: Seq<char>,
    win_user: Option<Seq<char>>,
    pfx: Seq<char>,
    game_folder: Option<Seq<char>>,
) -> Option<Pair> {
    let p = replace_char(path, '\\', '/');
    if contains(p, "/XboxGames/"@) || contains(p, "/Packages/"@) || contains(
        p,
        "/SystemAppData/wgs/"@,
    ) {
        None
    } else if starts_with(p, "C:/Users/Public/"@) || p == "C:/Users/Public"@ {
        Some(("C:/Users/Public"@, pfx + "/drive_c/users/Public"@))
    } else if win_user is Some && (starts_with(p, "C:/Users/"@ + win_user->0 + "/"@) || p
        == "C:/Users/"@ + win_user->0) {
        Some(("C:/Users/"@ + win_user->0, pfx + "/drive_c/users/steamuser"@))
    } else if starts_with(p, "C:/ProgramData/"@) || p == "C:/ProgramData"@ {
        Some(("C:/ProgramData"@, pfx + "/drive_c/ProgramData"@))
    } else if spec_is_windows_drive_path(p) {
        match game_folder {
            Some(g) => Some((spec_install_dir_root(p, spec_file_name(g)), g)),
            None => None,
        }
    } else {
        None
    }
}

/// A wine-prefix save path mapped onto its canonical Windows location, or
/// `None` for locations with no Windows counterpart (e.g. `Program Files`).
pub open spec fn spec_prefix_path_to_windows(
    path: Seq<char>,
    drive_c: Seq<char>,
    local_win_user: Option<Seq<char>>,
) -> Option<Pair> {
    let p = replace_char(path, '\\', '/');
    if !starts_with(p, drive_c) {
        None
    } else {
        let rest = trim_start_char(p.skip(drive_c.len() as int), '/');
        if rest == "users/Public"@ || starts_with(rest, "users/Public/"@) {
            Some((drive_c + "/users/Public"@, "C:/Users/Public"@))
        } else if rest == "ProgramData"@ || starts_with(rest, "ProgramData/"@) {
            Some((drive_c + "/ProgramData"@, "C:/ProgramData"@))
        } else if rest == "users/steamuser"@ || starts_with(rest, "users/steamuser/"@) {
            match local_win_user {
                Some(u) => if u.len() > 0 {
                    Some((drive_c + "/users/steamuser"@, "C:/Users/"@ + u))
                } else {
                    None
                },
                None => None,
            }
        } else {
            None
        }
    }
}

/// This machine's prefix `drive_c` (forward slashes, no trailing slash).
pub open spec fn spec_local_drive_c(prefix_root: Option<Seq<char>>) -> Option<Seq<char>> {
    match prefix_root {
        Some(p) => Some(trim_end_char(replace_char(p, '\\', '/'), '/') + "/drive_c"@),
        None => None,
    }
}

/// The redirect rule (if any) one recorded path calls for.
pub open spec fn spec_rule_for(
    path: Seq<char>,
    backup_win_user: Option<Seq<char>>,
    prefix_root: Option<Seq<char>>,
    game_folder: Option<Seq<char>>,
    local_win_user: Option<Seq<char>>,
    local_is_windows: bool,
) -> Option<Pair> {
    match spec_classify_format(path) {
        SpecFormat::Windows => if !local_is_windows && prefix_root is Some {
            spec_windows_path_to_prefix(path, backup_win_user, prefix_root->0, game_folder)
        } else {
            None
        },
        SpecFormat::WinePrefix(dc) => if local_is_windows {
            spec_prefix_path_to_windows(path, dc, local_win_user)
        } else {
            match spec_local_drive_c(prefix_root) {
                Some(l) => if dc != l {
                    Some((dc, l))
                } else {
                    None
                },
                None => None,
            }
        },
        SpecFormat::NativeLinux => None,
    }
}

/// The rules derived from `paths`: some path calls for exactly this rule.
pub open spec fn spec_derived(
    paths: Seq<Seq<char>>,
    prefix_root: Option<Seq<char>>,
    game_folder: Option<Seq<char>>,
    local_win_user: Option<Seq<char>>,
    local_is_windows: bool,
    rule: Pair,
) -> bool {
    exists|i: int|
        0 <= i < paths.len() && #[trigger] spec_rule_for(
            paths[i],
            spec_username_from(paths),
            prefix_root,
            game_folder,
            local_win_user,
            local_is_windows,
        ) == Some(rule)
}

fn windows_path_to_prefix(
    path: &[char],
    win_user: Option<&[char]>,
    pfx: &[char],
    game_folder: Option<&[char]>,
) -> (r: Option<(Vec<char>, Vec<char>)>)
    ensures
        r matches Some(x) ==> spec_windows_path_to_prefix(
            path@,
            opt_slice(win_user),
            pfx@,
            opt_slice(game_folder),
        ) == Some((x.0@, x.1@)),
        r is None ==> spec_windows_path_to_prefix(
            path@,
            opt_slice(win_user),
            pfx@,
            opt_slice(game_folder),
        ) is None,
{
    let p = replace_char_exec(path, '\\', '/');
    if contains_exec(&p, &chars_of("/XboxGames/")) || contains_exec(&p, &chars_of("/Packages/"))
        || contains_exec(&p, &chars_of("/SystemAppData/wgs/")) {
        return None;
    }
    let cpub = chars_of("C:/Users/Public");
    if starts_with_exec(&p, &chars_of("C:/Users/Public/")) || crate::text::eq_exec(&p, &cpub) {
        let local = concat(pfx, &chars_of("/drive_c/users/Public"));
        return Some((cpub, local));
    }
    if let Some(u) = win_user {
        let up = concat(&chars_of("C:/Users/"), u);
        let ups = concat(&up, &chars_of("/"));
        if starts_with_exec(&p, &ups) || crate::text::eq_exec(&p, &up) {
            let local = concat(pfx, &chars_of("/drive_c/users/steamuser"));
            return Some((up, local));
        }
    }
    let cpd = chars_of("C:/ProgramData");
    if starts_with_exec(&p, &chars_of("C:/ProgramData/")) || crate::text::eq_exec(&p, &cpd) {
        let local = concat(pfx, &chars_of("/drive_c/ProgramData"));
        return Some((cpd, local));
    }
    if is_windows_drive_path(&p) {
        match game_folder {
            Some(g) => {
                let base = file_name(g);
                let root = match &base {
                    Some(b) => install_dir_root(&p, Some(b.as_slice())),
                    None => install_dir_root(&p, None),
                };
                return Some((root, slice_vec(g, 0, g.len())));
            },
            None => return None,
        }
    }
    None
}

/// The view of an optional character slice.
pub open spec fn opt_slice(o: Option<&[char]>) -> Option<Seq<char>> {
    match o {
        Some(s) => Some(s@),
        None => None,
    }
}

fn prefix_path_to_windows(path: &[char], drive_c: &[char], local_win_user: Option<&[char]>) -> (r:
    Option<(Vec<char>, Vec<char>)>)
    ensures
        r matches Some(x) ==> spec_prefix_path_to_windows(
            path@,
            drive_c@,
            opt_slice(local_win_user),
        ) == Some((x.0@, x.1@)),
        r is None ==> spec_prefix_path_to_windows(path@, drive_c@, opt_slice(local_win_user))
            is None,
{
    let p = replace_char_exec(path, '\\', '/');
    if !starts_with_exec(&p, drive_c) {
        return None;
    }
    let after = slice_vec(&p, drive_c.len(), p.len());
    assert(after@ =~= p@.skip(drive_c@.len() as int));
    let rest = trim_start_char_exec(&after, '/');
    if crate::text::eq_exec(&rest, &chars_of("users/Public")) || starts_with_exec(
        &rest,
        &chars_of("users/Public/"),
    ) {
        return Some(
            (concat(drive_c, &chars_of("/users/Public")), chars_of("C:/Users/Public")),
        );
    }
    if crate::text::eq_exec(&rest, &chars_of("ProgramData")) || starts_with_exec(
        &rest,
        &chars_of("ProgramData/"),
    ) {
        return Some((concat(drive_c, &chars_of("/ProgramData")), chars_of("C:/ProgramData")));
    }
    if crate::text::eq_exec(&rest, &chars_of("users/steamuser")) || starts_with_exec(
        &rest,
        &chars_of("users/steamuser/"),
    ) {
        match local_win_user {
            Some(u) => {
                if u.len() > 0 {
                    return Some(
                        (
                            concat(drive_c, &chars_of("/users/steamuser")),
                            concat(&chars_of("C:/Users/"), u),
                        ),
                    );
                }
                return None;
            },
            None => return None,
        }
    }
    None
}

fn local_drive_c(prefix_root: Option<&str>) -> (r: Option<Vec<char>>)
    ensures
        r matches Some(v) ==> spec_local_drive_c(opt_view(prefix_root)) == Some(v@),
        r is None ==> spec_local_drive_c(opt_view(prefix_root)) is None,
{
    match prefix_root {
        Some(p) => {
            let v = chars_of(p);
            let s = replace_char_exec(&v, '\\', '/');
            let t = trim_end_char_exec(&s, '/');
            Some(concat(&t, &chars_of("/drive_c")))
        },
        None => None,
    }
}

fn rule_for(
    path: &str,
    backup_win_user: &Option<Vec<char>>,
    prefix_root: Option<&str>,
    local_dc: &Option<Vec<char>>,
    game_folder: &Option<Vec<char>>,
    local_win_user: &Option<Vec<char>>,
    local_is_windows: bool,
) -> (r: Option<(Vec<char>, Vec<char>)>)
    requires
        crate::save_template::opt_chars(*local_dc) == spec_local_drive_c(opt_view(prefix_root)),
    ensures
        r matches Some(x) ==> spec_rule_for(
            path@,
            crate::save_template::opt_chars(*backup_win_user),
            opt_view(prefix_root),
            crate::save_template::opt_chars(*game_folder),
            crate::save_template::opt_chars(*local_win_user),
            local_is_windows,
        ) == Some((x.0@, x.1@)),
        r is None ==> spec_rule_for(
            path@,
            crate::save_template::opt_chars(*backup_win_user),
            opt_view(prefix_root),
            crate::save_template::opt_chars(*game_folder),
            crate::save_template::opt_chars(*local_win_user),
            local_is_windows,
        ) is None,
{
    let v = chars_of(path);
    match classify_format(path) {
        PathFormat::Windows => {
            if !local_is_windows {
                if let Some(pfx) = prefix_root {
                    let pv = chars_of(pfx);
                    let bwu: Option<&[char]> = match backup_win_user {
                        Some(u) => Some(u.as_slice()),
                        None => None,
                    };
                    let gf: Option<&[char]> = match game_folder {
                        Some(g) => Some(g.as_slice()),
                        None => None,
                    };
                    return windows_path_to_prefix(&v, bwu, &pv, gf);
                }
            }
            None
        },
        PathFormat::WinePrefix { drive_c } => {
            let dc = chars_of(drive_c.as_str());
            if local_is_windows {
                let lwu: Option<&[char]> = match local_win_user {
                    Some(u) => Some(u.as_slice()),
                    None => None,
                };
                prefix_path_to_windows(&v, &dc, lwu)
            } else {
                match local_dc {
                    Some(l) => {
                        if !crate::text::eq_exec(&dc, l) {
                            Some((dc, slice_vec(l, 0, l.len())))
                        } else {
                            None
                        }
                    },
                    None => None,
                }
            }
        },
        PathFormat::NativeLinux => None,
    }
}

/// The `restore` redirect rules that steer a backup's recorded paths onto this
/// machine: de-duplicated and in ascending (source, target) order.
///
/// `prefix_root` is the Proton prefix root for Proton games (`None` for native
/// Windows games); `game_folder` the local install folder; `local_win_user`
/// the Windows username when running on Windows.
pub fn derive_redirects(
    origin: &BackupOrigin,
    prefix_root: Option<&str>,
    game_folder: Option<&str>,
    local_win_user: Option<&str>,
    local_is_windows: bool,
) -> (r: Vec<Redirect>)
    ensures
        forall|i: int| 0 <= i < r@.len() ==> (#[trigger] r@[i]).kind@ == "restore"@,
        sorted_pairs(redirect_pairs(redirect_views(r@))),
        forall|p: Pair|
            redirect_pairs(redirect_views(r@)).contains(p) <==> spec_derived(
                str_views(origin.paths@),
                opt_view(prefix_root),
                opt_view(game_folder),
                opt_view(local_win_user),
                local_is_windows,
                p,
            ),
{
    let ghost paths = str_views(origin.paths@);
    let bwu: Option<Vec<char>> = match windows_username_from_paths(&origin.paths) {
        Some(u) => Some(chars_of(u.as_str())),
        None => None,
    };
    let ldc = local_drive_c(prefix_root);
    let gf: Option<Vec<char>> = match game_folder {
        Some(g) => Some(chars_of(g)),
        None => None,
    };
    let lwu: Option<Vec<char>> = match local_win_user {
        Some(u) => Some(chars_of(u)),
        None => None,
    };
    let mut rules: Vec<(Vec<char>, Vec<char>)> = Vec::new();
    let mut i: usize = 0;
    while i < origin.paths.len()
        invariant
            i <= origin.paths.len(),
            paths == str_views(origin.paths@),
            crate::save_template::opt_chars(bwu) == spec_username_from(paths),
            crate::save_template::opt_chars(ldc) == spec_local_drive_c(opt_view(prefix_root)),
            crate::save_template::opt_chars(gf) == opt_view(game_folder),
            crate::save_template::opt_chars(lwu) == opt_view(local_win_user),
            sorted_pairs(pair_views(rules@)),
            forall|p: Pair|
                pair_views(rules@).contains(p) <==> exists|j: int|
                    0 <= j < i && #[trigger] spec_rule_for(
                        paths[j],
                        spec_username_from(paths),
                        opt_view(prefix_root),
                        opt_view(game_folder),
                        opt_view(local_win_user),
                        local_is_windows,
                    ) == Some(p),
        decreases origin.paths.len() - i,
    {
        let ghost before = pair_views(rules@);
        let rule = rule_for(
            origin.paths[i].as_str(),
            &bwu,
            prefix_root,
            &ldc,
            &gf,
            &lwu,
            local_is_windows,
        );
        assert(paths[i as int] == origin.paths@[i as int]@);
        match rule {
            Some(x) => {
                insert_sorted(&mut rules, x);
            },
            None => {},
        }
        proof {
            assert forall|p: Pair|
                pair_views(rules@).contains(p) <==> exists|j: int|
                    0 <= j < i + 1 && #[trigger] spec_rule_for(
                        paths[j],
                        spec_username_from(paths),
                        opt_view(prefix_root),
                        opt_view(game_folder),
                        opt_view(local_win_user),
                        local_is_windows,
                    ) == Some(p) by {
                let ri = spec_rule_for(
                    paths[i as int],
                    spec_username_from(paths),
                    opt_view(prefix_root),
                    opt_view(game_folder),
                    opt_view(local_win_user),
                    local_is_windows,
                );
                if before.contains(p) {
                    let j = choose|j: int|
                        0 <= j < i && #[trigger] spec_rule_for(
                            paths[j],
                            spec_username_from(paths),
                            opt_view(prefix_root),
                            opt_view(game_folder),
                            opt_view(local_win_user),
                            local_is_windows,
                        ) == Some(p);
                    assert(0 <= j < i + 1);
                }
                if ri == Some(p) {
                    assert(0 <= i < i + 1);
                }
            }
        }
        i += 1;
    }
    let mut out: Vec<Redirect> = Vec::new();
    let mut k: usize = 0;
    while k < rules.len()
        invariant
            k <= rules.len(),
            out@.len() == k,
            forall|m: int| 0 <= m < k ==> (#[trigger] out@[m]).kind@ == "restore"@,
            forall|m: int|
                0 <= m < k ==> (#[trigger] out@[m]).source@ == rules@[m].0@ && out@[m].target@
                    == rules@[m].1@,
        decreases rules.len() - k,
    {
        let r = Redirect {
            kind: string_of(&chars_of("restore")),
            source: string_of(&rules[k].0),
            target: string_of(&rules[k].1),
        };
        out.push(r);
        k += 1;
    }
    proof {
        assert(redirect_pairs(redirect_views(out@)) =~= pair_views(rules@));
    }
    out
}

} // verus!

verus! {

/// Restore rules turned into backup rules: only the cross-OS rules (whose
/// restore source is a Windows `X:/…` path) are kept, re-tagged `backup`, with
/// source and target swapped.
pub open spec fn spec_invert(rs: Seq<RedirectView>) -> Seq<RedirectView>
    decreases rs.len(),
{
    if rs.len() == 0 {
        Seq::empty()
    } else {
        let prev = spec_invert(rs.drop_last());
        let r = rs.last();
        if spec_is_windows_drive_path(r.source) {
            prev.push(RedirectView { kind: "backup"@, source: r.target, target: r.source })
        } else {
            prev
        }
    }
}

/// Invert restore rules into backup rules, keeping only the cross-OS
/// canonicalisation rules (restore source is a Windows `X:/…` path). A backup
/// redirect maps the scanned path to the stored one, so source and target swap.
pub fn invert_for_backup(restore_rules: Vec<Redirect>) -> (r: Vec<Redirect>)
    ensures
        redirect_views(r@) == spec_invert(redirect_views(restore_rules@)),
{
    let ghost rs = redirect_views(restore_rules@);
    let mut out: Vec<Redirect> = Vec::new();
    let mut i: usize = 0;
    while i < restore_rules.len()
        invariant
            i <= restore_rules.len(),
            rs == redirect_views(restore_rules@),
            redirect_views(out@) == spec_invert(rs.take(i as int)),
        decreases restore_rules.len() - i,
    {
        let r = &restore_rules[i];
        let src = chars_of(r.source.as_str());
        assert(rs.take(i + 1).drop_last() =~= rs.take(i as int));
        assert(rs.take(i + 1).last() == r@);
        if is_windows_drive_path(&src) {
            let ghost before = out@;
            out.push(
                Redirect {
                    kind: string_of(&chars_of("backup")),
                    source: string_of(&chars_of(r.target.as_str())),
                    target: string_of(&src),
                },
            );
            assert(redirect_views(out@) =~= redirect_views(before).push(
                RedirectView { kind: "backup"@, source: r.target@, target: r.source@ },
            ));
        }
        i += 1;
    }
    assert(rs.take(restore_rules.len() as int) =~= rs);
    out
}

/// The `restore` redirects to write before restoring a backup with origin
/// `origin` on this machine (see [`derive_redirects`]); the caller writes them
/// into ludusavi's config and reports how many there were.
pub fn apply_redirects_for_restore(
    origin: &BackupOrigin,
    prefix_root: Option<&str>,
    game_folder: Option<&str>,
    local_win_user: Option<&str>,
    local_is_windows: bool,
) -> (r: Vec<Redirect>)
    ensures
        forall|i: int| 0 <= i < r@.len() ==> (#[trigger] r@[i]).kind@ == "restore"@,
        sorted_pairs(redirect_pairs(redirect_views(r@))),
        forall|p: Pair|
            redirect_pairs(redirect_views(r@)).contains(p) <==> spec_derived(
                str_views(origin.paths@),
                opt_view(prefix_root),
                opt_view(game_folder),
                opt_view(local_win_user),
                local_is_windows,
                p,
            ),
        is_derived_list(
            redirect_views(r@),
            str_views(origin.paths@),
            opt_view(prefix_root),
            opt_view(game_folder),
            opt_view(local_win_user),
            local_is_windows,
        ),
{
    let r = derive_redirects(origin, prefix_root, game_folder, local_win_user, local_is_windows);
    assert(is_derived_list(
        redirect_views(r@),
        str_views(origin.paths@),
        opt_view(prefix_root),
        opt_view(game_folder),
        opt_view(local_win_user),
        local_is_windows,
    ));
    r
}

/// The `backup` redirects to write before backing up a game restored from a
/// backup with origin `origin`, so a Windows-origin save keeps its canonical
/// `C:/…` paths: exactly the inversion of the restore rules.
pub fn apply_redirects_for_backup(
    origin: &BackupOrigin,
    prefix_root: Option<&str>,
    game_folder: Option<&str>,
    local_win_user: Option<&str>,
    local_is_windows: bool,
) -> (r: Vec<Redirect>)
    ensures
        exists|restore: Seq<RedirectView>|
            #![trigger spec_invert(restore)]
            is_derived_list(
                restore,
                str_views(origin.paths@),
                opt_view(prefix_root),
                opt_view(game_folder),
                opt_view(local_win_user),
                local_is_windows,
            ) && redirect_views(r@) == spec_invert(restore),
{
    let restore = derive_redirects(origin, prefix_root, game_folder, local_win_user, local_is_windows);
    let ghost rs = redirect_views(restore@);
    assert(is_derived_list(
        rs,
        str_views(origin.paths@),
        opt_view(prefix_root),
        opt_view(game_folder),
        opt_view(local_win_user),
        local_is_windows,
    ));
    let r = invert_for_backup(restore);
    r
}

} // verus!

verus! {

/// A differential backup entry of `mapping.yaml`.
pub struct MappingChild {
    pub name: Option<String>,
    pub when: Option<String>,
    /// The (string) keys of its `files` map.
    pub files: Vec<String>,
}

/// A full backup entry of `mapping.yaml` (`backups[]`).
pub struct MappingBackup {
    pub name: Option<String>,
    pub when: Option<String>,
    pub os: Option<String>,
    /// The (string) keys of its `files` map.
    pub files: Vec<String>,
    pub children: Vec<MappingChild>,
}

/// What the logic reads of a parsed `mapping.yaml`: its `backups` list, or
/// `None` when the document has no `backups` sequence.
pub struct MappingDoc {
    pub backups: Option<Vec<MappingBackup>>,
}

/// The view of an optional string.
pub open spec fn opt_string(o: Option<String>) -> Option<Seq<char>> {
    match o {
        Some(s) => Some(s@),
        None => None,
    }
}

/// The tip of a backup history: a backup's name and instant.
pub struct BackupTip {
    pub name: String,
    /// Unix seconds and sub-second nanoseconds of the backup's `when`.
    pub when: (i64, u32),
}

/// The view of a tip.
pub open spec fn tip_view(t: Option<BackupTip>) -> Option<(Seq<char>, (i64, u32))> {
    match t {
        Some(t) => Some((t.name@, t.when)),
        None => None,
    }
}

/// One entry considered for the tip: a named, dated entry replaces the current
/// tip when there is none or it is strictly later.
pub open spec fn consider(
    acc: Option<(Seq<char>, (i64, u32))>,
    name: Option<Seq<char>>,
    when: Option<Seq<char>>,
) -> Option<(Seq<char>, (i64, u32))> {
    match (name, when) {
        (Some(n), Some(w)) => match crate::time::spec_rfc3339(w) {
            Some(t) => if acc is None || crate::time::later(t, (acc->0).1) {
                Some((n, t))
            } else {
                acc
            },
            None => acc,
        },
        _ => acc,
    }
}

/// The tip after considering the children of one backup, in order.
pub open spec fn tip_children(
    acc: Option<(Seq<char>, (i64, u32))>,
    cs: Seq<MappingChild>,
) -> Option<(Seq<char>, (i64, u32))>
    decreases cs.len(),
{
    if cs.len() == 0 {
        acc
    } else {
        consider(
            tip_children(acc, cs.drop_last()),
            opt_string(cs.last().name),
            opt_string(cs.last().when),
        )
    }
}

/// The tip over the full backups, each followed by its children.
pub open spec fn tip_backups(bs: Seq<MappingBackup>) -> Option<(Seq<char>, (i64, u32))>
    decreases bs.len(),
{
    if bs.len() == 0 {
        None
    } else {
        let b = bs.last();
        tip_children(
            consider(tip_backups(bs.drop_last()), opt_string(b.name), opt_string(b.when)),
            b.children@,
        )
    }
}

/// An entry with a name and a parseable `when`.
pub open spec fn dated(name: Option<String>, when: Option<String>) -> bool {
    &&& name is Some
    &&& when matches Some(w) && crate::time::spec_rfc3339(w@) is Some
}

/// The instant of a dated entry.
pub open spec fn instant_of(when: Option<String>) -> (i64, u32) {
    crate::time::spec_rfc3339((when->0)@)->0
}

proof fn lemma_consider_keeps_latest(
    acc: Option<(Seq<char>, (i64, u32))>,
    name: Option<String>,
    when: Option<String>,
)
    ensures
        acc matches Some(x) ==> (consider(acc, opt_string(name), opt_string(when)) matches Some(y)
            && !crate::time::later(x.1, y.1)),
        dated(name, when) ==> (consider(acc, opt_string(name), opt_string(when)) matches Some(y)
            && !crate::time::later(instant_of(when), y.1)),
{
}

proof fn lemma_children_keep_latest(acc: Option<(Seq<char>, (i64, u32))>, cs: Seq<MappingChild>)
    ensures
        acc matches Some(x) ==> (tip_children(acc, cs) matches Some(y) && !crate::time::later(x.1, y.1)),
        forall|j: int| 0 <= j < cs.len() && dated(#[trigger] cs[j].name, cs[j].when) ==> (tip_children(acc, cs)
            matches Some(y) && !crate::time::later(instant_of(cs[j].when), y.1)),
    decreases cs.len(),
{
    if cs.len() > 0 {
        let d = cs.drop_last();
        lemma_children_keep_latest(acc, d);
        lemma_consider_keeps_latest(tip_children(acc, d), cs.last().name, cs.last().when);
        assert forall|j: int| 0 <= j < cs.len() && dated(#[trigger] cs[j].name, cs[j].when) implies (tip_children(acc, cs)
            matches Some(y) && !crate::time::later(instant_of(cs[j].when), y.1)) by {
            if j < cs.len() - 1 {
                assert(cs[j] == d[j]);
            }
        }
    }
}

/// The tip only moves forward as entries are read: whatever was the tip of
/// the first backups, the tip of more backups is not earlier.
proof fn lemma_backups_keep_latest(bs: Seq<MappingBackup>, n: int)
    requires
        0 <= n <= bs.len(),
    ensures
        tip_backups(bs.take(n)) matches Some(x) ==> (tip_backups(bs) matches Some(y) && !crate::time::later(x.1, y.1)),
    decreases bs.len() - n,
{
    if n < bs.len() {
        let d = bs.drop_last();
        assert(d.take(n) =~= bs.take(n));
        lemma_backups_keep_latest(d, n);
        assert(bs.take(bs.len() as int) =~= bs);
        let b = bs.last();
        lemma_consider_keeps_latest(tip_backups(d), b.name, b.when);
        lemma_children_keep_latest(consider(tip_backups(d), opt_string(b.name), opt_string(b.when)), b.children@);
    } else {
        assert(bs.take(n) =~= bs);
    }
}

/// The tip is the latest entry: for every full backup that has a name and a
/// parseable `when`, and for every such differential child of any backup,
/// there is a tip and it is not earlier than that entry.
pub proof fn law_backup_tip_is_latest(bs: Seq<MappingBackup>, i: int)
    requires
        0 <= i < bs.len(),
    ensures
        dated(bs[i].name, bs[i].when) ==> (tip_backups(bs) matches Some(y) && !crate::time::later(
            instant_of(bs[i].when),
            y.1,
        )),
        forall|j: int| 0 <= j < bs[i].children@.len() && dated(#[trigger] bs[i].children@[j].name, bs[i].children@[j].when)
            ==> (tip_backups(bs) matches Some(y) && !crate::time::later(instant_of(bs[i].children@[j].when), y.1)),
{
    let pre = bs.take(i + 1);
    assert(pre.drop_last() =~= bs.take(i));
    assert(pre.last() == bs[i]);
    let b = bs[i];
    lemma_consider_keeps_latest(tip_backups(bs.take(i)), b.name, b.when);
    lemma_children_keep_latest(consider(tip_backups(bs.take(i)), opt_string(b.name), opt_string(b.when)), b.children@);
    lemma_backups_keep_latest(bs, i + 1);
}

/// `y` is the name and instant of this dated entry.
pub open spec fn names_entry(name: Option<String>, when: Option<String>, y: (Seq<char>, (i64, u32))) -> bool {
    dated(name, when) && y == ((name->0)@, instant_of(when))
}

/// `y` is the name and instant of some dated full backup or differential
/// child in the list.
pub open spec fn is_some_entry(bs: Seq<MappingBackup>, y: (Seq<char>, (i64, u32))) -> bool {
    exists|i: int| 0 <= i < bs.len() && (names_entry((#[trigger] bs[i]).name, bs[i].when, y) || exists|j: int|
        0 <= j < bs[i].children@.len() && names_entry((#[trigger] bs[i].children@[j]).name, bs[i].children@[j].when, y))
}

proof fn lemma_children_from(acc: Option<(Seq<char>, (i64, u32))>, cs: Seq<MappingChild>)
    ensures
        tip_children(acc, cs) matches Some(y) ==> (acc == Some(y) || exists|j: int| 0 <= j < cs.len()
            && names_entry((#[trigger] cs[j]).name, cs[j].when, y)),
    decreases cs.len(),
{
    if cs.len() > 0 {
        let d = cs.drop_last();
        lemma_children_from(acc, d);
        if let Some(y) = tip_children(acc, cs) {
            if tip_children(acc, d) == Some(y) {
                if acc != Some(y) {
                    let j = choose|j: int| 0 <= j < d.len() && names_entry((#[trigger] d[j]).name, d[j].when, y);
                    assert(cs[j] == d[j]);
                }
            } else {
                let j = cs.len() - 1;
                assert(cs[j] == cs.last());
                assert(names_entry(cs[j].name, cs[j].when, y));
            }
        }
    }
}

/// The tip is one of the entries: when there is one, it is the name and
/// instant of a full backup or a differential child that has a name and a
/// parseable `when`.
pub proof fn law_backup_tip_is_an_entry(bs: Seq<MappingBackup>)
    ensures
        tip_backups(bs) matches Some(y) ==> is_some_entry(bs, y),
    decreases bs.len(),
{
    if bs.len() > 0 {
        let d = bs.drop_last();
        let b = bs.last();
        let i = bs.len() - 1;
        assert(bs[i] == b);
        law_backup_tip_is_an_entry(d);
        let c = consider(tip_backups(d), opt_string(b.name), opt_string(b.when));
        lemma_children_from(c, b.children@);
        if let Some(y) = tip_backups(bs) {
            if c == Some(y) {
                if tip_backups(d) == Some(y) {
                    let k = choose|k: int| 0 <= k < d.len() && (names_entry((#[trigger] d[k]).name, d[k].when, y)
                        || exists|j: int| 0 <= j < d[k].children@.len() && names_entry(
                        (#[trigger] d[k].children@[j]).name,
                        d[k].children@[j].when,
                        y,
                    ));
                    assert(bs[k] == d[k]);
                } else {
                    assert(names_entry(bs[i].name, bs[i].when, y));
                }
            } else {
                let j = choose|j: int| 0 <= j < b.children@.len() && names_entry((#[trigger] b.children@[j]).name, b.children@[j].when, y);
                assert(names_entry(bs[i].children@[j].name, bs[i].children@[j].when, y));
            }
        }
    }
}

fn consider_exec(
    acc: Option<BackupTip>,
    name: &Option<String>,
    when: &Option<String>,
) -> (r: Option<BackupTip>)
    ensures
        tip_view(r) == consider(tip_view(acc), opt_string(*name), opt_string(*when)),
{
    match (name, when) {
        (Some(n), Some(w)) => match crate::time::parse_rfc3339(w.as_str()) {
            Some(t) => {
                let replace = match &acc {
                    None => true,
                    Some(cur) => crate::time::later_exec(t, cur.when),
                };
                if replace {
                    Some(BackupTip { name: string_of(&chars_of(n.as_str())), when: t })
                } else {
                    acc
                }
            },
            None => acc,
        },
        _ => acc,
    }
}

/// The tip of a parsed `mapping.yaml`: the full or differential backup with
/// the latest `when` (the first one wins a tie); `None` when no entry has both
/// a name and a parseable timestamp, or there is no `backups` list.
pub fn backup_tip(doc: &MappingDoc) -> (r: Option<BackupTip>)
    ensures
        tip_view(r) == match doc.backups {
            Some(bs) => tip_backups(bs@),
            None => None,
        },
{
    let bs = match &doc.backups {
        Some(bs) => bs,
        None => return None,
    };
    let mut tip: Option<BackupTip> = None;
    let mut i: usize = 0;
    while i < bs.len()
        invariant
            i <= bs.len(),
            tip_view(tip) == tip_backups(bs@.take(i as int)),
        decreases bs.len() - i,
    {
        let b = &bs[i];
        assert(bs@.take(i + 1).drop_last() =~= bs@.take(i as int));
        tip = consider_exec(tip, &b.name, &b.when);
        let ghost base = tip_view(tip);
        let mut k: usize = 0;
        while k < b.children.len()
            invariant
                k <= b.children.len(),
                tip_view(tip) == tip_children(base, b.children@.take(k as int)),
            decreases b.children.len() - k,
        {
            assert(b.children@.take(k + 1).drop_last() =~= b.children@.take(k as int));
            tip = consider_exec(tip, &b.children[k].name, &b.children[k].when);
            k += 1;
        }
        assert(b.children@.take(b.children.len() as int) =~= b.children@);
        i += 1;
    }
    assert(bs@.take(bs.len() as int) =~= bs@);
    tip
}

/// The files of one backup followed by those of each of its children.
pub open spec fn origin_paths(b: MappingBackup) -> Seq<Seq<char>> {
    str_views(b.files@) + child_paths(b.children@)
}

/// The files of the children, in order.
pub open spec fn child_paths(cs: Seq<MappingChild>) -> Seq<Seq<char>>
    decreases cs.len(),
{
    if cs.len() == 0 {
        Seq::empty()
    } else {
        child_paths(cs.drop_last()) + str_views(cs.last().files@)
    }
}

/// The backup origin a parsed `mapping.yaml` describes: the OS of its first
/// backup (`Unknown` when absent or unrecognised) and every path recorded by
/// that backup and its children; `None` without a first backup.
pub fn parse_origin(doc: &MappingDoc) -> (r: Option<BackupOrigin>)
    ensures
        r is Some <==> (doc.backups matches Some(bs) && bs@.len() > 0),
        r matches Some(o) ==> {
            let top = doc.backups->0@[0];
            &&& str_views(o.paths@) == origin_paths(top)
            &&& o.os == match opt_string(top.os) {
                Some(s) => if eq_ci(s, "windows"@) {
                    BackupOs::Windows
                } else if eq_ci(s, "linux"@) {
                    BackupOs::Linux
                } else {
                    BackupOs::Unknown
                },
                None => BackupOs::Unknown,
            }
        },
{
    let bs = match &doc.backups {
        Some(bs) => bs,
        None => return None,
    };
    if bs.len() == 0 {
        return None;
    }
    let top = &bs[0];
    let os = match &top.os {
        Some(s) => BackupOs::from_str(s.as_str()),
        None => BackupOs::Unknown,
    };
    let mut paths: Vec<String> = Vec::new();
    append_strings(&mut paths, &top.files);
    let mut k: usize = 0;
    assert(str_views(paths@) =~= str_views(top.files@) + child_paths(top.children@.take(0)));
    while k < top.children.len()
        invariant
            k <= top.children.len(),
            str_views(paths@) == str_views(top.files@) + child_paths(top.children@.take(k as int)),
        decreases top.children.len() - k,
    {
        append_strings(&mut paths, &top.children[k].files);
        assert(top.children@.take(k + 1).drop_last() =~= top.children@.take(k as int));
        proof {
            i_assoc(
                str_views(top.files@),
                child_paths(top.children@.take(k as int)),
                str_views(top.children@[k as int].files@),
            );
        }
        k += 1;
    }
    assert(top.children@.take(top.children.len() as int) =~= top.children@);
    Some(BackupOrigin { os, paths })
}

proof fn i_assoc(a: Seq<Seq<char>>, b: Seq<Seq<char>>, c: Seq<Seq<char>>)
    ensures
        a + b + c == a + (b + c),
{
    assert(a + b + c =~= a + (b + c));
}

fn append_strings(dst: &mut Vec<String>, src: &Vec<String>)
    ensures
        str_views(final(dst)@) == str_views(old(dst)@) + str_views(src@),
{
    let mut i: usize = 0;
    let ghost d0 = str_views(dst@);
    while i < src.len()
        invariant
            i <= src.len(),
            str_views(dst@) == d0 + str_views(src@).take(i as int),
        decreases src.len() - i,
    {
        let ghost before = dst@;
        dst.push(string_of(&chars_of(src[i].as_str())));
        assert(str_views(dst@) =~= str_views(before).push(src@[i as int]@));
        assert(str_views(src@).take(i + 1) =~= str_views(src@).take(i as int).push(src@[i as int]@));
        i += 1;
    }
    assert(str_views(src@).take(src.len() as int) =~= str_views(src@));
}

} // verus!

verus! {

/// A character Windows forbids in folder names.
pub open spec fn is_windows_forbidden(c: char) -> bool {
    c == ':' || c == '*' || c == '?' || c == '"' || c == '<' || c == '>' || c == '|'
}

/// `name` with every Windows-forbidden character replaced by `_`.
pub open spec fn spec_windows_safe_name(name: Seq<char>) -> Seq<char> {
    Seq::new(name.len(), |i: int| if is_windows_forbidden(name[i]) { '_' } else { name[i] })
}

/// Replace the characters Windows forbids in folder names (`:` `*` `?` `"`
/// `<` `>` `|`) with underscores, as ludusavi does for backup folders.
pub fn windows_safe_name(name: &str) -> (r: String)
    ensures
        r@ == spec_windows_safe_name(name@),
{
    let v = chars_of(name);
    let mut out: Vec<char> = Vec::new();
    let mut i: usize = 0;
    while i < v.len()
        invariant
            i <= v.len(),
            out@ =~= spec_windows_safe_name(v@).take(i as int),
        decreases v.len() - i,
    {
        let c = v[i];
        if c == ':' || c == '*' || c == '?' || c == '"' || c == '<' || c == '>' || c == '|' {
            out.push('_');
        } else {
            out.push(c);
        }
        i += 1;
    }
    string_of(&out)
}

} // verus!

verus! {

/// A restore rule's backup counterpart: source and target swapped.
pub open spec fn swapped(r: RedirectView) -> RedirectView {
    RedirectView { kind: "backup"@, source: r.target, target: r.source }
}

/// The backup rule a restore rule yields: its swap when it restores from a
/// Windows path, none otherwise.
pub open spec fn backup_counterpart(r: RedirectView) -> Option<RedirectView> {
    if spec_is_windows_drive_path(r.source) {
        Some(swapped(r))
    } else {
        None
    }
}

/// Backup rules invert restore rules: the backup rules are exactly the swaps
/// (source and target exchanged, tagged `backup`) of the restore rules that
/// restore from a Windows `X:/…` path, in the same order.
pub proof fn law_backup_inverts_restore(rs: Seq<RedirectView>)
    ensures
        spec_invert(rs) == rs.filter_map(|r: RedirectView| backup_counterpart(r)),
    decreases rs.len(),
{
    if rs.len() > 0 {
        law_backup_inverts_restore(rs.drop_last());
        let f = |r: RedirectView| backup_counterpart(r);
        assert(rs.filter_map(f) == match f(rs.last()) {
            Some(x) => rs.drop_last().filter_map(f) + seq![x],
            None => rs.drop_last().filter_map(f),
        });
        if spec_is_windows_drive_path(rs.last().source) {
            assert(spec_invert(rs) =~= rs.filter_map(f));
        }
    }
}

/// Making a name Windows-safe twice changes nothing more, and a safe name has
/// no forbidden character.
pub proof fn law_windows_safe_name_is_idempotent(name: Seq<char>)
    ensures
        spec_windows_safe_name(spec_windows_safe_name(name)) == spec_windows_safe_name(name),
        forall|i: int|
            0 <= i < name.len() ==> !is_windows_forbidden(#[trigger] spec_windows_safe_name(name)[i]),
{
    assert(spec_windows_safe_name(spec_windows_safe_name(name)) =~= spec_windows_safe_name(name));
}

} // verus!

verus! {

/// `v` is a restore redirect list as [`derive_redirects`] gives it for these
/// paths and settings: every rule a `restore` rule, strictly ascending by
/// (source, target), holding exactly the derived rules.
pub open spec fn is_derived_list(
    v: Seq<RedirectView>,
    paths: Seq<Seq<char>>,
    prefix_root: Option<Seq<char>>,
    game_folder: Option<Seq<char>>,
    local_win_user: Option<Seq<char>>,
    local_is_windows: bool,
) -> bool {
    &&& forall|i: int| 0 <= i < v.len() ==> (#[trigger] v[i]).kind == "restore"@
    &&& sorted_pairs(redirect_pairs(v))
    &&& forall|p: Pair|
        redirect_pairs(v).contains(p) <==> spec_derived(paths, prefix_root, game_folder, local_win_user, local_is_windows, p)
}

proof fn lemma_sorted_unique(a: Seq<Pair>, b: Seq<Pair>)
    requires
        sorted_pairs(a),
        sorted_pairs(b),
        forall|p: Pair| a.contains(p) <==> b.contains(p),
    ensures
        a == b,
    decreases a.len(),
{
    if a.len() == 0 {
        if b.len() > 0 {
            assert(b.contains(b[0]));
        }
        assert(a =~= b);
    } else if b.len() == 0 {
        assert(a.contains(a[0]));
    } else {
        if a[0] != b[0] {
            assert(a.contains(a[0]));
            assert(b.contains(b[0]));
            let k = choose|k: int| 0 <= k < b.len() && b[k] == a[0];
            let m = choose|m: int| 0 <= m < a.len() && a[m] == b[0];
            assert(pair_lt(b[0], b[k]));
            assert(pair_lt(a[0], a[m]));
            lemma_pair_lt_order(a[0], b[0], a[0]);
        }
        let a1 = a.drop_first();
        let b1 = b.drop_first();
        assert forall|p: Pair| a1.contains(p) <==> b1.contains(p) by {
            if a1.contains(p) {
                let i = choose|i: int| 0 <= i < a1.len() && a1[i] == p;
                assert(a[i + 1] == p);
                assert(pair_lt(a[0], a[i + 1]));
                lemma_pair_lt_order(a[0], p, a[0]);
                assert(a.contains(p));
                let j = choose|j: int| 0 <= j < b.len() && b[j] == p;
                assert(j != 0);
                assert(b1[j - 1] == p);
            }
            if b1.contains(p) {
                let i = choose|i: int| 0 <= i < b1.len() && b1[i] == p;
                assert(b[i + 1] == p);
                assert(pair_lt(b[0], b[i + 1]));
                lemma_pair_lt_order(b[0], p, b[0]);
                assert(b.contains(p));
                let j = choose|j: int| 0 <= j < a.len() && a[j] == p;
                assert(j != 0);
                assert(a1[j - 1] == p);
            }
        }
        lemma_sorted_unique(a1, b1);
        assert(a =~= seq![a[0]] + a1);
        assert(b =~= seq![b[0]] + b1);
    }
}

/// The derived restore list is determined: two lists that both meet
/// [`derive_redirects`]' contract for the same paths and settings are equal.
/// So [`apply_redirects_for_restore`] gives exactly the derived list, and
/// [`apply_redirects_for_backup`] exactly its inversion.
pub proof fn law_derived_redirects_are_determined(
    a: Seq<RedirectView>,
    b: Seq<RedirectView>,
    paths: Seq<Seq<char>>,
    prefix_root: Option<Seq<char>>,
    game_folder: Option<Seq<char>>,
    local_win_user: Option<Seq<char>>,
    local_is_windows: bool,
)
    requires
        is_derived_list(a, paths, prefix_root, game_folder, local_win_user, local_is_windows),
        is_derived_list(b, paths, prefix_root, game_folder, local_win_user, local_is_windows),
    ensures
        a == b,
{
    lemma_sorted_unique(redirect_pairs(a), redirect_pairs(b));
    assert forall|i: int| 0 <= i < a.len() implies a[i] == b[i] by {
        assert(redirect_pairs(a)[i] == redirect_pairs(b)[i]);
    }
    assert(a =~= b);
}

proof fn lemma_drive_c_suffix(path: Seq<char>)
    ensures
        spec_classify_format(path) matches SpecFormat::WinePrefix(dc) ==> ends_with(dc, "/drive_c"@),
{
    reveal_strlit("/drive_c/");
    reveal_strlit("/drive_c");
    let p = replace_char(path, '\\', '/');
    lemma_find_from(p, "/drive_c/"@, 0);
    match find(p, "/drive_c/"@) {
        Some(idx) => {
            let dc = p.take(idx + 8);
            assert(p.subrange(idx, idx + 9) == "/drive_c/"@);
            assert(dc.skip(dc.len() - 8) =~= "/drive_c"@) by {
                assert forall|j: int| 0 <= j < 8 implies dc.skip(dc.len() - 8)[j] == "/drive_c"@[j] by {
                    assert(dc.skip(dc.len() - 8)[j] == p.subrange(idx, idx + 9)[j]);
                }
            }
        },
        None => {},
    }
}

/// On a Windows host every derived rule restores from inside a prefix: its
/// source lies under a `…/drive_c` folder.
pub proof fn law_windows_host_sources_are_in_drive_c(
    paths: Seq<Seq<char>>,
    prefix_root: Option<Seq<char>>,
    game_folder: Option<Seq<char>>,
    local_win_user: Option<Seq<char>>,
    rule: Pair,
)
    requires
        spec_derived(paths, prefix_root, game_folder, local_win_user, true, rule),
    ensures
        contains(rule.0, "/drive_c"@),
{
    reveal_strlit("/drive_c");
    let i = choose|i: int|
        0 <= i < paths.len() && #[trigger] spec_rule_for(
            paths[i],
            spec_username_from(paths),
            prefix_root,
            game_folder,
            local_win_user,
            true,
        ) == Some(rule);
    lemma_drive_c_suffix(paths[i]);
    match spec_classify_format(paths[i]) {
        SpecFormat::WinePrefix(dc) => {
            let k = dc.len() - 8;
            assert(rule.0.subrange(k, k + 8) =~= dc.skip(k));
            assert(match_at(rule.0, "/drive_c"@, k));
            lemma_find_from(rule.0, "/drive_c"@, 0);
        },
        _ => {},
    }
}

/// Off Windows, a game without a Proton prefix gets no redirect at all.
pub proof fn law_no_prefix_no_redirects_off_windows(
    paths: Seq<Seq<char>>,
    game_folder: Option<Seq<char>>,
    local_win_user: Option<Seq<char>>,
    rule: Pair,
)
    ensures
        !spec_derived(paths, None, game_folder, local_win_user, false, rule),
{
}

/// A native Linux path (no `drive_c` in it, no drive letter) never yields a
/// rule.
pub proof fn law_native_linux_paths_yield_no_rule(
    path: Seq<char>,
    backup_win_user: Option<Seq<char>>,
    prefix_root: Option<Seq<char>>,
    game_folder: Option<Seq<char>>,
    local_win_user: Option<Seq<char>>,
    local_is_windows: bool,
)
    requires
        spec_classify_format(path) is NativeLinux,
    ensures
        spec_rule_for(path, backup_win_user, prefix_root, game_folder, local_win_user, local_is_windows) is None,
{
}

} // verus!
