//! Proton / umu-launcher integration: choosing the Proton build, the per-game
//! Wine prefix, and the `umu-run` invocation that runs a Windows executable on
//! Linux.

use vstd::prelude::*;
use crate::error::AppError;
use crate::text::{
    chars_of, concat, contains, contains_exec, digits_value, digits_value_u64, ends_with,
    ends_with_exec, is_blank, is_digit, path_join, path_join_exec, slice_vec, string_of, to_lower,
    to_lower_exec, trim, trim_exec,
};

verus! {

/// A discovered Proton install.
pub struct ProtonVersion {
    /// Display name, e.g. `GE-Proton9-20`.
    pub name: String,
    /// The Proton directory (the one holding the `proton` script).
    pub path: String,
    /// `steam` (steamapps/common) or `compat` (compatibilitytools.d).
    pub source: String,
}

/// The user-profile folder inside a Proton prefix (umu uses the fixed user
/// `steamuser`).
pub const WINE_STEAMUSER_PROFILE: &'static str = "drive_c/users/steamuser";

/// `Path::is_file`.
///
/// Trusted: the answer depends on the file system, so nothing is claimed of
/// it.
#[verifier::external_body]
fn path_is_file(p: &str) -> bool {
    std::path::Path::new(p).is_file()
}

/// The two files a usable Proton directory holds: the `proton` launcher
/// script and `toolmanifest.vdf`.
pub fn proton_marker_files(dir: &str) -> (r: (String, String))
    ensures
        r.0@ == path_join(dir@, "proton"@),
        r.1@ == path_join(dir@, "toolmanifest.vdf"@),
{
    (path_join_exec(dir, "proton"), path_join_exec(dir, "toolmanifest.vdf"))
}

/// The verdict on a Proton directory from the two file checks: valid only
/// when both the launcher script and `toolmanifest.vdf` are files.
pub fn proton_dir_verdict(script_is_file: bool, manifest_is_file: bool) -> (r: bool)
    ensures
        r == (script_is_file && manifest_is_file),
{
    script_is_file && manifest_is_file
}

/// True iff `dir` holds both files of [`proton_marker_files`]: the file
/// system is asked about each, and [`proton_dir_verdict`] gives the answer.
/// What the file system answers is not stated, so neither is the result.
pub fn is_valid_proton_dir(dir: &str) -> bool {
    let (script, manifest) = proton_marker_files(dir);
    let s = path_is_file(script.as_str());
    let m = path_is_file(manifest.as_str());
    proton_dir_verdict(s, m)
}

/// The text after the leading non-digits.
pub open spec fn skip_non_digits(s: Seq<char>) -> Seq<char>
    decreases s.len(),
{
    if s.len() > 0 && !is_digit(s[0]) {
        skip_non_digits(s.drop_first())
    } else {
        s
    }
}

/// The leading run of digits.
pub open spec fn take_digits(s: Seq<char>) -> Seq<char>
    decreases s.len(),
{
    if s.len() > 0 && is_digit(s[0]) {
        seq![s[0]] + take_digits(s.drop_first())
    } else {
        Seq::empty()
    }
}

/// A coarse version signal: the first run of digits in the name as a `u32`
/// (zero when there is none or it does not fit), capped at 9999.
pub open spec fn spec_version_score(name: Seq<char>) -> u32 {
    let d = take_digits(skip_non_digits(name));
    if d.len() == 0 || digits_value(d) > u32::MAX {
        0
    } else if digits_value(d) > 9999 {
        9999
    } else {
        digits_value(d) as u32
    }
}

proof fn lemma_take_digits_all(s: Seq<char>)
    ensures
        forall|i: int| 0 <= i < take_digits(s).len() ==> is_digit(#[trigger] take_digits(s)[i]),
    decreases s.len(),
{
    if s.len() > 0 && is_digit(s[0]) {
        lemma_take_digits_all(s.drop_first());
        let t = take_digits(s.drop_first());
        assert forall|i: int| 0 <= i < take_digits(s).len() implies is_digit(
            #[trigger] take_digits(s)[i],
        ) by {
            if i > 0 {
                assert(take_digits(s)[i] == t[i - 1]);
            }
        }
    }
}

/// The first run of digits in `name`.
fn first_digit_run(name: &[char]) -> (r: Vec<char>)
    ensures
        r@ == take_digits(skip_non_digits(name@)),
{
    let mut i: usize = 0;
    assert(name@.skip(0) =~= name@);
    while i < name.len() && !('0' <= name[i] && name[i] <= '9')
        invariant
            i <= name.len(),
            skip_non_digits(name@) == skip_non_digits(name@.skip(i as int)),
        decreases name.len() - i,
    {
        assert(name@.skip(i as int).drop_first() =~= name@.skip(i + 1));
        i += 1;
    }
    let ghost rest = name@.skip(i as int);
    let mut j = i;
    let mut out: Vec<char> = Vec::new();
    assert(name@.skip(j as int) =~= rest);
    while j < name.len() && '0' <= name[j] && name[j] <= '9'
        invariant
            i <= j <= name.len(),
            rest == name@.skip(i as int),
            take_digits(rest) == out@ + take_digits(name@.skip(j as int)),
        decreases name.len() - j,
    {
        assert(name@.skip(j as int).drop_first() =~= name@.skip(j + 1));
        assert(name@.skip(j as int)[0] == name[j as int]);
        let ghost before = out@;
        out.push(name[j]);
        assert(before + (seq![name@[j as int]] + take_digits(name@.skip(j + 1))) =~= out@
            + take_digits(name@.skip(j + 1)));
        j += 1;
    }
    assert(take_digits(name@.skip(j as int)) =~= Seq::<char>::empty());
    assert(out@ + Seq::<char>::empty() =~= out@);
    out
}

/// The version score of a name (see [`spec_version_score`]).
pub fn version_score(name: &str) -> (r: u32)
    ensures
        r == spec_version_score(name@),
{
    let d = first_digit_run(&chars_of(name));
    proof {
        lemma_take_digits_all(skip_non_digits(name@));
    }
    if d.len() == 0 {
        return 0;
    }
    match digits_value_u64(&d) {
        None => 0,
        Some(v) => if v > 4294967295u64 {
            0
        } else if v > 9999 {
            9999
        } else {
            v as u32
        },
    }
}

/// The ordering score for the default pick: UMU-Proton above GE-Proton above
/// Proton Experimental above numbered stock Proton (by version).
pub open spec fn spec_proton_rank(name: Seq<char>) -> u32 {
    let l = to_lower(name);
    if contains(l, "umu-proton"@) {
        (3_000_000 + spec_version_score(name)) as u32
    } else if contains(l, "ge-proton"@) {
        (2_000_000 + spec_version_score(name)) as u32
    } else if contains(l, "experimental"@) {
        1_000_000
    } else {
        (spec_version_score(name) * 10) as u32
    }
}

/// The rank of a Proton build's name (see [`spec_proton_rank`]). Names are
/// compared after ASCII lower-casing, which for these ASCII patterns agrees
/// with full Unicode lower-casing.
pub fn proton_rank(name: &str) -> (r: u32)
    ensures
        r == spec_proton_rank(name@),
{
    let l = to_lower_exec(&chars_of(name));
    let vs = version_score(name);
    if contains_exec(&l, &chars_of("umu-proton")) {
        3_000_000 + vs
    } else if contains_exec(&l, &chars_of("ge-proton")) {
        2_000_000 + vs
    } else if contains_exec(&l, &chars_of("experimental")) {
        1_000_000
    } else {
        vs * 10
    }
}

/// A UMU-Proton or GE-Proton build (the ones that can drive `winetricks`).
pub open spec fn spec_umu_or_ge(name: Seq<char>) -> bool {
    contains(to_lower(name), "umu-proton"@) || contains(to_lower(name), "ge-proton"@)
}

/// Whether a build's name marks it as UMU-Proton or GE-Proton.
pub fn name_is_umu_or_ge(name: &str) -> (r: bool)
    ensures
        r == spec_umu_or_ge(name@),
{
    let l = to_lower_exec(&chars_of(name));
    contains_exec(&l, &chars_of("umu-proton")) || contains_exec(&l, &chars_of("ge-proton"))
}

/// The view of an optional text.
pub open spec fn opt_text(o: Option<&str>) -> Option<Seq<char>> {
    match o {
        Some(s) => Some(s@),
        None => None,
    }
}

/// The candidate a setting offers: its trimmed text, when not blank.
pub open spec fn candidate(o: Option<Seq<char>>) -> Option<Seq<char>> {
    match o {
        Some(s) => if trim(s).len() > 0 {
            Some(trim(s))
        } else {
            None
        },
        None => None,
    }
}

/// The Proton directory to force, given which candidates are valid Proton
/// directories: the per-game override if it is set and valid, else the
/// configured default if set and valid, else `None` (umu-run picks its own).
pub open spec fn spec_pick_proton(
    override_path: Option<Seq<char>>,
    default_path: Option<Seq<char>>,
    override_valid: bool,
    default_valid: bool,
) -> Option<Seq<char>> {
    if candidate(override_path) is Some && override_valid {
        candidate(override_path)
    } else if candidate(default_path) is Some && default_valid {
        candidate(default_path)
    } else {
        None
    }
}

fn candidate_exec(o: Option<&str>) -> (r: Option<String>)
    ensures
        match r {
            Some(s) => candidate(opt_text(o)) == Some(s@),
            None => candidate(opt_text(o)) is None,
        },
{
    match o {
        Some(s) => {
            let t = trim_exec(&chars_of(s));
            if t.len() > 0 {
                Some(string_of(&t))
            } else {
                None
            }
        },
        None => None,
    }
}

/// The Proton directory to force, given whether the trimmed override and
/// default are valid Proton directories (see [`spec_pick_proton`]).
pub fn pick_proton_path(
    override_path: Option<&str>,
    default_path: Option<&str>,
    override_valid: bool,
    default_valid: bool,
) -> (r: Option<String>)
    ensures
        match r {
            Some(s) => spec_pick_proton(opt_text(override_path), opt_text(default_path), override_valid, default_valid) == Some(s@),
            None => spec_pick_proton(opt_text(override_path), opt_text(default_path), override_valid, default_valid) is None,
        },
{
    if let Some(o) = candidate_exec(override_path) {
        if override_valid {
            return Some(o);
        }
    }
    if let Some(d) = candidate_exec(default_path) {
        if default_valid {
            return Some(d);
        }
    }
    None
}

/// Pick the Proton directory to force through `PROTONPATH`: the first of the
/// per-game override and the configured default that is set (not blank) and,
/// on disk, a valid Proton directory. Whatever the disk says, the result is
/// one of those trimmed settings, and without a set one it is `None`.
pub fn resolve_proton_path(override_path: Option<&str>, default_path: Option<&str>) -> (r: Option<String>)
    ensures
        candidate(opt_text(override_path)) is None && candidate(opt_text(default_path)) is None
            ==> r is None,
        r matches Some(s) ==> (candidate(opt_text(override_path)) == Some(s@) || candidate(
            opt_text(default_path),
        ) == Some(s@)),
        exists|ov: bool, dv: bool|
            crate::rclone::opt_view(r) == spec_pick_proton(opt_text(override_path), opt_text(default_path), ov, dv),
{
    let o = candidate_exec(override_path);
    let ov = match &o {
        Some(p) => is_valid_proton_dir(p.as_str()),
        None => false,
    };
    let d = candidate_exec(default_path);
    let dv = if ov {
        false
    } else {
        match &d {
            Some(p) => is_valid_proton_dir(p.as_str()),
            None => false,
        }
    };
    let r = pick_proton_path(override_path, default_path, ov, dv);
    assert(crate::rclone::opt_view(r) == spec_pick_proton(opt_text(override_path), opt_text(default_path), ov, dv));
    r
}

/// A game's prefix root: `<prefixes_dir>/<game_id>`.
pub fn game_prefix_path(prefixes_dir: &str, game_id: &str) -> (r: String)
    ensures
        r@ == path_join(prefixes_dir@, game_id@),
{
    path_join_exec(prefixes_dir, game_id)
}

/// The Proton prefix root of a game: `None` when it does not run through
/// Proton; otherwise the override when it is not blank (used as given), else
/// the game's default prefix under `prefixes_dir`.
pub fn resolve_prefix_root(
    uses_proton: bool,
    wine_prefix_override: Option<&str>,
    game_id: &str,
    prefixes_dir: &str,
) -> (r: Option<String>)
    ensures
        !uses_proton ==> r is None,
        uses_proton ==> (r matches Some(p) && p@ == match wine_prefix_override {
            Some(o) => if !is_blank(o@) {
                o@
            } else {
                path_join(prefixes_dir@, game_id@)
            },
            None => path_join(prefixes_dir@, game_id@),
        }),
{
    if !uses_proton {
        return None;
    }
    match wine_prefix_override {
        Some(o) => if !crate::text::is_blank_exec(o) {
            Some(string_of(&chars_of(o)))
        } else {
            Some(game_prefix_path(prefixes_dir, game_id))
        },
        None => Some(game_prefix_path(prefixes_dir, game_id)),
    }
}

/// Whether a game's executable launches through Proton: never on a Windows
/// host; on Linux for any `.exe` (compared trimmed and ignoring ASCII case).
pub fn exe_needs_proton(exe_path: &str, host_is_windows: bool) -> (r: bool)
    ensures
        r == (!host_is_windows && ends_with(to_lower(trim(exe_path@)), ".exe"@)),
{
    if host_is_windows {
        return false;
    }
    let l = to_lower_exec(&trim_exec(&chars_of(exe_path)));
    ends_with_exec(&l, &chars_of(".exe"))
}

/// A resolved umu-run invocation: program, arguments and environment.
pub struct UmuLaunch {
    pub program: String,
    pub args: Vec<String>,
    pub env: Vec<(String, String)>,
}

/// The view of an environment list.
pub open spec fn env_view(v: Seq<(String, String)>) -> Seq<(Seq<char>, Seq<char>)> {
    v.map_values(|p: (String, String)| (p.0@, p.1@))
}

/// The umu-run environment: `GAMEID=umu-<id>`, `WINEPREFIX`, `PROTONPATH` when
/// a Proton build is pinned, and the network bounds `UMU_HTTP_TIMEOUT=4` and
/// `UMU_HTTP_RETRIES=1` unless the user's environment already sets them.
pub open spec fn spec_umu_env(
    prefix_root: Seq<char>,
    proton_path: Option<Seq<char>>,
    game_id: Seq<char>,
    timeout_set: bool,
    retries_set: bool,
) -> Seq<(Seq<char>, Seq<char>)> {
    let base = seq![("GAMEID"@, "umu-"@ + game_id), ("WINEPREFIX"@, prefix_root)];
    let a = match proton_path {
        Some(p) => base.push(("PROTONPATH"@, p)),
        None => base,
    };
    let b = if timeout_set {
        a
    } else {
        a.push(("UMU_HTTP_TIMEOUT"@, "4"@))
    };
    if retries_set {
        b
    } else {
        b.push(("UMU_HTTP_RETRIES"@, "1"@))
    }
}

fn env_pair(k: &str, v: &str) -> (r: (String, String))
    ensures
        r.0@ == k@,
        r.1@ == v@,
{
    (string_of(&chars_of(k)), string_of(&chars_of(v)))
}

/// Build the umu-run command for a Windows executable: the executable then
/// the extra arguments, and the environment of [`spec_umu_env`]. Whether
/// `UMU_HTTP_TIMEOUT` / `UMU_HTTP_RETRIES` are already set in the user's
/// environment is passed in.
pub fn build_umu_launch(
    umu_run: &str,
    exe_path: &str,
    extra_args: &Vec<String>,
    prefix_root: &str,
    proton_path: Option<&str>,
    game_id: &str,
    timeout_set: bool,
    retries_set: bool,
) -> (r: UmuLaunch)
    ensures
        r.program@ == umu_run@,
        crate::text::str_views(r.args@) == seq![exe_path@] + crate::text::str_views(extra_args@),
        env_view(r.env@) == spec_umu_env(prefix_root@, opt_text(proton_path), game_id@, timeout_set, retries_set),
{
    let mut args: Vec<String> = Vec::new();
    args.push(string_of(&chars_of(exe_path)));
    let mut i: usize = 0;
    while i < extra_args.len()
        invariant
            i <= extra_args.len(),
            crate::text::str_views(args@) =~= seq![exe_path@] + crate::text::str_views(extra_args@).take(i as int),
        decreases extra_args.len() - i,
    {
        let ghost before = args@;
        args.push(extra_args[i].clone());
        assert(crate::text::str_views(args@) =~= crate::text::str_views(before).push(extra_args@[i as int]@));
        assert(crate::text::str_views(extra_args@).take(i + 1) =~= crate::text::str_views(extra_args@).take(i as int).push(extra_args@[i as int]@));
        i += 1;
    }
    assert(crate::text::str_views(extra_args@).take(extra_args.len() as int) =~= crate::text::str_views(extra_args@));
    let mut env: Vec<(String, String)> = Vec::new();
    let gid = string_of(&concat(&chars_of("umu-"), &chars_of(game_id)));
    env.push((string_of(&chars_of("GAMEID")), gid));
    env.push(env_pair("WINEPREFIX", prefix_root));
    if let Some(p) = proton_path {
        env.push(env_pair("PROTONPATH", p));
    }
    if !timeout_set {
        env.push(env_pair("UMU_HTTP_TIMEOUT", "4"));
    }
    if !retries_set {
        env.push(env_pair("UMU_HTTP_RETRIES", "1"));
    }
    assert(env_view(env@) =~= spec_umu_env(prefix_root@, opt_text(proton_path), game_id@, timeout_set, retries_set));
    UmuLaunch { program: string_of(&chars_of(umu_run)), args, env }
}

} // verus!

verus! {

/// The error shown when no build can drive `winetricks`.
pub open spec fn no_winetricks_proton_msg() -> Seq<char> {
    "Installing dependencies needs UMU-Proton or GE-Proton. Install one (e.g. via Steam's compatibilitytools.d) and set it as the game's Proton version."@
}

/// A configured candidate qualifies for `winetricks`: set, a valid Proton
/// directory, and named (by its last path component) as UMU or GE.
pub open spec fn qualifies(cand: Option<Seq<char>>, valid: bool) -> bool {
    cand is Some && valid && match crate::redirects::spec_file_name(cand->0) {
        Some(n) => spec_umu_or_ge(n),
        None => spec_umu_or_ge(Seq::empty()),
    }
}

/// The first installed build whose name is UMU or GE.
pub open spec fn first_umu_or_ge(installed: Seq<ProtonVersion>) -> Option<int>
    decreases installed.len(),
{
    if installed.len() == 0 {
        None
    } else if spec_umu_or_ge(installed[0].name@) {
        Some(0)
    } else {
        match first_umu_or_ge(installed.drop_first()) {
            Some(i) => Some(i + 1),
            None => None,
        }
    }
}

/// The Proton build that drives `winetricks`: the per-game override if it
/// qualifies, else the configured default if it qualifies, else the first
/// installed UMU/GE build, else an error asking for one.
pub open spec fn spec_winetricks_proton(
    override_path: Option<Seq<char>>,
    default_path: Option<Seq<char>>,
    override_valid: bool,
    default_valid: bool,
    installed: Seq<ProtonVersion>,
) -> Result<Seq<char>, Seq<char>> {
    if qualifies(candidate(override_path), override_valid) {
        Ok(candidate(override_path)->0)
    } else if qualifies(candidate(default_path), default_valid) {
        Ok(candidate(default_path)->0)
    } else {
        match first_umu_or_ge(installed) {
            Some(i) => Ok(installed[i].path@),
            None => Err(no_winetricks_proton_msg()),
        }
    }
}

fn qualifies_exec(cand: &Option<String>, valid: bool) -> (r: bool)
    ensures
        r == qualifies(crate::rclone::opt_view(*cand), valid),
{
    match cand {
        Some(c) => {
            if !valid {
                return false;
            }
            match crate::redirects::file_name(&chars_of(c.as_str())) {
                Some(n) => name_is_umu_or_ge(string_of(&n).as_str()),
                None => {
                    let empty = String::new();
                    name_is_umu_or_ge(empty.as_str())
                },
            }
        },
        None => false,
    }
}

/// The view of a result of a path or a message.
pub open spec fn result_text(r: Result<String, AppError>) -> Result<Seq<char>, Seq<char>> {
    match r {
        Ok(s) => Ok(s@),
        Err(AppError::Other(m)) => Err(m@),
        Err(AppError::LockPoisoned) => Err(Seq::empty()),
    }
}

/// Pick the `winetricks` build given whether the override and default are
/// valid Proton directories (see [`spec_winetricks_proton`]).
pub fn pick_winetricks_proton(
    override_path: Option<&str>,
    default_path: Option<&str>,
    override_valid: bool,
    default_valid: bool,
    installed: &Vec<ProtonVersion>,
) -> (r: Result<String, AppError>)
    ensures
        result_text(r) == spec_winetricks_proton(opt_text(override_path), opt_text(default_path), override_valid, default_valid, installed@),
{
    let o = candidate_exec(override_path);
    assert(crate::rclone::opt_view(o) == candidate(opt_text(override_path)));
    if qualifies_exec(&o, override_valid) {
        return Ok(o.unwrap());
    }
    let d = candidate_exec(default_path);
    assert(crate::rclone::opt_view(d) == candidate(opt_text(default_path)));
    if qualifies_exec(&d, default_valid) {
        return Ok(d.unwrap());
    }
    let mut i: usize = 0;
    assert(installed@.skip(0) =~= installed@);
    while i < installed.len()
        invariant
            i <= installed.len(),
            first_umu_or_ge(installed@) == match first_umu_or_ge(installed@.skip(i as int)) {
                Some(k) => Some(k + i),
                None => None,
            },
            !qualifies(candidate(opt_text(override_path)), override_valid),
            !qualifies(candidate(opt_text(default_path)), default_valid),
        decreases installed.len() - i,
    {
        assert(installed@.skip(i as int)[0] == installed@[i as int]);
        if name_is_umu_or_ge(installed[i].name.as_str()) {
            return Ok(installed[i].path.clone());
        }
        assert(installed@.skip(i as int).drop_first() =~= installed@.skip(i + 1));
        i += 1;
    }
    Err(AppError::Other(string_of(&chars_of("Installing dependencies needs UMU-Proton or GE-Proton. Install one (e.g. via Steam's compatibilitytools.d) and set it as the game's Proton version."))))
}

/// Resolve the build that drives `winetricks` from the settings and the
/// installed builds, checking the settings on disk. Whatever the disk says,
/// a set override or default is only chosen when its name is UMU/GE, and
/// otherwise the answer is the first installed UMU/GE build or the error.
pub fn resolve_winetricks_proton(
    override_path: Option<&str>,
    default_path: Option<&str>,
    installed: &Vec<ProtonVersion>,
) -> (r: Result<String, AppError>)
    ensures
        exists|ov: bool, dv: bool| result_text(r) == spec_winetricks_proton(opt_text(override_path), opt_text(default_path), ov, dv, installed@),
{
    let ov = match candidate_exec(override_path) {
        Some(p) => is_valid_proton_dir(p.as_str()),
        None => false,
    };
    let dv = match candidate_exec(default_path) {
        Some(p) => is_valid_proton_dir(p.as_str()),
        None => false,
    };
    pick_winetricks_proton(override_path, default_path, ov, dv, installed)
}

/// The `umu-run` arguments installing `verbs` (whitespace-separated):
/// `winetricks -q <verbs…>`; an error when no verb is given.
pub fn winetricks_args(verbs: &str) -> (r: Result<Vec<String>, AppError>)
    ensures
        crate::text::words(verbs@).len() == 0 ==> (r matches Err(AppError::Other(m)) && m@
            == "No winetricks verbs given (e.g. vcrun2022)."@),
        crate::text::words(verbs@).len() > 0 ==> (r matches Ok(a) && crate::text::str_views(a@)
            == seq!["winetricks"@, "-q"@] + crate::text::words(verbs@)),
{
    let ws = crate::text::words_exec(&chars_of(verbs));
    if ws.len() == 0 {
        return Err(AppError::Other(string_of(&chars_of("No winetricks verbs given (e.g. vcrun2022)."))));
    }
    let mut args: Vec<String> = Vec::new();
    args.push(string_of(&chars_of("winetricks")));
    args.push(string_of(&chars_of("-q")));
    let mut i: usize = 0;
    while i < ws.len()
        invariant
            i <= ws.len(),
            crate::text::str_views(args@) =~= seq!["winetricks"@, "-q"@] + crate::text::views(ws@).take(i as int),
        decreases ws.len() - i,
    {
        let ghost before = args@;
        args.push(string_of(&ws[i]));
        assert(crate::text::str_views(args@) =~= crate::text::str_views(before).push(ws@[i as int]@));
        i += 1;
    }
    assert(crate::text::views(ws@).take(ws.len() as int) =~= crate::text::views(ws@));
    Ok(args)
}

/// The error of a failed `winetricks` run: the last 15 lines of its standard
/// error (its standard output when the error stream is blank), joined by
/// newlines.
pub open spec fn spec_winetricks_failure(stderr: Seq<char>, stdout: Seq<char>) -> Seq<char> {
    let src = if trim(stderr).len() == 0 {
        stdout
    } else {
        stderr
    };
    "winetricks failed:\n"@ + crate::text::join_with(crate::process::last_n(crate::text::lines(src), 15), '\n')
}

/// The error of a failed `winetricks` run (see [`spec_winetricks_failure`]).
pub fn winetricks_failure(stderr: &str, stdout: &str) -> (r: AppError)
    ensures
        r matches AppError::Other(m) && m@ == spec_winetricks_failure(stderr@, stdout@),
{
    let e = chars_of(stderr);
    let src = if trim_exec(&e).len() == 0 {
        chars_of(stdout)
    } else {
        e
    };
    let ls = crate::text::lines_exec(&src);
    let n = ls.len();
    let start = if n > 15 { n - 15 } else { 0 };
    let tail = slice_lines(&ls, start);
    assert(crate::text::views(tail@) =~= crate::process::last_n(crate::text::lines(src@), 15));
    let joined = crate::text::join_with_exec(&tail, '\n');
    AppError::Other(string_of(&concat(&chars_of("winetricks failed:\n"), &joined)))
}

fn slice_lines(v: &Vec<Vec<char>>, start: usize) -> (r: Vec<Vec<char>>)
    requires
        start <= v.len(),
    ensures
        crate::text::views(r@) == crate::text::views(v@).skip(start as int),
{
    let mut out: Vec<Vec<char>> = Vec::new();
    let mut i = start;
    while i < v.len()
        invariant
            start <= i <= v.len(),
            crate::text::views(out@) =~= crate::text::views(v@).skip(start as int).take(i - start),
        decreases v.len() - i,
    {
        let ghost before = crate::text::views(out@);
        let c = slice_vec(&v[i], 0, v[i].len());
        assert(c@ =~= v@[i as int]@);
        out.push(c);
        assert(crate::text::views(out@) =~= before.push(v@[i as int]@));
        assert(crate::text::views(v@).skip(start as int).take(i + 1 - start) =~= crate::text::views(v@).skip(start as int).take(i - start).push(v@[i as int]@));
        i += 1;
    }
    out
}

} // verus!

verus! {

/// `a` is listed before `b`: a higher rank, or the same rank and a name later
/// in code-point order (newest first).
pub open spec fn precedes(a: ProtonVersion, b: ProtonVersion) -> bool {
    spec_proton_rank(a.name@) > spec_proton_rank(b.name@) || (spec_proton_rank(a.name@)
        == spec_proton_rank(b.name@) && crate::text::lex_lt(b.name@, a.name@))
}

/// `precedes` is a strict order.
pub proof fn lemma_precedes_order(a: ProtonVersion, b: ProtonVersion, c: ProtonVersion)
    ensures
        !precedes(a, a),
        precedes(a, b) ==> !precedes(b, a),
        precedes(a, b) && precedes(b, c) ==> precedes(a, c),
{
    crate::text::lemma_lex_lt_order(a.name@, a.name@);
    crate::text::lemma_lex_lt_order(a.name@, b.name@);
    if precedes(a, b) && precedes(b, c) && spec_proton_rank(a.name@) == spec_proton_rank(b.name@)
        && spec_proton_rank(b.name@) == spec_proton_rank(c.name@) {
        crate::text::lemma_lex_lt_trans(c.name@, b.name@, a.name@);
    }
}

/// Where a stable insertion places `x` in `s`: before the first entry `x`
/// precedes, else at the end.
pub open spec fn ins_pos(s: Seq<ProtonVersion>, x: ProtonVersion) -> int
    decreases s.len(),
{
    if s.len() == 0 {
        0
    } else if precedes(x, s[0]) {
        0
    } else {
        1 + ins_pos(s.drop_first(), x)
    }
}

proof fn lemma_ins_pos(s: Seq<ProtonVersion>, x: ProtonVersion)
    ensures
        0 <= ins_pos(s, x) <= s.len(),
        forall|k: int| 0 <= k < ins_pos(s, x) ==> !precedes(x, #[trigger] s[k]),
        ins_pos(s, x) < s.len() ==> precedes(x, s[ins_pos(s, x)]),
    decreases s.len(),
{
    if s.len() > 0 && !precedes(x, s[0]) {
        lemma_ins_pos(s.drop_first(), x);
        assert forall|k: int| 0 <= k < ins_pos(s, x) implies !precedes(x, #[trigger] s[k]) by {
            if k > 0 {
                assert(s[k] == s.drop_first()[k - 1]);
            }
        }
    }
}

/// The builds in display order: a stable sort by [`precedes`] (insertion of
/// each build, in turn, after those it does not precede).
pub open spec fn spec_order(s: Seq<ProtonVersion>) -> Seq<ProtonVersion>
    decreases s.len(),
{
    if s.len() == 0 {
        Seq::empty()
    } else {
        let o = spec_order(s.drop_last());
        o.insert(ins_pos(o, s.last()), s.last())
    }
}

/// No entry is preceded by a later one.
pub open spec fn ordered(s: Seq<ProtonVersion>) -> bool {
    forall|i: int, j: int| 0 <= i < j < s.len() ==> !precedes(#[trigger] s[j], #[trigger] s[i])
}

/// The display order lists every found build exactly once, best first: it is
/// a permutation of the builds and no build comes after one it precedes.
pub proof fn law_order_is_sorted_permutation(s: Seq<ProtonVersion>)
    ensures
        ordered(spec_order(s)),
        spec_order(s).to_multiset() == s.to_multiset(),
    decreases s.len(),
{
    broadcast use vstd::seq_lib::to_multiset_insert, vstd::seq_lib::to_multiset_build;
    if s.len() > 0 {
        let d = s.drop_last();
        let x = s.last();
        law_order_is_sorted_permutation(d);
        let o = spec_order(d);
        let p = ins_pos(o, x);
        lemma_ins_pos(o, x);
        let n = o.insert(p, x);
        assert forall|i: int, j: int| 0 <= i < j < n.len() implies !precedes(#[trigger] n[j], #[trigger] n[i]) by {
            if j < p {
                assert(n[i] == o[i] && n[j] == o[j]);
            } else if j == p {
                assert(n[i] == o[i] && n[j] == x);
                lemma_precedes_order(x, o[i], x);
            } else if i < p {
                assert(n[i] == o[i] && n[j] == o[j - 1]);
                if i == p - 1 || true {
                    assert(!precedes(o[j - 1], o[i]));
                }
            } else if i == p {
                assert(n[i] == x && n[j] == o[j - 1]);
                assert(precedes(x, o[p]));
                if j - 1 > p {
                    assert(!precedes(o[j - 1], o[p]));
                }
                if precedes(o[j - 1], x) {
                    lemma_precedes_order(o[j - 1], x, o[p]);
                    lemma_precedes_order(x, o[p], o[p]);
                    if j - 1 == p {
                        lemma_precedes_order(x, o[p], x);
                    }
                }
            } else {
                assert(n[i] == o[i - 1] && n[j] == o[j - 1]);
            }
        }
        assert(spec_order(s) == n);
        assert(n.to_multiset() == o.to_multiset().insert(x));
        assert(s =~= d.push(x));
        assert(d.push(x).to_multiset() == d.to_multiset().insert(x));
    } else {
        assert(s =~= spec_order(s));
    }
}

fn ins_pos_exec(s: &Vec<ProtonVersion>, x: &ProtonVersion) -> (r: usize)
    ensures
        r == ins_pos(s@, *x),
{
    let xr = proton_rank(x.name.as_str());
    let xn = chars_of(x.name.as_str());
    let mut i: usize = 0;
    assert(s@.skip(0) =~= s@);
    while i < s.len()
        invariant
            i <= s.len(),
            xr == spec_proton_rank(x.name@),
            xn@ == x.name@,
            ins_pos(s@, *x) == i + ins_pos(s@.skip(i as int), *x),
        decreases s.len() - i,
    {
        assert(s@.skip(i as int)[0] == s@[i as int]);
        let r = proton_rank(s[i].name.as_str());
        proof {
            crate::text::lemma_lex_lt_order(s@[i as int].name@, x.name@);
        }
        let before = xr > r || (xr == r && crate::text::lex_compare(&chars_of(s[i].name.as_str()), &xn) < 0);
        if before {
            return i;
        }
        assert(s@.skip(i as int).drop_first() =~= s@.skip(i + 1));
        i += 1;
    }
    i
}

/// The found builds in display order (see [`spec_order`]).
pub fn order_proton_versions(found: Vec<ProtonVersion>) -> (r: Vec<ProtonVersion>)
    ensures
        r@ == spec_order(found@),
{
    let ghost all = found@;
    let mut rest = found;
    let mut out: Vec<ProtonVersion> = Vec::new();
    let mut n: usize = 0;
    let total = rest.len();
    while rest.len() > 0
        invariant
            n <= all.len(),
            total == all.len(),
            rest@ == all.skip(n as int),
            out@ == spec_order(all.take(n as int)),
        decreases rest.len(),
    {
        let x = rest.remove(0);
        assert(all.take(n + 1).drop_last() =~= all.take(n as int));
        assert(all.take(n + 1).last() == x);
        assert(rest@ =~= all.skip(n + 1));
        let p = ins_pos_exec(&out, &x);
        proof {
            lemma_ins_pos(out@, x);
        }
        out.insert(p, x);
        n += 1;
    }
    assert(all.take(n as int) =~= all);
    out
}

} // verus!

verus! {

/// The build a Proton directory stands for: named by its last path
/// component; `None` when the path has none.
pub fn proton_version_for(dir: &str, source: &str) -> (r: Option<ProtonVersion>)
    ensures
        r is Some <==> crate::redirects::spec_file_name(dir@) is Some,
        r matches Some(v) ==> v.name@ == crate::redirects::spec_file_name(dir@)->0 && v.path@ == dir@
            && v.source@ == source@,
{
    match crate::redirects::file_name(&chars_of(dir)) {
        Some(n) => Some(ProtonVersion {
            name: string_of(&n),
            path: string_of(&chars_of(dir)),
            source: string_of(&chars_of(source)),
        }),
        None => None,
    }
}

/// The builds kept from (canonical path, build) pairs in discovery order:
/// the first build of each canonical path.
pub open spec fn first_per_path(s: Seq<(String, ProtonVersion)>) -> Seq<ProtonVersion>
    decreases s.len(),
{
    if s.len() == 0 {
        Seq::empty()
    } else {
        let d = first_per_path(s.drop_last());
        if exists|k: int| 0 <= k < s.len() - 1 && (#[trigger] s[k]).0@ == s.last().0@ {
            d
        } else {
            d.push(s.last().1)
        }
    }
}

/// The canonical paths of the builds [`first_per_path`] keeps, in the same
/// order.
pub open spec fn kept_paths(s: Seq<(String, ProtonVersion)>) -> Seq<Seq<char>>
    decreases s.len(),
{
    if s.len() == 0 {
        Seq::empty()
    } else {
        let d = kept_paths(s.drop_last());
        if exists|k: int| 0 <= k < s.len() - 1 && (#[trigger] s[k]).0@ == s.last().0@ {
            d
        } else {
            d.push(s.last().0@)
        }
    }
}

/// No two kept builds share a canonical path: each kept build comes with the
/// canonical path it was found under, and those paths are pairwise distinct.
pub proof fn law_first_per_path_distinct_paths(s: Seq<(String, ProtonVersion)>)
    ensures
        kept_paths(s).len() == first_per_path(s).len(),
        kept_paths(s).no_duplicates(),
        forall|i: int| 0 <= i < kept_paths(s).len() ==> exists|k: int| 0 <= k < s.len()
            && (#[trigger] s[k]).0@ == #[trigger] kept_paths(s)[i] && s[k].1 == first_per_path(s)[i],
    decreases s.len(),
{
    if s.len() > 0 {
        let d = s.drop_last();
        law_first_per_path_distinct_paths(d);
        let kd = kept_paths(d);
        assert forall|i: int| 0 <= i < kept_paths(s).len() implies exists|k: int| 0 <= k < s.len()
            && (#[trigger] s[k]).0@ == #[trigger] kept_paths(s)[i] && s[k].1 == first_per_path(s)[i] by {
            if i < kd.len() {
                let k = choose|k: int| 0 <= k < d.len() && (#[trigger] d[k]).0@ == #[trigger] kd[i]
                    && d[k].1 == first_per_path(d)[i];
                assert(s[k] == d[k]);
                assert(kept_paths(s)[i] == kd[i]);
                assert(first_per_path(s)[i] == first_per_path(d)[i]);
            } else {
                assert(s[s.len() - 1] == s.last());
            }
        }
        if !(exists|k: int| 0 <= k < s.len() - 1 && (#[trigger] s[k]).0@ == s.last().0@) {
            assert forall|i: int, j: int| 0 <= i < j < kept_paths(s).len() implies kept_paths(s)[i]
                != kept_paths(s)[j] by {
                if j == kd.len() {
                    let k = choose|k: int| 0 <= k < d.len() && (#[trigger] d[k]).0@ == #[trigger] kd[i]
                        && d[k].1 == first_per_path(d)[i];
                    assert(s[k] == d[k]);
                } else {
                    assert(kd[i] != kd[j]);
                }
            }
        }
    }
}

/// Drop builds whose canonical path was already found (see
/// [`first_per_path`]).
pub fn dedup_by_canonical(found: Vec<(String, ProtonVersion)>) -> (r: Vec<ProtonVersion>)
    ensures
        r@ == first_per_path(found@),
{
    let ghost all = found@;
    let total = found.len();
    let mut rest = found;
    let mut seen: Vec<String> = Vec::new();
    let mut out: Vec<ProtonVersion> = Vec::new();
    let mut n: usize = 0;
    while rest.len() > 0
        invariant
            n <= all.len(),
            total == all.len(),
            rest@ == all.skip(n as int),
            seen@.len() == n,
            forall|k: int| 0 <= k < n ==> (#[trigger] seen@[k])@ == all[k].0@,
            out@ == first_per_path(all.take(n as int)),
        decreases rest.len(),
    {
        let (canon, v) = rest.remove(0);
        assert(rest@ =~= all.skip(n + 1));
        assert(all.take(n + 1).drop_last() =~= all.take(n as int));
        let ghost t = all.take(n + 1);
        assert(t.last() == (canon, v));
        let c = chars_of(canon.as_str());
        let mut k: usize = 0;
        let mut dup = false;
        while k < seen.len() && !dup
            invariant
                k <= seen.len(),
                seen@.len() == n,
                forall|m: int| 0 <= m < n ==> (#[trigger] seen@[m])@ == all[m].0@,
                c@ == canon@,
                dup ==> k < n && all[k as int].0@ == canon@,
                !dup ==> forall|m: int| 0 <= m < k ==> all[m].0@ != canon@,
            decreases seen.len() - k, if dup { 0int } else { 1int },
        {
            if eq_exec_str(&seen[k], &c) {
                dup = true;
            } else {
                k += 1;
            }
        }
        proof {
            if dup {
                assert(t[k as int] == all[k as int]);
                assert(exists|m: int| 0 <= m < t.len() - 1 && (#[trigger] t[m]).0@ == t.last().0@);
            } else {
                assert forall|m: int| 0 <= m < t.len() - 1 implies (#[trigger] t[m]).0@ != t.last().0@ by {
                    assert(t[m] == all[m]);
                }
            }
        }
        if !dup {
            out.push(v);
        }
        seen.push(canon);
        n += 1;
    }
    assert(all.take(n as int) =~= all);
    out
}

fn eq_exec_str(a: &String, b: &Vec<char>) -> (r: bool)
    ensures
        r == (a@ == b@),
{
    crate::text::eq_exec(&chars_of(a.as_str()), b)
}

} // verus!

verus! {

/// One directory met while scanning for Proton builds.
pub struct ProtonCandidate {
    /// The directory.
    pub dir: String,
    /// `steam` (steamapps/common) or `compat` (compatibilitytools.d).
    pub source: String,
    /// Whether the directory passed [`is_valid_proton_dir`].
    pub valid: bool,
    /// The directory's canonical path (the path itself where it has none).
    pub canonical: String,
}

/// A (canonical path, build) pair by its text: (canonical, name, path,
/// source).
pub open spec fn pair_view(p: (String, ProtonVersion)) -> (Seq<char>, Seq<char>, Seq<char>, Seq<char>) {
    (p.0@, p.1.name@, p.1.path@, p.1.source@)
}

/// A sequence of pairs by their text.
pub open spec fn pairs_view(s: Seq<(String, ProtonVersion)>) -> Seq<(Seq<char>, Seq<char>, Seq<char>, Seq<char>)> {
    s.map_values(|p: (String, ProtonVersion)| pair_view(p))
}

/// What the scan keeps of its candidates, in order, as (canonical, name,
/// path, source): each valid directory that has a last path component, named
/// by it.
pub open spec fn scan_view(s: Seq<ProtonCandidate>) -> Seq<(Seq<char>, Seq<char>, Seq<char>, Seq<char>)>
    decreases s.len(),
{
    if s.len() == 0 {
        Seq::empty()
    } else {
        let d = scan_view(s.drop_last());
        let c = s.last();
        if c.valid && crate::redirects::spec_file_name(c.dir@) is Some {
            d.push((c.canonical@, crate::redirects::spec_file_name(c.dir@)->0, c.dir@, c.source@))
        } else {
            d
        }
    }
}

/// Whether a directory under steamapps/common is looked at as a Proton
/// build: its name mentions `proton`, in any case. (Only ASCII letters are
/// folded; no other character folds to one of the letters of `proton`.)
pub fn is_proton_dir_name(name: &str) -> (r: bool)
    ensures
        r == contains(to_lower(name@), "proton"@),
{
    contains_exec(&to_lower_exec(&chars_of(name)), &chars_of("proton"))
}

proof fn lemma_scan_view_from(s: Seq<ProtonCandidate>)
    ensures
        forall|k: int| 0 <= k < scan_view(s).len() ==> exists|j: int| {
            &&& 0 <= j < s.len()
            &&& (#[trigger] s[j]).valid
            &&& crate::redirects::spec_file_name(s[j].dir@) == Some(#[trigger] scan_view(s)[k].1)
            &&& scan_view(s)[k] == (s[j].canonical@, scan_view(s)[k].1, s[j].dir@, s[j].source@)
        },
    decreases s.len(),
{
    if s.len() > 0 {
        let d = s.drop_last();
        lemma_scan_view_from(d);
        assert forall|k: int| 0 <= k < scan_view(s).len() implies exists|j: int| {
            &&& 0 <= j < s.len()
            &&& (#[trigger] s[j]).valid
            &&& crate::redirects::spec_file_name(s[j].dir@) == Some(#[trigger] scan_view(s)[k].1)
            &&& scan_view(s)[k] == (s[j].canonical@, scan_view(s)[k].1, s[j].dir@, s[j].source@)
        } by {
            if k < scan_view(d).len() {
                let j = choose|j: int| {
                    &&& 0 <= j < d.len()
                    &&& (#[trigger] d[j]).valid
                    &&& crate::redirects::spec_file_name(d[j].dir@) == Some(#[trigger] scan_view(d)[k].1)
                    &&& scan_view(d)[k] == (d[j].canonical@, scan_view(d)[k].1, d[j].dir@, d[j].source@)
                };
                assert(s[j] == d[j]);
                assert(scan_view(s)[k] == scan_view(d)[k]);
            } else {
                let j = s.len() - 1;
                assert(s[j] == s.last());
            }
        }
    }
}

proof fn lemma_first_per_path_from(s: Seq<(String, ProtonVersion)>)
    ensures
        forall|i: int| 0 <= i < first_per_path(s).len() ==> exists|k: int| 0 <= k < s.len() && (#[trigger] first_per_path(s)[i]) == (#[trigger] s[k]).1,
    decreases s.len(),
{
    if s.len() > 0 {
        let d = s.drop_last();
        lemma_first_per_path_from(d);
        assert forall|i: int| 0 <= i < first_per_path(s).len() implies exists|k: int| 0 <= k < s.len() && (#[trigger] first_per_path(s)[i]) == (#[trigger] s[k]).1 by {
            if i < first_per_path(d).len() {
                let k = choose|k: int| 0 <= k < d.len() && (#[trigger] first_per_path(d)[i]) == (#[trigger] d[k]).1;
                assert(s[k] == d[k]);
                assert(first_per_path(s)[i] == first_per_path(d)[i]);
            } else {
                assert(s[s.len() - 1] == s.last());
            }
        }
    }
}

/// `v` is the build of a valid directory the scan met: its path and source,
/// named by the directory's last path component.
pub open spec fn built_from(v: ProtonVersion, s: Seq<ProtonCandidate>) -> bool {
    exists|j: int| {
        &&& 0 <= j < s.len()
        &&& (#[trigger] s[j]).valid
        &&& v.path@ == s[j].dir@
        &&& v.source@ == s[j].source@
        &&& crate::redirects::spec_file_name(s[j].dir@) == Some(v.name@)
    }
}

/// The installed Proton builds from what a scan met, in display order: none
/// on Windows; otherwise each valid directory that has a name (see
/// [`scan_view`]), the first of each canonical path only (see
/// [`first_per_path`]), ordered best first (see [`spec_order`]).
pub fn installed_proton_list(host_is_windows: bool, scanned: Vec<ProtonCandidate>) -> (r: Vec<ProtonVersion>)
    ensures
        host_is_windows ==> r@.len() == 0,
        !host_is_windows ==> exists|pairs: Seq<(String, ProtonVersion)>| pairs_view(pairs) == scan_view(scanned@)
            && r@ == spec_order(first_per_path(pairs)),
        ordered(r@),
        forall|i: int| 0 <= i < r@.len() ==> built_from(#[trigger] r@[i], scanned@),
{
    if host_is_windows {
        return Vec::new();
    }
    let ghost all = scanned@;
    let total = scanned.len();
    let mut rest = scanned;
    let mut pairs: Vec<(String, ProtonVersion)> = Vec::new();
    let mut n: usize = 0;
    while rest.len() > 0
        invariant
            n <= all.len(),
            total == all.len(),
            rest@ == all.skip(n as int),
            pairs_view(pairs@) == scan_view(all.take(n as int)),
        decreases rest.len(),
    {
        let c = rest.remove(0);
        assert(rest@ =~= all.skip(n + 1));
        assert(all.take(n + 1).drop_last() =~= all.take(n as int));
        assert(all.take(n + 1).last() == c);
        if c.valid {
            match proton_version_for(c.dir.as_str(), c.source.as_str()) {
                Some(v) => {
                    let ghost before = pairs@;
                    pairs.push((c.canonical, v));
                    assert(pairs_view(pairs@) =~= pairs_view(before).push(pair_view(pairs@.last())));
                },
                None => {},
            }
        }
        n += 1;
    }
    assert(all.take(n as int) =~= all);
    let ghost p = pairs@;
    let kept = dedup_by_canonical(pairs);
    let r = order_proton_versions(kept);
    proof {
        law_order_is_sorted_permutation(first_per_path(p));
        lemma_first_per_path_from(p);
        lemma_scan_view_from(all);
        assert forall|i: int| 0 <= i < r@.len() implies built_from(#[trigger] r@[i], all) by {
            let f = first_per_path(p);
            let x = r@[i];
            vstd::seq_lib::to_multiset_contains(r@, x);
            vstd::seq_lib::to_multiset_contains(f, x);
            assert(r@.contains(x));
            assert(f.contains(x));
            let fi = choose|fi: int| 0 <= fi < f.len() && f[fi] == x;
            let k = choose|k: int| 0 <= k < p.len() && (#[trigger] f[fi]) == (#[trigger] p[k]).1;
            assert(pairs_view(p)[k] == pair_view(p[k]));
            assert(scan_view(all)[k] == pair_view(p[k]));
            let j = choose|j: int| {
                &&& 0 <= j < all.len()
                &&& (#[trigger] all[j]).valid
                &&& crate::redirects::spec_file_name(all[j].dir@) == Some(#[trigger] scan_view(all)[k].1)
                &&& scan_view(all)[k] == (all[j].canonical@, scan_view(all)[k].1, all[j].dir@, all[j].source@)
            };
        }
    }
    r
}

} // verus!
