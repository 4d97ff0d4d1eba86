//! Game processes: how a game is launched, the bounded tail of a Proton
//! child's standard error and the crash hint drawn from it, and the
//! environment cleaning that keeps an AppImage's bundle out of child
//! processes.

use vstd::prelude::*;
use std::collections::VecDeque;
use crate::text::{
    chars_of, contains, contains_exec, join_with, join_with_exec, split_char, split_char_exec,
    starts_with, starts_with_exec, str_views, string_of, views,
};

verus! {

/// Trailing standard-error lines kept for the crash hint.
pub const UMU_STDERR_TAIL_LINES: usize = 50;

/// Lines of the tail shown in the crash hint.
pub const CRASH_HINT_LINES: usize = 15;

/// Result of running a game.
pub struct GameExitResult {
    /// The exit code, or -1 when the process was killed by a signal.
    pub code: i32,
    /// The tail of umu-run's standard error, when the game exited with an
    /// error within seconds (Proton failed before a window opened).
    pub crash_hint: Option<String>,
}

/// How to launch a game.
pub enum LaunchSpec {
    /// Run the executable directly, elevated when asked (Windows).
    Native { run_as_admin: bool },
    /// Run it through umu-run with a per-game Wine prefix.
    Proton {
        umu_run: String,
        prefix_root: String,
        /// `None` leaves `PROTONPATH` unset so umu-run picks its own.
        proton_path: Option<String>,
        game_id: String,
        extra_args: Vec<String>,
        /// Variables applied after the standard umu environment.
        extra_env: Vec<(String, String)>,
    },
}

/// The tail after appending `line`: the oldest line is dropped once the tail
/// holds [`UMU_STDERR_TAIL_LINES`] lines.
pub open spec fn spec_push_tail(tail: Seq<String>, line: String) -> Seq<String> {
    if tail.len() == UMU_STDERR_TAIL_LINES {
        tail.drop_first().push(line)
    } else {
        tail.push(line)
    }
}

/// Append a line to the crash-hint tail (see [`spec_push_tail`]).
pub fn push_tail(buf: &mut VecDeque<String>, line: String)
    ensures
        final(buf)@ == spec_push_tail(old(buf)@, line),
{
    if buf.len() == UMU_STDERR_TAIL_LINES {
        let _ = buf.pop_front();
    }
    buf.push_back(line);
}

/// The tail stays bounded and keeps the newest lines: from a tail within the
/// bound, appending keeps it within the bound, ends it with the new line, and
/// keeps the lines before it in order, dropping at most the oldest.
pub proof fn law_tail_stays_bounded(tail: Seq<String>, line: String)
    requires
        tail.len() <= UMU_STDERR_TAIL_LINES,
    ensures
        spec_push_tail(tail, line).len() <= UMU_STDERR_TAIL_LINES,
        spec_push_tail(tail, line).last() == line,
        spec_push_tail(tail, line).drop_last() == (if tail.len() == UMU_STDERR_TAIL_LINES {
            tail.drop_first()
        } else {
            tail
        }),
        tail.len() < UMU_STDERR_TAIL_LINES ==> spec_push_tail(tail, line).len() == tail.len() + 1,
{
    if tail.len() == UMU_STDERR_TAIL_LINES {
        assert(tail.drop_first().push(line).drop_last() =~= tail.drop_first());
    } else {
        assert(tail.push(line).drop_last() =~= tail);
    }
}

/// The last `n` lines of `s` (all of them when fewer).
pub open spec fn last_n<T>(s: Seq<T>, n: int) -> Seq<T> {
    if s.len() > n {
        s.skip(s.len() - n)
    } else {
        s
    }
}

/// The crash hint of a finished Proton game: when it exited with an error in
/// under five seconds, the last lines of its standard error joined by
/// newlines (`None` when that is empty); otherwise `None`.
pub open spec fn spec_crash_hint(code: i32, elapsed_secs: u64, tail: Seq<String>) -> Option<Seq<char>> {
    if code != 0 && elapsed_secs < 5 {
        let j = join_with(str_views(last_n(tail, CRASH_HINT_LINES as int)), '\n');
        if j.len() == 0 {
            None
        } else {
            Some(j)
        }
    } else {
        None
    }
}

/// The crash hint (see [`spec_crash_hint`]).
pub fn crash_hint(code: i32, elapsed_secs: u64, tail: &VecDeque<String>) -> (r: Option<String>)
    ensures
        crate::rclone::opt_view(r) == spec_crash_hint(code, elapsed_secs, tail@),
{
    if !(code != 0 && elapsed_secs < 5) {
        return None;
    }
    let n = tail.len();
    let start = if n > CRASH_HINT_LINES {
        n - CRASH_HINT_LINES
    } else {
        0
    };
    let ghost wanted = last_n(tail@, CRASH_HINT_LINES as int);
    assert(wanted =~= tail@.skip(start as int));
    let mut parts: Vec<Vec<char>> = Vec::new();
    let mut i = start;
    while i < n
        invariant
            start <= i <= n,
            n == tail@.len(),
            views(parts@) =~= str_views(tail@.skip(start as int).take(i - start)),
        decreases n - i,
    {
        let ghost before = parts@;
        parts.push(chars_of(tail[i].as_str()));
        assert(tail@.skip(start as int).take(i + 1 - start) =~= tail@.skip(start as int).take(i - start).push(tail@[i as int]));
        assert(views(parts@) =~= views(before).push(tail@[i as int]@));
        i += 1;
    }
    assert(tail@.skip(start as int).take(n - start) =~= tail@.skip(start as int));
    let j = join_with_exec(&parts, '\n');
    if j.len() == 0 {
        None
    } else {
        Some(string_of(&j))
    }
}

/// One change to a child process's environment.
pub enum EnvOp {
    Remove(String),
    Assign(String, String),
}

/// The view of an environment change: the variable and its new value
/// (`None` removes it).
pub open spec fn op_view(o: EnvOp) -> (Seq<char>, Option<Seq<char>>) {
    match o {
        EnvOp::Remove(n) => (n@, None),
        EnvOp::Assign(n, v) => (n@, Some(v@)),
    }
}

pub open spec fn ops_view(v: Seq<EnvOp>) -> Seq<(Seq<char>, Option<Seq<char>>)> {
    v.map_values(|o: EnvOp| op_view(o))
}

/// Variables an AppImage sets wholesale, with no host value to keep.
pub open spec fn wholesale_vars() -> Seq<Seq<char>> {
    seq![
        "PYTHONHOME"@, "PYTHONPATH"@, "PYTHONDONTWRITEBYTECODE"@, "GDK_BACKEND"@, "GTK_THEME"@,
        "GTK_DATA_PREFIX"@, "GTK_PATH"@, "GTK_IM_MODULE_FILE"@, "GTK_EXE_PREFIX"@,
        "GDK_PIXBUF_MODULE_FILE"@, "GIO_EXTRA_MODULES"@,
    ]
}

/// Colon-separated path variables an AppImage prepends its own entries to.
pub open spec fn path_vars() -> Seq<Seq<char>> {
    seq![
        "PATH"@, "LD_LIBRARY_PATH"@, "XDG_DATA_DIRS"@, "PERLLIB"@, "QT_PLUGIN_PATH"@,
        "GST_PLUGIN_SYSTEM_PATH"@, "GST_PLUGIN_SYSTEM_PATH_1_0"@, "GSETTINGS_SCHEMA_DIR"@,
    ]
}

/// The value of `name` in an environment listing (the first entry).
pub open spec fn env_lookup(env: Seq<(String, String)>, name: Seq<char>) -> Option<Seq<char>>
    decreases env.len(),
{
    if env.len() == 0 {
        None
    } else if env[0].0@ == name {
        Some(env[0].1@)
    } else {
        env_lookup(env.drop_first(), name)
    }
}

/// A path entry survives cleaning: not empty, not under the AppImage's mount,
/// and not under any AppImage mount (`/.mount_`).
pub open spec fn keep_entry(p: Seq<char>, appdir: Seq<char>) -> bool {
    p.len() > 0 && !starts_with(p, appdir) && !contains(p, "/.mount_"@)
}

/// The entries that survive cleaning, in order.
pub open spec fn kept(parts: Seq<Seq<char>>, appdir: Seq<char>) -> Seq<Seq<char>>
    decreases parts.len(),
{
    if parts.len() == 0 {
        Seq::empty()
    } else if keep_entry(parts.last(), appdir) {
        kept(parts.drop_last(), appdir).push(parts.last())
    } else {
        kept(parts.drop_last(), appdir)
    }
}

/// The change for one path variable: its surviving entries rejoined with
/// `:`, or removal when none survive.
pub open spec fn path_op(name: Seq<char>, value: Seq<char>, appdir: Seq<char>) -> (Seq<char>, Option<Seq<char>>) {
    let k = kept(split_char(value, ':'), appdir);
    if k.len() == 0 {
        (name, None)
    } else {
        (name, Some(join_with(k, ':')))
    }
}

/// The changes for the path variables set in `env`, in order.
pub open spec fn path_ops(env: Seq<(String, String)>, appdir: Seq<char>, names: Seq<Seq<char>>) -> Seq<(Seq<char>, Option<Seq<char>>)>
    decreases names.len(),
{
    if names.len() == 0 {
        Seq::empty()
    } else {
        path_ops(env, appdir, names.drop_last()) + match env_lookup(env, names.last()) {
            Some(v) => seq![path_op(names.last(), v, appdir)],
            None => Seq::empty(),
        }
    }
}

/// The environment changes that strip an AppImage's bundle from a child:
/// none outside an AppImage (`APPDIR` unset or empty); otherwise removal of
/// every wholesale variable, then, for each path variable that is set, its
/// cleaned value or its removal.
pub open spec fn spec_env_ops(env: Seq<(String, String)>) -> Seq<(Seq<char>, Option<Seq<char>>)> {
    match env_lookup(env, "APPDIR"@) {
        None => Seq::empty(),
        Some(a) => if a.len() == 0 {
            Seq::empty()
        } else {
            wholesale_vars().map_values(|n: Seq<char>| (n, None::<Seq<char>>)) + path_ops(env, a, path_vars())
        },
    }
}

/// Whether a path entry stays in a child's environment: it is not empty, does
/// not start with the AppImage's directory, and names no AppImage mount.
pub open spec fn entry_stays(appdir: Seq<char>) -> spec_fn(Seq<char>) -> bool {
    |p: Seq<char>| p.len() > 0 && !starts_with(p, appdir) && !contains(p, "/.mount_"@)
}

/// The change a child should see for a path variable with value `value`: the
/// entries that stay, rejoined with `:`, or removal when none stays.
pub open spec fn cleaned_value(value: Seq<char>, appdir: Seq<char>) -> Option<Seq<char>> {
    let left = split_char(value, ':').filter(entry_stays(appdir));
    if left.len() == 0 {
        None
    } else {
        Some(join_with(left, ':'))
    }
}

/// The environment runs inside an AppImage: `APPDIR` is set and not empty.
pub open spec fn in_appimage(env: Seq<(String, String)>) -> bool {
    env_lookup(env, "APPDIR"@) matches Some(a) && a.len() > 0
}

proof fn lemma_kept_is_filter(parts: Seq<Seq<char>>, appdir: Seq<char>)
    ensures
        kept(parts, appdir) == parts.filter(entry_stays(appdir)),
    decreases parts.len(),
{
    reveal(Seq::filter);
    if parts.len() > 0 {
        lemma_kept_is_filter(parts.drop_last(), appdir);
    }
}

proof fn lemma_path_ops_has(env: Seq<(String, String)>, appdir: Seq<char>, names: Seq<Seq<char>>, j: int)
    requires
        0 <= j < names.len(),
        env_lookup(env, names[j]) is Some,
    ensures
        path_ops(env, appdir, names).contains(path_op(names[j], env_lookup(env, names[j])->0, appdir)),
    decreases names.len(),
{
    let d = names.drop_last();
    let x = path_op(names[j], env_lookup(env, names[j])->0, appdir);
    if j < names.len() - 1 {
        assert(d[j] == names[j]);
        lemma_path_ops_has(env, appdir, d, j);
        let i = choose|i: int| 0 <= i < path_ops(env, appdir, d).len() && path_ops(env, appdir, d)[i] == x;
        assert(path_ops(env, appdir, names)[i] == x);
    } else {
        let p = path_ops(env, appdir, d);
        assert(path_ops(env, appdir, names)[p.len() as int] == x);
    }
}

/// Inside an AppImage, every one of the eight path variables that is set in
/// the environment gets a change for the child: its entries less the empty
/// ones, those under `APPDIR` and those naming an AppImage mount, rejoined
/// with `:`; or its removal when no entry stays.
pub proof fn law_path_vars_are_cleaned(env: Seq<(String, String)>, name: Seq<char>)
    requires
        in_appimage(env),
        name == "PATH"@ || name == "LD_LIBRARY_PATH"@ || name == "XDG_DATA_DIRS"@ || name == "PERLLIB"@
            || name == "QT_PLUGIN_PATH"@ || name == "GST_PLUGIN_SYSTEM_PATH"@ || name
            == "GST_PLUGIN_SYSTEM_PATH_1_0"@ || name == "GSETTINGS_SCHEMA_DIR"@,
        env_lookup(env, name) is Some,
    ensures
        spec_env_ops(env).contains(
            (name, cleaned_value(env_lookup(env, name)->0, env_lookup(env, "APPDIR"@)->0)),
        ),
{
    let a = env_lookup(env, "APPDIR"@)->0;
    let v = env_lookup(env, name)->0;
    let pv = path_vars();
    let j: int = if name == "PATH"@ {
        0
    } else if name == "LD_LIBRARY_PATH"@ {
        1
    } else if name == "XDG_DATA_DIRS"@ {
        2
    } else if name == "PERLLIB"@ {
        3
    } else if name == "QT_PLUGIN_PATH"@ {
        4
    } else if name == "GST_PLUGIN_SYSTEM_PATH"@ {
        5
    } else if name == "GST_PLUGIN_SYSTEM_PATH_1_0"@ {
        6
    } else {
        7
    };
    assert(pv[j] == name);
    lemma_path_ops_has(env, a, pv, j);
    lemma_kept_is_filter(split_char(v, ':'), a);
    let x = path_op(name, v, a);
    assert(x == (name, cleaned_value(v, a)));
    let head = wholesale_vars().map_values(|n: Seq<char>| (n, None::<Seq<char>>));
    let p = path_ops(env, a, pv);
    let i = choose|i: int| 0 <= i < p.len() && p[i] == x;
    assert((head + p)[head.len() + i] == x);
}

/// Inside an AppImage, each variable the AppImage sets wholesale is removed
/// from the child's environment; outside one (no `APPDIR`, or an empty one)
/// the environment is left as it is.
pub proof fn law_wholesale_vars_removed(env: Seq<(String, String)>, name: Seq<char>)
    requires
        name == "PYTHONHOME"@ || name == "PYTHONPATH"@ || name == "PYTHONDONTWRITEBYTECODE"@ || name
            == "GDK_BACKEND"@ || name == "GTK_THEME"@ || name == "GTK_DATA_PREFIX"@ || name == "GTK_PATH"@
            || name == "GTK_IM_MODULE_FILE"@ || name == "GTK_EXE_PREFIX"@ || name
            == "GDK_PIXBUF_MODULE_FILE"@ || name == "GIO_EXTRA_MODULES"@,
    ensures
        in_appimage(env) ==> spec_env_ops(env).contains((name, None::<Seq<char>>)),
        !in_appimage(env) ==> spec_env_ops(env).len() == 0,
{
    let w = wholesale_vars();
    let j: int = if name == "PYTHONHOME"@ {
        0
    } else if name == "PYTHONPATH"@ {
        1
    } else if name == "PYTHONDONTWRITEBYTECODE"@ {
        2
    } else if name == "GDK_BACKEND"@ {
        3
    } else if name == "GTK_THEME"@ {
        4
    } else if name == "GTK_DATA_PREFIX"@ {
        5
    } else if name == "GTK_PATH"@ {
        6
    } else if name == "GTK_IM_MODULE_FILE"@ {
        7
    } else if name == "GTK_EXE_PREFIX"@ {
        8
    } else if name == "GDK_PIXBUF_MODULE_FILE"@ {
        9
    } else {
        10
    };
    assert(w[j] == name);
    if in_appimage(env) {
        let a = env_lookup(env, "APPDIR"@)->0;
        let head = w.map_values(|n: Seq<char>| (n, None::<Seq<char>>));
        assert((head + path_ops(env, a, path_vars()))[j] == (name, None::<Seq<char>>));
    }
}

/// One of the eight colon-separated path variables an AppImage prepends to.
pub open spec fn is_path_var_name(name: Seq<char>) -> bool {
    name == "PATH"@ || name == "LD_LIBRARY_PATH"@ || name == "XDG_DATA_DIRS"@ || name == "PERLLIB"@ || name
        == "QT_PLUGIN_PATH"@ || name == "GST_PLUGIN_SYSTEM_PATH"@ || name == "GST_PLUGIN_SYSTEM_PATH_1_0"@
        || name == "GSETTINGS_SCHEMA_DIR"@
}

/// One of the eleven variables an AppImage sets wholesale.
pub open spec fn is_wholesale_name(name: Seq<char>) -> bool {
    name == "PYTHONHOME"@ || name == "PYTHONPATH"@ || name == "PYTHONDONTWRITEBYTECODE"@ || name
        == "GDK_BACKEND"@ || name == "GTK_THEME"@ || name == "GTK_DATA_PREFIX"@ || name == "GTK_PATH"@
        || name == "GTK_IM_MODULE_FILE"@ || name == "GTK_EXE_PREFIX"@ || name == "GDK_PIXBUF_MODULE_FILE"@
        || name == "GIO_EXTRA_MODULES"@
}

proof fn lemma_path_ops_from(env: Seq<(String, String)>, appdir: Seq<char>, names: Seq<Seq<char>>)
    ensures
        forall|i: int| 0 <= i < path_ops(env, appdir, names).len() ==> exists|j: int| 0 <= j < names.len()
            && env_lookup(env, #[trigger] names[j]) is Some && #[trigger] path_ops(env, appdir, names)[i] == path_op(
            names[j],
            env_lookup(env, names[j])->0,
            appdir,
        ),
    decreases names.len(),
{
    if names.len() > 0 {
        let d = names.drop_last();
        lemma_path_ops_from(env, appdir, d);
        let p = path_ops(env, appdir, d);
        assert forall|i: int| 0 <= i < path_ops(env, appdir, names).len() implies exists|j: int| 0 <= j < names.len()
            && env_lookup(env, #[trigger] names[j]) is Some && #[trigger] path_ops(env, appdir, names)[i] == path_op(
            names[j],
            env_lookup(env, names[j])->0,
            appdir,
        ) by {
            if i < p.len() {
                let j = choose|j: int| 0 <= j < d.len() && env_lookup(env, #[trigger] d[j]) is Some
                    && #[trigger] p[i] == path_op(d[j], env_lookup(env, d[j])->0, appdir);
                assert(names[j] == d[j]);
                assert(path_ops(env, appdir, names)[i] == p[i]);
            } else {
                assert(names[names.len() - 1] == names.last());
            }
        }
    }
}

/// Every change for the child is one of the two kinds: the removal of a
/// variable the AppImage sets wholesale, or, for a path variable that is set,
/// its cleaned value (see [`cleaned_value`]); and there are none outside an
/// AppImage.
pub proof fn law_env_ops_are_only_cleanups(env: Seq<(String, String)>)
    ensures
        forall|i: int| 0 <= i < spec_env_ops(env).len() ==> {
            let op = #[trigger] spec_env_ops(env)[i];
            &&& in_appimage(env)
            &&& (is_wholesale_name(op.0) && op.1 is None) || (is_path_var_name(op.0) && env_lookup(env, op.0) is Some
                && op.1 == cleaned_value(env_lookup(env, op.0)->0, env_lookup(env, "APPDIR"@)->0))
        },
{
    if in_appimage(env) {
        let a = env_lookup(env, "APPDIR"@)->0;
        let w = wholesale_vars();
        let head = w.map_values(|n: Seq<char>| (n, None::<Seq<char>>));
        let pv = path_vars();
        let p = path_ops(env, a, pv);
        lemma_path_ops_from(env, a, pv);
        assert forall|i: int| 0 <= i < spec_env_ops(env).len() implies {
            let op = #[trigger] spec_env_ops(env)[i];
            &&& in_appimage(env)
            &&& (is_wholesale_name(op.0) && op.1 is None) || (is_path_var_name(op.0) && env_lookup(env, op.0) is Some
                && op.1 == cleaned_value(env_lookup(env, op.0)->0, env_lookup(env, "APPDIR"@)->0))
        } by {
            if i < head.len() {
                assert(spec_env_ops(env)[i] == head[i]);
                assert(is_wholesale_name(w[i]));
            } else {
                let ii = i - head.len();
                assert(spec_env_ops(env)[i] == p[ii]);
                let j = choose|j: int| 0 <= j < pv.len() && env_lookup(env, #[trigger] pv[j]) is Some
                    && #[trigger] p[ii] == path_op(pv[j], env_lookup(env, pv[j])->0, a);
                assert(is_path_var_name(pv[j]));
                lemma_kept_is_filter(split_char(env_lookup(env, pv[j])->0, ':'), a);
            }
        }
    }
}

fn env_lookup_exec(env: &Vec<(String, String)>, name: &str) -> (r: Option<String>)
    ensures
        crate::rclone::opt_view(r) == env_lookup(env@, name@),
{
    let n = chars_of(name);
    let mut i: usize = 0;
    assert(env@.skip(0) =~= env@);
    while i < env.len()
        invariant
            i <= env.len(),
            n@ == name@,
            env_lookup(env@, name@) == env_lookup(env@.skip(i as int), name@),
        decreases env.len() - i,
    {
        assert(env@.skip(i as int)[0] == env@[i as int]);
        if crate::text::eq_exec(&chars_of(env[i].0.as_str()), &n) {
            return Some(env[i].1.clone());
        }
        assert(env@.skip(i as int).drop_first() =~= env@.skip(i + 1));
        i += 1;
    }
    None
}

fn clean_path_value(name: &str, value: &str, appdir: &[char]) -> (r: EnvOp)
    ensures
        op_view(r) == path_op(name@, value@, appdir@),
{
    let parts = split_char_exec(&chars_of(value), ':');
    let mount = chars_of("/.mount_");
    let mut keep: Vec<Vec<char>> = Vec::new();
    let mut i: usize = 0;
    while i < parts.len()
        invariant
            i <= parts.len(),
            mount@ == "/.mount_"@,
            views(keep@) == kept(views(parts@).take(i as int), appdir@),
        decreases parts.len() - i,
    {
        let p = &parts[i];
        assert(views(parts@).take(i + 1).drop_last() =~= views(parts@).take(i as int));
        assert(views(parts@).take(i + 1).last() == p@);
        if p.len() > 0 && !starts_with_exec(p, appdir) && !contains_exec(p, &mount) {
            let ghost before = views(keep@);
            let copy = crate::text::slice_vec(p, 0, p.len());
            assert(copy@ =~= p@);
            keep.push(copy);
            assert(views(keep@) =~= before.push(p@));
        }
        i += 1;
    }
    assert(views(parts@).take(parts.len() as int) =~= views(parts@));
    if keep.len() == 0 {
        EnvOp::Remove(string_of(&chars_of(name)))
    } else {
        EnvOp::Assign(string_of(&chars_of(name)), string_of(&join_with_exec(&keep, ':')))
    }
}

/// The environment changes that strip an AppImage's bundle from a child
/// process (see [`spec_env_ops`]), given this process's environment.
pub fn appimage_env_ops(env: &Vec<(String, String)>) -> (r: Vec<EnvOp>)
    ensures
        ops_view(r@) == spec_env_ops(env@),
{
    let appdir = match env_lookup_exec(env, "APPDIR") {
        None => return Vec::new(),
        Some(a) => a,
    };
    if appdir.as_str().is_empty() {
        return Vec::new();
    }
    let a = chars_of(appdir.as_str());
    let wholesale: [&str; 11] = [
        "PYTHONHOME", "PYTHONPATH", "PYTHONDONTWRITEBYTECODE", "GDK_BACKEND", "GTK_THEME",
        "GTK_DATA_PREFIX", "GTK_PATH", "GTK_IM_MODULE_FILE", "GTK_EXE_PREFIX",
        "GDK_PIXBUF_MODULE_FILE", "GIO_EXTRA_MODULES",
    ];
    let paths: [&str; 8] = [
        "PATH", "LD_LIBRARY_PATH", "XDG_DATA_DIRS", "PERLLIB", "QT_PLUGIN_PATH",
        "GST_PLUGIN_SYSTEM_PATH", "GST_PLUGIN_SYSTEM_PATH_1_0", "GSETTINGS_SCHEMA_DIR",
    ];
    assert(wholesale@.map_values(|s: &str| s@) =~= wholesale_vars());
    assert(paths@.map_values(|s: &str| s@) =~= path_vars());
    let ghost head = wholesale_vars().map_values(|n: Seq<char>| (n, None::<Seq<char>>));
    let mut ops: Vec<EnvOp> = Vec::new();
    let mut i: usize = 0;
    while i < 11
        invariant
            i <= 11,
            wholesale@.map_values(|s: &str| s@) == wholesale_vars(),
            head == wholesale_vars().map_values(|n: Seq<char>| (n, None::<Seq<char>>)),
            ops_view(ops@) =~= head.take(i as int),
        decreases 11 - i,
    {
        assert(wholesale@.map_values(|s: &str| s@)[i as int] == wholesale@[i as int]@);
        let ghost before = ops@;
        let op = EnvOp::Remove(string_of(&chars_of(wholesale[i])));
        assert(op_view(op) == head[i as int]);
        ops.push(op);
        assert(ops_view(ops@) =~= ops_view(before).push(op_view(op)));
        assert(head.take(i + 1) =~= head.take(i as int).push(head[i as int]));
        i += 1;
    }
    assert(head.take(11) =~= head);
    let mut k: usize = 0;
    while k < 8
        invariant
            k <= 8,
            paths@.map_values(|s: &str| s@) == path_vars(),
            a@ == appdir@,
            ops_view(ops@) =~= head + path_ops(env@, a@, path_vars().take(k as int)),
        decreases 8 - k,
    {
        let name = paths[k];
        assert(paths@.map_values(|s: &str| s@)[k as int] == name@);
        assert(path_vars().take(k + 1).drop_last() =~= path_vars().take(k as int));
        assert(path_vars().take(k + 1).last() == name@);
        match env_lookup_exec(env, name) {
            Some(v) => {
                let ghost before = ops_view(ops@);
                ops.push(clean_path_value(name, v.as_str(), &a));
                assert(ops_view(ops@) =~= before.push(path_op(name@, v@, a@)));
            },
            None => {},
        }
        k += 1;
    }
    assert(path_vars().take(8) =~= path_vars());
    ops
}

} // verus!
