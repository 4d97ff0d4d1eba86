//! Portable save-location templates for custom (non-manifest) games.
//!
//! A picked save folder is classified into one of ludusavi's path
//! placeholders (`<winLocalAppData>/X`, `<home>/X`, `<base>/X`, …) so that one
//! definition works on every device; `<base>` (the install folder) is the one
//! placeholder expanded here.

use vstd::prelude::*;
use crate::text::{
    chars_of, concat, eq_ci, eq_ci_exec, index_of, index_of_exec, is_blank, is_blank_chars,
    replace_char, replace_char_exec, slice_vec, starts_with, starts_with_exec, string_of,
    trim_end_char, trim_end_char_exec, fold,
};

verus! {

/// Forward slashes, no trailing slash (a bare `/` is kept).
pub open spec fn spec_norm(p: Seq<char>) -> Seq<char> {
    let t = trim_end_char(replace_char(p, '\\', '/'), '/');
    if t.len() == 0 {
        seq!['/']
    } else {
        t
    }
}

/// Case-insensitive strip of `prefix/` (or exactly `prefix`) from the front of
/// `path`; the remainder has no leading slash.
pub open spec fn spec_strip_prefix_ci(path: Seq<char>, prefix: Seq<char>) -> Option<Seq<char>> {
    if prefix.len() <= path.len() && eq_ci(path.take(prefix.len() as int), prefix) {
        if path.len() == prefix.len() {
            Some(Seq::empty())
        } else if path[prefix.len() as int] == '/' {
            Some(path.skip(prefix.len() as int + 1))
        } else {
            None
        }
    } else {
        None
    }
}

/// A placeholder root joined with a possibly empty remainder.
pub open spec fn spec_join(root: Seq<char>, rest: Seq<char>) -> Seq<char> {
    if rest.len() == 0 {
        root
    } else {
        root + seq!['/'] + rest
    }
}

/// The Windows known folders below a user profile, tested in this order.
pub open spec fn spec_windows_known_folder(after_user: Seq<char>) -> Option<Seq<char>> {
    if let Some(rest) = spec_strip_prefix_ci(after_user, "AppData/LocalLow"@) {
        Some(spec_join("<winLocalAppDataLow>"@, rest))
    } else if let Some(rest) = spec_strip_prefix_ci(after_user, "AppData/Local"@) {
        Some(spec_join("<winLocalAppData>"@, rest))
    } else if let Some(rest) = spec_strip_prefix_ci(after_user, "AppData/Roaming"@) {
        Some(spec_join("<winAppData>"@, rest))
    } else if let Some(rest) = spec_strip_prefix_ci(after_user, "Documents"@) {
        Some(spec_join("<winDocuments>"@, rest))
    } else {
        None
    }
}

/// `a/b/c` split into (`a`, `b/c`); a path without `/` is all head.
pub open spec fn spec_split_first_segment(s: Seq<char>) -> (Seq<char>, Seq<char>) {
    match index_of(s, '/') {
        Some(k) => (s.take(k), s.skip(k + 1)),
        None => (s, Seq::empty()),
    }
}

/// The user-profile classifier shared by prefix and Windows-drive paths.
pub open spec fn spec_profile_token(after_users: Option<Seq<char>>) -> Option<Seq<char>> {
    match after_users {
        None => None,
        Some(a) => if a.len() == 0 {
            None
        } else {
            let (user, after_user) = spec_split_first_segment(a);
            if eq_ci(user, "Public"@) {
                Some(spec_join("<winPublic>"@, after_user))
            } else if let Some(tok) = spec_windows_known_folder(after_user) {
                Some(tok)
            } else {
                Some(spec_join("<home>"@, after_user))
            }
        },
    }
}

/// A path relative to a prefix's `drive_c`, as a portable token.
pub open spec fn spec_drive_c_known_folder(rest: Seq<char>) -> Option<Seq<char>> {
    if let Some(tail) = spec_strip_prefix_ci(rest, "ProgramData"@) {
        Some(spec_join("<winProgramData>"@, tail))
    } else {
        spec_profile_token(spec_strip_prefix_ci(rest, "users"@))
    }
}

/// A Windows drive path (`C:/…`) as a portable token.
pub open spec fn spec_windows_drive_known_folder(p: Seq<char>) -> Option<Seq<char>> {
    if let Some(tail) = spec_strip_prefix_ci(p, "C:/ProgramData"@) {
        Some(spec_join("<winProgramData>"@, tail))
    } else {
        spec_profile_token(spec_strip_prefix_ci(p, "C:/Users"@))
    }
}

/// An ASCII letter.
pub open spec fn is_ascii_alpha(c: char) -> bool {
    ('a' <= c <= 'z') || ('A' <= c <= 'Z')
}

/// Starts with a drive letter and a colon, e.g. `C:/…`.
pub open spec fn spec_is_windows_drive_path(p: Seq<char>) -> bool {
    p.len() >= 2 && is_ascii_alpha(p[0]) && p[1] == ':'
}

/// The optional argument, when present and not blank.
pub open spec fn non_blank(o: Option<Seq<char>>) -> Option<Seq<char>> {
    match o {
        Some(s) => if is_blank(s) {
            None
        } else {
            Some(s)
        },
        None => None,
    }
}

/// Step 1 of [`classify`]: a known folder inside the game's prefix.
pub open spec fn spec_prefix_token(p: Seq<char>, prefix_root: Option<Seq<char>>) -> Option<
    Seq<char>,
> {
    match prefix_root {
        Some(root) => match spec_strip_prefix_ci(p, spec_norm(root) + "/drive_c"@) {
            Some(rest) => spec_drive_c_known_folder(rest),
            None => None,
        },
        None => None,
    }
}

/// The portable template for a picked save folder.
pub open spec fn spec_classify(
    picked: Seq<char>,
    prefix_root: Option<Seq<char>>,
    game_folder: Option<Seq<char>>,
    home: Option<Seq<char>>,
) -> Seq<char> {
    let p = spec_norm(picked);
    if let Some(tok) = spec_prefix_token(p, prefix_root) {
        tok
    } else if spec_is_windows_drive_path(p) && spec_windows_drive_known_folder(p) is Some {
        spec_windows_drive_known_folder(p)->0
    } else if non_blank(game_folder) is Some && spec_strip_prefix_ci(
        p,
        spec_norm(non_blank(game_folder)->0),
    ) is Some {
        spec_join("<base>"@, spec_strip_prefix_ci(p, spec_norm(non_blank(game_folder)->0))->0)
    } else if prefix_root is None && non_blank(home) is Some && spec_strip_prefix_ci(
        p,
        spec_norm(non_blank(home)->0),
    ) is Some {
        spec_join("<home>"@, spec_strip_prefix_ci(p, spec_norm(non_blank(home)->0))->0)
    } else {
        p
    }
}

/// `<base>` expanded to the install folder; other tokens pass through.
pub open spec fn spec_expand_base(token: Seq<char>, game_folder: Option<Seq<char>>) -> Option<
    Seq<char>,
> {
    if token == "<base>"@ || starts_with(token, "<base>/"@) {
        let rest = if token == "<base>"@ {
            Seq::empty()
        } else {
            token.skip("<base>/"@.len() as int)
        };
        match non_blank(game_folder) {
            Some(f) => Some(spec_join(spec_norm(f), rest)),
            None => None,
        }
    } else {
        Some(token)
    }
}

/// The view of an optional character vector.
pub open spec fn opt_chars(o: Option<Vec<char>>) -> Option<Seq<char>> {
    match o {
        Some(v) => Some(v@),
        None => None,
    }
}

/// The view of an optional string argument.
pub open spec fn opt_view(o: Option<&str>) -> Option<Seq<char>> {
    match o {
        Some(s) => Some(s@),
        None => None,
    }
}

fn norm(p: &[char]) -> (r: Vec<char>)
    ensures
        r@ == spec_norm(p@),
{
    let s = replace_char_exec(p, '\\', '/');
    let t = trim_end_char_exec(&s, '/');
    if t.len() == 0 {
        let mut v = Vec::new();
        v.push('/');
        assert(v@ =~= seq!['/']);
        v
    } else {
        t
    }
}

fn strip_prefix_ci_chars(path: &[char], prefix: &[char]) -> (r: Option<Vec<char>>)
    ensures
        r matches Some(v) ==> spec_strip_prefix_ci(path@, prefix@) == Some(v@),
        r is None ==> spec_strip_prefix_ci(path@, prefix@) is None,
{
    let xl = prefix.len();
    if xl > path.len() {
        return None;
    }
    let head = slice_vec(path, 0, xl);
    assert(head@ =~= path@.take(xl as int));
    if !eq_ci_exec(&head, prefix) {
        return None;
    }
    if path.len() == xl {
        let e: Vec<char> = Vec::new();
        assert(e@ =~= Seq::<char>::empty());
        Some(e)
    } else if path[xl] == '/' {
        let rest = slice_vec(path, xl + 1, path.len());
        assert(rest@ =~= path@.skip(xl + 1));
        Some(rest)
    } else {
        None
    }
}

/// Case-insensitively strip `prefix/` (or exactly `prefix`) from the front of
/// `path`, returning the remainder without its leading slash.
pub fn strip_prefix_ci(path: &str, prefix: &str) -> (r: Option<String>)
    ensures
        r matches Some(s) ==> spec_strip_prefix_ci(path@, prefix@) == Some(s@),
        r is None ==> spec_strip_prefix_ci(path@, prefix@) is None,
{
    let p = chars_of(path);
    let x = chars_of(prefix);
    match strip_prefix_ci_chars(&p, &x) {
        Some(v) => Some(string_of(&v)),
        None => None,
    }
}

fn join(root: &[char], rest: &[char]) -> (r: Vec<char>)
    ensures
        r@ == spec_join(root@, rest@),
{
    if rest.len() == 0 {
        slice_vec(root, 0, root.len())
    } else {
        let mut a = slice_vec(root, 0, root.len());
        a.push('/');
        let r = concat(&a, rest);
        assert(root@.subrange(0, root@.len() as int) =~= root@);
        assert(r@ =~= root@ + seq!['/'] + rest@);
        r
    }
}

fn strip_then_join(path: &[char], needle: &str, token: &str) -> (r: Option<Vec<char>>)
    ensures
        r matches Some(v) ==> spec_strip_prefix_ci(path@, needle@) matches Some(rest) && v@
            == spec_join(token@, rest),
        r is None ==> spec_strip_prefix_ci(path@, needle@) is None,
{
    let n = chars_of(needle);
    match strip_prefix_ci_chars(path, &n) {
        Some(rest) => {
            let t = chars_of(token);
            Some(join(&t, &rest))
        },
        None => None,
    }
}

fn windows_known_folder(after_user: &[char]) -> (r: Option<Vec<char>>)
    ensures
        r matches Some(v) ==> spec_windows_known_folder(after_user@) == Some(v@),
        r is None ==> spec_windows_known_folder(after_user@) is None,
{
    if let Some(v) = strip_then_join(after_user, "AppData/LocalLow", "<winLocalAppDataLow>") {
        return Some(v);
    }
    if let Some(v) = strip_then_join(after_user, "AppData/Local", "<winLocalAppData>") {
        return Some(v);
    }
    if let Some(v) = strip_then_join(after_user, "AppData/Roaming", "<winAppData>") {
        return Some(v);
    }
    strip_then_join(after_user, "Documents", "<winDocuments>")
}

fn split_first_segment(s: &[char]) -> (r: (Vec<char>, Vec<char>))
    ensures
        (r.0@, r.1@) == spec_split_first_segment(s@),
{
    match index_of_exec(s, '/') {
        Some(k) => {
            let h = slice_vec(s, 0, k);
            let t = slice_vec(s, k + 1, s.len());
            assert(h@ =~= s@.take(k as int));
            assert(t@ =~= s@.skip(k + 1));
            (h, t)
        },
        None => {
            let h = slice_vec(s, 0, s.len());
            assert(h@ =~= s@);
            let e: Vec<char> = Vec::new();
            assert(e@ =~= Seq::<char>::empty());
            (h, e)
        },
    }
}

fn profile_token(after_users: Option<Vec<char>>) -> (r: Option<Vec<char>>)
    ensures
        r matches Some(v) ==> spec_profile_token(opt_chars(after_users)) == Some(v@),
        r is None ==> spec_profile_token(opt_chars(after_users)) is None,
{
    let a = match after_users {
        Some(a) => a,
        None => return None,
    };
    if a.len() == 0 {
        return None;
    }
    let (user, after_user) = split_first_segment(&a);
    let public = chars_of("Public");
    if eq_ci_exec(&user, &public) {
        let t = chars_of("<winPublic>");
        return Some(join(&t, &after_user));
    }
    if let Some(tok) = windows_known_folder(&after_user) {
        return Some(tok);
    }
    let h = chars_of("<home>");
    Some(join(&h, &after_user))
}

fn drive_c_known_folder(rest: &[char]) -> (r: Option<Vec<char>>)
    ensures
        r matches Some(v) ==> spec_drive_c_known_folder(rest@) == Some(v@),
        r is None ==> spec_drive_c_known_folder(rest@) is None,
{
    if let Some(v) = strip_then_join(rest, "ProgramData", "<winProgramData>") {
        return Some(v);
    }
    let users = chars_of("users");
    let s = strip_prefix_ci_chars(rest, &users);
    profile_token(s)
}

fn windows_drive_known_folder(p: &[char]) -> (r: Option<Vec<char>>)
    ensures
        r matches Some(v) ==> spec_windows_drive_known_folder(p@) == Some(v@),
        r is None ==> spec_windows_drive_known_folder(p@) is None,
{
    if let Some(v) = strip_then_join(p, "C:/ProgramData", "<winProgramData>") {
        return Some(v);
    }
    let users = chars_of("C:/Users");
    let s = strip_prefix_ci_chars(p, &users);
    profile_token(s)
}

/// Exec: is `c` an ASCII letter?
pub fn is_ascii_alpha_exec(c: char) -> (r: bool)
    ensures
        r == is_ascii_alpha(c),
{
    ('a' <= c && c <= 'z') || ('A' <= c && c <= 'Z')
}

/// True for a path that starts with a Windows drive letter, e.g. `C:/…`.
pub fn is_windows_drive_path(p: &[char]) -> (r: bool)
    ensures
        r == spec_is_windows_drive_path(p@),
{
    p.len() >= 2 && is_ascii_alpha_exec(p[0]) && p[1] == ':'
}

fn non_blank_chars(o: Option<&str>) -> (r: Option<Vec<char>>)
    ensures
        r matches Some(v) ==> non_blank(opt_view(o)) == Some(v@),
        r is None ==> non_blank(opt_view(o)) is None,
{
    match o {
        Some(s) => {
            let v = chars_of(s);
            if is_blank_chars(&v) {
                None
            } else {
                Some(v)
            }
        },
        None => None,
    }
}

fn prefix_token(p: &[char], prefix_root: Option<&str>) -> (r: Option<Vec<char>>)
    ensures
        r matches Some(v) ==> spec_prefix_token(p@, opt_view(prefix_root)) == Some(v@),
        r is None ==> spec_prefix_token(p@, opt_view(prefix_root)) is None,
{
    match prefix_root {
        Some(root) => {
            let rv = chars_of(root);
            let rn = norm(&rv);
            let dc = chars_of("/drive_c");
            let drive_c = concat(&rn, &dc);
            match strip_prefix_ci_chars(p, &drive_c) {
                Some(rest) => drive_c_known_folder(&rest),
                None => None,
            }
        },
        None => None,
    }
}

/// Classify a picked save folder into a portable ludusavi template.
///
/// * `picked` — the absolute folder the user chose.
/// * `prefix_root` — the game's Proton/Wine prefix root (the dir containing
///   `drive_c`), when it launches through Proton.
/// * `game_folder` — the game's install folder, if known.
/// * `home` — the OS home directory, for native-Linux save portability.
pub fn classify(
    picked: &str,
    prefix_root: Option<&str>,
    game_folder: Option<&str>,
    home: Option<&str>,
) -> (r: String)
    ensures
        r@ == spec_classify(
            picked@,
            opt_view(prefix_root),
            opt_view(game_folder),
            opt_view(home),
        ),
{
    let pv = chars_of(picked);
    let p = norm(&pv);
    if let Some(tok) = prefix_token(&p, prefix_root) {
        return string_of(&tok);
    }
    if is_windows_drive_path(&p) {
        if let Some(tok) = windows_drive_known_folder(&p) {
            return string_of(&tok);
        }
    }
    if let Some(folder) = non_blank_chars(game_folder) {
        let f = norm(&folder);
        if let Some(rest) = strip_prefix_ci_chars(&p, &f) {
            let b = chars_of("<base>");
            return string_of(&join(&b, &rest));
        }
    }
    if prefix_root.is_none() {
        if let Some(h) = non_blank_chars(home) {
            let hn = norm(&h);
            if let Some(rest) = strip_prefix_ci_chars(&p, &hn) {
                let t = chars_of("<home>");
                return string_of(&join(&t, &rest));
            }
        }
    }
    string_of(&p)
}

/// Expand `<base>` to the game's install folder. Other tokens and literal
/// paths pass through; `None` when a `<base>` token has no folder to expand to.
pub fn expand_base(token: &str, game_folder: Option<&str>) -> (r: Option<String>)
    ensures
        r matches Some(s) ==> spec_expand_base(token@, opt_view(game_folder)) == Some(s@),
        r is None ==> spec_expand_base(token@, opt_view(game_folder)) is None,
{
    let t = chars_of(token);
    let base = chars_of("<base>");
    let base_slash = chars_of("<base>/");
    let is_base = t.len() == base.len() && starts_with_exec(&t, &base);
    proof {
        assert(t@ =~= t@.take(t@.len() as int));
    }
    let rest = if is_base {
        Vec::new()
    } else if starts_with_exec(&t, &base_slash) {
        slice_vec(&t, base_slash.len(), t.len())
    } else {
        return Some(string_of(&t));
    };
    assert(is_base ==> rest@ =~= Seq::<char>::empty());
    let folder = match non_blank_chars(game_folder) {
        Some(f) => f,
        None => return None,
    };
    let fnorm = norm(&folder);
    Some(string_of(&join(&fnorm, &rest)))
}

} // verus!

verus! {

/// `trim_end_char(s, c)` never ends in `c`.
proof fn lemma_trim_end_char_last(s: Seq<char>, c: char)
    ensures
        trim_end_char(s, c).len() > 0 ==> trim_end_char(s, c).last() != c,
        trim_end_char(s, c).len() <= s.len(),
    decreases s.len(),
{
    if s.len() > 0 && s.last() == c {
        lemma_trim_end_char_last(s.drop_last(), c);
    }
}

/// A normalised path is never empty, and only `/` itself ends in `/`.
proof fn lemma_norm_shape(p: Seq<char>)
    ensures
        spec_norm(p).len() > 0,
        spec_norm(p).last() == '/' ==> spec_norm(p) == seq!['/'],
{
    lemma_trim_end_char_last(replace_char(p, '\\', '/'), '/');
}

/// Round trip of the install-folder rule: when a picked folder lies under the
/// game's install folder (and neither the prefix rule nor the Windows
/// known-folder rule applies first), [`classify`] yields a `<base>` template,
/// and expanding that template against the same install folder gives back the
/// normalised picked path, up to ASCII case.
pub proof fn law_base_template_round_trip(
    picked: Seq<char>,
    prefix_root: Option<Seq<char>>,
    folder: Seq<char>,
    home: Option<Seq<char>>,
)
    requires
        !is_blank(folder),
        spec_prefix_token(spec_norm(picked), prefix_root) is None,
        !(spec_is_windows_drive_path(spec_norm(picked)) && spec_windows_drive_known_folder(
            spec_norm(picked),
        ) is Some),
        spec_strip_prefix_ci(spec_norm(picked), spec_norm(folder)) is Some,
    ensures
        spec_expand_base(spec_classify(picked, prefix_root, Some(folder), home), Some(folder))
            matches Some(e) && eq_ci(e, spec_norm(picked)),
{
    reveal_strlit("<base>/");
    reveal_strlit("<base>");
    let p = spec_norm(picked);
    let f = spec_norm(folder);
    let rest = spec_strip_prefix_ci(p, f)->0;
    let tok = spec_classify(picked, prefix_root, Some(folder), home);
    assert(tok == spec_join("<base>"@, rest));
    lemma_norm_shape(picked);
    lemma_norm_shape(folder);
    if rest.len() == 0 {
        assert(tok == "<base>"@);
        if p.len() != f.len() {
            assert(p[f.len() as int] == '/');
            assert(p.len() == f.len() + 1);
            assert(p.last() == '/');
            assert(p == seq!['/']);
        }
        assert(p.take(f.len() as int) =~= p);
        assert(spec_join(f, rest) == f);
    } else {
        assert(tok.len() > 7);
        assert(tok != "<base>"@);
        assert(tok.take(7) =~= "<base>/"@);
        assert(tok.skip(7) =~= rest);
        let e = spec_join(f, rest);
        assert(e =~= f + seq!['/'] + rest);
        assert(p =~= p.take(f.len() as int) + seq!['/'] + p.skip(f.len() as int + 1));
        assert forall|i: int| 0 <= i < e.len() implies #[trigger] fold(e[i]) == fold(p[i]) by {
            if i < f.len() {
                assert(p[i] == p.take(f.len() as int)[i]);
            }
        }
    }
}

/// The same round trip, exactly: when the picked folder starts with the
/// install folder in the same case, expanding the `<base>` template gives back
/// the normalised picked path itself.
pub proof fn law_base_template_round_trip_exact(
    picked: Seq<char>,
    prefix_root: Option<Seq<char>>,
    folder: Seq<char>,
    home: Option<Seq<char>>,
)
    requires
        !is_blank(folder),
        spec_prefix_token(spec_norm(picked), prefix_root) is None,
        !(spec_is_windows_drive_path(spec_norm(picked)) && spec_windows_drive_known_folder(
            spec_norm(picked),
        ) is Some),
        spec_strip_prefix_ci(spec_norm(picked), spec_norm(folder)) is Some,
        spec_norm(picked).take(spec_norm(folder).len() as int) == spec_norm(folder),
    ensures
        spec_expand_base(spec_classify(picked, prefix_root, Some(folder), home), Some(folder))
            == Some(spec_norm(picked)),
{
    reveal_strlit("<base>/");
    reveal_strlit("<base>");
    let p = spec_norm(picked);
    let f = spec_norm(folder);
    let rest = spec_strip_prefix_ci(p, f)->0;
    let tok = spec_classify(picked, prefix_root, Some(folder), home);
    assert(tok == spec_join("<base>"@, rest));
    lemma_norm_shape(picked);
    lemma_norm_shape(folder);
    if rest.len() == 0 {
        assert(tok == "<base>"@);
        if p.len() != f.len() {
            assert(p[f.len() as int] == '/');
            assert(p.len() == f.len() + 1);
            assert(p.last() == '/');
            assert(p == seq!['/']);
        }
        assert(p.take(f.len() as int) =~= p);
        assert(spec_join(f, rest) == f);
    } else {
        assert(tok.len() > 7);
        assert(tok != "<base>"@);
        assert(tok.take(7) =~= "<base>/"@);
        assert(tok.skip(7) =~= rest);
        let e = spec_join(f, rest);
        assert(e =~= f + seq!['/'] + rest);
        assert(p =~= p.take(f.len() as int) + seq!['/'] + p.skip(f.len() as int + 1));
        assert(e =~= p);
    }
}

} // verus!
