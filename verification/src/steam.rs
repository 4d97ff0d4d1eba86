//! Adding Spool-managed games to Steam as non-Steam shortcuts: the launch
//! options Steam passes back to Spool, the quoted paths Steam stores, the
//! shortcut app id, the insert-or-update of a shortcut entry, and reading and
//! writing `shortcuts.vdf` through `steam_shortcuts_util`.

use vstd::prelude::*;
use crate::error::AppError;
use crate::text::{chars_of, concat, concat3, eq_exec, quoted, quoted_exec, escape_quotes, escape_quotes_exec, string_of};

verus! {

/// The Steam launch options for a Spool-managed game:
/// `--run "<name>" "<exe>" --attached`, each `"` inside escaped. The trailing
/// `--attached` makes the Steam-launched Spool run the session in its own
/// process so Steam can track it.
pub open spec fn spec_launch_options(game_name: Seq<char>, exe_path: Seq<char>) -> Seq<char> {
    "--run "@ + quoted(game_name) + " "@ + quoted(exe_path) + " --attached"@
}

/// Builds the launch options (see [`spec_launch_options`]).
pub fn build_launch_options(game_name: &str, exe_path: &str) -> (r: String)
    ensures
        r@ == spec_launch_options(game_name@, exe_path@),
{
    let a = concat(&chars_of("--run "), &quoted_exec(&chars_of(game_name)));
    let b = concat3(&a, &chars_of(" "), &quoted_exec(&chars_of(exe_path)));
    let r = concat(&b, &chars_of(" --attached"));
    string_of(&r)
}

/// A path quoted the way Steam stores executables in `shortcuts.vdf`.
pub fn quote_exe(path: &str) -> (r: String)
    ensures
        r@ == quoted(path@),
{
    string_of(&quoted_exec(&chars_of(path)))
}

/// Steam's id of a non-Steam shortcut with quoted executable `exe` and name
/// `app_name`.
pub uninterp spec fn spec_shortcut_app_id(exe: Seq<char>, app_name: Seq<char>) -> u32;

/// `steam_shortcuts_util::app_id_generator::calculate_app_id`.
///
/// Trusted: the id (a CRC-32 of the executable followed by the name) is named
/// by [`spec_shortcut_app_id`]; of its value only what the source shows
/// plainly is claimed: the top bit is set.
#[verifier::external_body]
fn calculate_app_id(exe: &str, app_name: &str) -> (r: u32)
    ensures
        r == spec_shortcut_app_id(exe@, app_name@),
        r >= 0x8000_0000,
{
    steam_shortcuts_util::app_id_generator::calculate_app_id(exe, app_name)
}

/// The app id Steam gives the shortcut of a Spool-managed game: computed from
/// the quoted Spool executable and the game's name.
pub fn compute_shortcut_app_id(game_name: &str, spool_exe: &str) -> (r: u32)
    ensures
        r == spec_shortcut_app_id(quoted(spool_exe@), game_name@),
        r >= 0x8000_0000,
{
    let q = quote_exe(spool_exe);
    calculate_app_id(q.as_str(), game_name)
}

/// One discovered Steam user: the userdata folder name, the path of its
/// `shortcuts.vdf` and of its grid-art folder, and when the folder was last
/// modified (Unix seconds).
pub struct SteamUser {
    pub user_id: String,
    pub shortcuts_path: String,
    pub grid_dir: String,
    pub last_modified: u64,
}

/// The result of adding a game to Steam.
pub struct AddToSteamResult {
    pub steam_user_id: String,
    pub app_id: u32,
    pub shortcuts_path: String,
    pub portrait_placed: bool,
    pub extras_placed: Vec<String>,
    /// Steam was shut down and relaunched so the shortcut shows at once.
    pub steam_restarted: bool,
}

/// One entry of Steam's `shortcuts.vdf`, every field it holds.
pub struct ShortcutEntry {
    pub order: String,
    pub app_id: u32,
    pub app_name: String,
    pub exe: String,
    pub start_dir: String,
    pub icon: String,
    pub shortcut_path: String,
    pub launch_options: String,
    pub is_hidden: bool,
    pub allow_desktop_config: bool,
    pub allow_overlay: bool,
    pub open_vr: u32,
    pub dev_kit: u32,
    pub dev_kit_game_id: String,
    pub dev_kit_overrite_app_id: u32,
    pub last_play_time: u32,
    pub tags: Vec<String>,
}

/// The view of a [`ShortcutEntry`]: its text fields as character sequences.
pub struct ShortcutView {
    pub order: Seq<char>,
    pub app_id: u32,
    pub app_name: Seq<char>,
    pub exe: Seq<char>,
    pub start_dir: Seq<char>,
    pub icon: Seq<char>,
    pub shortcut_path: Seq<char>,
    pub launch_options: Seq<char>,
    pub is_hidden: bool,
    pub allow_desktop_config: bool,
    pub allow_overlay: bool,
    pub open_vr: u32,
    pub dev_kit: u32,
    pub dev_kit_game_id: Seq<char>,
    pub dev_kit_overrite_app_id: u32,
    pub last_play_time: u32,
    pub tags: Seq<Seq<char>>,
}

pub open spec fn shortcut_view(e: ShortcutEntry) -> ShortcutView {
    ShortcutView {
        order: e.order@,
        app_id: e.app_id,
        app_name: e.app_name@,
        exe: e.exe@,
        start_dir: e.start_dir@,
        icon: e.icon@,
        shortcut_path: e.shortcut_path@,
        launch_options: e.launch_options@,
        is_hidden: e.is_hidden,
        allow_desktop_config: e.allow_desktop_config,
        allow_overlay: e.allow_overlay,
        open_vr: e.open_vr,
        dev_kit: e.dev_kit,
        dev_kit_game_id: e.dev_kit_game_id@,
        dev_kit_overrite_app_id: e.dev_kit_overrite_app_id,
        last_play_time: e.last_play_time,
        tags: crate::text::str_views(e.tags@),
    }
}

/// The views of a list of entries.
pub open spec fn shortcut_views(v: Seq<ShortcutEntry>) -> Seq<ShortcutView> {
    v.map_values(|e: ShortcutEntry| shortcut_view(e))
}

/// The decimal digits of `n`.
pub open spec fn decimal(n: nat) -> Seq<char>
    decreases n,
{
    if n < 10 {
        seq![digit_char(n)]
    } else {
        decimal(n / 10).push(digit_char(n % 10))
    }
}

/// The character of a decimal digit.
pub open spec fn digit_char(d: nat) -> char {
    if d == 0 { '0' } else if d == 1 { '1' } else if d == 2 { '2' } else if d == 3 { '3' }
    else if d == 4 { '4' } else if d == 5 { '5' } else if d == 6 { '6' } else if d == 7 { '7' }
    else if d == 8 { '8' } else { '9' }
}

/// Exec: `digit_char`.
pub(crate) fn digit_exec(d: u64) -> (c: char)
    requires
        d < 10,
    ensures
        c == digit_char(d as nat),
{
    if d == 0 { '0' } else if d == 1 { '1' } else if d == 2 { '2' } else if d == 3 { '3' }
    else if d == 4 { '4' } else if d == 5 { '5' } else if d == 6 { '6' } else if d == 7 { '7' }
    else if d == 8 { '8' } else { '9' }
}

/// The decimal rendering of `n`.
pub fn decimal_exec(n: u64) -> (r: Vec<char>)
    ensures
        r@ == decimal(n as nat),
    decreases n,
{
    if n < 10 {
        let mut v: Vec<char> = Vec::new();
        v.push(digit_exec(n));
        v
    } else {
        let mut v = decimal_exec(n / 10);
        v.push(digit_exec(n % 10));
        v
    }
}

/// No two entries share a name.
pub open spec fn unique_names(v: Seq<ShortcutEntry>) -> bool {
    forall|i: int, j: int| 0 <= i < j < v.len() ==> (#[trigger] v[i]).app_name@ != (#[trigger] v[j]).app_name@
}

/// `e` is the entry `old` becomes when Spool updates it: app id, quoted
/// executable and start folder, the executable as icon and the launch options
/// set; every other field kept.
pub open spec fn updated_entry(
    e: ShortcutView,
    old: ShortcutView,
    app_id: u32,
    exe: Seq<char>,
    start_dir: Seq<char>,
    launch_options: Seq<char>,
) -> bool {
    e == ShortcutView {
        app_id,
        exe: quoted(exe),
        start_dir: quoted(start_dir),
        icon: exe,
        launch_options,
        ..old
    }
}

/// `e` is the entry Spool creates at position `n`: its position as `order`,
/// the app id, name, quoted executable and start folder, the executable as
/// icon, the launch options, no shortcut path, visible, desktop config and
/// overlay allowed, no VR, dev kit or play time, tagged `Spool`.
pub open spec fn new_entry(
    e: ShortcutView,
    n: nat,
    app_id: u32,
    app_name: Seq<char>,
    exe: Seq<char>,
    start_dir: Seq<char>,
    launch_options: Seq<char>,
) -> bool {
    e == ShortcutView {
        order: decimal(n),
        app_id,
        app_name,
        exe: quoted(exe),
        start_dir: quoted(start_dir),
        icon: exe,
        shortcut_path: Seq::empty(),
        launch_options,
        is_hidden: false,
        allow_desktop_config: true,
        allow_overlay: true,
        open_vr: 0,
        dev_kit: 0,
        dev_kit_game_id: Seq::empty(),
        dev_kit_overrite_app_id: 0,
        last_play_time: 0,
        tags: seq!["Spool"@],
    }
}

/// Insert or update (by name) Spool's shortcut for `app_name`. The first
/// entry with that name is updated in place (see [`updated_entry`]); without
/// one, a new entry is appended (see [`new_entry`]). Every other entry is
/// kept. Returns the app id computed from the quoted executable and the name.
#[verifier::loop_isolation(false)]
pub fn upsert_spool_shortcut(
    shortcuts: &mut Vec<ShortcutEntry>,
    app_name: &str,
    spool_exe: &str,
    spool_start_dir: &str,
    launch_options: &str,
) -> (r: u32)
    ensures
        r == spec_shortcut_app_id(quoted(spool_exe@), app_name@),
        ({
            ||| exists|i: int|
                0 <= i < old(shortcuts)@.len() && (#[trigger] old(shortcuts)@[i]).app_name@ == app_name@
                    && (forall|k: int| 0 <= k < i ==> (#[trigger] old(shortcuts)@[k]).app_name@ != app_name@)
                    && final(shortcuts)@.len() == old(shortcuts)@.len() && (forall|k: int|
                    0 <= k < old(shortcuts)@.len() && k != i ==> #[trigger] final(shortcuts)@[k]
                    == old(shortcuts)@[k]) && updated_entry(
                    shortcut_view(final(shortcuts)@[i]),
                    shortcut_view(old(shortcuts)@[i]),
                    r,
                    spool_exe@,
                    spool_start_dir@,
                    launch_options@,
                )
            ||| (forall|k: int| 0 <= k < old(shortcuts)@.len() ==> (#[trigger] old(shortcuts)@[k]).app_name@ != app_name@)
                && final(shortcuts)@.drop_last() == old(shortcuts)@ && final(shortcuts)@.len() == old(
                shortcuts,
            )@.len() + 1 && new_entry(
                shortcut_view(final(shortcuts)@.last()),
                old(shortcuts)@.len(),
                r,
                app_name@,
                spool_exe@,
                spool_start_dir@,
                launch_options@,
            )
        }),
        unique_names(old(shortcuts)@) ==> unique_names(final(shortcuts)@),
{
    let quoted_exe = quote_exe(spool_exe);
    let quoted_start = quote_exe(spool_start_dir);
    let app_id = calculate_app_id(quoted_exe.as_str(), app_name);
    let name = chars_of(app_name);
    let mut j: usize = 0;
    while j < shortcuts.len()
        invariant
            j <= shortcuts.len(),
            name@ == app_name@,
            forall|k: int| 0 <= k < j ==> (#[trigger] shortcuts@[k]).app_name@ != app_name@,
            shortcuts@ == old(shortcuts)@,
        decreases shortcuts.len() - j,
    {
        if eq_exec(&chars_of(shortcuts[j].app_name.as_str()), &name) {
            let ghost before = shortcuts@;
            let old_e = shortcuts.remove(j);
            let entry = ShortcutEntry {
                app_id,
                exe: quoted_exe,
                start_dir: quoted_start,
                icon: string_of(&chars_of(spool_exe)),
                launch_options: string_of(&chars_of(launch_options)),
                ..old_e
            };
            shortcuts.insert(j, entry);
            assert(shortcuts@ =~= before.update(j as int, entry));
            assert(forall|k: int| 0 <= k < shortcuts@.len() && k != j ==> shortcuts@[k] == before[k]);
            assert(updated_entry(
                shortcut_view(shortcuts@[j as int]),
                shortcut_view(before[j as int]),
                app_id,
                spool_exe@,
                spool_start_dir@,
                launch_options@,
            ));
            return app_id;
        }
        j += 1;
    }
    let n = shortcuts.len();
    let mut tags: Vec<String> = Vec::new();
    tags.push(string_of(&chars_of("Spool")));
    let entry = ShortcutEntry {
        order: string_of(&decimal_exec(n as u64)),
        app_id,
        app_name: string_of(&name),
        exe: quoted_exe,
        start_dir: quoted_start,
        icon: string_of(&chars_of(spool_exe)),
        shortcut_path: String::new(),
        launch_options: string_of(&chars_of(launch_options)),
        is_hidden: false,
        allow_desktop_config: true,
        allow_overlay: true,
        open_vr: 0,
        dev_kit: 0,
        dev_kit_game_id: String::new(),
        dev_kit_overrite_app_id: 0,
        last_play_time: 0,
        tags,
    };
    let ghost before = shortcuts@;
    shortcuts.push(entry);
    assert(shortcuts@.drop_last() =~= before);
    assert(crate::text::str_views(entry.tags@) =~= seq!["Spool"@]);
    app_id
}

/// What `steam_shortcuts_util::parse_shortcuts` makes of the bytes of a
/// `shortcuts.vdf`: its entries, or its error message.
pub uninterp spec fn spec_parse_shortcuts(bytes: Seq<u8>) -> Result<Seq<ShortcutView>, Seq<char>>;

/// `steam_shortcuts_util::parse_shortcuts`, each parsed entry copied out
/// field by field (through `Shortcut::to_owned`).
///
/// Trusted: the entries or the error message are named by
/// [`spec_parse_shortcuts`]; nothing more is claimed.
#[verifier::external_body]
fn parse_shortcuts_raw(bytes: &[u8]) -> (r: Result<Vec<ShortcutEntry>, String>)
    ensures
        match r {
            Ok(v) => spec_parse_shortcuts(bytes@) == Ok::<Seq<ShortcutView>, Seq<char>>(shortcut_views(v@)),
            Err(e) => spec_parse_shortcuts(bytes@) == Err::<Seq<ShortcutView>, Seq<char>>(e@),
        },
{
    let parsed = steam_shortcuts_util::parse_shortcuts(bytes)?;
    Ok(parsed.iter().map(|s| { let o = s.to_owned(); ShortcutEntry {
        order: o.order, app_id: o.app_id, app_name: o.app_name, exe: o.exe, start_dir: o.start_dir,
        icon: o.icon, shortcut_path: o.shortcut_path, launch_options: o.launch_options,
        is_hidden: o.is_hidden, allow_desktop_config: o.allow_desktop_config, allow_overlay: o.allow_overlay,
        open_vr: o.open_vr, dev_kit: o.dev_kit, dev_kit_game_id: o.dev_kit_game_id,
        dev_kit_overrite_app_id: o.dev_kit_overrite_app_id, last_play_time: o.last_play_time, tags: o.tags,
    } }).collect())
}

/// The entries of a `shortcuts.vdf` from its bytes, or the parser's message.
pub fn parse_shortcuts_bytes(bytes: &[u8]) -> (r: Result<Vec<ShortcutEntry>, String>)
    ensures
        match r {
            Ok(v) => spec_parse_shortcuts(bytes@) == Ok::<Seq<ShortcutView>, Seq<char>>(shortcut_views(v@)),
            Err(e) => spec_parse_shortcuts(bytes@) == Err::<Seq<ShortcutView>, Seq<char>>(e@),
        },
{
    parse_shortcuts_raw(bytes)
}

/// The shortcuts read from `path`, given what reading it gave: none when the
/// file does not exist (`None`), the parsed entries, or an error naming the
/// file and the parser's message.
pub fn shortcuts_from_parse(path: &str, parsed: Option<Result<Vec<ShortcutEntry>, String>>) -> (r: Result<
    Vec<ShortcutEntry>,
    AppError,
>)
    ensures
        parsed is None ==> (r matches Ok(v) && v@.len() == 0),
        parsed matches Some(Ok(v)) ==> (r matches Ok(w) && w@ == v@),
        parsed matches Some(Err(e)) ==> (r matches Err(AppError::Other(m)) && m@ == "failed to parse "@
            + path@ + ": "@ + e@),
{
    match parsed {
        None => Ok(Vec::new()),
        Some(Ok(v)) => Ok(v),
        Some(Err(e)) => {
            let head = concat3(&chars_of("failed to parse "), &chars_of(path), &chars_of(": "));
            Err(AppError::Other(string_of(&concat(&head, &chars_of(e.as_str())))))
        },
    }
}

/// The shortcuts read from `path`: none when the file does not exist
/// (`contents` is `None`), else its bytes parsed (see [`shortcuts_from_parse`]).
pub fn read_shortcuts_bytes(path: &str, contents: Option<&[u8]>) -> (r: Result<Vec<ShortcutEntry>, AppError>)
    ensures
        contents is None ==> (r matches Ok(v) && v@.len() == 0),
        contents matches Some(b) ==> match spec_parse_shortcuts(b@) {
            Ok(es) => r matches Ok(v) && shortcut_views(v@) == es,
            Err(e) => r matches Err(AppError::Other(m)) && m@ == "failed to parse "@ + path@ + ": "@ + e,
        },
{
    let parsed = match contents {
        Some(b) => Some(parse_shortcuts_bytes(b)),
        None => None,
    };
    shortcuts_from_parse(path, parsed)
}

/// The bytes `steam_shortcuts_util::shortcuts_to_bytes` writes for a list of
/// entries.
pub uninterp spec fn spec_shortcuts_bytes(entries: Seq<ShortcutView>) -> Seq<u8>;

/// `steam_shortcuts_util::shortcuts_to_bytes` of the entries, each lent to it
/// field by field as a `Shortcut`.
///
/// Trusted: the bytes are named by [`spec_shortcuts_bytes`]; nothing more is
/// claimed.
#[verifier::external_body]
fn shortcuts_to_bytes_raw(entries: &Vec<ShortcutEntry>) -> (r: Vec<u8>)
    ensures
        r@ == spec_shortcuts_bytes(shortcut_views(entries@)),
{
    let v: Vec<steam_shortcuts_util::Shortcut> = entries.iter().map(|e| steam_shortcuts_util::Shortcut {
        order: &e.order, app_id: e.app_id, app_name: &e.app_name, exe: &e.exe, start_dir: &e.start_dir,
        icon: &e.icon, shortcut_path: &e.shortcut_path, launch_options: &e.launch_options,
        is_hidden: e.is_hidden, allow_desktop_config: e.allow_desktop_config, allow_overlay: e.allow_overlay,
        open_vr: e.open_vr, dev_kit: e.dev_kit, dev_kit_game_id: &e.dev_kit_game_id,
        dev_kit_overrite_app_id: e.dev_kit_overrite_app_id, last_play_time: e.last_play_time,
        tags: e.tags.iter().map(|t| t.as_str()).collect(),
    }).collect();
    steam_shortcuts_util::shortcuts_to_bytes(&v)
}

/// The entries with their `order` fields renumbered from 0, as Steam wants
/// them after a delete; every other field kept.
pub open spec fn renumbered(v: Seq<ShortcutView>) -> Seq<ShortcutView> {
    Seq::new(v.len(), |i: int| ShortcutView { order: decimal(i as nat), ..v[i] })
}

fn copy_strings(v: &Vec<String>) -> (r: Vec<String>)
    ensures
        crate::text::str_views(r@) == crate::text::str_views(v@),
{
    let mut out: Vec<String> = Vec::new();
    let mut i: usize = 0;
    while i < v.len()
        invariant
            i <= v.len(),
            crate::text::str_views(out@) == crate::text::str_views(v@.take(i as int)),
        decreases v.len() - i,
    {
        let ghost before = out@;
        out.push(v[i].clone());
        assert(crate::text::str_views(out@) =~= crate::text::str_views(before).push(v@[i as int]@));
        assert(crate::text::str_views(v@.take(i + 1)) =~= crate::text::str_views(v@.take(i as int)).push(v@[i as int]@));
        i += 1;
    }
    assert(v@.take(v.len() as int) =~= v@);
    out
}

/// A copy of `e` with `order` set to `order`.
fn with_order(e: &ShortcutEntry, order: String) -> (r: ShortcutEntry)
    ensures
        shortcut_view(r) == (ShortcutView { order: order@, ..shortcut_view(*e) }),
{
    ShortcutEntry {
        order,
        app_id: e.app_id,
        app_name: e.app_name.clone(),
        exe: e.exe.clone(),
        start_dir: e.start_dir.clone(),
        icon: e.icon.clone(),
        shortcut_path: e.shortcut_path.clone(),
        launch_options: e.launch_options.clone(),
        is_hidden: e.is_hidden,
        allow_desktop_config: e.allow_desktop_config,
        allow_overlay: e.allow_overlay,
        open_vr: e.open_vr,
        dev_kit: e.dev_kit,
        dev_kit_game_id: e.dev_kit_game_id.clone(),
        dev_kit_overrite_app_id: e.dev_kit_overrite_app_id,
        last_play_time: e.last_play_time,
        tags: copy_strings(&e.tags),
    }
}

/// The bytes of a `shortcuts.vdf` holding `entries`, their `order` fields
/// first renumbered from 0 (Steam can choke on gaps after a delete).
pub fn shortcuts_bytes(entries: &Vec<ShortcutEntry>) -> (r: Vec<u8>)
    requires
        entries@.len() <= u64::MAX,
    ensures
        r@ == spec_shortcuts_bytes(renumbered(shortcut_views(entries@))),
{
    let mut owned: Vec<ShortcutEntry> = Vec::new();
    let mut i: usize = 0;
    while i < entries.len()
        invariant
            i <= entries.len(),
            entries@.len() <= u64::MAX,
            owned@.len() == i,
            forall|k: int| 0 <= k < i ==> #[trigger] shortcut_view(owned@[k]) == renumbered(shortcut_views(entries@))[k],
        decreases entries.len() - i,
    {
        let e = with_order(&entries[i], string_of(&decimal_exec(i as u64)));
        owned.push(e);
        i += 1;
    }
    assert(shortcut_views(owned@) =~= renumbered(shortcut_views(entries@)));
    shortcuts_to_bytes_raw(&owned)
}

} // verus!

verus! {

/// `Path::file_stem` of a plain file name: the name before its last `.`,
/// or the whole name when it has no `.` or only a leading one.
pub open spec fn file_stem(name: Seq<char>) -> Seq<char> {
    match crate::text::rindex_of(name, '.') {
        None => name,
        Some(k) => if k == 0 {
            name
        } else {
            name.subrange(0, k)
        },
    }
}

/// Whether a file in Steam's grid folder holds the art of slot `suffix` of
/// app `app_id`: its stem is exactly `<app_id><suffix>` (so the wide slot,
/// suffix empty, never matches the `p` or `_hero` slots).
pub fn grid_art_matches(file_name: &str, app_id: u32, suffix: &str) -> (r: bool)
    ensures
        r == (file_stem(file_name@) == decimal(app_id as nat) + suffix@),
{
    let n = chars_of(file_name);
    let stem = match crate::text::rindex_of_exec(&n, '.') {
        None => crate::text::slice_vec(&n, 0, n.len()),
        Some(k) => if k == 0 {
            crate::text::slice_vec(&n, 0, n.len())
        } else {
            crate::text::slice_vec(&n, 0, k)
        },
    };
    assert(stem@ =~= file_stem(n@));
    let want = concat(&decimal_exec(app_id as u64), &chars_of(suffix));
    eq_exec(&stem, &want)
}

} // verus!
