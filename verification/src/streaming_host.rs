//! Adding games to a Sunshine/Apollo game-streaming host: detecting the host,
//! building the command it runs, and inserting or updating the game's app in
//! the host's `apps.json`.

use vstd::prelude::*;
use crate::json_object::{
    get_field, object_view, remove_field, set_field, text_of, FieldView, JsonField, JsonItem,
};
use crate::text::{chars_of, concat, concat3, path_join, path_join_exec, quoted, quoted_exec, string_of};

verus! {

/// The detected streaming host and the `apps.json` Spool writes to.
pub struct StreamingHostInfo {
    /// A host configuration folder exists.
    pub detected: bool,
    /// `sunshine` or `apollo`.
    pub kind: String,
    /// The `apps.json` path.
    pub apps_path: String,
}

/// The result of adding a game to the streaming host.
pub struct AddToStreamingHostResult {
    pub host_kind: String,
    pub apps_path: String,
    pub app_name: String,
    /// A cover image path was written.
    pub image_set: bool,
}

/// A candidate host: its label, its configuration folder, and whether that
/// folder exists.
pub struct HostCandidate {
    pub kind: String,
    pub config_dir: String,
    pub exists: bool,
}

/// The two hosts under one folder of programs: Sunshine, then Apollo, each
/// with its `config` folder.
pub open spec fn windows_pair(pf: Option<Seq<char>>) -> Seq<(Seq<char>, Seq<char>)> {
    match pf {
        Some(p) => seq![
            ("sunshine"@, path_join(path_join(p, "Sunshine"@), "config"@)),
            ("apollo"@, path_join(path_join(p, "Apollo"@), "config"@)),
        ],
        None => Seq::empty(),
    }
}

/// The host candidates, in order of preference, as (kind, configuration
/// folder): on Windows, Sunshine then Apollo under `ProgramFiles`, then the
/// same under `ProgramFiles(x86)`; elsewhere `<config>/sunshine` then
/// `<config>/Apollo`. A folder that is unknown contributes nothing.
pub open spec fn spec_host_candidates(
    host_is_windows: bool,
    config_dir: Option<Seq<char>>,
    program_files: Option<Seq<char>>,
    program_files_x86: Option<Seq<char>>,
) -> Seq<(Seq<char>, Seq<char>)> {
    if host_is_windows {
        windows_pair(program_files) + windows_pair(program_files_x86)
    } else {
        match config_dir {
            Some(c) => seq![("sunshine"@, path_join(c, "sunshine"@)), ("apollo"@, path_join(c, "Apollo"@))],
            None => Seq::empty(),
        }
    }
}

/// The views of (kind, folder) pairs.
pub open spec fn pair_views(v: Seq<(String, String)>) -> Seq<(Seq<char>, Seq<char>)> {
    v.map_values(|p: (String, String)| (p.0@, p.1@))
}

fn push_windows_pair(out: &mut Vec<(String, String)>, pf: &str)
    ensures
        pair_views(final(out)@) == pair_views(old(out)@) + windows_pair(Some(pf@)),
{
    let ghost before = out@;
    let s = path_join_exec(path_join_exec(pf, "Sunshine").as_str(), "config");
    let a = path_join_exec(path_join_exec(pf, "Apollo").as_str(), "config");
    out.push((string_of(&chars_of("sunshine")), s));
    out.push((string_of(&chars_of("apollo")), a));
    assert(pair_views(out@) =~= pair_views(before) + windows_pair(Some(pf@)));
}

/// The host candidates (see [`spec_host_candidates`]).
pub fn host_candidates(
    host_is_windows: bool,
    config_dir: Option<&str>,
    program_files: Option<&str>,
    program_files_x86: Option<&str>,
) -> (r: Vec<(String, String)>)
    ensures
        pair_views(r@) == spec_host_candidates(
            host_is_windows,
            opt_text(config_dir),
            opt_text(program_files),
            opt_text(program_files_x86),
        ),
{
    let mut out: Vec<(String, String)> = Vec::new();
    assert(pair_views(out@) =~= Seq::<(Seq<char>, Seq<char>)>::empty());
    if host_is_windows {
        if let Some(pf) = program_files {
            push_windows_pair(&mut out, pf);
        }
        assert(pair_views(out@) =~= windows_pair(opt_text(program_files)));
        if let Some(pf) = program_files_x86 {
            push_windows_pair(&mut out, pf);
        }
        assert(pair_views(out@) =~= windows_pair(opt_text(program_files)) + windows_pair(opt_text(program_files_x86)));
    } else if let Some(c) = config_dir {
        let s = path_join_exec(c, "sunshine");
        let a = path_join_exec(c, "Apollo");
        out.push((string_of(&chars_of("sunshine")), s));
        out.push((string_of(&chars_of("apollo")), a));
        assert(pair_views(out@) =~= spec_host_candidates(host_is_windows, opt_text(config_dir), opt_text(program_files), opt_text(program_files_x86)));
    }
    out
}

/// How `apps.json`'s top level is brought into shape before a game is added.
pub enum RootFix {
    /// The top level is not an object: replace it with `{"env": {}, "apps": []}`.
    Reset,
    /// An object without an `apps` array: set `apps` to `[]`, keep the rest.
    EmptyApps,
    /// Already an object with an `apps` array.
    Keep,
}

/// The fix `apps.json`'s top level needs (see [`RootFix`]).
pub fn apps_root_fix(root_is_object: bool, apps_is_array: bool) -> (r: RootFix)
    ensures
        !root_is_object ==> r is Reset,
        root_is_object && !apps_is_array ==> r is EmptyApps,
        root_is_object && apps_is_array ==> r is Keep,
{
    if !root_is_object {
        RootFix::Reset
    } else if !apps_is_array {
        RootFix::EmptyApps
    } else {
        RootFix::Keep
    }
}

/// The first installed host among the candidates (in order of preference),
/// with `apps.json` inside its configuration folder; `None` when none exists.
pub fn detect(candidates: &Vec<HostCandidate>) -> (r: Option<StreamingHostInfo>)
    ensures
        r is None <==> forall|i: int| 0 <= i < candidates@.len() ==> !(#[trigger] candidates@[i]).exists,
        r matches Some(info) ==> exists|i: int|
            0 <= i < candidates@.len() && (#[trigger] candidates@[i]).exists && (forall|j: int|
                0 <= j < i ==> !(#[trigger] candidates@[j]).exists) && info.detected && info.kind@
                == candidates@[i].kind@ && info.apps_path@ == path_join(
                candidates@[i].config_dir@,
                "apps.json"@,
            ),
{
    let mut i: usize = 0;
    while i < candidates.len()
        invariant
            i <= candidates.len(),
            forall|j: int| 0 <= j < i ==> !(#[trigger] candidates@[j]).exists,
        decreases candidates.len() - i,
    {
        if candidates[i].exists {
            let c = &candidates[i];
            let info = StreamingHostInfo {
                detected: true,
                kind: c.kind.clone(),
                apps_path: path_join_exec(c.config_dir.as_str(), "apps.json"),
            };
            assert(candidates@[i as int].exists);
            return Some(info);
        }
        i += 1;
    }
    None
}

/// The command the host runs for a game:
/// `"<spool>" --run "<name>" "<exe>" --attached`, each part quoted with its
/// `"` escaped.
pub open spec fn spec_build_cmd(spool_exe: Seq<char>, name: Seq<char>, exe: Seq<char>) -> Seq<char> {
    quoted(spool_exe) + " --run "@ + quoted(name) + " "@ + quoted(exe) + " --attached"@
}

/// Builds the host command (see [`spec_build_cmd`]).
pub fn build_cmd(spool_exe: &str, name: &str, exe: &str) -> (r: String)
    ensures
        r@ == spec_build_cmd(spool_exe@, name@, exe@),
{
    let a = concat3(&quoted_exec(&chars_of(spool_exe)), &chars_of(" --run "), &quoted_exec(&chars_of(name)));
    let b = concat3(&a, &chars_of(" "), &quoted_exec(&chars_of(exe)));
    string_of(&concat(&b, &chars_of(" --attached")))
}

} // verus!

verus! {

/// How `apps.json` is changed for a game.
pub enum AppsEdit {
    /// Update the app at this index in place: its command, and its image path
    /// (set, or removed when there is none); other keys are kept.
    Update { index: usize },
    /// Append a new app: name, command, `auto-detach` false, `wait-all` true,
    /// and the image path when there is one.
    Append,
}

/// The edit for `name`, given each app's name (`None` for an app without a
/// string name): update the first app with that name, else append.
pub fn plan_app_upsert(app_names: &Vec<Option<String>>, name: &str) -> (r: AppsEdit)
    ensures
        r matches AppsEdit::Update { index } ==> index < app_names@.len() && crate::rclone::opt_view(
            app_names@[index as int],
        ) == Some(name@) && forall|k: int| 0 <= k < index ==> crate::rclone::opt_view(#[trigger] app_names@[k])
            != Some(name@),
        r is Append ==> forall|k: int| 0 <= k < app_names@.len() ==> crate::rclone::opt_view(
            #[trigger] app_names@[k],
        ) != Some(name@),
{
    let n = chars_of(name);
    let mut i: usize = 0;
    while i < app_names.len()
        invariant
            i <= app_names.len(),
            n@ == name@,
            forall|k: int| 0 <= k < i ==> crate::rclone::opt_view(#[trigger] app_names@[k]) != Some(name@),
        decreases app_names.len() - i,
    {
        if let Some(a) = &app_names[i] {
            if crate::text::eq_exec(&chars_of(a.as_str()), &n) {
                return AppsEdit::Update { index: i };
            }
        }
        i += 1;
    }
    AppsEdit::Append
}

} // verus!

verus! {

/// An app's name: its `name` key's text, when it is an object with one.
pub open spec fn item_name<V>(a: JsonItem<V>) -> Option<Seq<char>> {
    match a {
        JsonItem::Object(e) => text_of(object_view(e@), "name"@),
        JsonItem::Other(_) => None,
    }
}

/// An existing app object after an update: `cmd` set, `image-path` set or
/// removed; every other key kept.
pub open spec fn edited_app<V>(m: Map<Seq<char>, FieldView<V>>, cmd: Seq<char>, image: Option<Seq<char>>) -> Map<
    Seq<char>,
    FieldView<V>,
> {
    let m1 = m.insert("cmd"@, FieldView::Text(cmd));
    match image {
        Some(p) => m1.insert("image-path"@, FieldView::Text(p)),
        None => m1.remove("image-path"@),
    }
}

/// A new app object: name, command, `auto-detach` false, `wait-all` true,
/// and the image path when there is one.
pub open spec fn new_app<V>(name: Seq<char>, cmd: Seq<char>, image: Option<Seq<char>>) -> Map<Seq<char>, FieldView<V>> {
    let m = Map::<Seq<char>, FieldView<V>>::empty().insert("name"@, FieldView::Text(name)).insert(
        "cmd"@,
        FieldView::Text(cmd),
    ).insert("auto-detach"@, FieldView::Flag(false)).insert("wait-all"@, FieldView::Flag(true));
    match image {
        Some(p) => m.insert("image-path"@, FieldView::Text(p)),
        None => m,
    }
}

/// The view of an optional text argument.
pub open spec fn opt_text(o: Option<&str>) -> Option<Seq<char>> {
    match o {
        Some(s) => Some(s@),
        None => None,
    }
}

/// Update an app object for a launch (see [`edited_app`]).
pub fn edit_app_entry<V>(entry: Vec<(String, JsonField<V>)>, cmd: &str, image_path: Option<&str>) -> (r: Vec<(String, JsonField<V>)>)
    ensures
        object_view(r@) == edited_app(object_view(entry@), cmd@, opt_text(image_path)),
{
    let e1 = set_field(entry, "cmd", JsonField::Text(string_of(&chars_of(cmd))));
    match image_path {
        Some(p) => set_field(e1, "image-path", JsonField::Text(string_of(&chars_of(p)))),
        None => remove_field(e1, "image-path"),
    }
}

/// A new app object (see [`new_app`]).
pub fn new_app_entry<V>(name: &str, cmd: &str, image_path: Option<&str>) -> (r: Vec<(String, JsonField<V>)>)
    ensures
        object_view(r@) == new_app::<V>(name@, cmd@, opt_text(image_path)),
{
    let e0: Vec<(String, JsonField<V>)> = Vec::new();
    assert(object_view(e0@) =~= Map::<Seq<char>, FieldView<V>>::empty());
    let e1 = set_field(e0, "name", JsonField::Text(string_of(&chars_of(name))));
    let e2 = set_field(e1, "cmd", JsonField::Text(string_of(&chars_of(cmd))));
    let e3 = set_field(e2, "auto-detach", JsonField::Flag(false));
    let e4 = set_field(e3, "wait-all", JsonField::Flag(true));
    match image_path {
        Some(p) => set_field(e4, "image-path", JsonField::Text(string_of(&chars_of(p)))),
        None => e4,
    }
}

/// The name of one app (see [`item_name`]).
fn app_name<V>(a: &JsonItem<V>) -> (r: Option<String>)
    ensures
        crate::rclone::opt_view(r) == item_name(*a),
{
    match a {
        JsonItem::Object(e) => match get_field(e, "name") {
            Some(JsonField::Text(s)) => Some(s.clone()),
            _ => None,
        },
        JsonItem::Other(_) => None,
    }
}

/// Insert or update a game's app in the `apps` array: the first app named
/// `name` is updated in place (see [`edited_app`]); without one, a new app
/// (see [`new_app`]) is appended. Other apps are kept as they are.
pub fn upsert_app<V>(apps: &mut Vec<JsonItem<V>>, name: &str, cmd: &str, image_path: Option<&str>)
    ensures
        ({
            ||| exists|k: int|
                0 <= k < old(apps)@.len() && item_name(#[trigger] old(apps)@[k]) == Some(name@) && (forall|j: int|
                    0 <= j < k ==> item_name(#[trigger] old(apps)@[j]) != Some(name@)) && final(apps)@.len()
                    == old(apps)@.len() && (forall|j: int|
                    0 <= j < old(apps)@.len() && j != k ==> #[trigger] final(apps)@[j] == old(apps)@[j])
                    && (old(apps)@[k] matches JsonItem::Object(e0) && final(apps)@[k] matches JsonItem::Object(e)
                    && object_view(e@) == edited_app(object_view(e0@), cmd@, opt_text(image_path)))
            ||| (forall|j: int| 0 <= j < old(apps)@.len() ==> item_name(#[trigger] old(apps)@[j]) != Some(name@))
                && final(apps)@.len() == old(apps)@.len() + 1 && final(apps)@.drop_last() == old(apps)@
                && (final(apps)@.last() matches JsonItem::Object(e) && object_view(e@) == new_app::<V>(
                name@,
                cmd@,
                opt_text(image_path),
            ))
        }),
{
    let mut names: Vec<Option<String>> = Vec::new();
    let mut i: usize = 0;
    while i < apps.len()
        invariant
            i <= apps.len(),
            names.len() == i,
            forall|j: int| 0 <= j < i ==> crate::rclone::opt_view(#[trigger] names@[j]) == item_name(apps@[j]),
        decreases apps.len() - i,
    {
        let n = app_name(&apps[i]);
        names.push(n);
        i += 1;
    }
    let ghost before = apps@;
    match plan_app_upsert(&names, name) {
        AppsEdit::Update { index } => {
            assert(item_name(before[index as int]) == Some(name@));
            assert forall|j: int| 0 <= j < index implies item_name(#[trigger] before[j]) != Some(name@) by {
                assert(crate::rclone::opt_view(names@[j]) == item_name(before[j]));
            }
            let item = apps.remove(index);
            match item {
                JsonItem::Object(e) => {
                    let edited = edit_app_entry(e, cmd, image_path);
                    apps.insert(index, JsonItem::Object(edited));
                },
                JsonItem::Other(v) => {
                    apps.insert(index, JsonItem::Other(v));
                },
            }
            assert(forall|j: int| 0 <= j < before.len() && j != index ==> #[trigger] apps@[j] == before[j]);
        },
        AppsEdit::Append => {
            assert forall|j: int| 0 <= j < before.len() implies item_name(#[trigger] before[j]) != Some(name@) by {
                assert(crate::rclone::opt_view(names@[j]) == item_name(before[j]));
            }
            let e = new_app_entry(name, cmd, image_path);
            apps.push(JsonItem::Object(e));
            assert(apps@.drop_last() =~= before);
        },
    }
}

} // verus!
