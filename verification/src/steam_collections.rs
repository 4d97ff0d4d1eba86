//! The "Spool" collection in Steam's library: the appids it holds and the
//! record written into Steam's collections namespace file.

use vstd::prelude::*;
use crate::steam::{decimal, decimal_exec, ShortcutEntry};
use crate::json_object::{get_field, object_view, set_field, FieldView, JsonField, JsonItem};
use crate::text::{chars_of, concat, concat3, eq_exec, parse_u64, parse_u64_exec, starts_with, starts_with_exec, string_of};

verus! {

/// The collection's stable id.
pub const SPOOL_COLLECTION_ID: &'static str = "spool-managed";

/// The collection's display name.
pub const SPOOL_COLLECTION_NAME: &'static str = "Spool";

/// The key of the collection's record: `user-collections.spool-managed`.
pub fn collection_key() -> (r: String)
    ensures
        r@ == "user-collections."@ + SPOOL_COLLECTION_ID@,
{
    string_of(&concat(&chars_of("user-collections."), &chars_of(SPOOL_COLLECTION_ID)))
}

/// A shortcut's appid as a collection stores it: the unsigned 32-bit value.
pub fn collection_appid(shortcut_app_id: u32) -> (r: i64)
    ensures
        r == shortcut_app_id as int,
{
    shortcut_app_id as i64
}

/// The shortcuts that launch a Spool game (their launch options drive
/// `--run`); the bare launcher shortcut is left out.
pub open spec fn managed(v: Seq<ShortcutEntry>) -> Seq<u32>
    decreases v.len(),
{
    if v.len() == 0 {
        Seq::empty()
    } else if starts_with(v.last().launch_options@, "--run"@) {
        managed(v.drop_last()).push(v.last().app_id)
    } else {
        managed(v.drop_last())
    }
}

/// The appids of the Spool-managed game shortcuts, in order.
pub fn spool_managed_appids(shortcuts: &Vec<ShortcutEntry>) -> (r: Vec<u32>)
    ensures
        r@ == managed(shortcuts@),
{
    let run = chars_of("--run");
    let mut out: Vec<u32> = Vec::new();
    let mut i: usize = 0;
    while i < shortcuts.len()
        invariant
            i <= shortcuts.len(),
            run@ == "--run"@,
            out@ == managed(shortcuts@.take(i as int)),
        decreases shortcuts.len() - i,
    {
        assert(shortcuts@.take(i + 1).drop_last() =~= shortcuts@.take(i as int));
        assert(shortcuts@.take(i + 1).last() == shortcuts@[i as int]);
        if starts_with_exec(&chars_of(shortcuts[i].launch_options.as_str()), &run) {
            out.push(shortcuts[i].app_id);
        }
        i += 1;
    }
    assert(shortcuts@.take(shortcuts.len() as int) =~= shortcuts@);
    out
}

/// The previous version a record's `version` value carries: its text parsed
/// as `u64`, or its number.
pub fn previous_version<V>(v: Option<&JsonField<V>>) -> (r: Option<u64>)
    ensures
        r == match v {
            Some(JsonField::Text(s)) => parse_u64(s@),
            Some(JsonField::Number(n)) => Some(*n),
            _ => None,
        },
{
    match v {
        Some(JsonField::Text(s)) => parse_u64_exec(&chars_of(s.as_str())),
        Some(JsonField::Number(n)) => Some(*n),
        _ => None,
    }
}

/// The next `version` of the record: one past the previous one, or `now` if
/// that is later; `now` for a new record. Steam orders syncs by it, so a
/// write is never ordered behind the copy just read.
pub fn bump_version(prev: Option<u64>, now: u64) -> (r: u64)
    requires
        prev != Some(u64::MAX),
    ensures
        r == match prev {
            Some(p) => if p + 1 > now {
                (p + 1) as u64
            } else {
                now
            },
            None => now,
        },
{
    match prev {
        Some(p) => if p + 1 > now {
            p + 1
        } else {
            now
        },
        None => now,
    }
}

/// `v` is strictly increasing.
pub open spec fn strictly_sorted(v: Seq<i64>) -> bool {
    forall|i: int, j: int| 0 <= i < j < v.len() ==> v[i] < v[j]
}

/// The collection's `added` list: the appids (as stored) sorted ascending,
/// each once.
pub fn sorted_unique_appids(appids: &Vec<u32>) -> (r: Vec<i64>)
    ensures
        strictly_sorted(r@),
        forall|x: i64| r@.contains(x) <==> exists|i: int| 0 <= i < appids@.len() && x == (#[trigger] appids@[i]) as int,
{
    let mut out: Vec<i64> = Vec::new();
    let mut i: usize = 0;
    while i < appids.len()
        invariant
            i <= appids.len(),
            strictly_sorted(out@),
            forall|x: i64| out@.contains(x) <==> exists|k: int| 0 <= k < i && x == (#[trigger] appids@[k]) as int,
        decreases appids.len() - i,
    {
        let x = collection_appid(appids[i]);
        let mut j: usize = 0;
        while j < out.len() && out[j] < x
            invariant
                j <= out.len(),
                forall|k: int| 0 <= k < j ==> out@[k] < x,
            decreases out.len() - j,
        {
            j += 1;
        }
        let ghost before = out@;
        if j < out.len() && out[j] == x {
            assert(out@[j as int] == x);
            assert(out@.contains(x));
            assert(forall|y: i64| out@.contains(y) <==> (before.contains(y) || y == x));
        } else {
            out.insert(j, x);
            assert(out@ == before.insert(j as int, x));
            assert forall|a: int, b: int| 0 <= a < b < out@.len() implies out@[a] < out@[b] by {
                if b < j {
                } else if a < j && b == j {
                } else if a < j && b > j {
                    assert(out@[b] == before[b - 1]);
                    assert(j < before.len());
                    assert(before[j as int] >= x);
                    if b - 1 > j {
                        assert(before[j as int] < before[b - 1]);
                    }
                } else if a == j {
                    assert(out@[b] == before[b - 1]);
                    assert(before[j as int] >= x && before[j as int] != x);
                    if b - 1 > j {
                        assert(before[j as int] < before[b - 1]);
                    }
                } else {
                    assert(out@[a] == before[a - 1] && out@[b] == before[b - 1]);
                }
            }
            assert forall|y: i64| out@.contains(y) <==> (before.contains(y) || y == x) by {
                if out@.contains(y) {
                    let k = choose|k: int| 0 <= k < out@.len() && out@[k] == y;
                    if k < j {
                        assert(before[k] == y);
                    } else if k > j {
                        assert(before[k - 1] == y);
                    }
                }
                if before.contains(y) {
                    let k = choose|k: int| 0 <= k < before.len() && before[k] == y;
                    if k < j {
                        assert(out@[k] == y);
                    } else {
                        assert(out@[k + 1] == y);
                    }
                }
                if y == x {
                    assert(out@[j as int] == x);
                }
            }
        }
        assert(forall|y: i64| out@.contains(y) <==> (before.contains(y) || y == x));
        assert forall|y: i64| out@.contains(y) <==> exists|k: int| 0 <= k < i + 1 && y == (#[trigger] appids@[k]) as int by {
            if y == x {
                assert(appids@[i as int] as int == x);
            }
            if out@.contains(y) {
                if before.contains(y) {
                    let k = choose|k: int| 0 <= k < i && y == (#[trigger] appids@[k]) as int;
                    assert(0 <= k < i + 1 && y == appids@[k] as int);
                } else {
                    assert(y == x);
                    assert(y == appids@[i as int] as int);
                }
            }
            if exists|k: int| 0 <= k < i + 1 && y == (#[trigger] appids@[k]) as int {
                let k = choose|k: int| 0 <= k < i + 1 && y == (#[trigger] appids@[k]) as int;
                if k < i {
                    assert(exists|k2: int| 0 <= k2 < i && y == (#[trigger] appids@[k2]) as int);
                    assert(before.contains(y));
                } else {
                    assert(y == x);
                }
            }
        }
        i += 1;
    }
    out
}

/// The comma-separated decimal rendering of non-negative numbers.
pub open spec fn number_list(v: Seq<i64>) -> Seq<char>
    decreases v.len(),
{
    if v.len() == 0 {
        Seq::empty()
    } else if v.len() == 1 {
        decimal(v[0] as nat)
    } else {
        number_list(v.drop_last()) + ","@ + decimal(v.last() as nat)
    }
}

/// The collection record's `value`: the stringified JSON object
/// `{"id":"spool-managed","name":"Spool","added":[…],"removed":[]}`.
pub fn collection_value_json(added: &Vec<i64>) -> (r: String)
    requires
        forall|i: int| 0 <= i < added@.len() ==> added@[i] >= 0,
    ensures
        r@ == "{\"id\":\"spool-managed\",\"name\":\"Spool\",\"added\":["@ + number_list(added@)
            + "],\"removed\":[]}"@,
{
    let mut list: Vec<char> = Vec::new();
    let mut i: usize = 0;
    while i < added.len()
        invariant
            i <= added.len(),
            forall|k: int| 0 <= k < added@.len() ==> added@[k] >= 0,
            list@ == number_list(added@.take(i as int)),
        decreases added.len() - i,
    {
        assert(added@.take(i + 1).drop_last() =~= added@.take(i as int));
        assert(added@.take(i + 1).last() == added@[i as int]);
        let d = decimal_exec(added[i] as u64);
        if i == 0 {
            list = d;
        } else {
            list = concat3(&list, &chars_of(","), &d);
        }
        i += 1;
    }
    assert(added@.take(added.len() as int) =~= added@);
    let head = chars_of("{\"id\":\"spool-managed\",\"name\":\"Spool\",\"added\":[");
    string_of(&concat3(&head, &list, &chars_of("],\"removed\":[]}")))
}

} // verus!

verus! {

/// The text of the collection record's key.
pub open spec fn spec_collection_key() -> Seq<char> {
    "user-collections."@ + SPOOL_COLLECTION_ID@
}

/// The collection's `value` text for an `added` list.
pub open spec fn spec_collection_value(added: Seq<i64>) -> Seq<char> {
    "{\"id\":\"spool-managed\",\"name\":\"Spool\",\"added\":["@ + number_list(added) + "],\"removed\":[]}"@
}

/// `added` is the collection's list for `appids`: each appid (as stored)
/// once, ascending.
pub open spec fn collection_list(appids: Seq<u32>, added: Seq<i64>) -> bool {
    &&& strictly_sorted(added)
    &&& forall|x: i64| added.contains(x) <==> exists|i: int| 0 <= i < appids.len() && x == (#[trigger] appids[i]) as int
}

/// The previous version an existing record object carries.
pub open spec fn record_version<V>(m: Map<Seq<char>, FieldView<V>>) -> Option<u64> {
    if m.dom().contains("version"@) {
        match m["version"@] {
            FieldView::Text(s) => parse_u64(s),
            FieldView::Number(n) => Some(n),
            _ => None,
        }
    } else {
        None
    }
}

/// The next version after `prev` at `now` (see [`bump_version`]).
pub open spec fn next_version(prev: Option<u64>, now: u64) -> nat {
    match prev {
        Some(p) => if p + 1 > now {
            (p + 1) as nat
        } else {
            now as nat
        },
        None => now as nat,
    }
}

/// An existing collection record after a rebuild: new `value`, `timestamp`
/// and `version`, not deleted; every other key kept.
pub open spec fn refreshed_record<V>(m: Map<Seq<char>, FieldView<V>>, value: Seq<char>, now: u64) -> Map<
    Seq<char>,
    FieldView<V>,
> {
    m.insert("value"@, FieldView::Text(value)).insert("timestamp"@, FieldView::Number(now)).insert(
        "is_deleted"@,
        FieldView::Flag(false),
    ).insert("version"@, FieldView::Text(decimal(next_version(record_version(m), now))))
}

/// A new collection record, merged by Steam by union.
pub open spec fn new_record<V>(value: Seq<char>, now: u64) -> Map<Seq<char>, FieldView<V>> {
    Map::<Seq<char>, FieldView<V>>::empty().insert("key"@, FieldView::Text(spec_collection_key())).insert(
        "timestamp"@,
        FieldView::Number(now),
    ).insert("value"@, FieldView::Text(value)).insert("version"@, FieldView::Text(decimal(now as nat))).insert(
        "conflictResolutionMethod"@,
        FieldView::Text("custom"@),
    ).insert("strMethodId"@, FieldView::Text("union-collections"@)).insert("is_deleted"@, FieldView::Flag(false))
}

/// The index of the first record keyed `key`.
pub open spec fn is_first_key<V>(file: Seq<(String, JsonItem<V>)>, key: Seq<char>, k: int) -> bool {
    &&& 0 <= k < file.len()
    &&& file[k].0@ == key
    &&& forall|j: int| 0 <= j < k ==> (#[trigger] file[j]).0@ != key
}

/// The version of the collection record can still be bumped.
pub open spec fn version_bumpable<V>(file: Seq<(String, JsonItem<V>)>) -> bool {
    forall|k: int|
        #[trigger] is_first_key(file, spec_collection_key(), k) ==> (file[k].1 matches JsonItem::Object(e) ==> record_version(
            object_view(e@),
        ) != Some(u64::MAX))
}

/// Rebuild the "Spool" collection in Steam's collections namespace file (a
/// list of `(key, record)` pairs) from the managed appids: the first record
/// keyed `user-collections.spool-managed` gets the new `value`, `timestamp`
/// and `version` and is marked not deleted (a record that is not an object is
/// left alone); without one, a new record is appended. Every other record is
/// kept as it is.
pub fn upsert_spool_collection<V>(file: &mut Vec<(String, JsonItem<V>)>, appids: &Vec<u32>, now: u64)
    requires
        version_bumpable(old(file)@),
    ensures
        exists|added: Seq<i64>|
            #![trigger spec_collection_value(added)]
            collection_list(appids@, added) && {
                let value = spec_collection_value(added);
                let key = spec_collection_key();
                ||| exists|k: int|
                    #[trigger] is_first_key(old(file)@, key, k) && final(file)@.len() == old(file)@.len() && (forall|j: int|
                        0 <= j < old(file)@.len() && j != k ==> #[trigger] final(file)@[j] == old(file)@[j])
                        && final(file)@[k].0 == old(file)@[k].0 && (match old(file)@[k].1 {
                        JsonItem::Object(e0) => final(file)@[k].1 matches JsonItem::Object(e) && object_view(e@)
                            == refreshed_record(object_view(e0@), value, now),
                        JsonItem::Other(_) => final(file)@[k] == old(file)@[k],
                    })
                ||| (forall|j: int| 0 <= j < old(file)@.len() ==> (#[trigger] old(file)@[j]).0@ != key)
                    && final(file)@.drop_last() == old(file)@ && final(file)@.last().0@ == key
                    && (final(file)@.last().1 matches JsonItem::Object(e) && object_view(e@) == new_record::<V>(
                    value,
                    now,
                ))
            },
{
    let key = collection_key();
    let kc = chars_of(key.as_str());
    let added = sorted_unique_appids(appids);
    proof {
        assert forall|i: int| 0 <= i < added@.len() implies added@[i] >= 0 by {
            assert(added@.contains(added@[i]));
        }
    }
    let value = collection_value_json(&added);
    let ghost gv = value@;
    assert(gv == spec_collection_value(added@));
    let mut idx: usize = 0;
    let mut found = false;
    while idx < file.len() && !found
        invariant
            idx <= file.len(),
            kc@ == spec_collection_key(),
            found ==> idx < file.len() && file@[idx as int].0@ == spec_collection_key(),
            forall|j: int| 0 <= j < idx ==> (#[trigger] file@[j]).0@ != spec_collection_key(),
        decreases file.len() - idx + (if found { 0int } else { 1int }),
    {
        if eq_exec(&chars_of(file[idx].0.as_str()), &kc) {
            found = true;
        } else {
            idx += 1;
        }
    }
    let ghost before = file@;
    if found {
        assert(is_first_key(before, spec_collection_key(), idx as int));
        let (k, item) = file.remove(idx);
        match item {
            JsonItem::Object(e) => {
                let ghost m0 = object_view(e@);
                let prev = previous_version(get_field(&e, "version"));
                assert(prev == record_version(m0));
                let next = bump_version(prev, now);
                let e1 = set_field(e, "value", JsonField::Text(value));
                let e2 = set_field(e1, "timestamp", JsonField::Number(now));
                let e3 = set_field(e2, "is_deleted", JsonField::Flag(false));
                let e4 = set_field(e3, "version", JsonField::Text(string_of(&decimal_exec(next))));
                assert(object_view(e4@) == refreshed_record(m0, gv, now));
                file.insert(idx, (k, JsonItem::Object(e4)));
            },
            JsonItem::Other(v) => {
                file.insert(idx, (k, JsonItem::Other(v)));
            },
        }
        assert(forall|j: int| 0 <= j < before.len() && j != idx ==> #[trigger] file@[j] == before[j]);
    } else {
        let e0: Vec<(String, JsonField<V>)> = Vec::new();
        assert(object_view(e0@) =~= Map::<Seq<char>, FieldView<V>>::empty());
        let e1 = set_field(e0, "key", JsonField::Text(string_of(&kc)));
        let e2 = set_field(e1, "timestamp", JsonField::Number(now));
        let e3 = set_field(e2, "value", JsonField::Text(value));
        let e4 = set_field(e3, "version", JsonField::Text(string_of(&decimal_exec(now))));
        let e5 = set_field(e4, "conflictResolutionMethod", JsonField::Text(string_of(&chars_of("custom"))));
        let e6 = set_field(e5, "strMethodId", JsonField::Text(string_of(&chars_of("union-collections"))));
        let e7 = set_field(e6, "is_deleted", JsonField::Flag(false));
        assert(object_view(e7@) == new_record::<V>(gv, now));
        file.push((key, JsonItem::Object(e7)));
        assert(file@.drop_last() =~= before);
    }
}

} // verus!
