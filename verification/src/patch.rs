//! The edits that the installer makes to Unity's JSON lists.
//!
//! Both edits only append, and are idempotent: a document that one of them
//! has updated is left as it is by a second pass.
use vstd::prelude::*;

use crate::json::{
    array_member, fields_view, find_member, lemma_keys_after_update, first_key_at, field_index, lemma_field_index, lemma_field_index_present, items_view, json_view, lemma_fields_view, lemma_items_view, member,
    with_array_member, Json, JsonV,
};
use crate::layout::{managed_dll_name, managed_dll_names, HARMONY_DLL, MANAGED_DLL_COUNT, MODLOADER_DLL};

verus! {

/// Member of `ScriptingAssemblies.json` that lists assembly names.
pub const NAMES_KEY: &'static str = "names";

/// Member of `ScriptingAssemblies.json` that lists assembly types, one per name.
pub const TYPES_KEY: &'static str = "types";

/// Member of `RuntimeInitializeOnLoads.json` that lists start-up methods.
pub const ROOT_KEY: &'static str = "root";

/// Assembly type of a managed assembly that is not a Unity module (those are 2).
pub const ASSEMBLY_TYPE_MANAGED: &'static str = "16";

/// What an edit did to a document.
#[derive(Debug)]
pub enum PatchOutcome {
    /// The document already holds what the edit adds; it is not to be written.
    AlreadyPresent,
    /// The edited document, and the assembly names that were added to it.
    Updated { doc: Json, added: Vec<String> },
    /// The document has no array member of this name.
    MissingArray(String),
}

pub enum PatchOutcomeV {
    AlreadyPresent,
    Updated { doc: JsonV, added: Seq<Seq<char>> },
    MissingArray(Seq<char>),
}

pub open spec fn strings_view(v: Seq<String>) -> Seq<Seq<char>> {
    v.map_values(|s: String| s@)
}

impl View for PatchOutcome {
    type V = PatchOutcomeV;

    open spec fn view(&self) -> PatchOutcomeV {
        match self {
            PatchOutcome::AlreadyPresent => PatchOutcomeV::AlreadyPresent,
            PatchOutcome::Updated { doc, added } => PatchOutcomeV::Updated {
                doc: doc@,
                added: strings_view(added@),
            },
            PatchOutcome::MissingArray(key) => PatchOutcomeV::MissingArray(key@),
        }
    }
}

/// `items` holds the string `name`.
pub open spec fn lists_name(items: Seq<JsonV>, name: Seq<char>) -> bool {
    exists|k: int| 0 <= k < items.len() && items[k] == JsonV::Str(name)
}

/// The names among `names` that `items` does not hold, in order.
pub open spec fn missing_names(names: Seq<Seq<char>>, items: Seq<JsonV>) -> Seq<Seq<char>>
    decreases names.len(),
{
    if names.len() == 0 {
        Seq::empty()
    } else {
        let rest = missing_names(names.drop_last(), items);
        if lists_name(items, names.last()) {
            rest
        } else {
            rest.push(names.last())
        }
    }
}

/// The strings `names`, as JSON values.
pub open spec fn str_items(names: Seq<Seq<char>>) -> Seq<JsonV> {
    names.map_values(|n: Seq<char>| JsonV::Str(n))
}

/// `n` copies of the managed assembly type.
pub open spec fn managed_type_items(n: nat) -> Seq<JsonV> {
    Seq::new(n, |i: int| JsonV::Number(ASSEMBLY_TYPE_MANAGED@))
}

/// The edit of `ScriptingAssemblies.json`: the managed assemblies that
/// `names` lacks are appended to it, each with the managed type appended to
/// `types`.
pub open spec fn scripting_assemblies_patch(doc: JsonV) -> PatchOutcomeV {
    match array_member(doc, NAMES_KEY@) {
        None => PatchOutcomeV::MissingArray(NAMES_KEY@),
        Some(names) => {
            let added = missing_names(managed_dll_names(), names);
            if added.len() == 0 {
                PatchOutcomeV::AlreadyPresent
            } else {
                match array_member(doc, TYPES_KEY@) {
                    None => PatchOutcomeV::MissingArray(TYPES_KEY@),
                    Some(types) => PatchOutcomeV::Updated {
                        doc: with_array_member(
                            with_array_member(doc, NAMES_KEY@, names + str_items(added)),
                            TYPES_KEY@,
                            types + managed_type_items(added.len()),
                        ),
                        added,
                    },
                }
            }
        },
    }
}

/// The entry that makes Unity call `ModLoader.Core.Start` at start-up, with
/// its members in the order that a parsed object has them (by key).
pub open spec fn modloader_entry_view() -> JsonV {
    JsonV::Object(
        seq![
            ("assemblyName"@, JsonV::Str("ModLoader"@)),
            ("className"@, JsonV::Str("Core"@)),
            ("isUnityClass"@, JsonV::Bool(false)),
            ("loadTypes"@, JsonV::Number("0"@)),
            ("methodName"@, JsonV::Str("Start"@)),
            ("nameSpace"@, JsonV::Str("ModLoader"@)),
        ],
    )
}

/// `v` is an entry for `ModLoader.Core.Start`, whatever else it holds.
pub open spec fn is_modloader_entry_spec(v: JsonV) -> bool {
    &&& member(v, "assemblyName"@) == Some(JsonV::Str("ModLoader"@))
    &&& member(v, "className"@) == Some(JsonV::Str("Core"@))
    &&& member(v, "methodName"@) == Some(JsonV::Str("Start"@))
}

/// Some entry of `entries` is an entry for `ModLoader.Core.Start`.
pub open spec fn has_modloader_entry(entries: Seq<JsonV>) -> bool {
    exists|k: int| 0 <= k < entries.len() && is_modloader_entry_spec(entries[k])
}

/// The edit of `RuntimeInitializeOnLoads.json`: the mod loader's entry is
/// appended to `root` unless `root` already has one.
pub open spec fn runtime_init_patch(doc: JsonV) -> PatchOutcomeV {
    match array_member(doc, ROOT_KEY@) {
        None => PatchOutcomeV::MissingArray(ROOT_KEY@),
        Some(entries) => if has_modloader_entry(entries) {
            PatchOutcomeV::AlreadyPresent
        } else {
            PatchOutcomeV::Updated {
                doc: with_array_member(doc, ROOT_KEY@, entries.push(modloader_entry_view())),
                added: Seq::empty(),
            }
        },
    }
}

proof fn lemma_fields_view_update(s: Seq<(String, Json)>, i: int, x: (String, Json))
    requires
        0 <= i < s.len(),
    ensures
        fields_view(s.update(i, x)) == fields_view(s).update(i, (x.0@, json_view(x.1))),
{
    lemma_fields_view(s);
    lemma_fields_view(s.update(i, x));
    assert(fields_view(s.update(i, x)) =~= fields_view(s).update(i, (x.0@, json_view(x.1))));
}

proof fn lemma_items_view_append(s: Seq<Json>, t: Seq<Json>)
    ensures
        items_view(s + t) == items_view(s) + items_view(t),
{
    lemma_items_view(s);
    lemma_items_view(t);
    lemma_items_view(s + t);
    assert(items_view(s + t) =~= items_view(s) + items_view(t));
}

/// Whether `items` holds the string `name`.
fn lists_str(items: &Vec<Json>, name: &String) -> (r: bool)
    ensures
        r == lists_name(items_view(items@), name@),
{
    proof {
        lemma_items_view(items@);
    }
    let ghost iv = items_view(items@);
    let mut k: usize = 0;
    while k < items.len()
        invariant
            k <= items.len(),
            iv == items_view(items@),
            iv.len() == items@.len(),
            forall|j: int| 0 <= j < items@.len() ==> #[trigger] iv[j] == json_view(items@[j]),
            forall|j: int| 0 <= j < k ==> iv[j] != JsonV::Str(name@),
        decreases items.len() - k,
    {
        match &items[k] {
            Json::Str(s) => {
                if *s == *name {
                    assert(iv[k as int] == JsonV::Str(name@));
                    return true;
                }
            },
            _ => {},
        }
        k = k + 1;
    }
    false
}


/// The managed assemblies that `items` does not list, in order.
fn missing_dll_names(items: &Vec<Json>) -> (r: Vec<String>)
    ensures
        strings_view(r@) == missing_names(managed_dll_names(), items_view(items@)),
{
    let ghost iv = items_view(items@);
    let mut r: Vec<String> = Vec::new();
    let mut i: usize = 0;
    assert(managed_dll_names().take(0) =~= Seq::<Seq<char>>::empty());
    assert(strings_view(r@) =~= Seq::<Seq<char>>::empty());
    while i < MANAGED_DLL_COUNT
        invariant
            i <= MANAGED_DLL_COUNT,
            iv == items_view(items@),
            strings_view(r@) == missing_names(managed_dll_names().take(i as int), iv),
        decreases MANAGED_DLL_COUNT - i,
    {
        let name = String::from_str(managed_dll_name(i));
        let ghost before = r@;
        let listed = lists_str(items, &name);
        if !listed {
            r.push(name);
            assert(strings_view(r@) =~= strings_view(before).push(name@));
        }
        assert(managed_dll_names().take(i + 1).drop_last() =~= managed_dll_names().take(i as int));
        i = i + 1;
    }
    assert(managed_dll_names().take(MANAGED_DLL_COUNT as int) =~= managed_dll_names());
    r
}

/// Adds the managed assemblies that `names` lacks to `ScriptingAssemblies.json`,
/// each with the managed type in `types`.
pub fn patch_scripting_assemblies(doc: Json) -> (r: PatchOutcome)
    ensures
        r@ == scripting_assemblies_patch(doc@),
{
    let names_key = String::from_str(NAMES_KEY);
    let types_key = String::from_str(TYPES_KEY);
    proof {
        reveal_strlit("names");
        reveal_strlit("types");
    }
    match doc {
        Json::Object(mut fields) => {
            let ghost fv = fields_view(fields@);
            proof {
                lemma_fields_view(fields@);
            }
            let ni = match find_member(&fields, &names_key) {
                Some(i) => i,
                None => {
                    return PatchOutcome::MissingArray(names_key);
                },
            };
            let added = match &fields[ni].1 {
                Json::Array(items) => missing_dll_names(items),
                _ => {
                    return PatchOutcome::MissingArray(names_key);
                },
            };
            if added.len() == 0 {
                return PatchOutcome::AlreadyPresent;
            }
            let ti = match find_member(&fields, &types_key) {
                Some(i) => i,
                None => {
                    return PatchOutcome::MissingArray(types_key);
                },
            };
            match &fields[ti].1 {
                Json::Array(_) => {},
                _ => {
                    return PatchOutcome::MissingArray(types_key);
                },
            }
            assert(NAMES_KEY@[0] != TYPES_KEY@[0]);
            assert(ni != ti);
            let ghost old_fields = fields@;
            let ghost old_names = items_view(old_fields[ni as int].1->Array_0@);
            let ghost old_types = items_view(old_fields[ti as int].1->Array_0@);
            // Append the missing names to `names`.
            let (nk, nv) = fields.remove(ni);
            let new_names = match nv {
                Json::Array(mut items) => {
                    let ghost start = items@;
                    let mut k: usize = 0;
                    while k < added.len()
                        invariant
                            k <= added.len(),
                            items@ == start + added@.take(k as int).map_values(|n: String| Json::Str(n)),
                        decreases added.len() - k,
                    {
                        items.push(Json::Str(added[k].clone()));
                        assert(added@.take(k + 1) =~= added@.take(k as int).push(added@[k as int]));
                        assert(items@ =~= start + added@.take(k + 1).map_values(|n: String| Json::Str(n)));
                        k = k + 1;
                    }
                    proof {
                        let tail = added@.map_values(|n: String| Json::Str(n));
                        assert(added@.take(added@.len() as int) =~= added@);
                        lemma_items_view_append(start, tail);
                        lemma_items_view(tail);
                        assert(items_view(tail) =~= str_items(strings_view(added@)));
                    }
                    Json::Array(items)
                },
                // Not reached: the member was found to be an array above.
                other => other,
            };
            fields.insert(ni, (nk, new_names));
            assert(fields@ =~= old_fields.update(ni as int, (nk, new_names)));
            // Append as many managed types to `types`.
            let ghost mid_fields = fields@;
            let (tk, tv) = fields.remove(ti);
            let new_types = match tv {
                Json::Array(mut items) => {
                    let ghost start = items@;
                    let mut k: usize = 0;
                    while k < added.len()
                        invariant
                            k <= added.len(),
                            items@.len() == start.len() + k,
                            forall|j: int| 0 <= j < start.len() ==> items@[j] == start[j],
                            forall|j: int| start.len() <= j < items@.len() ==> (#[trigger] items@[j] is Number
                                && items@[j]->Number_0@ == ASSEMBLY_TYPE_MANAGED@),
                        decreases added.len() - k,
                    {
                        items.push(Json::Number(String::from_str(ASSEMBLY_TYPE_MANAGED)));
                        k = k + 1;
                    }
                    proof {
                        lemma_items_view(start);
                        lemma_items_view(items@);
                        assert(items_view(items@) =~= items_view(start) + managed_type_items(added@.len()));
                    }
                    Json::Array(items)
                },
                // Not reached: the member was found to be an array above.
                other => other,
            };
            fields.insert(ti, (tk, new_types));
            assert(fields@ =~= mid_fields.update(ti as int, (tk, new_types)));
            proof {
                lemma_fields_view_update(old_fields, ni as int, (nk, new_names));
                lemma_fields_view_update(mid_fields, ti as int, (tk, new_types));
                let fv1 = fields_view(mid_fields);
                lemma_keys_after_update(fv, ni as int, json_view(new_names), TYPES_KEY@);
                assert(fv1 == fv.update(ni as int, (fv[ni as int].0, json_view(new_names))));
                assert(json_view(new_names) == JsonV::Array(old_names + str_items(strings_view(added@))));
                assert(json_view(new_types) == JsonV::Array(old_types + managed_type_items(added@.len())));
            }
            PatchOutcome::Updated { doc: Json::Object(fields), added }
        },
        _ => PatchOutcome::MissingArray(names_key),
    }
}

/// Builds a string member of an object.
fn str_field(key: &str, value: &str) -> (r: (String, Json))
    ensures
        r.0@ == key@,
        json_view(r.1) == JsonV::Str(value@),
{
    (String::from_str(key), Json::Str(String::from_str(value)))
}

/// The entry that makes Unity call `ModLoader.Core.Start` at start-up.
pub fn modloader_init_entry() -> (r: Json)
    ensures
        r@ == modloader_entry_view(),
{
    let mut fields: Vec<(String, Json)> = Vec::new();
    fields.push(str_field("assemblyName", "ModLoader"));
    fields.push(str_field("className", "Core"));
    fields.push((String::from_str("isUnityClass"), Json::Bool(false)));
    fields.push((String::from_str("loadTypes"), Json::Number(String::from_str("0"))));
    fields.push(str_field("methodName", "Start"));
    fields.push(str_field("nameSpace", "ModLoader"));
    proof {
        lemma_fields_view(fields@);
        match modloader_entry_view() {
            JsonV::Object(expected) => {
                assert(fields_view(fields@) =~= expected);
            },
            _ => {},
        }
    }
    Json::Object(fields)
}

/// Whether the member `key` of the object `fields` is the string `value`.
fn member_is_str(fields: &Vec<(String, Json)>, key: &str, value: &str) -> (r: bool)
    ensures
        r == (member(JsonV::Object(fields_view(fields@)), key@) == Some(JsonV::Str(value@))),
{
    let key_s = String::from_str(key);
    let value_s = String::from_str(value);
    proof {
        lemma_fields_view(fields@);
    }
    match find_member(fields, &key_s) {
        Some(i) => match &fields[i].1 {
            Json::Str(s) => *s == value_s,
            _ => false,
        },
        None => false,
    }
}

/// Whether `v` is an entry for `ModLoader.Core.Start`.
pub fn is_modloader_entry(v: &Json) -> (r: bool)
    ensures
        r == is_modloader_entry_spec(v@),
{
    match v {
        Json::Object(fields) => member_is_str(fields, "assemblyName", "ModLoader") && member_is_str(
            fields,
            "className",
            "Core",
        ) && member_is_str(fields, "methodName", "Start"),
        _ => false,
    }
}

/// Whether some entry of `entries` is an entry for `ModLoader.Core.Start`.
fn any_modloader_entry(entries: &Vec<Json>) -> (r: bool)
    ensures
        r == has_modloader_entry(items_view(entries@)),
{
    proof {
        lemma_items_view(entries@);
    }
    let ghost ev = items_view(entries@);
    let mut k: usize = 0;
    while k < entries.len()
        invariant
            k <= entries.len(),
            ev == items_view(entries@),
            ev.len() == entries@.len(),
            forall|j: int| 0 <= j < entries@.len() ==> #[trigger] ev[j] == json_view(entries@[j]),
            forall|j: int| 0 <= j < k ==> !is_modloader_entry_spec(#[trigger] ev[j]),
        decreases entries.len() - k,
    {
        if is_modloader_entry(&entries[k]) {
            assert(is_modloader_entry_spec(ev[k as int]));
            return true;
        }
        k = k + 1;
    }
    false
}

/// Registers `ModLoader.Core.Start` in the `root` array of
/// `RuntimeInitializeOnLoads.json`, unless it is there already.
pub fn patch_runtime_init(doc: Json) -> (r: PatchOutcome)
    ensures
        r@ == runtime_init_patch(doc@),
{
    let root_key = String::from_str(ROOT_KEY);
    match doc {
        Json::Object(mut fields) => {
            let ghost fv = fields_view(fields@);
            proof {
                lemma_fields_view(fields@);
            }
            let ri = match find_member(&fields, &root_key) {
                Some(i) => i,
                None => {
                    return PatchOutcome::MissingArray(root_key);
                },
            };
            let present = match &fields[ri].1 {
                Json::Array(entries) => any_modloader_entry(entries),
                _ => {
                    return PatchOutcome::MissingArray(root_key);
                },
            };
            if present {
                return PatchOutcome::AlreadyPresent;
            }
            let ghost old_fields = fields@;
            let ghost old_entries = items_view(old_fields[ri as int].1->Array_0@);
            let (rk, rv) = fields.remove(ri);
            let new_root = match rv {
                Json::Array(mut entries) => {
                    let ghost start = entries@;
                    let entry = modloader_init_entry();
                    entries.push(entry);
                    proof {
                        lemma_items_view(start);
                        lemma_items_view(entries@);
                        assert(items_view(entries@) =~= items_view(start).push(modloader_entry_view()));
                    }
                    Json::Array(entries)
                },
                // Not reached: the member was found to be an array above.
                other => other,
            };
            fields.insert(ri, (rk, new_root));
            assert(fields@ =~= old_fields.update(ri as int, (rk, new_root)));
            proof {
                lemma_fields_view_update(old_fields, ri as int, (rk, new_root));
                assert(json_view(new_root) == JsonV::Array(old_entries.push(modloader_entry_view())));
            }
            let added: Vec<String> = Vec::new();
            assert(strings_view(added@) =~= Seq::<Seq<char>>::empty());
            PatchOutcome::Updated { doc: Json::Object(fields), added }
        },
        _ => PatchOutcome::MissingArray(root_key),
    }
}

/// The document that results from an edit: the edited one, or the one given.
pub open spec fn patched_doc(doc: JsonV) -> JsonV {
    match scripting_assemblies_patch(doc) {
        PatchOutcomeV::Updated { doc: d2, .. } => d2,
        _ => doc,
    }
}

proof fn lemma_missing_names(names: Seq<Seq<char>>, items: Seq<JsonV>)
    ensures
        forall|x: Seq<char>|
            #[trigger] missing_names(names, items).contains(x) <==> (names.contains(x) && !lists_name(
                items,
                x,
            )),
        names.no_duplicates() ==> missing_names(names, items).no_duplicates(),
    decreases names.len(),
{
    if names.len() > 0 {
        let init = names.drop_last();
        lemma_missing_names(init, items);
        let rest = missing_names(init, items);
        assert forall|x: Seq<char>| names.contains(x) <==> (init.contains(x) || x == names.last()) by {
            if names.contains(x) {
                let k = choose|k: int| 0 <= k < names.len() && names[k] == x;
                if k < names.len() - 1 {
                    assert(init[k] == x);
                }
            }
            if init.contains(x) {
                let k = choose|k: int| 0 <= k < init.len() && init[k] == x;
                assert(names[k] == x);
            }
            if x == names.last() {
                assert(names[names.len() - 1] == x);
            }
        }
        if !lists_name(items, names.last()) {
            let r = rest.push(names.last());
            assert forall|x: Seq<char>| r.contains(x) <==> (rest.contains(x) || x == names.last()) by {
                if r.contains(x) {
                    let k = choose|k: int| 0 <= k < r.len() && r[k] == x;
                    if k < rest.len() {
                        assert(rest[k] == x);
                    }
                }
                if rest.contains(x) {
                    let k = choose|k: int| 0 <= k < rest.len() && rest[k] == x;
                    assert(r[k] == x);
                }
                if x == names.last() {
                    assert(r[r.len() - 1] == x);
                }
            }
            if names.no_duplicates() {
                assert(init.no_duplicates()) by {
                    assert forall|i: int, j: int| 0 <= i < init.len() && 0 <= j < init.len() && i != j implies init[i] != init[j] by {
                        assert(init[i] == names[i] && init[j] == names[j]);
                    }
                }
                assert(!init.contains(names.last())) by {
                    if init.contains(names.last()) {
                        let k = choose|k: int| 0 <= k < init.len() && init[k] == names.last();
                        assert(names[k] == names[names.len() - 1]);
                    }
                }
                assert forall|i: int, j: int| 0 <= i < r.len() && 0 <= j < r.len() && i != j implies r[i] != r[j] by {
                    if i < rest.len() && j < rest.len() {
                        assert(r[i] == rest[i] && r[j] == rest[j]);
                    } else if i < rest.len() {
                        assert(rest.contains(r[i]));
                    } else {
                        assert(rest.contains(r[j]));
                    }
                }
            }
        } else {
            if names.no_duplicates() {
                assert(init.no_duplicates()) by {
                    assert forall|i: int, j: int| 0 <= i < init.len() && 0 <= j < init.len() && i != j implies init[i] != init[j] by {
                        assert(init[i] == names[i] && init[j] == names[j]);
                    }
                }
            }
        }
    }
}

proof fn lemma_managed_dll_names_distinct()
    ensures
        managed_dll_names().no_duplicates(),
        managed_dll_names().len() == 2,
{
    reveal_strlit("ModLoader.dll");
    reveal_strlit("!_0Harmony.dll");
    assert(MODLOADER_DLL@[0] != HARMONY_DLL@[0]);
}

/// The members that the edit of `ScriptingAssemblies.json` touches, and
/// where they stand.
proof fn lemma_scripting_assemblies_layout(doc: JsonV)
    requires
        scripting_assemblies_patch(doc) is Updated,
    ensures
        doc is Object,
        ({
            let fields = doc->Object_0;
            let ni = field_index(fields, NAMES_KEY@);
            let ti = field_index(fields, TYPES_KEY@);
            let names = array_member(doc, NAMES_KEY@).unwrap();
            let types = array_member(doc, TYPES_KEY@).unwrap();
            let added = missing_names(managed_dll_names(), names);
            let f2 = patched_doc(doc)->Object_0;
            &&& first_key_at(fields, NAMES_KEY@, ni)
            &&& first_key_at(fields, TYPES_KEY@, ti)
            &&& ni != ti
            &&& patched_doc(doc) is Object
            &&& f2.len() == fields.len()
            &&& f2[ni] == (NAMES_KEY@, JsonV::Array(names + str_items(added)))
            &&& f2[ti] == (TYPES_KEY@, JsonV::Array(types + managed_type_items(added.len())))
            &&& forall|j: int| 0 <= j < fields.len() && j != ni && j != ti ==> f2[j] == fields[j]
            &&& array_member(patched_doc(doc), NAMES_KEY@) == Some(names + str_items(added))
            &&& array_member(patched_doc(doc), TYPES_KEY@) == Some(
                types + managed_type_items(added.len()),
            )
        }),
{
    reveal_strlit("names");
    reveal_strlit("types");
    assert(NAMES_KEY@[0] != TYPES_KEY@[0]);
    let fields = doc->Object_0;
    let ni = field_index(fields, NAMES_KEY@);
    let ti = field_index(fields, TYPES_KEY@);
    let names = array_member(doc, NAMES_KEY@).unwrap();
    let types = array_member(doc, TYPES_KEY@).unwrap();
    let added = missing_names(managed_dll_names(), names);
    assert(exists|i: int| 0 <= i < fields.len() && fields[i].0 == NAMES_KEY@);
    assert(exists|i: int| 0 <= i < fields.len() && fields[i].0 == TYPES_KEY@);
    lemma_field_index_present(fields, NAMES_KEY@);
    lemma_field_index_present(fields, TYPES_KEY@);
    let nv = JsonV::Array(names + str_items(added));
    let tv = JsonV::Array(types + managed_type_items(added.len()));
    let f1 = fields.update(ni, (NAMES_KEY@, nv));
    lemma_keys_after_update(fields, ni, nv, TYPES_KEY@);
    lemma_keys_after_update(fields, ni, nv, NAMES_KEY@);
    let f2 = f1.update(ti, (TYPES_KEY@, tv));
    lemma_keys_after_update(f1, ti, tv, NAMES_KEY@);
    lemma_keys_after_update(f1, ti, tv, TYPES_KEY@);
    assert(patched_doc(doc) == JsonV::Object(f2));
}

/// Patching `ScriptingAssemblies.json` a second time changes nothing: the
/// installer can be run again without listing an assembly twice.
pub proof fn law_scripting_assemblies_idempotent(doc: JsonV)
    ensures
        scripting_assemblies_patch(doc) is Updated ==> scripting_assemblies_patch(patched_doc(doc))
            == PatchOutcomeV::AlreadyPresent,
{
    if scripting_assemblies_patch(doc) is Updated {
        lemma_scripting_assemblies_layout(doc);
        law_scripting_assemblies_lists_every_dll(doc);
        let d2 = patched_doc(doc);
        let new_names = array_member(d2, NAMES_KEY@).unwrap();
        lemma_missing_names(managed_dll_names(), new_names);
        let m = missing_names(managed_dll_names(), new_names);
        if m.len() > 0 {
            assert(m.contains(m[0]));
        }
    }
}

/// Unless a member is missing, after the edit of `ScriptingAssemblies.json`
/// its `names` list every managed assembly.
pub proof fn law_scripting_assemblies_lists_every_dll(doc: JsonV)
    ensures
        !(scripting_assemblies_patch(doc) is MissingArray) ==> forall|n: Seq<char>|
            #[trigger] managed_dll_names().contains(n) ==> lists_name(
                array_member(patched_doc(doc), NAMES_KEY@).unwrap(),
                n,
            ),
{
    if !(scripting_assemblies_patch(doc) is MissingArray) {
        let names = array_member(doc, NAMES_KEY@).unwrap();
        let added = missing_names(managed_dll_names(), names);
        lemma_missing_names(managed_dll_names(), names);
        if scripting_assemblies_patch(doc) is Updated {
            lemma_scripting_assemblies_layout(doc);
            let new_names = names + str_items(added);
            assert forall|n: Seq<char>| #[trigger] managed_dll_names().contains(n) implies lists_name(new_names, n) by {
                if lists_name(names, n) {
                    let k = choose|k: int| 0 <= k < names.len() && names[k] == JsonV::Str(n);
                    assert(new_names[k] == JsonV::Str(n));
                } else {
                    assert(added.contains(n));
                    let k = choose|k: int| 0 <= k < added.len() && added[k] == n;
                    assert(new_names[names.len() + k] == JsonV::Str(n));
                }
            }
        } else {
            assert forall|n: Seq<char>| #[trigger] managed_dll_names().contains(n) implies lists_name(names, n) by {
                if !lists_name(names, n) {
                    assert(added.contains(n));
                }
            }
        }
    }
}

/// The edit of `ScriptingAssemblies.json` adds each managed assembly at most
/// once, and only one that `names` did not list.
pub proof fn law_scripting_assemblies_adds_only_missing(doc: JsonV)
    ensures
        scripting_assemblies_patch(doc) matches PatchOutcomeV::Updated { added, .. } ==> {
            &&& added.no_duplicates()
            &&& forall|k: int|
                0 <= k < added.len() ==> managed_dll_names().contains(#[trigger] added[k])
                    && !lists_name(array_member(doc, NAMES_KEY@).unwrap(), added[k])
        },
{
    if scripting_assemblies_patch(doc) is Updated {
        let names = array_member(doc, NAMES_KEY@).unwrap();
        let added = missing_names(managed_dll_names(), names);
        lemma_managed_dll_names_distinct();
        lemma_missing_names(managed_dll_names(), names);
        assert forall|k: int| 0 <= k < added.len() implies managed_dll_names().contains(#[trigger] added[k])
            && !lists_name(names, added[k]) by {
            assert(added.contains(added[k]));
        }
    }
}

/// The edit of `ScriptingAssemblies.json` only appends: the members other
/// than `names` and `types` are left as they were, the old lists stand first
/// in the new ones, and as many types are added as names, so that lists of
/// equal length stay of equal length.
pub proof fn law_scripting_assemblies_appends_only(doc: JsonV)
    ensures
        scripting_assemblies_patch(doc) is Updated ==> {
            let fields = doc->Object_0;
            let f2 = patched_doc(doc)->Object_0;
            let names = array_member(doc, NAMES_KEY@).unwrap();
            let types = array_member(doc, TYPES_KEY@).unwrap();
            let names2 = array_member(patched_doc(doc), NAMES_KEY@).unwrap();
            let types2 = array_member(patched_doc(doc), TYPES_KEY@).unwrap();
            &&& f2.len() == fields.len()
            &&& forall|j: int|
                0 <= j < fields.len() ==> (#[trigger] f2[j]).0 == fields[j].0 && (fields[j].0
                    != NAMES_KEY@ && fields[j].0 != TYPES_KEY@ ==> f2[j] == fields[j])
            &&& names2.take(names.len() as int) == names
            &&& types2.take(types.len() as int) == types
            &&& names2.len() - names.len() == types2.len() - types.len()
        },
{
    if scripting_assemblies_patch(doc) is Updated {
        lemma_scripting_assemblies_layout(doc);
        let fields = doc->Object_0;
        let names = array_member(doc, NAMES_KEY@).unwrap();
        let types = array_member(doc, TYPES_KEY@).unwrap();
        let added = missing_names(managed_dll_names(), names);
        assert((names + str_items(added)).take(names.len() as int) =~= names);
        assert((types + managed_type_items(added.len())).take(types.len() as int) =~= types);
        let ni = field_index(fields, NAMES_KEY@);
        let ti = field_index(fields, TYPES_KEY@);
        let f2 = patched_doc(doc)->Object_0;
        assert forall|j: int| 0 <= j < fields.len() implies (#[trigger] f2[j]).0 == fields[j].0 && (
        fields[j].0 != NAMES_KEY@ && fields[j].0 != TYPES_KEY@ ==> f2[j] == fields[j]) by {
            if j != ni && j != ti {
                assert(f2[j] == fields[j]);
            }
        }
    }
}

/// The entry built for `ModLoader.Core.Start` is recognised as one.
pub proof fn lemma_modloader_entry_is_entry()
    ensures
        is_modloader_entry_spec(modloader_entry_view()),
{
    reveal_strlit("assemblyName");
    reveal_strlit("className");
    reveal_strlit("isUnityClass");
    reveal_strlit("loadTypes");
    reveal_strlit("methodName");
    let f = modloader_entry_view()->Object_0;
    assert(first_key_at(f, "assemblyName"@, 0));
    lemma_field_index(f, "assemblyName"@, 0);
    assert(f[0].0[0] != "className"@[0]);
    assert(first_key_at(f, "className"@, 1));
    lemma_field_index(f, "className"@, 1);
    assert(f[0].0[0] != "methodName"@[0]);
    assert(f[1].0[0] != "methodName"@[0]);
    assert(f[2].0[0] != "methodName"@[0]);
    assert(f[3].0[0] != "methodName"@[0]);
    assert(first_key_at(f, "methodName"@, 4));
    lemma_field_index(f, "methodName"@, 4);
}

proof fn lemma_runtime_init_layout(doc: JsonV)
    requires
        runtime_init_patch(doc) is Updated,
    ensures
        ({
            let entries = array_member(doc, ROOT_KEY@).unwrap();
            let d2 = runtime_init_patch(doc)->Updated_doc;
            array_member(d2, ROOT_KEY@) == Some(entries.push(modloader_entry_view()))
        }),
{
    let fields = doc->Object_0;
    let entries = array_member(doc, ROOT_KEY@).unwrap();
    assert(exists|i: int| 0 <= i < fields.len() && fields[i].0 == ROOT_KEY@);
    lemma_field_index_present(fields, ROOT_KEY@);
    let ri = field_index(fields, ROOT_KEY@);
    lemma_keys_after_update(
        fields,
        ri,
        JsonV::Array(entries.push(modloader_entry_view())),
        ROOT_KEY@,
    );
}

/// Registering the mod loader a second time changes nothing.
pub proof fn law_runtime_init_idempotent(doc: JsonV)
    ensures
        runtime_init_patch(doc) matches PatchOutcomeV::Updated { doc: d2, .. } ==> runtime_init_patch(
            d2,
        ) == PatchOutcomeV::AlreadyPresent,
{
    if runtime_init_patch(doc) is Updated {
        lemma_runtime_init_layout(doc);
        lemma_modloader_entry_is_entry();
        let entries = array_member(doc, ROOT_KEY@).unwrap();
        let e2 = entries.push(modloader_entry_view());
        assert(is_modloader_entry_spec(e2[entries.len() as int]));
    }
}

/// After the mod loader has been registered, `root` holds the entries it held,
/// followed by exactly one entry for `ModLoader.Core.Start`.
pub proof fn law_runtime_init_single_entry(doc: JsonV)
    ensures
        runtime_init_patch(doc) matches PatchOutcomeV::Updated { doc: d2, .. } ==> {
            let entries = array_member(doc, ROOT_KEY@).unwrap();
            let entries2 = array_member(d2, ROOT_KEY@).unwrap();
            &&& entries2.len() == entries.len() + 1
            &&& entries2.take(entries.len() as int) == entries
            &&& forall|k: int|
                0 <= k < entries2.len() ==> (is_modloader_entry_spec(#[trigger] entries2[k]) <==> k
                    == entries.len())
        },
{
    if runtime_init_patch(doc) is Updated {
        lemma_runtime_init_layout(doc);
        lemma_modloader_entry_is_entry();
        let entries = array_member(doc, ROOT_KEY@).unwrap();
        let e2 = entries.push(modloader_entry_view());
        assert(e2.take(entries.len() as int) =~= entries);
        assert forall|k: int| 0 <= k < e2.len() implies (is_modloader_entry_spec(#[trigger] e2[k]) <==> k
            == entries.len()) by {
            if k < entries.len() {
                assert(e2[k] == entries[k]);
                if is_modloader_entry_spec(entries[k]) {
                    assert(has_modloader_entry(entries));
                }
            }
        }
    }
}

/// The edit of `RuntimeInitializeOnLoads.json` leaves a document as it is
/// exactly when its `root` array already has an entry whose `assemblyName`,
/// `className` and `methodName` are `ModLoader`, `Core` and `Start`; with a
/// `root` array and no such entry, it registers one; without a `root` array
/// it reports the member missing.
pub proof fn law_runtime_init_registers_entry(doc: JsonV)
    ensures
        array_member(doc, "root"@) matches Some(entries) ==> (runtime_init_patch(doc) is AlreadyPresent
            <==> exists|k: int|
            0 <= k < entries.len() && #[trigger] member(entries[k], "assemblyName"@) == Some(
                JsonV::Str("ModLoader"@),
            ) && member(entries[k], "className"@) == Some(JsonV::Str("Core"@)) && member(
                entries[k],
                "methodName"@,
            ) == Some(JsonV::Str("Start"@))),
        array_member(doc, "root"@) is Some ==> !(runtime_init_patch(doc) is MissingArray),
        array_member(doc, "root"@) is None ==> runtime_init_patch(doc) == PatchOutcomeV::MissingArray(
            "root"@,
        ),
{
    assert(ROOT_KEY@ == "root"@);
    if array_member(doc, "root"@) is Some {
        let entries = array_member(doc, "root"@).unwrap();
        if has_modloader_entry(entries) {
            let k = choose|k: int| 0 <= k < entries.len() && is_modloader_entry_spec(entries[k]);
            assert(member(entries[k], "assemblyName"@) == Some(JsonV::Str("ModLoader"@)));
        }
        if exists|k: int|
            0 <= k < entries.len() && #[trigger] member(entries[k], "assemblyName"@) == Some(
                JsonV::Str("ModLoader"@),
            ) && member(entries[k], "className"@) == Some(JsonV::Str("Core"@)) && member(
                entries[k],
                "methodName"@,
            ) == Some(JsonV::Str("Start"@)) {
            let k = choose|k: int|
                0 <= k < entries.len() && #[trigger] member(entries[k], "assemblyName"@) == Some(
                    JsonV::Str("ModLoader"@),
                ) && member(entries[k], "className"@) == Some(JsonV::Str("Core"@)) && member(
                    entries[k],
                    "methodName"@,
                ) == Some(JsonV::Str("Start"@));
            assert(is_modloader_entry_spec(entries[k]));
        }
    }
}

} // verus!
