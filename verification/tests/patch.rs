use mlkit::json::Json;

/// A copy of a document.
fn copy(j: &Json) -> Json {
    match j {
        Json::Null => Json::Null,
        Json::Bool(b) => Json::Bool(*b),
        Json::Number(n) => Json::Number(n.clone()),
        Json::Str(s) => Json::Str(s.clone()),
        Json::Array(items) => Json::Array(items.iter().map(copy).collect()),
        Json::Object(fields) => Json::Object(fields.iter().map(|(k, v)| (k.clone(), copy(v))).collect()),
    }
}
use mlkit::patch::{
    is_modloader_entry, modloader_init_entry, patch_runtime_init, patch_scripting_assemblies,
    PatchOutcome,
};

fn s(x: &str) -> Json {
    Json::Str(x.to_string())
}

fn n(x: &str) -> Json {
    Json::Number(x.to_string())
}

fn obj(fields: Vec<(&str, Json)>) -> Json {
    Json::Object(fields.into_iter().map(|(k, v)| (k.to_string(), v)).collect())
}

fn array<'a>(doc: &'a Json, key: &str) -> &'a Vec<Json> {
    match doc {
        Json::Object(fields) => match &fields.iter().find(|(k, _)| k == key).unwrap().1 {
            Json::Array(items) => items,
            other => panic!("not an array: {other:?}"),
        },
        other => panic!("not an object: {other:?}"),
    }
}

fn updated(out: PatchOutcome) -> (Json, Vec<String>) {
    match out {
        PatchOutcome::Updated { doc, added } => (doc, added),
        other => panic!("expected an update, got {other:?}"),
    }
}

#[test]
fn scripting_assemblies_idempotent() {
    let doc = obj(vec![("names", Json::Array(vec![s("UnityEngine.dll")])), ("types", Json::Array(vec![n("2")]))]);
    let (v, added) = updated(patch_scripting_assemblies(doc));
    assert_eq!(added, vec!["ModLoader.dll".to_string(), "!_0Harmony.dll".to_string()]);
    let names = array(&v, "names");
    let types = array(&v, "types");
    assert_eq!(names.len(), 3);
    assert_eq!(types.len(), 3);
    assert!(names.iter().any(|x| *x == s("ModLoader.dll")));
    assert!(names.iter().any(|x| *x == s("!_0Harmony.dll")));
    assert_eq!(types[1], n("16"));
    assert_eq!(types[2], n("16"));

    // Second pass: nothing to add.
    assert!(matches!(patch_scripting_assemblies(v), PatchOutcome::AlreadyPresent));
}

#[test]
fn scripting_assemblies_adds_only_what_is_missing() {
    let doc = obj(vec![
        ("names", Json::Array(vec![s("!_0Harmony.dll"), n("7")])),
        ("other", Json::Bool(true)),
        ("types", Json::Array(vec![n("16"), n("2")])),
    ]);
    let (v, added) = updated(patch_scripting_assemblies(doc));
    assert_eq!(added, vec!["ModLoader.dll".to_string()]);
    assert_eq!(
        v,
        obj(vec![
            ("names", Json::Array(vec![s("!_0Harmony.dll"), n("7"), s("ModLoader.dll")])),
            ("other", Json::Bool(true)),
            ("types", Json::Array(vec![n("16"), n("2"), n("16")])),
        ])
    );
}

#[test]
fn scripting_assemblies_missing_members() {
    match patch_scripting_assemblies(obj(vec![("types", Json::Array(vec![]))])) {
        PatchOutcome::MissingArray(k) => assert_eq!(k, "names"),
        other => panic!("{other:?}"),
    }
    match patch_scripting_assemblies(obj(vec![("names", Json::Array(vec![])), ("types", Json::Null)])) {
        PatchOutcome::MissingArray(k) => assert_eq!(k, "types"),
        other => panic!("{other:?}"),
    }
    match patch_scripting_assemblies(Json::Array(vec![])) {
        PatchOutcome::MissingArray(k) => assert_eq!(k, "names"),
        other => panic!("{other:?}"),
    }
    // Everything listed: "types" is not even looked at.
    let full = obj(vec![("names", Json::Array(vec![s("ModLoader.dll"), s("!_0Harmony.dll")]))]);
    assert!(matches!(patch_scripting_assemblies(full), PatchOutcome::AlreadyPresent));
}

#[test]
fn runtime_init_idempotent() {
    let doc = obj(vec![("root", Json::Array(vec![]))]);
    let (v, _) = updated(patch_runtime_init(doc));
    assert!(matches!(patch_runtime_init(copy(&v)), PatchOutcome::AlreadyPresent));
    let count = array(&v, "root").iter().filter(|e| is_modloader_entry(e)).count();
    assert_eq!(count, 1);
}

#[test]
fn runtime_init_keeps_other_entries() {
    let other = obj(vec![("assemblyName", s("Unity.InputSystem")), ("className", s("InputSystem"))]);
    let doc = obj(vec![("root", Json::Array(vec![copy(&other)]))]);
    let (v, added) = updated(patch_runtime_init(doc));
    assert!(added.is_empty());
    assert_eq!(array(&v, "root"), &vec![other, modloader_init_entry()]);
    match patch_runtime_init(obj(vec![("root", n("1"))])) {
        PatchOutcome::MissingArray(k) => assert_eq!(k, "root"),
        other => panic!("{other:?}"),
    }
}

#[test]
fn modloader_entry_recognised() {
    let e = modloader_init_entry();
    assert!(is_modloader_entry(&e));
    assert_eq!(
        e,
        obj(vec![
            ("assemblyName", s("ModLoader")),
            ("className", s("Core")),
            ("isUnityClass", Json::Bool(false)),
            ("loadTypes", n("0")),
            ("methodName", s("Start")),
            ("nameSpace", s("ModLoader")),
        ])
    );
    // Only the three naming members count.
    let lean = obj(vec![("methodName", s("Start")), ("className", s("Core")), ("assemblyName", s("ModLoader"))]);
    assert!(is_modloader_entry(&lean));
    let wrong = obj(vec![("assemblyName", s("ModLoader")), ("className", s("Core")), ("methodName", s("Stop"))]);
    assert!(!is_modloader_entry(&wrong));
    assert!(!is_modloader_entry(&s("ModLoader")));
}
