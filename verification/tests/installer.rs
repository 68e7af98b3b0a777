use std::collections::{HashMap, HashSet};

use mlkit::installer::{
    self, report, Action, Event, InstallError, Mode, Outcome, Probe, Session, Target, UnityFile,
};
use mlkit::json::Json;
use mlkit::layout::MANAGED_DLL_COUNT;

/// A game folder held in memory: its folders, and its files (text, or
/// assemblies by their size).
#[derive(Clone)]
struct FakeGame {
    dirs: HashSet<String>,
    files: HashMap<String, FakeFile>,
    read_only: bool,
}

#[derive(Clone, Debug, PartialEq)]
enum FakeFile {
    Text(String),
    Bytes(usize),
}

fn text(t: &str) -> FakeFile {
    FakeFile::Text(t.to_string())
}

fn path(t: Target) -> String {
    t.components().join("/")
}

fn shown(t: Target) -> String {
    format!("game/{}", path(t))
}

const DLL_SIZES: [usize; 2] = [1234, 56];

/// Runs a session against the fake game, answering each action.
fn run(game: &mut FakeGame, start: (Session, Action)) -> Result<Vec<String>, InstallError> {
    let (mut session, mut action) = start;
    loop {
        let event = match action {
            Action::Check(Probe::IsDir, t) => Event::Found(game.dirs.contains(&path(t)), shown(t)),
            Action::Check(_, t) => Event::Found(game.files.contains_key(&path(t)), shown(t)),
            Action::Copy(from, to) => match game.files.get(&path(from)).cloned() {
                Some(f) if !game.read_only => {
                    game.files.insert(path(to), f);
                    Event::Done
                }
                Some(_) => Event::Failed("read-only".to_string(), shown(to)),
                None => Event::Failed("not found".to_string(), shown(to)),
            },
            Action::Read(t) => match game.files.get(&path(t)) {
                Some(FakeFile::Text(x)) => Event::Text(x.clone()),
                _ => Event::Failed("not found".to_string(), shown(t)),
            },
            Action::Write(t, x) => {
                if game.read_only {
                    Event::Failed("read-only".to_string(), shown(t))
                } else {
                    game.files.insert(path(t), FakeFile::Text(x));
                    Event::Done
                }
            }
            Action::WriteDll(i) => {
                let t = Target::Dll(i);
                if game.read_only {
                    Event::Failed("read-only".to_string(), shown(t))
                } else {
                    game.files.insert(path(t), FakeFile::Bytes(DLL_SIZES[i]));
                    Event::Wrote(DLL_SIZES[i])
                }
            }
            Action::Remove(t) => match game.files.remove(&path(t)) {
                Some(_) => Event::Done,
                None => Event::Failed("not found".to_string(), shown(t)),
            },
            Action::Finish(r) => return r,
        };
        action = session.step(event);
    }
}

fn is_installed(game: &FakeGame) -> bool {
    let present: Vec<bool> = (0..MANAGED_DLL_COUNT)
        .map(|i| game.files.contains_key(&path(Target::Dll(i))))
        .collect();
    installer::is_installed(&present)
}

fn s(x: &str) -> Json {
    Json::Str(x.to_string())
}

/// A document read with `serde_json`, in the library's form.
fn to_json(v: serde_json::Value) -> Json {
    match v {
        serde_json::Value::Null => Json::Null,
        serde_json::Value::Bool(b) => Json::Bool(b),
        serde_json::Value::Number(n) => Json::Number(n.to_string()),
        serde_json::Value::String(x) => Json::Str(x),
        serde_json::Value::Array(a) => Json::Array(a.into_iter().map(to_json).collect()),
        serde_json::Value::Object(m) => Json::Object(m.into_iter().map(|(k, v)| (k, to_json(v))).collect()),
    }
}

/// The items of the array member `key` of a JSON file.
fn array(file: &FakeFile, key: &str) -> Vec<Json> {
    let doc = match file {
        FakeFile::Text(x) => to_json(serde_json::from_str(x).unwrap()),
        other => panic!("{other:?}"),
    };
    match doc {
        Json::Object(fields) => match fields.into_iter().find(|(k, _)| k == key).unwrap().1 {
            Json::Array(items) => items,
            other => panic!("{other:?}"),
        },
        other => panic!("{other:?}"),
    }
}

const SA: &str = "BrokeProtocol_Data/ScriptingAssemblies.json";
const RI: &str = "BrokeProtocol_Data/RuntimeInitializeOnLoads.json";

/// A minimal game folder.
fn make_fake_game() -> FakeGame {
    let mut game = FakeGame { dirs: HashSet::new(), files: HashMap::new(), read_only: false };
    game.dirs.insert("BrokeProtocol_Data".to_string());
    game.dirs.insert("BrokeProtocol_Data/Managed".to_string());
    game.files.insert(
        SA.to_string(),
        text(r#"{"names":["UnityEngine.dll","Scripts.dll"],"types":[2,16]}"#),
    );
    game.files.insert(
        RI.to_string(),
        text(r#"{"root":[{"assemblyName":"Unity.InputSystem","nameSpace":"UnityEngine.InputSystem","className":"InputSystem","methodName":"RunInitialUpdate","loadTypes":1,"isUnityClass":true}]}"#),
    );
    game
}

#[test]
fn cycle_install_puis_uninstall() {
    let mut game = make_fake_game();
    let vanilla_sa = game.files[SA].clone();

    // --- Install ---
    assert!(!is_installed(&game));
    let log = run(&mut game, installer::install()).expect("install OK");
    assert!(log.iter().any(|l| l.contains("succès")), "log: {log:?}");

    assert!(game.files.contains_key("BrokeProtocol_Data/Managed/ModLoader.dll"));
    assert!(game.files.contains_key("BrokeProtocol_Data/Managed/!_0Harmony.dll"));
    assert!(is_installed(&game));

    assert!(game.files.contains_key("BrokeProtocol_Data/ScriptingAssemblies.json.modloader.bak"));
    assert!(game.files.contains_key("BrokeProtocol_Data/RuntimeInitializeOnLoads.json.modloader.bak"));

    let names = array(&game.files[SA], "names");
    let types = array(&game.files[SA], "types");
    assert!(names.iter().any(|n| *n == s("ModLoader.dll")));
    assert!(names.iter().any(|n| *n == s("!_0Harmony.dll")));
    assert_eq!(names.len(), types.len(), "names/types désynchronisés");

    let count = array(&game.files[RI], "root")
        .iter()
        .filter(|e| match e {
            Json::Object(f) => f.iter().any(|(k, v)| k == "assemblyName" && *v == s("ModLoader")),
            _ => false,
        })
        .count();
    assert_eq!(count, 1);

    // --- Reinstall: idempotent, no duplicates ---
    run(&mut game, installer::install()).expect("réinstall OK");
    assert_eq!(array(&game.files[SA], "names").len(), names.len());

    // --- Uninstall: back to vanilla ---
    run(&mut game, installer::uninstall()).expect("uninstall OK");
    assert!(!game.files.contains_key("BrokeProtocol_Data/Managed/ModLoader.dll"));
    assert!(!game.files.contains_key("BrokeProtocol_Data/Managed/!_0Harmony.dll"));
    assert!(!is_installed(&game));
    assert_eq!(array(&game.files[SA], "names").len(), 2);
    assert!(!array(&game.files[SA], "names").iter().any(|n| *n == s("ModLoader.dll")));
    assert_eq!(game.files[SA], vanilla_sa);
}

#[test]
fn refuse_dossier_invalide() {
    let mut bad = FakeGame { dirs: HashSet::new(), files: HashMap::new(), read_only: false };
    let err = run(&mut bad, installer::install()).unwrap_err();
    assert_eq!(
        err.message(),
        "Dossier introuvable : game/BrokeProtocol_Data\nCe n'est pas une installation BROKE PROTOCOL valide."
    );
}

#[test]
fn install_log_lists_every_step() {
    let mut game = make_fake_game();
    let log = run(&mut game, installer::install()).unwrap();
    assert_eq!(
        log,
        vec![
            "Sauvegarde créée : game/BrokeProtocol_Data/ScriptingAssemblies.json.modloader.bak",
            "ScriptingAssemblies : ajouté ModLoader.dll, !_0Harmony.dll.",
            "Sauvegarde créée : game/BrokeProtocol_Data/RuntimeInitializeOnLoads.json.modloader.bak",
            "RuntimeInitializeOnLoads : point d'entrée ModLoader ajouté.",
            "Copié : ModLoader.dll (1234 octets)",
            "Copié : !_0Harmony.dll (56 octets)",
            "Installation terminée avec succès.",
        ]
    );
    // A second run finds the backups and has nothing to add.
    let log = run(&mut game, installer::install()).unwrap();
    assert_eq!(
        log,
        vec![
            "ScriptingAssemblies : déjà à jour.",
            "RuntimeInitializeOnLoads : déjà à jour.",
            "Copié : ModLoader.dll (1234 octets)",
            "Copié : !_0Harmony.dll (56 octets)",
            "Installation terminée avec succès.",
        ]
    );
}

#[test]
fn backup_is_kept_from_the_first_install() {
    let mut game = make_fake_game();
    let vanilla_sa = game.files[SA].clone();
    run(&mut game, installer::install()).unwrap();
    run(&mut game, installer::install()).unwrap();
    assert_eq!(game.files["BrokeProtocol_Data/ScriptingAssemblies.json.modloader.bak"], vanilla_sa);
}

#[test]
fn unity_file_without_extension() {
    let mut game = make_fake_game();
    let sa = game.files.remove(SA).unwrap();
    game.files.insert("BrokeProtocol_Data/ScriptingAssemblies".to_string(), sa);
    let log = run(&mut game, installer::install()).unwrap();
    assert_eq!(log[0], "Sauvegarde créée : game/BrokeProtocol_Data/ScriptingAssemblies.modloader.bak");
    assert!(game.files.contains_key("BrokeProtocol_Data/ScriptingAssemblies.modloader.bak"));
}

#[test]
fn install_errors() {
    let mut game = make_fake_game();
    game.files.remove(RI);
    assert_eq!(
        run(&mut game, installer::install()).unwrap_err().message(),
        "Fichier introuvable : RuntimeInitializeOnLoads(.json) dans game/BrokeProtocol_Data"
    );

    let mut game = make_fake_game();
    game.dirs.remove("BrokeProtocol_Data/Managed");
    assert_eq!(
        run(&mut game, installer::install()).unwrap_err().message(),
        "Dossier introuvable : game/BrokeProtocol_Data/Managed"
    );

    let mut game = make_fake_game();
    game.files.insert(SA.to_string(), text("{"));
    assert_eq!(
        run(&mut game, installer::install()).unwrap_err().message(),
        "JSON invalide dans game/BrokeProtocol_Data/ScriptingAssemblies.json : EOF while parsing an object at line 1 column 1"
    );

    let mut game = make_fake_game();
    game.files.insert(RI.to_string(), text(r#"{"root":null}"#));
    assert_eq!(
        run(&mut game, installer::install()).unwrap_err().message(),
        "Champ \"root\" absent ou invalide dans game/BrokeProtocol_Data/RuntimeInitializeOnLoads.json"
    );

    let mut game = make_fake_game();
    game.read_only = true;
    assert_eq!(
        run(&mut game, installer::install()).unwrap_err().message(),
        "Sauvegarde impossible de game/BrokeProtocol_Data/ScriptingAssemblies.json : read-only"
    );
}

#[test]
fn uninstall_without_backups() {
    let mut game = make_fake_game();
    let log = run(&mut game, installer::uninstall()).unwrap();
    assert_eq!(
        log,
        vec![
            "Aucune sauvegarde pour game/BrokeProtocol_Data/ScriptingAssemblies.json (ignoré).",
            "Aucune sauvegarde pour game/BrokeProtocol_Data/RuntimeInitializeOnLoads.json (ignoré).",
            "Désinstallation terminée.",
        ]
    );
}

#[test]
fn uninstall_log() {
    let mut game = make_fake_game();
    run(&mut game, installer::install()).unwrap();
    let log = run(&mut game, installer::uninstall()).unwrap();
    assert_eq!(
        log,
        vec![
            "Restauré : game/BrokeProtocol_Data/ScriptingAssemblies.json",
            "Restauré : game/BrokeProtocol_Data/RuntimeInitializeOnLoads.json",
            "Supprimé : game/BrokeProtocol_Data/Managed/ModLoader.dll",
            "Supprimé : game/BrokeProtocol_Data/Managed/!_0Harmony.dll",
            "Désinstallation terminée.",
        ]
    );
    assert!(!game.files.contains_key("BrokeProtocol_Data/ScriptingAssemblies.json.modloader.bak"));
}

#[test]
fn components_of_targets() {
    assert_eq!(path(Target::DataDir), "BrokeProtocol_Data");
    assert_eq!(path(Target::ManagedDir), "BrokeProtocol_Data/Managed");
    assert_eq!(
        path(Target::Backup(UnityFile::RuntimeInit, false)),
        "BrokeProtocol_Data/RuntimeInitializeOnLoads.modloader.bak"
    );
    assert_eq!(path(Target::Dll(1)), "BrokeProtocol_Data/Managed/!_0Harmony.dll");
}

#[test]
fn is_installed_needs_every_dll() {
    assert!(installer::is_installed(&vec![true, true]));
    assert!(!installer::is_installed(&vec![true, false]));
    assert!(!installer::is_installed(&vec![false, true]));
}

#[test]
fn report_shows_the_log_or_the_error() {
    let steps = vec!["a".to_string(), "b".to_string()];
    let (log, outcome) = report(Mode::Install, Ok(steps.clone()));
    assert_eq!(log, steps);
    assert!(matches!(outcome, Outcome::Success(m) if m == "ModLoader installé ! Lance BROKE PROTOCOL pour en profiter."));
    let (log, outcome) = report(Mode::Uninstall, Ok(steps.clone()));
    assert_eq!(log, steps);
    assert!(matches!(outcome, Outcome::Success(m) if m == "ModLoader désinstallé."));
    let (log, outcome) = report(Mode::Install, Err(InstallError("boom".to_string())));
    assert_eq!(log, vec!["boom".to_string()]);
    assert!(matches!(outcome, Outcome::Failure(m) if m == "L'installation a échoué."));
    let (log, outcome) = report(Mode::Uninstall, Err(InstallError("boom".to_string())));
    assert_eq!(log, vec!["boom".to_string()]);
    assert!(matches!(outcome, Outcome::Failure(m) if m == "La désinstallation a échoué."));
}

#[test]
fn successful_runs_write_then_remove_every_dll() {
    let mut game = make_fake_game();
    assert!(run(&mut game, installer::install()).is_ok());
    for i in 0..MANAGED_DLL_COUNT {
        assert_eq!(game.files.get(&path(Target::Dll(i))), Some(&FakeFile::Bytes(DLL_SIZES[i])));
    }
    assert!(run(&mut game, installer::uninstall()).is_ok());
    for i in 0..MANAGED_DLL_COUNT {
        assert!(!game.files.contains_key(&path(Target::Dll(i))));
    }
}

#[test]
fn installs_then_uninstall_give_back_the_folder() {
    let mut game = make_fake_game();
    let before = game.files.clone();
    assert!(run(&mut game, installer::install()).is_ok());
    assert!(run(&mut game, installer::install()).is_ok());
    assert_ne!(game.files, before);
    assert!(run(&mut game, installer::uninstall()).is_ok());
    assert_eq!(game.files, before);
}

#[test]
fn second_install_changes_no_file() {
    let mut game = make_fake_game();
    assert!(run(&mut game, installer::install()).is_ok());
    let once = game.files.clone();
    assert!(run(&mut game, installer::install()).is_ok());
    assert_eq!(game.files, once);
}

#[test]
fn json_text_read_and_written() {
    let mut game = make_fake_game();
    game.files.insert(SA.to_string(), text(r#"{"types":[2,1.5],"names":["A",null,true]}"#));
    assert!(run(&mut game, installer::install()).is_ok());
    assert_eq!(
        game.files[SA],
        text(
            "{\n  \"names\": [\n    \"A\",\n    null,\n    true,\n    \"ModLoader.dll\",\n    \"!_0Harmony.dll\"\n  ],\n  \"types\": [\n    2,\n    1.5,\n    16,\n    16\n  ]\n}"
        )
    );
}

#[test]
fn stray_backup_under_the_other_name_is_left_alone() {
    let mut game = make_fake_game();
    let stray = path(Target::Backup(UnityFile::ScriptingAssemblies, false));
    game.files.insert(stray.clone(), text("old"));
    let before = game.files.clone();
    assert!(run(&mut game, installer::install()).is_ok());
    assert_eq!(game.files.get(&stray), Some(&text("old")));
    assert!(run(&mut game, installer::uninstall()).is_ok());
    assert_eq!(game.files, before);
}

#[test]
fn on_rendered_outside_its_phase_stops_the_run() {
    let (mut session, _) = installer::install();
    match session.on_rendered(Ok("{}".to_string())) {
        Action::Finish(Err(e)) => assert_eq!(e.0, ""),
        other => panic!("{other:?}"),
    }
    let (mut session, _) = installer::uninstall();
    match session.on_document(Ok(Json::Null)) {
        Action::Finish(Err(e)) => assert_eq!(e.0, ""),
        other => panic!("{other:?}"),
    }
}
