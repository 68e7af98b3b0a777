//! Installing and uninstalling the mod loader, as a state machine.
//!
//! The machine decides; whoever runs it does the file work. Each `step`
//! takes the outcome of the last [`Action`] and gives the next one, until
//! [`Action::Finish`] carries the log of what was done, or the error that
//! stopped it.
//!
//! Installing is non-destructive and idempotent: each Unity file is backed
//! up (unless a backup already exists) before it is read and changed, the
//! JSON edits only append what is missing, and the assemblies are copied
//! last. Uninstalling copies each backup back and deletes the assemblies.
use vstd::prelude::*;

use crate::json::{json_parse_result, json_render_result, parse_json_text, render_json_pretty, Json, JsonV};
use crate::layout::{
    managed_dll_name, managed_dll_names, BACKUP_SUFFIX, DATA_DIR, JSON_EXT, MANAGED_DIR,
    MANAGED_DLL_COUNT, RUNTIME_INIT, SCRIPTING_ASSEMBLIES,
};
use crate::patch::{
    patch_runtime_init, patch_scripting_assemblies, runtime_init_patch,
    scripting_assemblies_patch, strings_view, PatchOutcome, PatchOutcomeV,
};
use crate::text::{cat3, cat4, cat5, decimal, decimal_string, join, join_strings};

verus! {

/// An installation error, with a message fit to show as it is.
#[derive(Debug)]
pub struct InstallError(pub String);

impl InstallError {
    /// The message of the error.
    pub fn message(&self) -> (r: &str)
        ensures
            r@ == self.0@,
    {
        self.0.as_str()
    }
}

/// Whether the machine installs or uninstalls.
#[derive(Clone, Copy, PartialEq, Eq, Debug)]
pub enum Mode {
    Install,
    Uninstall,
}

/// The two Unity files that the installer edits.
#[derive(Clone, Copy, PartialEq, Eq, Debug)]
pub enum UnityFile {
    ScriptingAssemblies,
    RuntimeInit,
}

/// A file or folder of the game, by where it stands below the game folder.
#[derive(Clone, Copy, PartialEq, Eq, Debug)]
pub enum Target {
    /// `BrokeProtocol_Data`.
    DataDir,
    /// `BrokeProtocol_Data/Managed`.
    ManagedDir,
    /// A Unity file, with the `.json` extension or without it.
    Unity(UnityFile, bool),
    /// The backup of a Unity file, so named.
    Backup(UnityFile, bool),
    /// The `i`-th managed assembly, in the managed folder.
    Dll(usize),
}

/// What a check asks of a path.
#[derive(Clone, Copy, PartialEq, Eq, Debug)]
pub enum Probe {
    IsDir,
    IsFile,
    Exists,
}

/// The next thing to do.
#[derive(Debug)]
pub enum Action {
    /// Check a path; answer with [`Event::Found`].
    Check(Probe, Target),
    /// Copy the first file over the second; answer with [`Event::Done`] or
    /// [`Event::Failed`].
    Copy(Target, Target),
    /// Read a file as text; answer with [`Event::Text`] or [`Event::Failed`].
    Read(Target),
    /// Write the text to the file; answer with [`Event::Done`] or
    /// [`Event::Failed`].
    Write(Target, String),
    /// Write the bytes of the `i`-th managed assembly to `Target::Dll(i)`;
    /// answer with [`Event::Wrote`] or [`Event::Failed`].
    WriteDll(usize),
    /// Delete a file; answer with [`Event::Done`] or [`Event::Failed`].
    Remove(Target),
    /// The run is over: the log of what was done, or the error.
    Finish(Result<Vec<String>, InstallError>),
}

/// The outcome of an action.
#[derive(Debug)]
pub enum Event {
    /// The check's answer, with the path as it is shown to the user.
    Found(bool, String),
    /// The copy, write or removal succeeded.
    Done,
    /// The assembly was written; the number of bytes written.
    Wrote(usize),
    /// The text of the file that was read.
    Text(String),
    /// The file operation failed: its error message, and the action's
    /// (destination) path as it is shown to the user.
    Failed(String, String),
}

/// Where a run stands.
#[derive(Clone, Copy, PartialEq, Eq, Debug)]
pub enum Phase {
    DataDir,
    Locate(UnityFile, bool),
    ManagedDir,
    BackupProbe(UnityFile),
    BackupCopy(UnityFile),
    Reading(UnityFile),
    Rendering(UnityFile),
    Writing(UnityFile),
    CopyDll(usize),
    RestoreProbe(UnityFile),
    Restoring(UnityFile),
    DropBackup(UnityFile),
    DllProbe(usize),
    DllRemove(usize),
    Finished,
}

/// A run of the installer or of the uninstaller.
pub struct Session {
    mode: Mode,
    phase: Phase,
    log: Vec<String>,
    data_shown: String,
    sa_ext: bool,
    sa_shown: String,
    ri_ext: bool,
    ri_shown: String,
    pending: String,
}

/// The model of a run.
pub struct SessionV {
    pub mode: Mode,
    pub phase: Phase,
    pub log: Seq<Seq<char>>,
    pub data_shown: Seq<char>,
    pub sa_ext: bool,
    pub sa_shown: Seq<char>,
    pub ri_ext: bool,
    pub ri_shown: Seq<char>,
    /// A path shown in the next message, or the message itself.
    pub pending: Seq<char>,
}

pub enum ActionV {
    Check(Probe, Target),
    Copy(Target, Target),
    Read(Target),
    Write(Target, Seq<char>),
    WriteDll(usize),
    Remove(Target),
    Finish(Result<Seq<Seq<char>>, Seq<char>>),
}

pub enum EventV {
    Found(bool, Seq<char>),
    Done,
    Wrote(usize),
    Text(Seq<char>),
    Failed(Seq<char>, Seq<char>),
}

/// The model of a parse result.
pub open spec fn parsed_view(r: Result<Json, String>) -> Result<JsonV, Seq<char>> {
    match r {
        Ok(d) => Ok(d@),
        Err(m) => Err(m@),
    }
}

impl View for Session {
    type V = SessionV;

    closed spec fn view(&self) -> SessionV {
        SessionV {
            mode: self.mode,
            phase: self.phase,
            log: strings_view(self.log@),
            data_shown: self.data_shown@,
            sa_ext: self.sa_ext,
            sa_shown: self.sa_shown@,
            ri_ext: self.ri_ext,
            ri_shown: self.ri_shown@,
            pending: self.pending@,
        }
    }
}

impl View for Action {
    type V = ActionV;

    open spec fn view(&self) -> ActionV {
        match self {
            Action::Check(p, t) => ActionV::Check(*p, *t),
            Action::Copy(a, b) => ActionV::Copy(*a, *b),
            Action::Read(t) => ActionV::Read(*t),
            Action::Write(t, d) => ActionV::Write(*t, d@),
            Action::WriteDll(i) => ActionV::WriteDll(*i),
            Action::Remove(t) => ActionV::Remove(*t),
            Action::Finish(Ok(log)) => ActionV::Finish(Ok(strings_view(log@))),
            Action::Finish(Err(e)) => ActionV::Finish(Err(e.0@)),
        }
    }
}

impl View for Event {
    type V = EventV;

    open spec fn view(&self) -> EventV {
        match self {
            Event::Found(b, s) => EventV::Found(*b, s@),
            Event::Done => EventV::Done,
            Event::Wrote(n) => EventV::Wrote(*n),
            Event::Text(t) => EventV::Text(t@),
            Event::Failed(m, s) => EventV::Failed(m@, s@),
        }
    }
}

// ---------------------------------------------------------------------------
// Paths

/// Base name of a Unity file.
pub open spec fn unity_base(f: UnityFile) -> Seq<char> {
    match f {
        UnityFile::ScriptingAssemblies => SCRIPTING_ASSEMBLIES@,
        UnityFile::RuntimeInit => RUNTIME_INIT@,
    }
}

/// File name of a Unity file, with the `.json` extension or without it.
pub open spec fn unity_name(f: UnityFile, ext: bool) -> Seq<char> {
    if ext {
        unity_base(f) + JSON_EXT@
    } else {
        unity_base(f)
    }
}

/// Where a target stands below the game folder, component by component.
pub open spec fn target_components(t: Target) -> Seq<Seq<char>> {
    match t {
        Target::DataDir => seq![DATA_DIR@],
        Target::ManagedDir => seq![DATA_DIR@, MANAGED_DIR@],
        Target::Unity(f, ext) => seq![DATA_DIR@, unity_name(f, ext)],
        Target::Backup(f, ext) => seq![DATA_DIR@, unity_name(f, ext) + BACKUP_SUFFIX@],
        Target::Dll(i) => seq![DATA_DIR@, MANAGED_DIR@, managed_dll_names()[i as int]],
    }
}

fn unity_name_string(f: UnityFile, ext: bool) -> (r: String)
    ensures
        r@ == unity_name(f, ext),
{
    let base = match f {
        UnityFile::ScriptingAssemblies => SCRIPTING_ASSEMBLIES,
        UnityFile::RuntimeInit => RUNTIME_INIT,
    };
    let mut r = String::from_str(base);
    if ext {
        r.append(JSON_EXT);
    }
    r
}

impl Target {
    /// The components of the path of this target below the game folder.
    pub fn components(&self) -> (r: Vec<String>)
        requires
            *self matches Target::Dll(i) ==> i < MANAGED_DLL_COUNT,
        ensures
            strings_view(r@) == target_components(*self),
    {
        let mut r: Vec<String> = Vec::new();
        r.push(String::from_str(DATA_DIR));
        match self {
            Target::DataDir => {},
            Target::ManagedDir => {
                r.push(String::from_str(MANAGED_DIR));
            },
            Target::Unity(f, ext) => {
                r.push(unity_name_string(*f, *ext));
            },
            Target::Backup(f, ext) => {
                let mut n = unity_name_string(*f, *ext);
                n.append(BACKUP_SUFFIX);
                r.push(n);
            },
            Target::Dll(i) => {
                r.push(String::from_str(MANAGED_DIR));
                r.push(String::from_str(managed_dll_name(*i)));
            },
        }
        assert(strings_view(r@) =~= target_components(*self));
        r
    }
}

// ---------------------------------------------------------------------------
// Messages

pub open spec fn msg_no_data(shown: Seq<char>) -> Seq<char> {
    "Dossier introuvable : "@ + shown + "\nCe n'est pas une installation BROKE PROTOCOL valide."@
}

pub open spec fn msg_no_unity(f: UnityFile, data: Seq<char>) -> Seq<char> {
    "Fichier introuvable : "@ + unity_base(f) + "(.json) dans "@ + data
}

pub open spec fn msg_no_dir(shown: Seq<char>) -> Seq<char> {
    "Dossier introuvable : "@ + shown
}

pub open spec fn msg_backup_made(backup: Seq<char>) -> Seq<char> {
    "Sauvegarde créée : "@ + backup
}

pub open spec fn msg_backup_failed(file: Seq<char>, err: Seq<char>) -> Seq<char> {
    "Sauvegarde impossible de "@ + file + " : "@ + err
}

pub open spec fn msg_read_failed(file: Seq<char>, err: Seq<char>) -> Seq<char> {
    "Lecture impossible de "@ + file + " : "@ + err
}

pub open spec fn msg_bad_json(file: Seq<char>, err: Seq<char>) -> Seq<char> {
    "JSON invalide dans "@ + file + " : "@ + err
}

pub open spec fn msg_missing_field(key: Seq<char>, file: Seq<char>) -> Seq<char> {
    "Champ \""@ + key + "\" absent ou invalide dans "@ + file
}

pub open spec fn msg_up_to_date(f: UnityFile) -> Seq<char> {
    match f {
        UnityFile::ScriptingAssemblies => "ScriptingAssemblies : déjà à jour."@,
        UnityFile::RuntimeInit => "RuntimeInitializeOnLoads : déjà à jour."@,
    }
}

pub open spec fn msg_added(f: UnityFile, added: Seq<Seq<char>>) -> Seq<char> {
    match f {
        UnityFile::ScriptingAssemblies => "ScriptingAssemblies : ajouté "@ + join(added, ", "@) + "."@,
        UnityFile::RuntimeInit => "RuntimeInitializeOnLoads : point d'entrée ModLoader ajouté."@,
    }
}

pub open spec fn msg_render_failed(err: Seq<char>) -> Seq<char> {
    "Sérialisation JSON impossible : "@ + err
}

pub open spec fn msg_write_failed(file: Seq<char>, err: Seq<char>) -> Seq<char> {
    "Écriture impossible de "@ + file + " : "@ + err + "\n(Essayez de lancer en administrateur.)"@
}

pub open spec fn msg_dll_copied(name: Seq<char>, bytes: nat) -> Seq<char> {
    "Copié : "@ + name + " ("@ + decimal(bytes) + " octets)"@
}

pub open spec fn msg_dll_failed(dst: Seq<char>, err: Seq<char>) -> Seq<char> {
    "Copie impossible de "@ + dst + " : "@ + err + "\n(Essayez de lancer en administrateur.)"@
}

pub open spec fn msg_installed() -> Seq<char> {
    "Installation terminée avec succès."@
}

pub open spec fn msg_restored(file: Seq<char>) -> Seq<char> {
    "Restauré : "@ + file
}

pub open spec fn msg_no_backup(file: Seq<char>) -> Seq<char> {
    "Aucune sauvegarde pour "@ + file + " (ignoré)."@
}

pub open spec fn msg_restore_failed(file: Seq<char>, err: Seq<char>) -> Seq<char> {
    "Restauration impossible de "@ + file + " : "@ + err
}

pub open spec fn msg_removed(dll: Seq<char>) -> Seq<char> {
    "Supprimé : "@ + dll
}

pub open spec fn msg_remove_failed(dll: Seq<char>, err: Seq<char>) -> Seq<char> {
    "Suppression impossible de "@ + dll + " : "@ + err
}

pub open spec fn msg_uninstalled() -> Seq<char> {
    "Désinstallation terminée."@
}

// ---------------------------------------------------------------------------
// The machine

/// The first state and action of a run.
pub open spec fn start(mode: Mode) -> (SessionV, ActionV) {
    (
        SessionV {
            mode,
            phase: Phase::DataDir,
            log: Seq::empty(),
            data_shown: Seq::empty(),
            sa_ext: false,
            sa_shown: Seq::empty(),
            ri_ext: false,
            ri_shown: Seq::empty(),
            pending: Seq::empty(),
        },
        ActionV::Check(Probe::IsDir, Target::DataDir),
    )
}

/// The event answers the action that the phase awaits.
pub open spec fn accepts(phase: Phase, e: EventV) -> bool {
    match phase {
        Phase::DataDir | Phase::Locate(..) | Phase::ManagedDir | Phase::BackupProbe(_)
        | Phase::RestoreProbe(_) => e is Found,
        Phase::DllProbe(i) => e is Found && i < MANAGED_DLL_COUNT,
        Phase::BackupCopy(_) | Phase::Restoring(_) | Phase::DropBackup(_) => e is Done || e is Failed,
        Phase::DllRemove(i) => (e is Done || e is Failed) && i < MANAGED_DLL_COUNT,
        Phase::Reading(_) => e is Text || e is Failed,
        Phase::Writing(_) => e is Done || e is Failed,
        Phase::Rendering(_) => false,
        Phase::CopyDll(i) => (e is Wrote || e is Failed) && i < MANAGED_DLL_COUNT,
        Phase::Finished => false,
    }
}

pub open spec fn ext_of(s: SessionV, f: UnityFile) -> bool {
    match f {
        UnityFile::ScriptingAssemblies => s.sa_ext,
        UnityFile::RuntimeInit => s.ri_ext,
    }
}

pub open spec fn shown_of(s: SessionV, f: UnityFile) -> Seq<char> {
    match f {
        UnityFile::ScriptingAssemblies => s.sa_shown,
        UnityFile::RuntimeInit => s.ri_shown,
    }
}

pub open spec fn logged(s: SessionV, line: Seq<char>) -> SessionV {
    SessionV { log: s.log.push(line), ..s }
}

pub open spec fn go(s: SessionV, phase: Phase, a: ActionV) -> (SessionV, ActionV) {
    (SessionV { phase, ..s }, a)
}

/// The run stops with an error.
pub open spec fn fail(s: SessionV, msg: Seq<char>) -> (SessionV, ActionV) {
    (SessionV { phase: Phase::Finished, ..s }, ActionV::Finish(Err(msg)))
}

/// The run ends well, with a last line in its log.
pub open spec fn finish_ok(s: SessionV, last: Seq<char>) -> (SessionV, ActionV) {
    (
        SessionV { phase: Phase::Finished, log: Seq::empty(), ..s },
        ActionV::Finish(Ok(s.log.push(last))),
    )
}

/// The edit made to a Unity file.
pub open spec fn patch_of(f: UnityFile, doc: JsonV) -> PatchOutcomeV {
    match f {
        UnityFile::ScriptingAssemblies => scripting_assemblies_patch(doc),
        UnityFile::RuntimeInit => runtime_init_patch(doc),
    }
}

/// Once a Unity file is dealt with during an install: the next one's backup,
/// or the assemblies.
pub open spec fn after_patch(s: SessionV, f: UnityFile) -> (SessionV, ActionV) {
    match f {
        UnityFile::ScriptingAssemblies => go(
            s,
            Phase::BackupProbe(UnityFile::RuntimeInit),
            ActionV::Check(Probe::Exists, Target::Backup(UnityFile::RuntimeInit, s.ri_ext)),
        ),
        UnityFile::RuntimeInit => go(s, Phase::CopyDll(0), ActionV::WriteDll(0)),
    }
}

/// Once a Unity file is dealt with during an uninstall: the next one's
/// backup, or the assemblies.
pub open spec fn after_restore(s: SessionV, f: UnityFile) -> (SessionV, ActionV) {
    match f {
        UnityFile::ScriptingAssemblies => go(
            s,
            Phase::RestoreProbe(UnityFile::RuntimeInit),
            ActionV::Check(Probe::IsFile, Target::Backup(UnityFile::RuntimeInit, s.ri_ext)),
        ),
        UnityFile::RuntimeInit => go(s, Phase::DllProbe(0), ActionV::Check(Probe::IsFile, Target::Dll(0))),
    }
}

/// Once the `i`-th assembly is dealt with during an uninstall.
pub open spec fn after_dll(s: SessionV, i: usize) -> (SessionV, ActionV) {
    if i + 1 < MANAGED_DLL_COUNT {
        go(s, Phase::DllProbe((i + 1) as usize), ActionV::Check(Probe::IsFile, Target::Dll((i + 1) as usize)))
    } else {
        finish_ok(s, msg_uninstalled())
    }
}

/// What a run does, in the phase `Reading(f)`, with the document read from
/// the Unity file `f` (or with the parser's message).
pub open spec fn next_document(s: SessionV, parsed: Result<JsonV, Seq<char>>) -> (SessionV, ActionV) {
    let f = s.phase->Reading_0;
    match parsed {
        Err(err) => fail(s, msg_bad_json(shown_of(s, f), err)),
        Ok(doc) => match patch_of(f, doc) {
            PatchOutcomeV::MissingArray(key) => fail(s, msg_missing_field(key, shown_of(s, f))),
            PatchOutcomeV::AlreadyPresent => after_patch(logged(s, msg_up_to_date(f)), f),
            PatchOutcomeV::Updated { doc: d2, added } => next_rendered(
                SessionV { pending: msg_added(f, added), phase: Phase::Rendering(f), ..s },
                json_render_result(d2),
            ),
        },
    }
}

/// What a run does, in the phase `Rendering(f)`, with the text of the edited
/// document (or with the printer's message): it writes the text to `f`.
pub open spec fn next_rendered(s: SessionV, rendered: Result<Seq<char>, Seq<char>>) -> (SessionV, ActionV) {
    let f = s.phase->Rendering_0;
    match rendered {
        Err(err) => fail(s, msg_render_failed(err)),
        Ok(text) => go(s, Phase::Writing(f), ActionV::Write(Target::Unity(f, ext_of(s, f)), text)),
    }
}

/// What a run does with the outcome `e` of its last action.
pub open spec fn next(s: SessionV, e: EventV) -> (SessionV, ActionV) {
    match (s.phase, e) {
        (Phase::DataDir, EventV::Found(found, shown)) => if !found {
            fail(s, msg_no_data(shown))
        } else {
            go(
                SessionV { data_shown: shown, ..s },
                Phase::Locate(UnityFile::ScriptingAssemblies, true),
                ActionV::Check(Probe::IsFile, Target::Unity(UnityFile::ScriptingAssemblies, true)),
            )
        },
        (Phase::Locate(f, ext), EventV::Found(found, shown)) => if found {
            match f {
                UnityFile::ScriptingAssemblies => go(
                    SessionV { sa_ext: ext, sa_shown: shown, ..s },
                    Phase::Locate(UnityFile::RuntimeInit, true),
                    ActionV::Check(Probe::IsFile, Target::Unity(UnityFile::RuntimeInit, true)),
                ),
                UnityFile::RuntimeInit => go(
                    SessionV { ri_ext: ext, ri_shown: shown, ..s },
                    Phase::ManagedDir,
                    ActionV::Check(Probe::IsDir, Target::ManagedDir),
                ),
            }
        } else if ext {
            go(s, Phase::Locate(f, false), ActionV::Check(Probe::IsFile, Target::Unity(f, false)))
        } else {
            fail(s, msg_no_unity(f, s.data_shown))
        },
        (Phase::ManagedDir, EventV::Found(found, shown)) => if !found {
            fail(s, msg_no_dir(shown))
        } else if s.mode == Mode::Install {
            go(
                s,
                Phase::BackupProbe(UnityFile::ScriptingAssemblies),
                ActionV::Check(Probe::Exists, Target::Backup(UnityFile::ScriptingAssemblies, s.sa_ext)),
            )
        } else {
            go(
                s,
                Phase::RestoreProbe(UnityFile::ScriptingAssemblies),
                ActionV::Check(Probe::IsFile, Target::Backup(UnityFile::ScriptingAssemblies, s.sa_ext)),
            )
        },
        (Phase::BackupProbe(f), EventV::Found(found, shown)) => if found {
            go(s, Phase::Reading(f), ActionV::Read(Target::Unity(f, ext_of(s, f))))
        } else {
            go(
                SessionV { pending: shown, ..s },
                Phase::BackupCopy(f),
                ActionV::Copy(Target::Unity(f, ext_of(s, f)), Target::Backup(f, ext_of(s, f))),
            )
        },
        (Phase::BackupCopy(f), EventV::Done) => go(
            logged(s, msg_backup_made(s.pending)),
            Phase::Reading(f),
            ActionV::Read(Target::Unity(f, ext_of(s, f))),
        ),
        (Phase::BackupCopy(f), EventV::Failed(err, _)) => fail(s, msg_backup_failed(shown_of(s, f), err)),
        (Phase::Reading(f), EventV::Text(text)) => next_document(s, json_parse_result(text)),
        (Phase::Reading(f), EventV::Failed(err, _)) => fail(s, msg_read_failed(shown_of(s, f), err)),
        (Phase::Writing(f), EventV::Done) => after_patch(logged(s, s.pending), f),
        (Phase::Writing(f), EventV::Failed(err, _)) => fail(s, msg_write_failed(shown_of(s, f), err)),
        (Phase::CopyDll(i), EventV::Wrote(n)) => {
            let s1 = logged(s, msg_dll_copied(managed_dll_names()[i as int], n as nat));
            if i + 1 < MANAGED_DLL_COUNT {
                go(s1, Phase::CopyDll((i + 1) as usize), ActionV::WriteDll((i + 1) as usize))
            } else {
                finish_ok(s1, msg_installed())
            }
        },
        (Phase::CopyDll(i), EventV::Failed(err, dst)) => fail(s, msg_dll_failed(dst, err)),
        (Phase::RestoreProbe(f), EventV::Found(found, _)) => if found {
            go(
                s,
                Phase::Restoring(f),
                ActionV::Copy(Target::Backup(f, ext_of(s, f)), Target::Unity(f, ext_of(s, f))),
            )
        } else {
            after_restore(logged(s, msg_no_backup(shown_of(s, f))), f)
        },
        (Phase::Restoring(f), EventV::Done) => go(
            s,
            Phase::DropBackup(f),
            ActionV::Remove(Target::Backup(f, ext_of(s, f))),
        ),
        (Phase::Restoring(f), EventV::Failed(err, _)) => fail(s, msg_restore_failed(shown_of(s, f), err)),
        (Phase::DropBackup(f), _) => after_restore(logged(s, msg_restored(shown_of(s, f))), f),
        (Phase::DllProbe(i), EventV::Found(found, shown)) => if found {
            go(SessionV { pending: shown, ..s }, Phase::DllRemove(i), ActionV::Remove(Target::Dll(i)))
        } else {
            after_dll(s, i)
        },
        (Phase::DllRemove(i), EventV::Done) => after_dll(logged(s, msg_removed(s.pending)), i),
        (Phase::DllRemove(i), EventV::Failed(err, _)) => fail(s, msg_remove_failed(s.pending, err)),
        _ => fail(s, Seq::empty()),
    }
}

fn unity_base_str(f: UnityFile) -> (r: &'static str)
    ensures
        r@ == unity_base(f),
{
    match f {
        UnityFile::ScriptingAssemblies => SCRIPTING_ASSEMBLIES,
        UnityFile::RuntimeInit => RUNTIME_INIT,
    }
}

fn up_to_date_message(f: UnityFile) -> (r: String)
    ensures
        r@ == msg_up_to_date(f),
{
    match f {
        UnityFile::ScriptingAssemblies => String::from_str("ScriptingAssemblies : déjà à jour."),
        UnityFile::RuntimeInit => String::from_str("RuntimeInitializeOnLoads : déjà à jour."),
    }
}

fn added_message(f: UnityFile, added: &Vec<String>) -> (r: String)
    ensures
        r@ == msg_added(f, strings_view(added@)),
{
    match f {
        UnityFile::ScriptingAssemblies => cat3(
            "ScriptingAssemblies : ajouté ",
            join_strings(added, ", ").as_str(),
            ".",
        ),
        UnityFile::RuntimeInit => String::from_str(
            "RuntimeInitializeOnLoads : point d'entrée ModLoader ajouté.",
        ),
    }
}

/// The edit made to a Unity file.
fn patch_unity_file(f: UnityFile, doc: Json) -> (r: PatchOutcome)
    ensures
        r@ == patch_of(f, doc@),
{
    match f {
        UnityFile::ScriptingAssemblies => patch_scripting_assemblies(doc),
        UnityFile::RuntimeInit => patch_runtime_init(doc),
    }
}

impl Session {
    fn new(mode: Mode) -> (r: (Session, Action))
        ensures
            (r.0@, r.1@) == start(mode),
    {
        let s = Session {
            mode,
            phase: Phase::DataDir,
            log: Vec::new(),
            data_shown: String::new(),
            sa_ext: false,
            sa_shown: String::new(),
            ri_ext: false,
            ri_shown: String::new(),
            pending: String::new(),
        };
        assert(strings_view(s.log@) =~= Seq::<Seq<char>>::empty());
        (s, Action::Check(Probe::IsDir, Target::DataDir))
    }

    /// The phase that this run is in.
    pub fn phase(&self) -> (r: Phase)
        ensures
            r == self@.phase,
    {
        self.phase
    }

    fn set_phase(&mut self, phase: Phase, a: Action) -> (r: Action)
        ensures
            (final(self)@, r@) == go(old(self)@, phase, a@),
    {
        self.phase = phase;
        a
    }

    fn log_line(&mut self, line: String)
        ensures
            final(self)@ == logged(old(self)@, line@),
    {
        let ghost before = strings_view(self.log@);
        self.log.push(line);
        assert(strings_view(self.log@) =~= before.push(line@));
    }

    fn fail(&mut self, msg: String) -> (r: Action)
        ensures
            (final(self)@, r@) == fail(old(self)@, msg@),
    {
        self.phase = Phase::Finished;
        Action::Finish(Err(InstallError(msg)))
    }

    fn finish_ok(&mut self, last: String) -> (r: Action)
        ensures
            (final(self)@, r@) == finish_ok(old(self)@, last@),
    {
        let mut log: Vec<String> = Vec::new();
        std::mem::swap(&mut log, &mut self.log);
        let ghost before = strings_view(log@);
        log.push(last);
        assert(strings_view(log@) =~= before.push(last@));
        assert(strings_view(self.log@) =~= Seq::<Seq<char>>::empty());
        self.phase = Phase::Finished;
        Action::Finish(Ok(log))
    }

    fn ext(&self, f: UnityFile) -> (r: bool)
        ensures
            r == ext_of(self@, f),
    {
        match f {
            UnityFile::ScriptingAssemblies => self.sa_ext,
            UnityFile::RuntimeInit => self.ri_ext,
        }
    }

    fn shown(&self, f: UnityFile) -> (r: &str)
        ensures
            r@ == shown_of(self@, f),
    {
        match f {
            UnityFile::ScriptingAssemblies => self.sa_shown.as_str(),
            UnityFile::RuntimeInit => self.ri_shown.as_str(),
        }
    }

    fn after_patch(&mut self, f: UnityFile) -> (r: Action)
        ensures
            (final(self)@, r@) == after_patch(old(self)@, f),
    {
        match f {
            UnityFile::ScriptingAssemblies => {
                let a = Action::Check(Probe::Exists, Target::Backup(UnityFile::RuntimeInit, self.ri_ext));
                self.set_phase(Phase::BackupProbe(UnityFile::RuntimeInit), a)
            },
            UnityFile::RuntimeInit => self.set_phase(Phase::CopyDll(0), Action::WriteDll(0)),
        }
    }

    fn after_restore(&mut self, f: UnityFile) -> (r: Action)
        ensures
            (final(self)@, r@) == after_restore(old(self)@, f),
    {
        match f {
            UnityFile::ScriptingAssemblies => {
                let a = Action::Check(Probe::IsFile, Target::Backup(UnityFile::RuntimeInit, self.ri_ext));
                self.set_phase(Phase::RestoreProbe(UnityFile::RuntimeInit), a)
            },
            UnityFile::RuntimeInit => self.set_phase(
                Phase::DllProbe(0),
                Action::Check(Probe::IsFile, Target::Dll(0)),
            ),
        }
    }

    fn after_dll(&mut self, i: usize) -> (r: Action)
        requires
            i < MANAGED_DLL_COUNT,
        ensures
            (final(self)@, r@) == after_dll(old(self)@, i),
    {
        if i + 1 < MANAGED_DLL_COUNT {
            self.set_phase(Phase::DllProbe(i + 1), Action::Check(Probe::IsFile, Target::Dll(i + 1)))
        } else {
            self.finish_ok(String::from_str("Désinstallation terminée."))
        }
    }

    fn on_data_dir(&mut self, e: Event) -> (r: Action)
        requires
            old(self)@.phase == Phase::DataDir,
            accepts(old(self)@.phase, e@),
        ensures
            (final(self)@, r@) == next(old(self)@, e@),
    {
        match e {
            Event::Found(found, shown) => {
                if !found {
                    let m = cat3(
                        "Dossier introuvable : ",
                        shown.as_str(),
                        "\nCe n'est pas une installation BROKE PROTOCOL valide.",
                    );
                    self.fail(m)
                } else {
                    self.data_shown = shown;
                    self.set_phase(
                        Phase::Locate(UnityFile::ScriptingAssemblies, true),
                        Action::Check(
                            Probe::IsFile,
                            Target::Unity(UnityFile::ScriptingAssemblies, true),
                        ),
                    )
                }
            },
            _ => self.fail(String::new()),
        }
    }

    fn on_locate(&mut self, e: Event, f: UnityFile, ext: bool) -> (r: Action)
        requires
            old(self)@.phase == Phase::Locate(f, ext),
            accepts(old(self)@.phase, e@),
        ensures
            (final(self)@, r@) == next(old(self)@, e@),
    {
        match e {
            Event::Found(found, shown) => {
                if found {
                    match f {
                        UnityFile::ScriptingAssemblies => {
                            self.sa_ext = ext;
                            self.sa_shown = shown;
                            self.set_phase(
                                Phase::Locate(UnityFile::RuntimeInit, true),
                                Action::Check(
                                    Probe::IsFile,
                                    Target::Unity(UnityFile::RuntimeInit, true),
                                ),
                            )
                        },
                        UnityFile::RuntimeInit => {
                            self.ri_ext = ext;
                            self.ri_shown = shown;
                            self.set_phase(
                                Phase::ManagedDir,
                                Action::Check(Probe::IsDir, Target::ManagedDir),
                            )
                        },
                    }
                } else if ext {
                    self.set_phase(
                        Phase::Locate(f, false),
                        Action::Check(Probe::IsFile, Target::Unity(f, false)),
                    )
                } else {
                    let m = cat4(
                        "Fichier introuvable : ",
                        unity_base_str(f),
                        "(.json) dans ",
                        self.data_shown.as_str(),
                    );
                    self.fail(m)
                }
            },
            _ => self.fail(String::new()),
        }
    }

    fn on_managed_dir(&mut self, e: Event) -> (r: Action)
        requires
            old(self)@.phase == Phase::ManagedDir,
            accepts(old(self)@.phase, e@),
        ensures
            (final(self)@, r@) == next(old(self)@, e@),
    {
        match e {
            Event::Found(found, shown) => {
                if !found {
                    let m = cat3("Dossier introuvable : ", shown.as_str(), "");
                    proof {
                        reveal_strlit("");
                        assert(m@ =~= msg_no_dir(shown@));
                    }
                    self.fail(m)
                } else {
                    match self.mode {
                        Mode::Install => {
                            let a = Action::Check(
                                Probe::Exists,
                                Target::Backup(UnityFile::ScriptingAssemblies, self.sa_ext),
                            );
                            self.set_phase(Phase::BackupProbe(UnityFile::ScriptingAssemblies), a)
                        },
                        Mode::Uninstall => {
                            let a = Action::Check(
                                Probe::IsFile,
                                Target::Backup(UnityFile::ScriptingAssemblies, self.sa_ext),
                            );
                            self.set_phase(Phase::RestoreProbe(UnityFile::ScriptingAssemblies), a)
                        },
                    }
                }
            },
            _ => self.fail(String::new()),
        }
    }

    fn on_backup_probe(&mut self, e: Event, f: UnityFile) -> (r: Action)
        requires
            old(self)@.phase == Phase::BackupProbe(f),
            accepts(old(self)@.phase, e@),
        ensures
            (final(self)@, r@) == next(old(self)@, e@),
    {
        match e {
            Event::Found(found, shown) => {
                let ext = self.ext(f);
                if found {
                    self.set_phase(Phase::Reading(f), Action::Read(Target::Unity(f, ext)))
                } else {
                    self.pending = shown;
                    self.set_phase(
                        Phase::BackupCopy(f),
                        Action::Copy(Target::Unity(f, ext), Target::Backup(f, ext)),
                    )
                }
            },
            _ => self.fail(String::new()),
        }
    }

    fn on_backup_copy(&mut self, e: Event, f: UnityFile) -> (r: Action)
        requires
            old(self)@.phase == Phase::BackupCopy(f),
            accepts(old(self)@.phase, e@),
        ensures
            (final(self)@, r@) == next(old(self)@, e@),
    {
        match e {
            Event::Done => {
                let line = cat3("Sauvegarde créée : ", self.pending.as_str(), "");
                proof {
                    reveal_strlit("");
                    assert(line@ =~= msg_backup_made(self@.pending));
                }
                self.log_line(line);
                let ext = self.ext(f);
                self.set_phase(Phase::Reading(f), Action::Read(Target::Unity(f, ext)))
            },
            Event::Failed(err, _) => {
                let m = cat4("Sauvegarde impossible de ", self.shown(f), " : ", err.as_str());
                self.fail(m)
            },
            _ => self.fail(String::new()),
        }
    }

    fn on_reading(&mut self, e: Event, f: UnityFile) -> (r: Action)
        requires
            old(self)@.phase == Phase::Reading(f),
            accepts(old(self)@.phase, e@),
        ensures
            (final(self)@, r@) == next(old(self)@, e@),
    {
        match e {
            Event::Text(text) => {
                let parsed = parse_json_text(text.as_str());
                self.on_document(parsed)
            },
            Event::Failed(err, _) => {
                let m = cat4("Lecture impossible de ", self.shown(f), " : ", err.as_str());
                self.fail(m)
            },
            _ => self.fail(String::new()),
        }
    }

    /// Takes, in the phase `Reading(f)`, the document read from the Unity file
    /// `f` (or the parser's message): edits it, and prints the edited
    /// document for writing. In any other phase the run stops with an empty
    /// message, as for any event that does not answer its action.
    pub fn on_document(&mut self, parsed: Result<Json, String>) -> (r: Action)
        ensures
            old(self)@.phase is Reading ==> (final(self)@, r@) == next_document(
                old(self)@,
                parsed_view(parsed),
            ),
            !(old(self)@.phase is Reading) ==> (final(self)@, r@) == fail(old(self)@, Seq::empty()),
    {
        let f = match self.phase {
            Phase::Reading(f) => f,
            _ => {
                return self.fail(String::new());
            },
        };
        match parsed {
            Err(err) => {
                let m = cat4("JSON invalide dans ", self.shown(f), " : ", err.as_str());
                self.fail(m)
            },
            Ok(doc) => match patch_unity_file(f, doc) {
                PatchOutcome::MissingArray(key) => {
                    let m = cat4("Champ \"", key.as_str(), "\" absent ou invalide dans ", self.shown(f));
                    self.fail(m)
                },
                PatchOutcome::AlreadyPresent => {
                    self.log_line(up_to_date_message(f));
                    self.after_patch(f)
                },
                PatchOutcome::Updated { doc: d2, added } => {
                    self.pending = added_message(f, &added);
                    self.phase = Phase::Rendering(f);
                    let rendered = render_json_pretty(d2);
                    self.on_rendered(rendered)
                },
            },
        }
    }

    /// Takes, in the phase `Rendering(f)`, the text of the edited document (or
    /// the printer's message), and has it written to `f`. In any other phase
    /// the run stops with an empty message, as for any event that does not
    /// answer its action.
    pub fn on_rendered(&mut self, rendered: Result<String, String>) -> (r: Action)
        ensures
            old(self)@.phase is Rendering ==> (final(self)@, r@) == next_rendered(
                old(self)@,
                match rendered {
                    Ok(t) => Ok(t@),
                    Err(m) => Err(m@),
                },
            ),
            !(old(self)@.phase is Rendering) ==> (final(self)@, r@) == fail(old(self)@, Seq::empty()),
    {
        let f = match self.phase {
            Phase::Rendering(f) => f,
            _ => {
                return self.fail(String::new());
            },
        };
        match rendered {
            Err(err) => {
                let m = cat3("Sérialisation JSON impossible : ", err.as_str(), "");
                proof {
                    reveal_strlit("");
                    assert(m@ =~= msg_render_failed(err@));
                }
                self.fail(m)
            },
            Ok(text) => {
                let ext = self.ext(f);
                self.set_phase(Phase::Writing(f), Action::Write(Target::Unity(f, ext), text))
            },
        }
    }

    fn on_writing(&mut self, e: Event, f: UnityFile) -> (r: Action)
        requires
            old(self)@.phase == Phase::Writing(f),
            accepts(old(self)@.phase, e@),
        ensures
            (final(self)@, r@) == next(old(self)@, e@),
    {
        match e {
            Event::Done => {
                let line = self.pending.clone();
                self.log_line(line);
                self.after_patch(f)
            },
            Event::Failed(err, _) => {
                let m = cat5(
                    "Écriture impossible de ",
                    self.shown(f),
                    " : ",
                    err.as_str(),
                    "\n(Essayez de lancer en administrateur.)",
                );
                self.fail(m)
            },
            _ => self.fail(String::new()),
        }
    }

    fn on_copy_dll(&mut self, e: Event, i: usize) -> (r: Action)
        requires
            old(self)@.phase == Phase::CopyDll(i),
            accepts(old(self)@.phase, e@),
        ensures
            (final(self)@, r@) == next(old(self)@, e@),
    {
        match e {
            Event::Wrote(n) => {
                let line = cat5(
                    "Copié : ",
                    managed_dll_name(i),
                    " (",
                    decimal_string(n).as_str(),
                    " octets)",
                );
                self.log_line(line);
                if i + 1 < MANAGED_DLL_COUNT {
                    self.set_phase(Phase::CopyDll(i + 1), Action::WriteDll(i + 1))
                } else {
                    self.finish_ok(String::from_str("Installation terminée avec succès."))
                }
            },
            Event::Failed(err, dst) => {
                let m = cat5(
                    "Copie impossible de ",
                    dst.as_str(),
                    " : ",
                    err.as_str(),
                    "\n(Essayez de lancer en administrateur.)",
                );
                self.fail(m)
            },
            _ => self.fail(String::new()),
        }
    }

    fn on_restore_probe(&mut self, e: Event, f: UnityFile) -> (r: Action)
        requires
            old(self)@.phase == Phase::RestoreProbe(f),
            accepts(old(self)@.phase, e@),
        ensures
            (final(self)@, r@) == next(old(self)@, e@),
    {
        match e {
            Event::Found(found, _) => {
                let ext = self.ext(f);
                if found {
                    self.set_phase(
                        Phase::Restoring(f),
                        Action::Copy(Target::Backup(f, ext), Target::Unity(f, ext)),
                    )
                } else {
                    let line = cat3("Aucune sauvegarde pour ", self.shown(f), " (ignoré).");
                    self.log_line(line);
                    self.after_restore(f)
                }
            },
            _ => self.fail(String::new()),
        }
    }

    fn on_restoring(&mut self, e: Event, f: UnityFile) -> (r: Action)
        requires
            old(self)@.phase == Phase::Restoring(f),
            accepts(old(self)@.phase, e@),
        ensures
            (final(self)@, r@) == next(old(self)@, e@),
    {
        match e {
            Event::Done => {
                let ext = self.ext(f);
                self.set_phase(Phase::DropBackup(f), Action::Remove(Target::Backup(f, ext)))
            },
            Event::Failed(err, _) => {
                let m = cat4("Restauration impossible de ", self.shown(f), " : ", err.as_str());
                self.fail(m)
            },
            _ => self.fail(String::new()),
        }
    }

    fn on_drop_backup(&mut self, _e: Event, f: UnityFile) -> (r: Action)
        requires
            old(self)@.phase == Phase::DropBackup(f),
            accepts(old(self)@.phase, _e@),
        ensures
            (final(self)@, r@) == next(old(self)@, _e@),
    {
        let line = cat3("Restauré : ", self.shown(f), "");
        proof {
            reveal_strlit("");
            assert(line@ =~= msg_restored(shown_of(self@, f)));
        }
        self.log_line(line);
        self.after_restore(f)
    }

    fn on_dll_probe(&mut self, e: Event, i: usize) -> (r: Action)
        requires
            old(self)@.phase == Phase::DllProbe(i),
            accepts(old(self)@.phase, e@),
        ensures
            (final(self)@, r@) == next(old(self)@, e@),
    {
        match e {
            Event::Found(found, shown) => {
                if found {
                    self.pending = shown;
                    self.set_phase(Phase::DllRemove(i), Action::Remove(Target::Dll(i)))
                } else {
                    self.after_dll(i)
                }
            },
            _ => self.fail(String::new()),
        }
    }

    fn on_dll_remove(&mut self, e: Event, i: usize) -> (r: Action)
        requires
            old(self)@.phase == Phase::DllRemove(i),
            accepts(old(self)@.phase, e@),
        ensures
            (final(self)@, r@) == next(old(self)@, e@),
    {
        match e {
            Event::Done => {
                let line = cat3("Supprimé : ", self.pending.as_str(), "");
                proof {
                    reveal_strlit("");
                    assert(line@ =~= msg_removed(self@.pending));
                }
                self.log_line(line);
                self.after_dll(i)
            },
            Event::Failed(err, _) => {
                let m = cat4("Suppression impossible de ", self.pending.as_str(), " : ", err.as_str());
                self.fail(m)
            },
            _ => self.fail(String::new()),
        }
    }

    /// Takes the outcome of the last action and gives the next action.
    pub fn step(&mut self, e: Event) -> (r: Action)
        requires
            accepts(old(self)@.phase, e@),
        ensures
            (final(self)@, r@) == next(old(self)@, e@),
    {
        match self.phase {
            Phase::DataDir => self.on_data_dir(e),
            Phase::Locate(f, ext) => self.on_locate(e, f, ext),
            Phase::ManagedDir => self.on_managed_dir(e),
            Phase::BackupProbe(f) => self.on_backup_probe(e, f),
            Phase::BackupCopy(f) => self.on_backup_copy(e, f),
            Phase::Reading(f) => self.on_reading(e, f),
            Phase::Writing(f) => self.on_writing(e, f),
            Phase::Rendering(_) => self.fail(String::new()),
            Phase::CopyDll(i) => self.on_copy_dll(e, i),
            Phase::RestoreProbe(f) => self.on_restore_probe(e, f),
            Phase::Restoring(f) => self.on_restoring(e, f),
            Phase::DropBackup(f) => self.on_drop_backup(e, f),
            Phase::DllProbe(i) => self.on_dll_probe(e, i),
            Phase::DllRemove(i) => self.on_dll_remove(e, i),
            Phase::Finished => self.fail(String::new()),
        }
    }
}

/// How a finished run is shown: its closing line, as a success or a failure.
pub enum Outcome {
    Success(String),
    Failure(String),
}

/// The closing line shown once a run of `mode` has ended well or not.
pub open spec fn closing_line(mode: Mode, ok: bool) -> Seq<char> {
    match (mode, ok) {
        (Mode::Install, true) => "ModLoader installé ! Lance BROKE PROTOCOL pour en profiter."@,
        (Mode::Install, false) => "L'installation a échoué."@,
        (Mode::Uninstall, true) => "ModLoader désinstallé."@,
        (Mode::Uninstall, false) => "La désinstallation a échoué."@,
    }
}

/// What the window shows once a run of `mode` has ended with `result`: the
/// run's log and its success line, or the error's message alone and the
/// failure line.
pub fn report(mode: Mode, result: Result<Vec<String>, InstallError>) -> (r: (Vec<String>, Outcome))
    ensures
        match result {
            Ok(steps) => strings_view(r.0@) == strings_view(steps@) && (r.1 matches Outcome::Success(
                m,
            ) && m@ == closing_line(mode, true)),
            Err(e) => strings_view(r.0@) == seq![e.0@] && (r.1 matches Outcome::Failure(m) && m@
                == closing_line(mode, false)),
        },
{
    match result {
        Ok(steps) => {
            let line = match mode {
                Mode::Install => String::from_str(
                    "ModLoader installé ! Lance BROKE PROTOCOL pour en profiter.",
                ),
                Mode::Uninstall => String::from_str("ModLoader désinstallé."),
            };
            (steps, Outcome::Success(line))
        },
        Err(e) => {
            let line = match mode {
                Mode::Install => String::from_str("L'installation a échoué."),
                Mode::Uninstall => String::from_str("La désinstallation a échoué."),
            };
            let mut lines: Vec<String> = Vec::new();
            lines.push(e.0);
            assert(strings_view(lines@) =~= seq![e.0@]);
            (lines, Outcome::Failure(line))
        },
    }
}

/// Every managed assembly is there, given for each (in order) whether it is.
pub open spec fn all_present(present: Seq<bool>) -> bool {
    forall|i: int| 0 <= i < MANAGED_DLL_COUNT ==> #[trigger] present[i]
}

/// Whether the mod loader looks installed: every managed assembly is in the
/// managed folder, given for each (in order) whether it is there.
pub fn is_installed(present: &Vec<bool>) -> (r: bool)
    requires
        present@.len() == MANAGED_DLL_COUNT,
    ensures
        r == all_present(present@),
{
    let mut i: usize = 0;
    while i < present.len()
        invariant
            i <= present@.len(),
            present@.len() == MANAGED_DLL_COUNT,
            forall|j: int| 0 <= j < i ==> #[trigger] present@[j],
        decreases present.len() - i,
    {
        if !present[i] {
            return false;
        }
        i = i + 1;
    }
    true
}

/// Starts an installation: the machine, and the first action to perform
/// (checking that the game's data folder is there).
pub fn install() -> (r: (Session, Action))
    ensures
        (r.0@, r.1@) == start(Mode::Install),
{
    Session::new(Mode::Install)
}

/// Starts an uninstallation: the machine, and its first action.
pub fn uninstall() -> (r: (Session, Action))
    ensures
        (r.0@, r.1@) == start(Mode::Uninstall),
{
    Session::new(Mode::Uninstall)
}

// ---------------------------------------------------------------------------
// Runs

/// The state and the pending action of a run of `mode` whose actions have been
/// answered by `events`, one event per action; `None` if some event does not
/// answer the action it follows.
pub open spec fn replay(mode: Mode, events: Seq<EventV>) -> Option<(SessionV, ActionV)>
    decreases events.len(),
{
    if events.len() == 0 {
        Some(start(mode))
    } else {
        match replay(mode, events.drop_last()) {
            Some((s, _)) => if accepts(s.phase, events.last()) {
                Some(next(s, events.last()))
            } else {
                None
            },
            None => None,
        }
    }
}

/// The action that the `k`-th event answered.
pub open spec fn answered(mode: Mode, events: Seq<EventV>, k: int) -> ActionV {
    replay(mode, events.take(k)).unwrap().1
}

/// The `k`-th step of the run secured the backup of a Unity file: the backup
/// was found to exist, or the file was copied to it.
pub open spec fn secures_backup(a: ActionV, e: EventV, f: UnityFile, ext: bool) -> bool {
    ||| a == ActionV::Check(Probe::Exists, Target::Backup(f, ext)) && e is Found && e->Found_0
    ||| a == ActionV::Copy(Target::Unity(f, ext), Target::Backup(f, ext)) && e == EventV::Done
}

/// The step copied the backup of a Unity file back over it.
pub open spec fn restores_backup(a: ActionV, e: EventV, f: UnityFile, ext: bool) -> bool {
    a == ActionV::Copy(Target::Backup(f, ext), Target::Unity(f, ext)) && e == EventV::Done
}

/// The step found the `i`-th assembly in the managed folder.
pub open spec fn finds_dll(a: ActionV, e: EventV, i: usize) -> bool {
    a == ActionV::Check(Probe::IsFile, Target::Dll(i)) && e is Found && e->Found_0
}

/// The step wrote the `j`-th assembly to the managed folder.
pub open spec fn wrote_dll(a: ActionV, e: EventV, j: usize) -> bool {
    a == ActionV::WriteDll(j) && e is Wrote
}

/// The step found the `j`-th assembly absent from the managed folder, or
/// removed it.
pub open spec fn dll_gone_step(a: ActionV, e: EventV, j: usize) -> bool {
    ||| a == ActionV::Check(Probe::IsFile, Target::Dll(j)) && e is Found && !e->Found_0
    ||| a == ActionV::Remove(Target::Dll(j)) && e == EventV::Done
}

/// The step copied the backup of the Unity file `f` back over it, or found
/// that `f` has no backup to restore.
pub open spec fn unity_restored_step(a: ActionV, e: EventV, f: UnityFile) -> bool {
    ||| a matches ActionV::Copy(Target::Backup(g, x), Target::Unity(h, y)) && g == f && h == f && x == y
        && e == EventV::Done
    ||| a matches ActionV::Check(Probe::IsFile, Target::Backup(g, _)) && g == f && e is Found
        && !e->Found_0
}

/// Among the steps answered by `events`, one wrote the `j`-th assembly.
pub open spec fn dll_written(mode: Mode, events: Seq<EventV>, j: usize) -> bool {
    some_step(mode, events, |x: ActionV, y: EventV| wrote_dll(x, y, j))
}

/// Among the steps answered by `events`, one found the `j`-th assembly
/// absent, or removed it.
pub open spec fn dll_gone(mode: Mode, events: Seq<EventV>, j: usize) -> bool {
    some_step(mode, events, |x: ActionV, y: EventV| dll_gone_step(x, y, j))
}

/// Among the steps answered by `events`, one restored the Unity file `f`
/// from its backup, or found it had none.
pub open spec fn unity_restored(mode: Mode, events: Seq<EventV>, f: UnityFile) -> bool {
    some_step(mode, events, |x: ActionV, y: EventV| unity_restored_step(x, y, f))
}

/// Some step of the run, among those answered by `events`, satisfies `p`.
pub open spec fn some_step(
    mode: Mode,
    events: Seq<EventV>,
    p: spec_fn(ActionV, EventV) -> bool,
) -> bool {
    exists|k: int| 0 <= k < events.len() && #[trigger] p(answered(mode, events, k), events[k])
}

/// Before the second Unity file is dealt with, the first one was restored.
spec fn first_restored(mode: Mode, events: Seq<EventV>, f: UnityFile) -> bool {
    f == UnityFile::RuntimeInit ==> unity_restored(mode, events, UnityFile::ScriptingAssemblies)
}

spec fn both_restored(mode: Mode, events: Seq<EventV>) -> bool {
    &&& unity_restored(mode, events, UnityFile::ScriptingAssemblies)
    &&& unity_restored(mode, events, UnityFile::RuntimeInit)
}

/// What a run that ends in `Ok` has done: an install wrote every assembly;
/// an uninstall restored both Unity files and left no assembly behind.
spec fn ended_well(mode: Mode, events: Seq<EventV>) -> bool {
    match mode {
        Mode::Install => forall|j: usize| j < MANAGED_DLL_COUNT ==> #[trigger] dll_written(mode, events, j),
        Mode::Uninstall => both_restored(mode, events) && forall|j: usize|
            j < MANAGED_DLL_COUNT ==> #[trigger] dll_gone(mode, events, j),
    }
}

/// What holds of every state of a run and of its pending action.
spec fn run_inv(mode: Mode, events: Seq<EventV>, s: SessionV, a: ActionV) -> bool {
    &&& s.mode == mode
    &&& match s.phase {
        Phase::BackupProbe(f) => a == ActionV::Check(Probe::Exists, Target::Backup(f, ext_of(s, f)))
            && mode == Mode::Install,
        Phase::BackupCopy(f) => a == ActionV::Copy(
            Target::Unity(f, ext_of(s, f)),
            Target::Backup(f, ext_of(s, f)),
        ) && mode == Mode::Install && events.len() > 0 && answered(mode, events, events.len() - 1)
            == ActionV::Check(Probe::Exists, Target::Backup(f, ext_of(s, f))) && events.last()
            is Found && !events.last()->Found_0,
        Phase::Reading(f) => a == ActionV::Read(Target::Unity(f, ext_of(s, f))) && some_step(
            mode,
            events,
            |x: ActionV, y: EventV| secures_backup(x, y, f, ext_of(s, f)),
        ) && mode == Mode::Install,
        Phase::Rendering(_) => false,
        Phase::Writing(f) => (a matches ActionV::Write(t, _) && t == Target::Unity(f, ext_of(s, f)))
            && some_step(
            mode,
            events,
            |x: ActionV, y: EventV| secures_backup(x, y, f, ext_of(s, f)),
        ) && mode == Mode::Install,
        Phase::CopyDll(i) => a == ActionV::WriteDll(i) && i < MANAGED_DLL_COUNT && mode
            == Mode::Install && (forall|j: usize| j < i ==> #[trigger] dll_written(mode, events, j)),
        Phase::RestoreProbe(f) => a == ActionV::Check(Probe::IsFile, Target::Backup(f, ext_of(s, f)))
            && mode == Mode::Uninstall && first_restored(mode, events, f),
        Phase::Restoring(f) => a == ActionV::Copy(
            Target::Backup(f, ext_of(s, f)),
            Target::Unity(f, ext_of(s, f)),
        ) && mode == Mode::Uninstall && first_restored(mode, events, f),
        Phase::DropBackup(f) => a == ActionV::Remove(Target::Backup(f, ext_of(s, f))) && some_step(
            mode,
            events,
            |x: ActionV, y: EventV| restores_backup(x, y, f, ext_of(s, f)),
        ) && mode == Mode::Uninstall && first_restored(mode, events, f),
        Phase::DllProbe(i) => a == ActionV::Check(Probe::IsFile, Target::Dll(i)) && i
            < MANAGED_DLL_COUNT && mode == Mode::Uninstall && both_restored(mode, events)
            && (forall|j: usize| j < i ==> #[trigger] dll_gone(mode, events, j)),
        Phase::DllRemove(i) => a == ActionV::Remove(Target::Dll(i)) && some_step(
            mode,
            events,
            |x: ActionV, y: EventV| finds_dll(x, y, i),
        ) && i < MANAGED_DLL_COUNT && mode == Mode::Uninstall && both_restored(mode, events)
            && (forall|j: usize| j < i ==> #[trigger] dll_gone(mode, events, j)),
        Phase::Finished => a is Finish && (a matches ActionV::Finish(Ok(_)) ==> ended_well(
            mode,
            events,
        )),
        Phase::DataDir => a == ActionV::Check(Probe::IsDir, Target::DataDir),
        Phase::Locate(f, ext) => a == ActionV::Check(Probe::IsFile, Target::Unity(f, ext)),
        Phase::ManagedDir => a == ActionV::Check(Probe::IsDir, Target::ManagedDir),
    }
}

proof fn lemma_answered_prefix(mode: Mode, events: Seq<EventV>, k: int)
    requires
        0 <= k < events.len(),
    ensures
        answered(mode, events.drop_last(), k) == answered(mode, events, k) || k == events.len() - 1,
{
    if k < events.len() - 1 {
        assert(events.drop_last().take(k) =~= events.take(k));
    }
}

proof fn lemma_some_step_grows(
    mode: Mode,
    events: Seq<EventV>,
    p: spec_fn(ActionV, EventV) -> bool,
)
    requires
        events.len() > 0,
        some_step(mode, events.drop_last(), p),
    ensures
        some_step(mode, events, p),
{
    let init = events.drop_last();
    let k = choose|k: int| 0 <= k < init.len() && #[trigger] p(answered(mode, init, k), init[k]);
    lemma_answered_prefix(mode, events, k);
    assert(init[k] == events[k]);
    assert(p(answered(mode, events, k), events[k]));
}

proof fn lemma_progress_grows(mode: Mode, events: Seq<EventV>)
    requires
        events.len() > 0,
    ensures
        forall|j: usize|
            dll_written(mode, events.drop_last(), j) ==> #[trigger] dll_written(mode, events, j),
        forall|j: usize| dll_gone(mode, events.drop_last(), j) ==> #[trigger] dll_gone(mode, events, j),
        forall|f: UnityFile|
            unity_restored(mode, events.drop_last(), f) ==> #[trigger] unity_restored(mode, events, f),
{
    assert forall|j: usize| dll_written(mode, events.drop_last(), j) implies #[trigger] dll_written(
        mode,
        events,
        j,
    ) by {
        lemma_some_step_grows(mode, events, |x: ActionV, y: EventV| wrote_dll(x, y, j));
    }
    assert forall|j: usize| dll_gone(mode, events.drop_last(), j) implies #[trigger] dll_gone(
        mode,
        events,
        j,
    ) by {
        lemma_some_step_grows(mode, events, |x: ActionV, y: EventV| dll_gone_step(x, y, j));
    }
    assert forall|f: UnityFile| unity_restored(mode, events.drop_last(), f) implies #[trigger] unity_restored(
        mode,
        events,
        f,
    ) by {
        lemma_some_step_grows(mode, events, |x: ActionV, y: EventV| unity_restored_step(x, y, f));
    }
}

proof fn lemma_restored_by_copy(mode: Mode, events: Seq<EventV>, f: UnityFile, ext: bool)
    requires
        some_step(mode, events, |x: ActionV, y: EventV| restores_backup(x, y, f, ext)),
    ensures
        unity_restored(mode, events, f),
{
    let p = |x: ActionV, y: EventV| restores_backup(x, y, f, ext);
    let k = choose|k: int| 0 <= k < events.len() && #[trigger] p(answered(mode, events, k), events[k]);
    assert(restores_backup(answered(mode, events, k), events[k], f, ext));
    lemma_step_at(mode, events, |x: ActionV, y: EventV| unity_restored_step(x, y, f), k);
}

proof fn lemma_step_at(mode: Mode, events: Seq<EventV>, p: spec_fn(ActionV, EventV) -> bool, k: int)
    requires
        0 <= k < events.len(),
        p(answered(mode, events, k), events[k]),
    ensures
        some_step(mode, events, p),
{
}

proof fn lemma_last_step(
    mode: Mode,
    events: Seq<EventV>,
    p: spec_fn(ActionV, EventV) -> bool,
)
    requires
        events.len() > 0,
        replay(mode, events.drop_last()) is Some,
        p(replay(mode, events.drop_last()).unwrap().1, events.last()),
    ensures
        some_step(mode, events, p),
{
    let k = events.len() - 1;
    assert(events.take(k) =~= events.drop_last());
    assert(p(answered(mode, events, k), events[k]));
}

proof fn lemma_inv_data_dir(mode: Mode, events: Seq<EventV>, s: SessionV, a: ActionV)
    requires
        events.len() > 0,
        replay(mode, events.drop_last()) == Some((s, a)),
        run_inv(mode, events.drop_last(), s, a),
        s.phase matches Phase::DataDir,
        accepts(s.phase, events.last()),
    ensures
        run_inv(mode, events, next(s, events.last()).0, next(s, events.last()).1),
{
    lemma_progress_grows(mode, events);
    let e = events.last();
}

proof fn lemma_inv_locate(mode: Mode, events: Seq<EventV>, s: SessionV, a: ActionV)
    requires
        events.len() > 0,
        replay(mode, events.drop_last()) == Some((s, a)),
        run_inv(mode, events.drop_last(), s, a),
        s.phase matches Phase::Locate(_, _),
        accepts(s.phase, events.last()),
    ensures
        run_inv(mode, events, next(s, events.last()).0, next(s, events.last()).1),
{
    lemma_progress_grows(mode, events);
    let e = events.last();
}

proof fn lemma_inv_managed_dir(mode: Mode, events: Seq<EventV>, s: SessionV, a: ActionV)
    requires
        events.len() > 0,
        replay(mode, events.drop_last()) == Some((s, a)),
        run_inv(mode, events.drop_last(), s, a),
        s.phase matches Phase::ManagedDir,
        accepts(s.phase, events.last()),
    ensures
        run_inv(mode, events, next(s, events.last()).0, next(s, events.last()).1),
{
    lemma_progress_grows(mode, events);
    let e = events.last();
}

proof fn lemma_inv_backup_probe(mode: Mode, events: Seq<EventV>, s: SessionV, a: ActionV)
    requires
        events.len() > 0,
        replay(mode, events.drop_last()) == Some((s, a)),
        run_inv(mode, events.drop_last(), s, a),
        s.phase matches Phase::BackupProbe(_),
        accepts(s.phase, events.last()),
    ensures
        run_inv(mode, events, next(s, events.last()).0, next(s, events.last()).1),
{
    lemma_progress_grows(mode, events);
    let e = events.last();
    let f = s.phase->BackupProbe_0;
    let ext = ext_of(s, f);
    if e is Found && e->Found_0 {
        lemma_last_step(mode, events, |x: ActionV, y: EventV| secures_backup(x, y, f, ext));
    } else {
        assert(events.take(events.len() - 1) =~= events.drop_last());
    }
}

proof fn lemma_inv_backup_copy(mode: Mode, events: Seq<EventV>, s: SessionV, a: ActionV)
    requires
        events.len() > 0,
        replay(mode, events.drop_last()) == Some((s, a)),
        run_inv(mode, events.drop_last(), s, a),
        s.phase matches Phase::BackupCopy(_),
        accepts(s.phase, events.last()),
    ensures
        run_inv(mode, events, next(s, events.last()).0, next(s, events.last()).1),
{
    lemma_progress_grows(mode, events);
    let e = events.last();
    let f = s.phase->BackupCopy_0;
    let ext = ext_of(s, f);
    if e == EventV::Done {
        lemma_last_step(mode, events, |x: ActionV, y: EventV| secures_backup(x, y, f, ext));
    }
}

proof fn lemma_inv_reading(mode: Mode, events: Seq<EventV>, s: SessionV, a: ActionV)
    requires
        events.len() > 0,
        replay(mode, events.drop_last()) == Some((s, a)),
        run_inv(mode, events.drop_last(), s, a),
        s.phase matches Phase::Reading(_),
        accepts(s.phase, events.last()),
    ensures
        run_inv(mode, events, next(s, events.last()).0, next(s, events.last()).1),
{
    lemma_progress_grows(mode, events);
    let e = events.last();
    let f = s.phase->Reading_0;
    let ext = ext_of(s, f);
    lemma_some_step_grows(mode, events, |x: ActionV, y: EventV| secures_backup(x, y, f, ext));
}

proof fn lemma_inv_writing(mode: Mode, events: Seq<EventV>, s: SessionV, a: ActionV)
    requires
        events.len() > 0,
        replay(mode, events.drop_last()) == Some((s, a)),
        run_inv(mode, events.drop_last(), s, a),
        s.phase matches Phase::Writing(_),
        accepts(s.phase, events.last()),
    ensures
        run_inv(mode, events, next(s, events.last()).0, next(s, events.last()).1),
{
    lemma_progress_grows(mode, events);
    let e = events.last();
}

proof fn lemma_inv_copy_dll(mode: Mode, events: Seq<EventV>, s: SessionV, a: ActionV)
    requires
        events.len() > 0,
        replay(mode, events.drop_last()) == Some((s, a)),
        run_inv(mode, events.drop_last(), s, a),
        s.phase matches Phase::CopyDll(_),
        accepts(s.phase, events.last()),
    ensures
        run_inv(mode, events, next(s, events.last()).0, next(s, events.last()).1),
{
    lemma_progress_grows(mode, events);
    let e = events.last();
    let i = s.phase->CopyDll_0;
    if e is Wrote {
        lemma_last_step(mode, events, |x: ActionV, y: EventV| wrote_dll(x, y, i));
        assert(dll_written(mode, events, i));
    }
}

proof fn lemma_inv_restore_probe(mode: Mode, events: Seq<EventV>, s: SessionV, a: ActionV)
    requires
        events.len() > 0,
        replay(mode, events.drop_last()) == Some((s, a)),
        run_inv(mode, events.drop_last(), s, a),
        s.phase matches Phase::RestoreProbe(_),
        accepts(s.phase, events.last()),
    ensures
        run_inv(mode, events, next(s, events.last()).0, next(s, events.last()).1),
{
    lemma_progress_grows(mode, events);
    let e = events.last();
    let f = s.phase->RestoreProbe_0;
    if e is Found && !e->Found_0 {
        lemma_last_step(mode, events, |x: ActionV, y: EventV| unity_restored_step(x, y, f));
        assert(unity_restored(mode, events, f));
    }
}

proof fn lemma_inv_restoring(mode: Mode, events: Seq<EventV>, s: SessionV, a: ActionV)
    requires
        events.len() > 0,
        replay(mode, events.drop_last()) == Some((s, a)),
        run_inv(mode, events.drop_last(), s, a),
        s.phase matches Phase::Restoring(_),
        accepts(s.phase, events.last()),
    ensures
        run_inv(mode, events, next(s, events.last()).0, next(s, events.last()).1),
{
    lemma_progress_grows(mode, events);
    let e = events.last();
    let f = s.phase->Restoring_0;
    let ext = ext_of(s, f);
    if e == EventV::Done {
        lemma_last_step(mode, events, |x: ActionV, y: EventV| restores_backup(x, y, f, ext));
    }
}

proof fn lemma_inv_drop_backup(mode: Mode, events: Seq<EventV>, s: SessionV, a: ActionV)
    requires
        events.len() > 0,
        replay(mode, events.drop_last()) == Some((s, a)),
        run_inv(mode, events.drop_last(), s, a),
        s.phase matches Phase::DropBackup(_),
        accepts(s.phase, events.last()),
    ensures
        run_inv(mode, events, next(s, events.last()).0, next(s, events.last()).1),
{
    lemma_progress_grows(mode, events);
    let e = events.last();
    let f = s.phase->DropBackup_0;
    lemma_restored_by_copy(mode, events.drop_last(), f, ext_of(s, f));
    assert(unity_restored(mode, events, f));
}

proof fn lemma_inv_dll_probe(mode: Mode, events: Seq<EventV>, s: SessionV, a: ActionV)
    requires
        events.len() > 0,
        replay(mode, events.drop_last()) == Some((s, a)),
        run_inv(mode, events.drop_last(), s, a),
        s.phase matches Phase::DllProbe(_),
        accepts(s.phase, events.last()),
    ensures
        run_inv(mode, events, next(s, events.last()).0, next(s, events.last()).1),
{
    lemma_progress_grows(mode, events);
    let e = events.last();
    let i = s.phase->DllProbe_0;
    if e is Found && e->Found_0 {
        lemma_last_step(mode, events, |x: ActionV, y: EventV| finds_dll(x, y, i));
    } else {
        lemma_last_step(mode, events, |x: ActionV, y: EventV| dll_gone_step(x, y, i));
        assert(dll_gone(mode, events, i));
    }
}

proof fn lemma_inv_dll_remove(mode: Mode, events: Seq<EventV>, s: SessionV, a: ActionV)
    requires
        events.len() > 0,
        replay(mode, events.drop_last()) == Some((s, a)),
        run_inv(mode, events.drop_last(), s, a),
        s.phase matches Phase::DllRemove(_),
        accepts(s.phase, events.last()),
    ensures
        run_inv(mode, events, next(s, events.last()).0, next(s, events.last()).1),
{
    lemma_progress_grows(mode, events);
    let e = events.last();
    let i = s.phase->DllRemove_0;
    if e == EventV::Done {
        lemma_last_step(mode, events, |x: ActionV, y: EventV| dll_gone_step(x, y, i));
        assert(dll_gone(mode, events, i));
        assert(forall|j: usize| j < i + 1 ==> #[trigger] dll_gone(mode, events, j));
        assert(both_restored(mode, events));
    }
}

proof fn lemma_run_inv(mode: Mode, events: Seq<EventV>)
    requires
        replay(mode, events) is Some,
    ensures
        run_inv(mode, events, replay(mode, events).unwrap().0, replay(mode, events).unwrap().1),
    decreases events.len(),
{
    if events.len() > 0 {
        let init = events.drop_last();
        lemma_run_inv(mode, init);
        let (s, a) = replay(mode, init).unwrap();
        match s.phase {
            Phase::DataDir => lemma_inv_data_dir(mode, events, s, a),
            Phase::Locate(..) => lemma_inv_locate(mode, events, s, a),
            Phase::ManagedDir => lemma_inv_managed_dir(mode, events, s, a),
            Phase::BackupProbe(..) => lemma_inv_backup_probe(mode, events, s, a),
            Phase::BackupCopy(..) => lemma_inv_backup_copy(mode, events, s, a),
            Phase::Reading(..) => lemma_inv_reading(mode, events, s, a),
            Phase::Writing(..) => lemma_inv_writing(mode, events, s, a),
            Phase::CopyDll(..) => lemma_inv_copy_dll(mode, events, s, a),
            Phase::RestoreProbe(..) => lemma_inv_restore_probe(mode, events, s, a),
            Phase::Restoring(..) => lemma_inv_restoring(mode, events, s, a),
            Phase::DropBackup(..) => lemma_inv_drop_backup(mode, events, s, a),
            Phase::DllProbe(..) => lemma_inv_dll_probe(mode, events, s, a),
            Phase::DllRemove(..) => lemma_inv_dll_remove(mode, events, s, a),
            Phase::Rendering(_) | Phase::Finished => {},
        }
    }
}

/// The installer writes a Unity file only once its backup is secured: in an
/// earlier step of the same run the backup was found to exist, or the file
/// was copied to it.
pub proof fn law_backup_before_write(
    mode: Mode,
    events: Seq<EventV>,
    f: UnityFile,
    ext: bool,
)
    requires
        replay(mode, events) matches Some((_, ActionV::Write(t, _))) && t == Target::Unity(f, ext),
    ensures
        exists|k: int|
            0 <= k < events.len() && secures_backup(
                #[trigger] answered(mode, events, k),
                events[k],
                f,
                ext,
            ),
{
    lemma_run_inv(mode, events);
    let p = |x: ActionV, y: EventV| secures_backup(x, y, f, ext);
    assert(some_step(mode, events, p));
    let k = choose|k: int| 0 <= k < events.len() && #[trigger] p(answered(mode, events, k), events[k]);
    assert(secures_backup(answered(mode, events, k), events[k], f, ext));
}

/// The installer copies a Unity file to its backup only in the step right
/// after a check, in the same run, found that the backup does not exist.
pub proof fn law_backup_never_overwritten(mode: Mode, events: Seq<EventV>, from: Target, f: UnityFile, ext: bool)
    requires
        replay(mode, events) matches Some((_, ActionV::Copy(a, b))) && a == from && b == Target::Backup(f, ext),
    ensures
        mode == Mode::Install,
        events.len() > 0,
        answered(mode, events, events.len() - 1) == ActionV::Check(Probe::Exists, Target::Backup(f, ext)),
        events.last() is Found && !events.last()->Found_0,
{
    lemma_run_inv(mode, events);
}

/// The installer never deletes a file; the uninstaller deletes the backup of
/// a Unity file only once it has copied it back over the file, and an
/// assembly only once it has found it in the managed folder.
pub proof fn law_removes_only_what_is_restored_or_found(mode: Mode, events: Seq<EventV>, t: Target)
    requires
        replay(mode, events) matches Some((_, ActionV::Remove(r))) && r == t,
    ensures
        mode == Mode::Uninstall,
        t matches Target::Backup(f, ext) ==> exists|k: int|
            0 <= k < events.len() && restores_backup(
                #[trigger] answered(mode, events, k),
                events[k],
                f,
                ext,
            ),
        t matches Target::Dll(i) ==> exists|k: int|
            0 <= k < events.len() && finds_dll(#[trigger] answered(mode, events, k), events[k], i),
        t is Backup || t is Dll,
{
    lemma_run_inv(mode, events);
    let (s, a) = replay(mode, events).unwrap();
    match s.phase {
        Phase::DropBackup(f) => {
            let ext = ext_of(s, f);
            let p = |x: ActionV, y: EventV| restores_backup(x, y, f, ext);
            let k = choose|k: int| 0 <= k < events.len() && #[trigger] p(answered(mode, events, k), events[k]);
            assert(restores_backup(answered(mode, events, k), events[k], f, ext));
        },
        Phase::DllRemove(i) => {
            let p = |x: ActionV, y: EventV| finds_dll(x, y, i);
            let k = choose|k: int| 0 <= k < events.len() && #[trigger] p(answered(mode, events, k), events[k]);
            assert(finds_dll(answered(mode, events, k), events[k], i));
        },
        _ => {},
    }
}

/// An install that ends in `Ok` has written every assembly to the managed
/// folder: in some step of the run, its `WriteDll` was answered `Wrote`.
pub proof fn law_install_ok_writes_every_dll(events: Seq<EventV>, j: usize)
    requires
        replay(Mode::Install, events) matches Some((_, ActionV::Finish(Ok(_)))),
        j < MANAGED_DLL_COUNT,
    ensures
        dll_written(Mode::Install, events, j),
{
    lemma_run_inv(Mode::Install, events);
}

/// An uninstall that ends in `Ok` has copied each Unity file back from its
/// backup (or found that it had none), and has removed each assembly from
/// the managed folder (or found it absent).
pub proof fn law_uninstall_ok_restores_and_removes(events: Seq<EventV>, j: usize)
    requires
        replay(Mode::Uninstall, events) matches Some((_, ActionV::Finish(Ok(_)))),
        j < MANAGED_DLL_COUNT,
    ensures
        unity_restored(Mode::Uninstall, events, UnityFile::ScriptingAssemblies),
        unity_restored(Mode::Uninstall, events, UnityFile::RuntimeInit),
        dll_gone(Mode::Uninstall, events, j),
{
    lemma_run_inv(Mode::Uninstall, events);
}

/// Two actions are the same step: equal, or both the end of the run with the
/// same kind of outcome (success or failure), whatever their messages.
pub open spec fn same_step(a1: ActionV, a2: ActionV) -> bool {
    ||| a1 == a2
    ||| a1 matches ActionV::Finish(r1) && a2 matches ActionV::Finish(r2) && (r1 is Ok) == (r2 is Ok)
}

/// The path that a check reports is only ever shown to the user: answering a
/// check with the same found flag and any two paths leads to the same phase,
/// keeps the same file names, and asks for the same next action (or ends the
/// run the same way). In particular the data-folder and managed-folder checks
/// fail a run only when the folder is not found.
pub proof fn law_shown_path_decides_nothing(s: SessionV, found: bool, x: Seq<char>, y: Seq<char>)
    ensures
        next(s, EventV::Found(found, x)).0.phase == next(s, EventV::Found(found, y)).0.phase,
        next(s, EventV::Found(found, x)).0.mode == next(s, EventV::Found(found, y)).0.mode,
        next(s, EventV::Found(found, x)).0.sa_ext == next(s, EventV::Found(found, y)).0.sa_ext,
        next(s, EventV::Found(found, x)).0.ri_ext == next(s, EventV::Found(found, y)).0.ri_ext,
        same_step(next(s, EventV::Found(found, x)).1, next(s, EventV::Found(found, y)).1),
{
}

/// A found folder passes the data-folder check of either mode, and the
/// managed-folder check leads an install to the backups and an uninstall to
/// the restores, whatever path they report.
pub proof fn law_found_folders_go_on(s: SessionV, shown: Seq<char>)
    ensures
        s.phase == Phase::DataDir ==> next(s, EventV::Found(true, shown)).0.phase == Phase::Locate(
            UnityFile::ScriptingAssemblies,
            true,
        ),
        s.phase == Phase::ManagedDir && s.mode == Mode::Install ==> next(
            s,
            EventV::Found(true, shown),
        ).0.phase == Phase::BackupProbe(UnityFile::ScriptingAssemblies),
        s.phase == Phase::ManagedDir && s.mode == Mode::Uninstall ==> next(
            s,
            EventV::Found(true, shown),
        ).0.phase == Phase::RestoreProbe(UnityFile::ScriptingAssemblies),
{
}

} // verus!
