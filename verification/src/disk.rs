//! A model of the game folder as the installer's actions change it, on a
//! disk where every operation on an existing file succeeds, and what runs of
//! the installer and of the uninstaller do to it.
use vstd::prelude::*;

use crate::installer::{
    accepts, all_present, ext_of, next, patch_of, start, ActionV, EventV, Mode, Phase, Probe, SessionV, Target,
    UnityFile,
};
use crate::json::{json_parse_result, json_render_result, JsonV};
use crate::patch::{law_runtime_init_idempotent, law_scripting_assemblies_idempotent, PatchOutcomeV};
use crate::layout::MANAGED_DLL_COUNT;

verus! {

/// What stands at a place of the game folder.
pub enum Node {
    Dir,
    Text(Seq<char>),
    /// The bytes of the `i`-th managed assembly.
    Assembly(usize),
}

/// A file, not a folder, stands at `t`.
pub open spec fn is_file(d: Map<Target, Node>, t: Target) -> bool {
    d.contains_key(t) && !(d[t] is Dir)
}

/// The answer of a check on the folder.
pub open spec fn probe_holds(d: Map<Target, Node>, p: Probe, t: Target) -> bool {
    match p {
        Probe::IsDir => d.contains_key(t) && d[t] is Dir,
        Probe::IsFile => is_file(d, t),
        Probe::Exists => d.contains_key(t),
    }
}

/// What the action does to the folder, and the event that answers it: copies
/// and removals of an existing file, reads of a text, and writes succeed.
pub open spec fn perform(d: Map<Target, Node>, a: ActionV) -> (Map<Target, Node>, EventV) {
    match a {
        ActionV::Check(p, t) => (d, EventV::Found(probe_holds(d, p, t), Seq::empty())),
        ActionV::Copy(from, to) => if is_file(d, from) {
            (d.insert(to, d[from]), EventV::Done)
        } else {
            (d, EventV::Failed(Seq::empty(), Seq::empty()))
        },
        ActionV::Read(t) => if d.contains_key(t) && d[t] is Text {
            (d, EventV::Text(d[t]->Text_0))
        } else {
            (d, EventV::Failed(Seq::empty(), Seq::empty()))
        },
        ActionV::Write(t, text) => (d.insert(t, Node::Text(text)), EventV::Done),
        ActionV::WriteDll(i) => (d.insert(Target::Dll(i), Node::Assembly(i)), EventV::Wrote(0)),
        ActionV::Remove(t) => if is_file(d, t) {
            (d.remove(t), EventV::Done)
        } else {
            (d, EventV::Failed(Seq::empty(), Seq::empty()))
        },
        ActionV::Finish(_) => (d, EventV::Done),
    }
}

/// How a run in state `s` with pending action `a` ends on the folder `d`,
/// within `fuel` actions: its outcome and the folder it leaves.
pub open spec fn run_from(
    s: SessionV,
    a: ActionV,
    d: Map<Target, Node>,
    fuel: nat,
) -> Option<(Result<Seq<Seq<char>>, Seq<char>>, Map<Target, Node>)>
    decreases fuel,
{
    match a {
        ActionV::Finish(r) => Some((r, d)),
        _ => if fuel == 0 {
            None
        } else {
            let (d2, e) = perform(d, a);
            if accepts(s.phase, e) {
                run_from(next(s, e).0, next(s, e).1, d2, (fuel - 1) as nat)
            } else {
                None
            }
        },
    }
}

/// How a run of `mode` ends on the folder `d`, within `fuel` actions.
pub open spec fn run_on(
    mode: Mode,
    d: Map<Target, Node>,
    fuel: nat,
) -> Option<(Result<Seq<Seq<char>>, Seq<char>>, Map<Target, Node>)> {
    run_from(start(mode).0, start(mode).1, d, fuel)
}

/// Whether the Unity file `f` is found with the `.json` extension.
pub open spec fn chosen(d: Map<Target, Node>, f: UnityFile) -> bool {
    is_file(d, Target::Unity(f, true))
}

/// The Unity file `f` that runs on `d0` edit.
pub open spec fn unity_at(d0: Map<Target, Node>, f: UnityFile) -> Target {
    Target::Unity(f, chosen(d0, f))
}

/// The backup of the Unity file `f` that runs on `d0` make.
pub open spec fn backup_at(d0: Map<Target, Node>, f: UnityFile) -> Target {
    Target::Backup(f, chosen(d0, f))
}

/// The places of `d0` that a run may change.
pub open spec fn may_change(d0: Map<Target, Node>, t: Target) -> bool {
    match t {
        Target::Unity(f, x) => x == chosen(d0, f),
        Target::Backup(f, x) => x == chosen(d0, f),
        Target::Dll(i) => i < MANAGED_DLL_COUNT,
        _ => false,
    }
}

/// A game folder where neither Unity file that runs edit has a backup, and
/// no managed assembly stands in its place.
pub open spec fn fresh(d0: Map<Target, Node>) -> bool {
    &&& !d0.contains_key(backup_at(d0, UnityFile::ScriptingAssemblies))
    &&& !d0.contains_key(backup_at(d0, UnityFile::RuntimeInit))
    &&& forall|i: usize| i < MANAGED_DLL_COUNT ==> !#[trigger] d0.contains_key(Target::Dll(i))
}

/// `d` agrees with `d0` on every place that a run does not change.
pub open spec fn same_elsewhere(d0: Map<Target, Node>, d: Map<Target, Node>) -> bool {
    forall|t: Target|
        #![trigger d.contains_key(t)]
        #![trigger d0.contains_key(t)]
        !may_change(d0, t) ==> (d.contains_key(t) == d0.contains_key(t) && (d0.contains_key(t)
            ==> d[t] == d0[t]))
}

/// The backup of `f` in `d` holds the file as it stands in `d0`.
pub open spec fn backed(d0: Map<Target, Node>, d: Map<Target, Node>, f: UnityFile) -> bool {
    &&& is_file(d, backup_at(d0, f))
    &&& d0.contains_key(unity_at(d0, f))
    &&& d[backup_at(d0, f)] == d0[unity_at(d0, f)]
}

/// `f` has no backup in `d`, and stands in `d` as in `d0`.
pub open spec fn pristine(d0: Map<Target, Node>, d: Map<Target, Node>, f: UnityFile) -> bool {
    &&& !d.contains_key(backup_at(d0, f))
    &&& d.contains_key(unity_at(d0, f)) == d0.contains_key(unity_at(d0, f))
    &&& d0.contains_key(unity_at(d0, f)) ==> d[unity_at(d0, f)] == d0[unity_at(d0, f)]
}

/// `d` differs from `d0` only where a run may write, and keeps each Unity
/// file of `d0` as it was, or in its backup.
pub open spec fn keeps_originals(d0: Map<Target, Node>, d: Map<Target, Node>) -> bool {
    &&& same_elsewhere(d0, d)
    &&& chosen(d, UnityFile::ScriptingAssemblies) == chosen(d0, UnityFile::ScriptingAssemblies)
    &&& chosen(d, UnityFile::RuntimeInit) == chosen(d0, UnityFile::RuntimeInit)
    &&& backed(d0, d, UnityFile::ScriptingAssemblies) || pristine(d0, d, UnityFile::ScriptingAssemblies)
    &&& backed(d0, d, UnityFile::RuntimeInit) || pristine(d0, d, UnityFile::RuntimeInit)
}

/// `d` is `d0` once installed: both Unity files found and saved in their
/// backups, and every managed assembly in place.
pub open spec fn installed_over(d0: Map<Target, Node>, d: Map<Target, Node>) -> bool {
    &&& keeps_originals(d0, d)
    &&& probe_holds(d, Probe::IsDir, Target::DataDir)
    &&& probe_holds(d, Probe::IsDir, Target::ManagedDir)
    &&& is_file(d, unity_at(d0, UnityFile::ScriptingAssemblies))
    &&& is_file(d, unity_at(d0, UnityFile::RuntimeInit))
    &&& backed(d0, d, UnityFile::ScriptingAssemblies)
    &&& backed(d0, d, UnityFile::RuntimeInit)
    &&& forall|i: usize| i < MANAGED_DLL_COUNT ==> #[trigger] dll_placed(d, i)
}

/// The `i`-th managed assembly stands in its place.
pub open spec fn dll_placed(d: Map<Target, Node>, i: usize) -> bool {
    d.contains_key(Target::Dll(i)) && d[Target::Dll(i)] == Node::Assembly(i)
}

/// The Unity file `f` of `d0` stands in `d` as a text that reads as a
/// document that the edit of `f` leaves as it is.
pub open spec fn up_to_date(d0: Map<Target, Node>, d: Map<Target, Node>, f: UnityFile) -> bool {
    &&& d.contains_key(unity_at(d0, f))
    &&& d[unity_at(d0, f)] matches Node::Text(text) && json_parse_result(text) matches Ok(doc)
        && patch_of(f, doc) is AlreadyPresent
}

/// Where an install on `d` edits the Unity file `f` of `d0`, the JSON
/// printer's text of the edited document reads back as that document.
pub open spec fn reads_back(d0: Map<Target, Node>, d: Map<Target, Node>, f: UnityFile) -> bool {
    d[unity_at(d0, f)] matches Node::Text(text) && json_parse_result(text) matches Ok(doc)
        && patch_of(f, doc) matches PatchOutcomeV::Updated { doc: edited, .. } && json_render_result(
        edited,
    ) matches Ok(printed) ==> json_parse_result(printed) == Result::<JsonV, Seq<char>>::Ok(edited)
}

/// The Unity file `f` of `d0` stands in `d` as in `ds`.
spec fn as_started(d0: Map<Target, Node>, ds: Map<Target, Node>, d: Map<Target, Node>, f: UnityFile) -> bool {
    d.contains_key(unity_at(d0, f)) == ds.contains_key(unity_at(d0, f)) && d[unity_at(d0, f)]
        == ds[unity_at(d0, f)]
}

/// Once the install has dealt with `f`: where the printed text of its edit
/// reads back, `f` is up to date.
spec fn dealt_with(d0: Map<Target, Node>, ds: Map<Target, Node>, d: Map<Target, Node>, f: UnityFile) -> bool {
    reads_back(d0, ds, f) ==> up_to_date(d0, d, f)
}

/// Before the install deals with `f`, `f` is as it was, and the one before it dealt with.
spec fn not_yet(d0: Map<Target, Node>, ds: Map<Target, Node>, d: Map<Target, Node>, f: UnityFile) -> bool {
    &&& as_started(d0, ds, d, f)
    &&& f == UnityFile::ScriptingAssemblies ==> as_started(d0, ds, d, UnityFile::RuntimeInit)
    &&& f == UnityFile::RuntimeInit ==> dealt_with(d0, ds, d, UnityFile::ScriptingAssemblies)
}

/// The run found `f` where runs on `d0` find it.
spec fn located(d0: Map<Target, Node>, s: SessionV, d: Map<Target, Node>, f: UnityFile) -> bool {
    ext_of(s, f) == chosen(d0, f) && is_file(d, unity_at(d0, f))
}

spec fn both_located(d0: Map<Target, Node>, s: SessionV, d: Map<Target, Node>) -> bool {
    located(d0, s, d, UnityFile::ScriptingAssemblies) && located(d0, s, d, UnityFile::RuntimeInit)
}

/// What holds of every state of an install that started on the folder `ds`,
/// which keeps the originals of `d0`.
spec fn install_inv(
    d0: Map<Target, Node>,
    ds: Map<Target, Node>,
    s: SessionV,
    a: ActionV,
    d: Map<Target, Node>,
) -> bool {
    &&& s.mode == Mode::Install
    &&& keeps_originals(d0, d)
    &&& match s.phase {
        Phase::DataDir => a == ActionV::Check(Probe::IsDir, Target::DataDir) && not_yet(
            d0,
            ds,
            d,
            UnityFile::ScriptingAssemblies,
        ),
        Phase::Locate(f, ext) => a == ActionV::Check(Probe::IsFile, Target::Unity(f, ext)) && (!ext
            ==> !chosen(d0, f)) && (f == UnityFile::RuntimeInit ==> located(
            d0,
            s,
            d,
            UnityFile::ScriptingAssemblies,
        )) && probe_holds(d, Probe::IsDir, Target::DataDir) && not_yet(
            d0,
            ds,
            d,
            UnityFile::ScriptingAssemblies,
        ),
        Phase::ManagedDir => a == ActionV::Check(Probe::IsDir, Target::ManagedDir) && both_located(
            d0,
            s,
            d,
        ) && probe_holds(d, Probe::IsDir, Target::DataDir) && not_yet(
            d0,
            ds,
            d,
            UnityFile::ScriptingAssemblies,
        ),
        Phase::BackupProbe(f) => a == ActionV::Check(Probe::Exists, backup_at(d0, f)) && not_yet(
            d0,
            ds,
            d,
            f,
        ) && dirs_found(d)
            && both_located(d0, s, d) && (f == UnityFile::RuntimeInit ==> backed(
            d0,
            d,
            UnityFile::ScriptingAssemblies,
        )),
        Phase::BackupCopy(f) => a == ActionV::Copy(unity_at(d0, f), backup_at(d0, f)) && not_yet(
            d0,
            ds,
            d,
            f,
        ) && dirs_found(d)
            && both_located(d0, s, d) && pristine(d0, d, f) && (f == UnityFile::RuntimeInit
            ==> backed(d0, d, UnityFile::ScriptingAssemblies)),
        Phase::Reading(f) => a == ActionV::Read(unity_at(d0, f)) && not_yet(d0, ds, d, f) && dirs_found(
            d,
        ) && both_located(
            d0,
            s,
            d,
        ) && backed(d0, d, f) && (f == UnityFile::RuntimeInit ==> backed(
            d0,
            d,
            UnityFile::ScriptingAssemblies,
        )),
        Phase::Writing(f) => (a matches ActionV::Write(t, _) && t == unity_at(d0, f)) && (reads_back(
            d0,
            ds,
            f,
        ) ==> (a matches ActionV::Write(_, text) && json_parse_result(text) matches Ok(doc)
            && patch_of(f, doc) is AlreadyPresent)) && (f == UnityFile::ScriptingAssemblies
            ==> as_started(d0, ds, d, UnityFile::RuntimeInit)) && (f == UnityFile::RuntimeInit
            ==> dealt_with(d0, ds, d, UnityFile::ScriptingAssemblies)) && dirs_found(d)
            && both_located(d0, s, d) && backed(d0, d, f) && (f == UnityFile::RuntimeInit ==> backed(
            d0,
            d,
            UnityFile::ScriptingAssemblies,
        )),
        Phase::CopyDll(i) => a == ActionV::WriteDll(i) && i < MANAGED_DLL_COUNT && dirs_found(d)
            && both_located(d0, s, d) && backed(d0, d, UnityFile::ScriptingAssemblies) && backed(
            d0,
            d,
            UnityFile::RuntimeInit,
        ) && (forall|j: usize| j < i ==> #[trigger] dll_placed(d, j)) && dealt_with(
            d0,
            ds,
            d,
            UnityFile::ScriptingAssemblies,
        ) && dealt_with(d0, ds, d, UnityFile::RuntimeInit),
        Phase::Finished => a is Finish && (a matches ActionV::Finish(Ok(_)) ==> installed_over(d0, d)
            && dealt_with(d0, ds, d, UnityFile::ScriptingAssemblies) && dealt_with(
            d0,
            ds,
            d,
            UnityFile::RuntimeInit,
        )),
        _ => false,
    }
}

spec fn dirs_found(d: Map<Target, Node>) -> bool {
    probe_holds(d, Probe::IsDir, Target::DataDir) && probe_holds(d, Probe::IsDir, Target::ManagedDir)
}

/// Writing to a place that a run may change keeps the rest of the folder.
proof fn lemma_write_elsewhere(d0: Map<Target, Node>, d: Map<Target, Node>, t: Target, v: Node)
    requires
        same_elsewhere(d0, d),
        may_change(d0, t),
    ensures
        same_elsewhere(d0, d.insert(t, v)),
{
    let d2 = d.insert(t, v);
    assert forall|u: Target| !may_change(d0, u) implies (#[trigger] d2.contains_key(u)
        == d0.contains_key(u) && (d0.contains_key(u) ==> d2[u] == d0[u])) by {
        assert(u != t);
        assert(d.contains_key(u) == d0.contains_key(u));
    }
}

/// Removing a place that a run may change keeps the rest of the folder.
proof fn lemma_remove_elsewhere(d0: Map<Target, Node>, d: Map<Target, Node>, t: Target)
    requires
        same_elsewhere(d0, d),
        may_change(d0, t),
    ensures
        same_elsewhere(d0, d.remove(t)),
{
    let d2 = d.remove(t);
    assert forall|u: Target| !may_change(d0, u) implies (#[trigger] d2.contains_key(u)
        == d0.contains_key(u) && (d0.contains_key(u) ==> d2[u] == d0[u])) by {
        assert(u != t);
        assert(d.contains_key(u) == d0.contains_key(u));
    }
}

/// A fresh folder keeps its own originals.
pub proof fn lemma_fresh_keeps_originals(d0: Map<Target, Node>)
    requires
        fresh(d0),
    ensures
        keeps_originals(d0, d0),
{
    assert(!d0.contains_key(backup_at(d0, UnityFile::ScriptingAssemblies)));
    assert(!d0.contains_key(backup_at(d0, UnityFile::RuntimeInit)));
}

proof fn lemma_install_step(
    d0: Map<Target, Node>,
    ds: Map<Target, Node>,
    s: SessionV,
    a: ActionV,
    d: Map<Target, Node>,
)
    requires
        install_inv(d0, ds, s, a, d),
        !(a is Finish),
        accepts(s.phase, perform(d, a).1),
    ensures
        install_inv(d0, ds, next(s, perform(d, a).1).0, next(s, perform(d, a).1).1, perform(d, a).0),
{
    let (d2, e) = perform(d, a);
    let sa = UnityFile::ScriptingAssemblies;
    let ri = UnityFile::RuntimeInit;
    match s.phase {
        Phase::BackupCopy(f) => {
            if is_file(d, unity_at(d0, f)) {
                lemma_write_elsewhere(d0, d, backup_at(d0, f), d[unity_at(d0, f)]);
                assert(d2[backup_at(d0, f)] == d0[unity_at(d0, f)]);
                assert(backed(d0, d2, f));
                assert(d2[unity_at(d0, sa)] == d[unity_at(d0, sa)]);
                assert(d2[unity_at(d0, ri)] == d[unity_at(d0, ri)]);
                assert(d2[Target::Unity(sa, true)] == d[Target::Unity(sa, true)]);
                assert(d2[Target::Unity(ri, true)] == d[Target::Unity(ri, true)]);
                if f == ri {
                    assert(d2[backup_at(d0, sa)] == d[backup_at(d0, sa)]);
                    assert(backed(d0, d2, sa));
                } else {
                    assert(d2[backup_at(d0, ri)] == d[backup_at(d0, ri)]);
                    assert(backed(d0, d2, ri) || pristine(d0, d2, ri));
                }
                assert(keeps_originals(d0, d2));
            }
        },
        Phase::Reading(f) => {
            if e is Text {
                let parsed = json_parse_result(e->Text_0);
                if parsed is Ok {
                    let doc = parsed->Ok_0;
                    law_scripting_assemblies_idempotent(doc);
                    law_runtime_init_idempotent(doc);
                }
            }
        },
        Phase::Writing(f) => {
            let t = unity_at(d0, f);
            let text = a->Write_1;
            assert(d2[unity_at(d0, sa)] == d[unity_at(d0, sa)] || f == sa);
            assert(d2[unity_at(d0, ri)] == d[unity_at(d0, ri)] || f == ri);
            lemma_write_elsewhere(d0, d, t, Node::Text(text));
            assert(d2[backup_at(d0, sa)] == d[backup_at(d0, sa)]);
            assert(d2[backup_at(d0, ri)] == d[backup_at(d0, ri)]);
            assert(d2[Target::Unity(sa, true)] == d[Target::Unity(sa, true)] || t == Target::Unity(sa, true));
            assert(d2[Target::Unity(ri, true)] == d[Target::Unity(ri, true)] || t == Target::Unity(ri, true));
            assert(keeps_originals(d0, d2));
        },
        Phase::CopyDll(i) => {
            lemma_write_elsewhere(d0, d, Target::Dll(i), Node::Assembly(i));
            assert(d2[backup_at(d0, sa)] == d[backup_at(d0, sa)]);
            assert(d2[backup_at(d0, ri)] == d[backup_at(d0, ri)]);
            assert(d2[Target::Unity(sa, true)] == d[Target::Unity(sa, true)]);
            assert(d2[Target::Unity(ri, true)] == d[Target::Unity(ri, true)]);
            assert(d2[unity_at(d0, sa)] == d[unity_at(d0, sa)]);
            assert(d2[unity_at(d0, ri)] == d[unity_at(d0, ri)]);
            assert(keeps_originals(d0, d2));
            assert forall|j: usize| j < i + 1 implies #[trigger] dll_placed(d2, j) by {
                if j < i {
                    assert(dll_placed(d, j));
                }
            }
            assert(d2[unity_at(d0, sa)] == d[unity_at(d0, sa)]);
            assert(d2[unity_at(d0, ri)] == d[unity_at(d0, ri)]);
        },
        _ => {},
    }
}

/// An install that ends in `Ok` from a state of the invariant leaves the
/// folder installed over `d0`.
proof fn lemma_install_run(
    d0: Map<Target, Node>,
    ds: Map<Target, Node>,
    s: SessionV,
    a: ActionV,
    d: Map<Target, Node>,
    fuel: nat,
)
    requires
        install_inv(d0, ds, s, a, d),
        run_from(s, a, d, fuel) matches Some((Ok(_), _)),
    ensures
        installed_over(d0, run_from(s, a, d, fuel).unwrap().1),
        dealt_with(d0, ds, run_from(s, a, d, fuel).unwrap().1, UnityFile::ScriptingAssemblies),
        dealt_with(d0, ds, run_from(s, a, d, fuel).unwrap().1, UnityFile::RuntimeInit),
    decreases fuel,
{
    match a {
        ActionV::Finish(_) => {},
        _ => {
            let (d2, e) = perform(d, a);
            lemma_install_step(d0, ds, s, a, d);
            lemma_install_run(d0, ds, next(s, e).0, next(s, e).1, d2, (fuel - 1) as nat);
        },
    }
}

/// An install that ends in `Ok`, on a folder that keeps the originals of
/// `d0` (`d0` itself when it is [`fresh`], or `d0`
/// after earlier installs), leaves both Unity files of `d0` saved in their
/// backups, every managed assembly in place, and the rest of `d0` as it was;
/// and each Unity file whose edit the JSON printer prints so that it reads
/// back is left up to date.
pub proof fn law_install_keeps_originals(d0: Map<Target, Node>, d: Map<Target, Node>, fuel: nat)
    requires
        keeps_originals(d0, d),
        run_on(Mode::Install, d, fuel) matches Some((Ok(_), _)),
    ensures
        installed_over(d0, run_on(Mode::Install, d, fuel).unwrap().1),
        reads_back(d0, d, UnityFile::ScriptingAssemblies) ==> up_to_date(
            d0,
            run_on(Mode::Install, d, fuel).unwrap().1,
            UnityFile::ScriptingAssemblies,
        ),
        reads_back(d0, d, UnityFile::RuntimeInit) ==> up_to_date(
            d0,
            run_on(Mode::Install, d, fuel).unwrap().1,
            UnityFile::RuntimeInit,
        ),
{
    lemma_install_run(d0, d, start(Mode::Install).0, start(Mode::Install).1, d, fuel);
}

/// What holds of every state of an install on a folder that is installed
/// over `d0` with both Unity files up to date: the folder stays as it is.
spec fn reinstall_inv(d0: Map<Target, Node>, s: SessionV, a: ActionV, d: Map<Target, Node>) -> bool {
    &&& s.mode == Mode::Install
    &&& installed_over(d0, d)
    &&& up_to_date(d0, d, UnityFile::ScriptingAssemblies)
    &&& up_to_date(d0, d, UnityFile::RuntimeInit)
    &&& match s.phase {
        Phase::DataDir => a == ActionV::Check(Probe::IsDir, Target::DataDir),
        Phase::Locate(f, ext) => a == ActionV::Check(Probe::IsFile, Target::Unity(f, ext)) && (!ext
            ==> !chosen(d0, f)) && (f == UnityFile::RuntimeInit ==> located(
            d0,
            s,
            d,
            UnityFile::ScriptingAssemblies,
        )),
        Phase::ManagedDir => a == ActionV::Check(Probe::IsDir, Target::ManagedDir) && both_located(
            d0,
            s,
            d,
        ),
        Phase::BackupProbe(f) => a == ActionV::Check(Probe::Exists, backup_at(d0, f)) && both_located(
            d0,
            s,
            d,
        ),
        Phase::Reading(f) => a == ActionV::Read(unity_at(d0, f)) && both_located(d0, s, d),
        Phase::CopyDll(i) => a == ActionV::WriteDll(i) && i < MANAGED_DLL_COUNT,
        Phase::Finished => a matches ActionV::Finish(Ok(_)),
        _ => false,
    }
}

/// At most how many actions such an install has left to perform.
spec fn reinstall_steps_left(p: Phase) -> nat {
    match p {
        Phase::DataDir => 12,
        Phase::Locate(f, ext) => (if f == UnityFile::ScriptingAssemblies {
            10nat
        } else {
            8nat
        }) + (if ext {
            1nat
        } else {
            0nat
        }),
        Phase::ManagedDir => 7,
        Phase::BackupProbe(f) => if f == UnityFile::ScriptingAssemblies {
            6
        } else {
            4
        },
        Phase::Reading(f) => if f == UnityFile::ScriptingAssemblies {
            5
        } else {
            3
        },
        Phase::CopyDll(i) => if i < MANAGED_DLL_COUNT {
            (MANAGED_DLL_COUNT - i) as nat
        } else {
            0
        },
        _ => 0,
    }
}

proof fn lemma_reinstall_step(d0: Map<Target, Node>, s: SessionV, a: ActionV, d: Map<Target, Node>)
    requires
        reinstall_inv(d0, s, a, d),
        !(s.phase is Finished),
    ensures
        !(a is Finish),
        accepts(s.phase, perform(d, a).1),
        perform(d, a).0 == d,
        reinstall_inv(d0, next(s, perform(d, a).1).0, next(s, perform(d, a).1).1, d),
        reinstall_steps_left(next(s, perform(d, a).1).0.phase) < reinstall_steps_left(s.phase),
{
    match s.phase {
        Phase::CopyDll(i) => {
            assert(dll_placed(d, i));
            assert(d.insert(Target::Dll(i), Node::Assembly(i)) =~= d);
        },
        _ => {},
    }
}

proof fn lemma_reinstall_run(d0: Map<Target, Node>, s: SessionV, a: ActionV, d: Map<Target, Node>, fuel: nat)
    requires
        reinstall_inv(d0, s, a, d),
        fuel >= reinstall_steps_left(s.phase),
    ensures
        run_from(s, a, d, fuel) matches Some((Ok(_), after)) && after == d,
    decreases fuel,
{
    if !(s.phase is Finished) {
        let (d2, e) = perform(d, a);
        lemma_reinstall_step(d0, s, a, d);
        lemma_reinstall_run(d0, next(s, e).0, next(s, e).1, d2, (fuel - 1) as nat);
    }
}

/// Installing again changes no file: on a folder installed over `d0` whose
/// Unity files are up to date (see [`law_install_keeps_originals`]), an
/// install ends in `Ok` and leaves the folder exactly as it was.
pub proof fn law_reinstall_changes_nothing(d0: Map<Target, Node>, d: Map<Target, Node>)
    requires
        installed_over(d0, d),
        up_to_date(d0, d, UnityFile::ScriptingAssemblies),
        up_to_date(d0, d, UnityFile::RuntimeInit),
    ensures
        run_on(Mode::Install, d, 12) matches Some((Ok(_), after)) && after == d,
{
    lemma_reinstall_run(d0, start(Mode::Install).0, start(Mode::Install).1, d, 12);
}

/// The uninstall has reached the Unity file `f`: every assembly is still in
/// place, the file before `f` is back as it was in `d0`, the one after still
/// saved, and `f` itself saved (and, once `copied`, copied back).
spec fn restore_stage(d0: Map<Target, Node>, d: Map<Target, Node>, f: UnityFile, copied: bool) -> bool {
    &&& forall|i: usize| i < MANAGED_DLL_COUNT ==> #[trigger] is_file(d, Target::Dll(i))
    &&& f == UnityFile::ScriptingAssemblies ==> backed(d0, d, UnityFile::RuntimeInit)
    &&& f == UnityFile::RuntimeInit ==> pristine(d0, d, UnityFile::ScriptingAssemblies)
    &&& backed(d0, d, f)
    &&& copied ==> d[unity_at(d0, f)] == d0[unity_at(d0, f)]
}

/// The uninstall has reached the `i`-th assembly: those before it are gone,
/// it and those after it still there.
spec fn dll_stage(d: Map<Target, Node>, i: usize) -> bool {
    &&& forall|j: usize| j < i ==> !#[trigger] d.contains_key(Target::Dll(j))
    &&& forall|j: usize| i <= j < MANAGED_DLL_COUNT ==> #[trigger] is_file(d, Target::Dll(j))
}

/// What holds of every state of an uninstall that started on `d0` once
/// installed.
spec fn uninstall_inv(d0: Map<Target, Node>, s: SessionV, a: ActionV, d: Map<Target, Node>) -> bool {
    &&& s.mode == Mode::Uninstall
    &&& fresh(d0)
    &&& same_elsewhere(d0, d)
    &&& chosen(d, UnityFile::ScriptingAssemblies) == chosen(d0, UnityFile::ScriptingAssemblies)
    &&& chosen(d, UnityFile::RuntimeInit) == chosen(d0, UnityFile::RuntimeInit)
    &&& match s.phase {
        Phase::DataDir => a == ActionV::Check(Probe::IsDir, Target::DataDir) && installed_over(d0, d),
        Phase::Locate(f, ext) => a == ActionV::Check(Probe::IsFile, Target::Unity(f, ext)) && (!ext
            ==> !chosen(d0, f)) && (f == UnityFile::RuntimeInit ==> located(
            d0,
            s,
            d,
            UnityFile::ScriptingAssemblies,
        )) && installed_over(d0, d),
        Phase::ManagedDir => a == ActionV::Check(Probe::IsDir, Target::ManagedDir) && both_located(
            d0,
            s,
            d,
        ) && installed_over(d0, d),
        Phase::RestoreProbe(f) => a == ActionV::Check(Probe::IsFile, backup_at(d0, f)) && both_located(
            d0,
            s,
            d,
        ) && restore_stage(d0, d, f, false),
        Phase::Restoring(f) => a == ActionV::Copy(backup_at(d0, f), unity_at(d0, f)) && both_located(
            d0,
            s,
            d,
        ) && restore_stage(d0, d, f, false),
        Phase::DropBackup(f) => a == ActionV::Remove(backup_at(d0, f)) && both_located(d0, s, d)
            && restore_stage(d0, d, f, true),
        Phase::DllProbe(i) => a == ActionV::Check(Probe::IsFile, Target::Dll(i)) && i
            < MANAGED_DLL_COUNT && pristine(d0, d, UnityFile::ScriptingAssemblies) && pristine(
            d0,
            d,
            UnityFile::RuntimeInit,
        ) && dll_stage(d, i),
        Phase::DllRemove(i) => a == ActionV::Remove(Target::Dll(i)) && i < MANAGED_DLL_COUNT
            && pristine(d0, d, UnityFile::ScriptingAssemblies) && pristine(
            d0,
            d,
            UnityFile::RuntimeInit,
        ) && dll_stage(d, i),
        Phase::Finished => a matches ActionV::Finish(Ok(_)) && d == d0,
        _ => false,
    }
}

/// At most how many actions an uninstall has left to perform.
spec fn steps_left(p: Phase) -> nat {
    match p {
        Phase::DataDir => 20,
        Phase::Locate(f, ext) => (if f == UnityFile::ScriptingAssemblies {
            18nat
        } else {
            16nat
        }) + (if ext {
            1nat
        } else {
            0nat
        }),
        Phase::ManagedDir => 15,
        Phase::RestoreProbe(f) => if f == UnityFile::ScriptingAssemblies {
            14
        } else {
            11
        },
        Phase::Restoring(f) => if f == UnityFile::ScriptingAssemblies {
            13
        } else {
            10
        },
        Phase::DropBackup(f) => if f == UnityFile::ScriptingAssemblies {
            12
        } else {
            9
        },
        Phase::DllProbe(i) => if i < MANAGED_DLL_COUNT {
            (2 * (MANAGED_DLL_COUNT - i) + 4) as nat
        } else {
            0
        },
        Phase::DllRemove(i) => if i < MANAGED_DLL_COUNT {
            (2 * (MANAGED_DLL_COUNT - i) + 3) as nat
        } else {
            0
        },
        _ => 0,
    }
}

/// A folder with what a run may change put back as it was in `d0` is `d0`.
proof fn lemma_back_to_start(d0: Map<Target, Node>, d: Map<Target, Node>)
    requires
        fresh(d0),
        same_elsewhere(d0, d),
        pristine(d0, d, UnityFile::ScriptingAssemblies),
        pristine(d0, d, UnityFile::RuntimeInit),
        forall|i: usize| i < MANAGED_DLL_COUNT ==> !#[trigger] d.contains_key(Target::Dll(i)),
    ensures
        d == d0,
{
    assert forall|t: Target| #[trigger] d.contains_key(t) == d0.contains_key(t) && (d0.contains_key(t)
        ==> d[t] == d0[t]) by {
        match t {
            Target::Unity(f, x) => {
                if x == chosen(d0, f) {
                    assert(t == unity_at(d0, f));
                } else {
                    assert(!may_change(d0, t));
                }
            },
            Target::Backup(f, x) => {
                if x == chosen(d0, f) {
                    assert(t == backup_at(d0, f));
                    assert(!d0.contains_key(t));
                } else {
                    assert(!may_change(d0, t));
                }
            },
            Target::Dll(i) => {
                if i < MANAGED_DLL_COUNT {
                    assert(!d0.contains_key(Target::Dll(i)));
                    assert(!d.contains_key(Target::Dll(i)));
                } else {
                    assert(!may_change(d0, t));
                }
            },
            _ => {
                assert(!may_change(d0, t));
            },
        }
    }
    assert(d =~= d0);
}

proof fn lemma_uninstall_step(d0: Map<Target, Node>, s: SessionV, a: ActionV, d: Map<Target, Node>)
    requires
        uninstall_inv(d0, s, a, d),
        !(s.phase is Finished),
    ensures
        !(a is Finish),
        accepts(s.phase, perform(d, a).1),
        uninstall_inv(d0, next(s, perform(d, a).1).0, next(s, perform(d, a).1).1, perform(d, a).0),
        steps_left(next(s, perform(d, a).1).0.phase) < steps_left(s.phase),
{
    let (d2, e) = perform(d, a);
    let sa = UnityFile::ScriptingAssemblies;
    let ri = UnityFile::RuntimeInit;
    match s.phase {
        Phase::ManagedDir => {
            assert forall|i: usize| i < MANAGED_DLL_COUNT implies #[trigger] is_file(d, Target::Dll(i)) by {
                assert(dll_placed(d, i));
            }
        },
        Phase::Restoring(f) => {
            lemma_write_elsewhere(d0, d, unity_at(d0, f), d[backup_at(d0, f)]);
            assert(d2[backup_at(d0, sa)] == d[backup_at(d0, sa)]);
            assert(d2[backup_at(d0, ri)] == d[backup_at(d0, ri)]);
            assert(d2[Target::Unity(sa, true)] == d[Target::Unity(sa, true)] || unity_at(d0, f)
                == Target::Unity(sa, true));
            assert(d2[Target::Unity(ri, true)] == d[Target::Unity(ri, true)] || unity_at(d0, f)
                == Target::Unity(ri, true));
            assert(d2[unity_at(d0, sa)] == d[unity_at(d0, sa)] || f == sa);
            assert(d2[unity_at(d0, ri)] == d[unity_at(d0, ri)] || f == ri);
            assert forall|i: usize| i < MANAGED_DLL_COUNT implies #[trigger] is_file(d2, Target::Dll(i)) by {
                assert(is_file(d, Target::Dll(i)));
            }
        },
        Phase::DropBackup(f) => {
            lemma_remove_elsewhere(d0, d, backup_at(d0, f));
            assert(d2[unity_at(d0, sa)] == d[unity_at(d0, sa)]);
            assert(d2[unity_at(d0, ri)] == d[unity_at(d0, ri)]);
            assert(d2[Target::Unity(sa, true)] == d[Target::Unity(sa, true)]);
            assert(d2[Target::Unity(ri, true)] == d[Target::Unity(ri, true)]);
            assert(d2[backup_at(d0, sa)] == d[backup_at(d0, sa)] || f == sa);
            assert(d2[backup_at(d0, ri)] == d[backup_at(d0, ri)] || f == ri);
            assert forall|i: usize| i < MANAGED_DLL_COUNT implies #[trigger] is_file(d2, Target::Dll(i)) by {
                assert(is_file(d, Target::Dll(i)));
            }
            if f == ri {
                assert(dll_stage(d2, 0));
            }
        },
        Phase::DllRemove(i) => {
            lemma_remove_elsewhere(d0, d, Target::Dll(i));
            assert(d2[unity_at(d0, sa)] == d[unity_at(d0, sa)]);
            assert(d2[unity_at(d0, ri)] == d[unity_at(d0, ri)]);
            assert(d2[Target::Unity(sa, true)] == d[Target::Unity(sa, true)]);
            assert(d2[Target::Unity(ri, true)] == d[Target::Unity(ri, true)]);
            assert(!d2.contains_key(backup_at(d0, sa)));
            assert(!d2.contains_key(backup_at(d0, ri)));
            assert forall|j: usize| j < i + 1 implies !#[trigger] d2.contains_key(Target::Dll(j)) by {
                if j < i {
                    assert(!d.contains_key(Target::Dll(j)));
                }
            }
            assert forall|j: usize| i + 1 <= j < MANAGED_DLL_COUNT implies #[trigger] is_file(
                d2,
                Target::Dll(j),
            ) by {
                assert(is_file(d, Target::Dll(j)));
            }
            if i + 1 >= MANAGED_DLL_COUNT {
                assert forall|j: usize| j < MANAGED_DLL_COUNT implies !#[trigger] d2.contains_key(
                    Target::Dll(j),
                ) by {
                    assert(j < i + 1);
                }
                lemma_back_to_start(d0, d2);
            }
        },
        _ => {},
    }
}

/// An uninstall from a state of the invariant, given enough actions, ends in
/// `Ok` and leaves `d0`.
proof fn lemma_uninstall_run(d0: Map<Target, Node>, s: SessionV, a: ActionV, d: Map<Target, Node>, fuel: nat)
    requires
        uninstall_inv(d0, s, a, d),
        fuel >= steps_left(s.phase),
    ensures
        run_from(s, a, d, fuel) matches Some((Ok(_), back)) && back == d0,
    decreases fuel,
{
    if !(s.phase is Finished) {
        let (d2, e) = perform(d, a);
        lemma_uninstall_step(d0, s, a, d);
        lemma_uninstall_run(d0, next(s, e).0, next(s, e).1, d2, (fuel - 1) as nat);
    }
}

/// Installs followed by an uninstall give the game folder back: on a folder
/// `d0` that is [`fresh`], once installed (see
/// [`law_install_keeps_originals`]), the uninstall ends in `Ok` and leaves the
/// folder exactly as `d0`: Unity files as they were, their backups and the
/// assemblies gone, everything else (a backup under the other name of a
/// Unity file too) untouched.
pub proof fn law_uninstall_gives_back_the_folder(d0: Map<Target, Node>, d: Map<Target, Node>)
    requires
        fresh(d0),
        installed_over(d0, d),
    ensures
        run_on(Mode::Uninstall, d, 20) matches Some((Ok(_), back)) && back == d0,
{
    lemma_uninstall_run(d0, start(Mode::Uninstall).0, start(Mode::Uninstall).1, d, 20);
}

/// From a [`fresh`] folder, an install that
/// ends in `Ok` and then an uninstall: the uninstall ends in `Ok` and gives
/// the folder back exactly as it was.
pub proof fn law_install_then_uninstall(d0: Map<Target, Node>, fuel: nat)
    requires
        fresh(d0),
        run_on(Mode::Install, d0, fuel) matches Some((Ok(_), _)),
    ensures
        run_on(Mode::Uninstall, run_on(Mode::Install, d0, fuel).unwrap().1, 20) matches Some(
            (Ok(_), back),
        ) && back == d0,
{
    lemma_fresh_keeps_originals(d0);
    law_install_keeps_originals(d0, d0, fuel);
    law_uninstall_gives_back_the_folder(d0, run_on(Mode::Install, d0, fuel).unwrap().1);
}

/// From a [`fresh`] folder, an install that
/// ends in `Ok`, where the JSON printer's text of each edit reads back: a
/// second install ends in `Ok` and changes no file.
pub proof fn law_install_twice(d0: Map<Target, Node>, fuel: nat)
    requires
        fresh(d0),
        run_on(Mode::Install, d0, fuel) matches Some((Ok(_), _)),
        reads_back(d0, d0, UnityFile::ScriptingAssemblies),
        reads_back(d0, d0, UnityFile::RuntimeInit),
    ensures
        run_on(Mode::Install, run_on(Mode::Install, d0, fuel).unwrap().1, 12) matches Some(
            (Ok(_), after),
        ) && after == run_on(Mode::Install, d0, fuel).unwrap().1,
{
    lemma_fresh_keeps_originals(d0);
    law_install_keeps_originals(d0, d0, fuel);
    law_reinstall_changes_nothing(d0, run_on(Mode::Install, d0, fuel).unwrap().1);
}

/// For each managed assembly, in order, whether a file stands in its place:
/// what [`crate::installer::is_installed`] is given.
pub open spec fn dll_presence(d: Map<Target, Node>) -> Seq<bool> {
    Seq::new(MANAGED_DLL_COUNT as nat, |i: int| is_file(d, Target::Dll(i as usize)))
}

/// What holds of every state of an install, on any folder.
spec fn install_dll_inv(s: SessionV, a: ActionV, d: Map<Target, Node>) -> bool {
    &&& s.mode == Mode::Install
    &&& (a is Finish <==> s.phase is Finished)
    &&& match s.phase {
        Phase::CopyDll(i) => a == ActionV::WriteDll(i) && i < MANAGED_DLL_COUNT && forall|j: usize|
            j < i ==> #[trigger] is_file(d, Target::Dll(j)),
        Phase::Finished => a matches ActionV::Finish(Ok(_)) ==> forall|j: usize|
            j < MANAGED_DLL_COUNT ==> #[trigger] is_file(d, Target::Dll(j)),
        Phase::RestoreProbe(_) | Phase::Restoring(_) | Phase::DropBackup(_) | Phase::DllProbe(_)
        | Phase::DllRemove(_) | Phase::Rendering(_) => false,
        _ => true,
    }
}

proof fn lemma_install_dll_step(s: SessionV, a: ActionV, d: Map<Target, Node>)
    requires
        install_dll_inv(s, a, d),
        !(a is Finish),
        accepts(s.phase, perform(d, a).1),
    ensures
        install_dll_inv(next(s, perform(d, a).1).0, next(s, perform(d, a).1).1, perform(d, a).0),
{
    let (d2, e) = perform(d, a);
    match s.phase {
        Phase::CopyDll(i) => {
            assert forall|j: usize| j < i + 1 implies #[trigger] is_file(d2, Target::Dll(j)) by {
                if j < i {
                    assert(is_file(d, Target::Dll(j)));
                }
            }
        },
        _ => {},
    }
}

proof fn lemma_install_dll_run(s: SessionV, a: ActionV, d: Map<Target, Node>, fuel: nat)
    requires
        install_dll_inv(s, a, d),
        run_from(s, a, d, fuel) matches Some((Ok(_), _)),
    ensures
        forall|j: usize|
            j < MANAGED_DLL_COUNT ==> #[trigger] is_file(run_from(s, a, d, fuel).unwrap().1, Target::Dll(j)),
    decreases fuel,
{
    match a {
        ActionV::Finish(_) => {},
        _ => {
            let (d2, e) = perform(d, a);
            lemma_install_dll_step(s, a, d);
            lemma_install_dll_run(next(s, e).0, next(s, e).1, d2, (fuel - 1) as nat);
        },
    }
}

/// After an install that ends in `Ok`, on any folder, the mod loader looks
/// installed: every managed assembly stands in its place.
pub proof fn law_installed_after_install(d: Map<Target, Node>, fuel: nat)
    requires
        run_on(Mode::Install, d, fuel) matches Some((Ok(_), _)),
    ensures
        all_present(dll_presence(run_on(Mode::Install, d, fuel).unwrap().1)),
{
    lemma_install_dll_run(start(Mode::Install).0, start(Mode::Install).1, d, fuel);
    let after = run_on(Mode::Install, d, fuel).unwrap().1;
    assert forall|i: int| 0 <= i < MANAGED_DLL_COUNT implies #[trigger] dll_presence(after)[i] by {
        assert(is_file(after, Target::Dll(i as usize)));
    }
}

/// What holds of every state of an uninstall, on any folder.
spec fn uninstall_dll_inv(s: SessionV, a: ActionV, d: Map<Target, Node>) -> bool {
    &&& s.mode == Mode::Uninstall
    &&& (a is Finish <==> s.phase is Finished)
    &&& match s.phase {
        Phase::DllProbe(i) => a == ActionV::Check(Probe::IsFile, Target::Dll(i)) && i
            < MANAGED_DLL_COUNT && forall|j: usize| j < i ==> !#[trigger] is_file(d, Target::Dll(j)),
        Phase::DllRemove(i) => a == ActionV::Remove(Target::Dll(i)) && i < MANAGED_DLL_COUNT
            && forall|j: usize| j < i ==> !#[trigger] is_file(d, Target::Dll(j)),
        Phase::Finished => a matches ActionV::Finish(Ok(_)) ==> forall|j: usize|
            j < MANAGED_DLL_COUNT ==> !#[trigger] is_file(d, Target::Dll(j)),
        Phase::BackupProbe(_) | Phase::BackupCopy(_) | Phase::Reading(_) | Phase::Rendering(_)
        | Phase::Writing(_) | Phase::CopyDll(_) => false,
        _ => true,
    }
}

proof fn lemma_uninstall_dll_step(s: SessionV, a: ActionV, d: Map<Target, Node>)
    requires
        uninstall_dll_inv(s, a, d),
        !(a is Finish),
        accepts(s.phase, perform(d, a).1),
    ensures
        uninstall_dll_inv(next(s, perform(d, a).1).0, next(s, perform(d, a).1).1, perform(d, a).0),
{
    let (d2, e) = perform(d, a);
    match s.phase {
        Phase::DllProbe(i) => {
            assert forall|j: usize| j < i + 1 && !(e is Found && e->Found_0) implies !#[trigger] is_file(
                d2,
                Target::Dll(j),
            ) by {
                if j < i {
                    assert(!is_file(d, Target::Dll(j)));
                }
            }
        },
        Phase::DllRemove(i) => {
            assert forall|j: usize| j < i + 1 && e == EventV::Done implies !#[trigger] is_file(
                d2,
                Target::Dll(j),
            ) by {
                if j < i {
                    assert(!is_file(d, Target::Dll(j)));
                }
            }
        },
        _ => {},
    }
}

proof fn lemma_uninstall_dll_run(s: SessionV, a: ActionV, d: Map<Target, Node>, fuel: nat)
    requires
        uninstall_dll_inv(s, a, d),
        run_from(s, a, d, fuel) matches Some((Ok(_), _)),
    ensures
        forall|j: usize|
            j < MANAGED_DLL_COUNT ==> !#[trigger] is_file(run_from(s, a, d, fuel).unwrap().1, Target::Dll(j)),
    decreases fuel,
{
    match a {
        ActionV::Finish(_) => {},
        _ => {
            let (d2, e) = perform(d, a);
            lemma_uninstall_dll_step(s, a, d);
            lemma_uninstall_dll_run(next(s, e).0, next(s, e).1, d2, (fuel - 1) as nat);
        },
    }
}

/// After an uninstall that ends in `Ok`, on any folder, the mod loader no
/// longer looks installed: no managed assembly stands in its place.
pub proof fn law_not_installed_after_uninstall(d: Map<Target, Node>, fuel: nat)
    requires
        run_on(Mode::Uninstall, d, fuel) matches Some((Ok(_), _)),
    ensures
        forall|i: int| 0 <= i < MANAGED_DLL_COUNT ==> !#[trigger] dll_presence(
            run_on(Mode::Uninstall, d, fuel).unwrap().1,
        )[i],
        !all_present(dll_presence(run_on(Mode::Uninstall, d, fuel).unwrap().1)),
{
    lemma_uninstall_dll_run(start(Mode::Uninstall).0, start(Mode::Uninstall).1, d, fuel);
    let after = run_on(Mode::Uninstall, d, fuel).unwrap().1;
    assert forall|i: int| 0 <= i < MANAGED_DLL_COUNT implies !#[trigger] dll_presence(after)[i] by {
        assert(!is_file(after, Target::Dll(i as usize)));
    }
    assert(!dll_presence(after)[0]);
}

/// The edit of the Unity file `f` goes through on the text `text`: the parser
/// reads it, the document holds the array the edit needs, and the printer
/// prints the edited document.
pub open spec fn edit_goes_through(f: UnityFile, text: Seq<char>) -> bool {
    &&& json_parse_result(text) is Ok
    &&& !(patch_of(f, json_parse_result(text)->Ok_0) is MissingArray)
    &&& patch_of(f, json_parse_result(text)->Ok_0) matches PatchOutcomeV::Updated { doc: edited, .. }
        ==> json_render_result(edited) is Ok
}

/// A folder the mod loader can be installed on: its data folder and managed
/// folder exist, and each Unity file exists (with or without its extension)
/// as a text whose edit goes through.
pub open spec fn installable(d: Map<Target, Node>) -> bool {
    &&& probe_holds(d, Probe::IsDir, Target::DataDir)
    &&& probe_holds(d, Probe::IsDir, Target::ManagedDir)
    &&& d.contains_key(unity_at(d, UnityFile::ScriptingAssemblies))
    &&& d[unity_at(d, UnityFile::ScriptingAssemblies)] matches Node::Text(text) && edit_goes_through(
        UnityFile::ScriptingAssemblies,
        text,
    )
    &&& d.contains_key(unity_at(d, UnityFile::RuntimeInit))
    &&& d[unity_at(d, UnityFile::RuntimeInit)] matches Node::Text(text) && edit_goes_through(
        UnityFile::RuntimeInit,
        text,
    )
}

/// The Unity file `f` of `d0` stands in `d` as it did, and is found the same
/// way.
spec fn untouched(d0: Map<Target, Node>, d: Map<Target, Node>, f: UnityFile) -> bool {
    &&& d.contains_key(unity_at(d0, f))
    &&& d[unity_at(d0, f)] == d0[unity_at(d0, f)]
    &&& chosen(d, f) == chosen(d0, f)
}

spec fn exts_found(d0: Map<Target, Node>, s: SessionV) -> bool {
    ext_of(s, UnityFile::ScriptingAssemblies) == chosen(d0, UnityFile::ScriptingAssemblies) && ext_of(
        s,
        UnityFile::RuntimeInit,
    ) == chosen(d0, UnityFile::RuntimeInit)
}

/// What holds of every state of an install on a folder `d0` the mod loader
/// can be installed on.
spec fn first_install_inv(d0: Map<Target, Node>, s: SessionV, a: ActionV, d: Map<Target, Node>) -> bool {
    &&& s.mode == Mode::Install
    &&& installable(d0)
    &&& dirs_found(d)
    &&& match s.phase {
        Phase::DataDir => a == ActionV::Check(Probe::IsDir, Target::DataDir) && untouched(
            d0,
            d,
            UnityFile::ScriptingAssemblies,
        ) && untouched(d0, d, UnityFile::RuntimeInit),
        Phase::Locate(f, ext) => a == ActionV::Check(Probe::IsFile, Target::Unity(f, ext)) && (!ext
            ==> !chosen(d0, f)) && (f == UnityFile::RuntimeInit ==> ext_of(
            s,
            UnityFile::ScriptingAssemblies,
        ) == chosen(d0, UnityFile::ScriptingAssemblies)) && untouched(
            d0,
            d,
            UnityFile::ScriptingAssemblies,
        ) && untouched(d0, d, UnityFile::RuntimeInit),
        Phase::ManagedDir => a == ActionV::Check(Probe::IsDir, Target::ManagedDir) && exts_found(d0, s)
            && untouched(d0, d, UnityFile::ScriptingAssemblies) && untouched(
            d0,
            d,
            UnityFile::RuntimeInit,
        ),
        Phase::BackupProbe(f) => a == ActionV::Check(Probe::Exists, backup_at(d0, f)) && exts_found(
            d0,
            s,
        ) && untouched(d0, d, f) && (f == UnityFile::ScriptingAssemblies ==> untouched(
            d0,
            d,
            UnityFile::RuntimeInit,
        )),
        Phase::BackupCopy(f) => a == ActionV::Copy(unity_at(d0, f), backup_at(d0, f)) && exts_found(
            d0,
            s,
        ) && untouched(d0, d, f) && (f == UnityFile::ScriptingAssemblies ==> untouched(
            d0,
            d,
            UnityFile::RuntimeInit,
        )),
        Phase::Reading(f) => a == ActionV::Read(unity_at(d0, f)) && exts_found(d0, s) && untouched(
            d0,
            d,
            f,
        ) && (f == UnityFile::ScriptingAssemblies ==> untouched(d0, d, UnityFile::RuntimeInit)),
        Phase::Writing(f) => (a matches ActionV::Write(t, _) && t == unity_at(d0, f)) && exts_found(
            d0,
            s,
        ) && (f == UnityFile::ScriptingAssemblies ==> untouched(d0, d, UnityFile::RuntimeInit)),
        Phase::CopyDll(i) => a == ActionV::WriteDll(i) && i < MANAGED_DLL_COUNT,
        Phase::Finished => a matches ActionV::Finish(Ok(_)),
        _ => false,
    }
}

/// At most how many actions such an install has left to perform.
spec fn install_steps_left(p: Phase) -> nat {
    match p {
        Phase::DataDir => 17,
        Phase::Locate(f, ext) => (if f == UnityFile::ScriptingAssemblies {
            15nat
        } else {
            13nat
        }) + (if ext {
            1nat
        } else {
            0nat
        }),
        Phase::ManagedDir => 12,
        Phase::BackupProbe(f) => if f == UnityFile::ScriptingAssemblies {
            11
        } else {
            7
        },
        Phase::BackupCopy(f) => if f == UnityFile::ScriptingAssemblies {
            10
        } else {
            6
        },
        Phase::Reading(f) => if f == UnityFile::ScriptingAssemblies {
            9
        } else {
            5
        },
        Phase::Writing(f) => if f == UnityFile::ScriptingAssemblies {
            8
        } else {
            4
        },
        Phase::CopyDll(i) => if i < MANAGED_DLL_COUNT {
            (MANAGED_DLL_COUNT - i) as nat
        } else {
            0
        },
        _ => 0,
    }
}

proof fn lemma_first_install_step(d0: Map<Target, Node>, s: SessionV, a: ActionV, d: Map<Target, Node>)
    requires
        first_install_inv(d0, s, a, d),
        !(s.phase is Finished),
    ensures
        !(a is Finish),
        accepts(s.phase, perform(d, a).1),
        first_install_inv(d0, next(s, perform(d, a).1).0, next(s, perform(d, a).1).1, perform(d, a).0),
        install_steps_left(next(s, perform(d, a).1).0.phase) < install_steps_left(s.phase),
{
    let (d2, e) = perform(d, a);
    let sa = UnityFile::ScriptingAssemblies;
    let ri = UnityFile::RuntimeInit;
    match s.phase {
        Phase::BackupCopy(f) => {
            assert(d2[unity_at(d0, sa)] == d[unity_at(d0, sa)]);
            assert(d2[unity_at(d0, ri)] == d[unity_at(d0, ri)]);
            assert(d2[Target::Unity(sa, true)] == d[Target::Unity(sa, true)]);
            assert(d2[Target::Unity(ri, true)] == d[Target::Unity(ri, true)]);
        },
        Phase::Writing(f) => {
            assert(d2[unity_at(d0, ri)] == d[unity_at(d0, ri)] || f == ri);
            assert(d2[Target::Unity(ri, true)] == d[Target::Unity(ri, true)] || f == ri);
        },
        Phase::Reading(f) => {
            assert(d[unity_at(d0, f)] == d0[unity_at(d0, f)]);
        },
        _ => {},
    }
}

proof fn lemma_first_install_run(d0: Map<Target, Node>, s: SessionV, a: ActionV, d: Map<Target, Node>, fuel: nat)
    requires
        first_install_inv(d0, s, a, d),
        fuel >= install_steps_left(s.phase),
    ensures
        run_from(s, a, d, fuel) matches Some((Ok(_), _)),
    decreases fuel,
{
    if !(s.phase is Finished) {
        let (d2, e) = perform(d, a);
        lemma_first_install_step(d0, s, a, d);
        lemma_first_install_run(d0, next(s, e).0, next(s, e).1, d2, (fuel - 1) as nat);
    }
}

/// An install succeeds on every folder the mod loader can be installed on:
/// with its data folder and managed folder present, and both Unity files
/// present as texts whose edits go through, an install ends in `Ok`.
pub proof fn law_install_succeeds(d: Map<Target, Node>)
    requires
        installable(d),
    ensures
        run_on(Mode::Install, d, 17) matches Some((Ok(_), _)),
{
    lemma_first_install_run(d, start(Mode::Install).0, start(Mode::Install).1, d, 17);
}

} // verus!
