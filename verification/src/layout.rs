//! Names of the files and folders that the installer works with.
use vstd::prelude::*;

verus! {

/// Data folder of the game, below its root folder.
pub const DATA_DIR: &'static str = "BrokeProtocol_Data";

/// Folder of the managed assemblies, below the data folder.
pub const MANAGED_DIR: &'static str = "Managed";

/// Base name of the list of assemblies that Unity loads.
pub const SCRIPTING_ASSEMBLIES: &'static str = "ScriptingAssemblies";

/// Base name of the list of methods that Unity runs at start-up.
pub const RUNTIME_INIT: &'static str = "RuntimeInitializeOnLoads";

/// Extension that a Unity file may carry.
pub const JSON_EXT: &'static str = ".json";

/// Suffix of the backup made of a Unity file before it is changed.
pub const BACKUP_SUFFIX: &'static str = ".modloader.bak";

/// The mod loader itself.
pub const MODLOADER_DLL: &'static str = "ModLoader.dll";

/// Harmony, which the mod loader patches the game with; the `!` makes Unity
/// load it first.
pub const HARMONY_DLL: &'static str = "!_0Harmony.dll";

/// How many assemblies the installer places in the managed folder.
pub const MANAGED_DLL_COUNT: usize = 2;

/// The assemblies that the installer places in the managed folder, in order.
pub open spec fn managed_dll_names() -> Seq<Seq<char>> {
    seq![MODLOADER_DLL@, HARMONY_DLL@]
}

/// The name of the `i`-th assembly placed in the managed folder.
pub fn managed_dll_name(i: usize) -> (r: &'static str)
    requires
        i < MANAGED_DLL_COUNT,
    ensures
        r@ == managed_dll_names()[i as int],
{
    if i == 0 {
        MODLOADER_DLL
    } else {
        HARMONY_DLL
    }
}

} // verus!
