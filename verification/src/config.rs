//! Startup configuration checks.

use vstd::prelude::*;

verus! {

/// Why the startup configuration check failed.
#[derive(Clone, Copy, Debug, PartialEq, Eq, Structural)]
pub enum ConfigError {
    /// The game's base directory was not found.
    BaseDirMissing,
}

/// Decides whether the game installation is usable, given whether its base
/// directory exists on disk.
pub fn check_game_directory(base_dir_exists: bool) -> (r: Result<(), ConfigError>)
    ensures
        r is Ok <==> base_dir_exists,
        !base_dir_exists ==> r == Result::<(), ConfigError>::Err(ConfigError::BaseDirMissing),
{
    if base_dir_exists {
        Ok(())
    } else {
        Err(ConfigError::BaseDirMissing)
    }
}

} // verus!
