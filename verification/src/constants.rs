use vstd::prelude::*;

verus! {

/// Directory under the SDKMAN! home that holds one directory per candidate.
pub const CANDIDATES_DIR: &'static str = "candidates";

/// File under `var/` that lists the known candidates, separated by commas.
pub const CANDIDATES_FILE: &'static str = "candidates";

/// Name of the entry in a candidate directory that points at the default version.
pub const CURRENT_DIR: &'static str = "current";

/// Marker written into a copied `current` directory, naming the version it holds.
pub const CURRENT_VERSION_FILE: &'static str = ".sdkman-current-version";

/// Name of the SDKMAN! home directory under the user's home.
pub const DEFAULT_SDKMAN_HOME: &'static str = ".sdkman";

/// Environment variable that overrides the SDKMAN! home directory.
pub const SDKMAN_DIR_ENV_VAR: &'static str = "SDKMAN_DIR";

/// Directory under the SDKMAN! home for temporary files.
pub const TMP_DIR: &'static str = "tmp";

/// Directory under the SDKMAN! home for state and metadata files.
pub const VAR_DIR: &'static str = "var";

} // verus!
