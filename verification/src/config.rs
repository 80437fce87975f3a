use vstd::prelude::*;

verus! {

/// Process-wide immutable configuration: the executable search path, in
/// lookup order, and the home directory a bare `~` expands to. Both are
/// computed once at startup and passed by reference into the executor,
/// never mutated afterwards.
pub struct ShellConfig {
    pub search_paths: Vec<String>,
    pub home_dir: String,
}

} // verus!
