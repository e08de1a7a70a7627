//! What holds of the search whatever the host looks like.

use crate::host::{Environment, HostFs};
use crate::linux::{
    env_root, first_root, found_prefix, found_prefixes, found_root, found_roots, libraries,
    override_failed,
    standard_dirs, RootModel,
};
use vstd::prelude::*;

verus! {

/// `env` with `STEAM_DIR` passed over.
pub open spec fn without_override(env: Environment) -> Environment {
    Environment { steam_dir: env.steam_dir, no_tricks: true, home: env.home }
}

/// An installation always has at least one library.
pub proof fn lemma_libraries_not_empty(fs: HostFs, root: RootModel)
    ensures
        libraries(fs, root).len() >= 1,
{
}

/// Where `STEAM_DIR` is not set, no search reports a failed override.
pub proof fn lemma_unset_override_is_ok(fs: HostFs, env: Environment, game_id: u32)
    requires
        env.steam_dir is None,
    ensures
        !override_failed(fs, env),
        found_root(fs, env) is Ok,
        found_roots(fs, env) is Ok,
        found_prefix(fs, env, game_id) is Ok,
        found_prefixes(fs, env, game_id) is Ok,
{
}

/// Where `STEAM_DIR` is consulted and names no installation, the search
/// for an installation reports it, and carries exactly what the search
/// finds when `STEAM_DIR` is passed over.
pub proof fn lemma_failed_override_keeps_search(fs: HostFs, env: Environment)
    requires
        override_failed(fs, env),
    ensures
        found_root(fs, env) is Err,
        found_root(fs, without_override(env)) is Ok,
        found_root(fs, env)->Err_0 == found_root(fs, without_override(env))->Ok_0,
{
}

/// Where `STEAM_DIR` is set to a path that does not exist, and is not
/// passed over, the search for an installation reports a failed override,
/// and carries exactly what the search finds when `STEAM_DIR` is passed
/// over.
pub proof fn lemma_missing_override_keeps_search(fs: HostFs, env: Environment)
    requires
        !env.no_tricks,
        env.steam_dir matches Some(dir) && !fs.present(dir@),
    ensures
        found_root(fs, env) is Err,
        found_root(fs, without_override(env)) is Ok,
        found_root(fs, env)->Err_0 == found_root(fs, without_override(env))->Ok_0,
        found_root(fs, env)->Err_0 == first_root(fs, standard_dirs(env.home@)),
{
    assert(env_root(fs, env) == Err::<RootModel, bool>(true));
    lemma_failed_override_keeps_search(fs, env);
}

} // verus!
