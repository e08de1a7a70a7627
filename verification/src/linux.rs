//! Steam installations, their libraries and the Proton prefixes in them.
//!
//! Every function reads the host through a [`HostFs`] and, where the
//! environment matters, an [`Environment`]; none touches the disk itself.
//! The search functions return `Ok` unless `STEAM_DIR` was consulted and did
//! not lead to a Steam installation, in which case they return `Err` with
//! what the standard places gave.

use crate::host::{Environment, HostFs};
use crate::path::{char_lower, expand, expand_tilde, join, join_path, lower, parent, parent_path};
use crate::prefix::{prefix_at, prefix_view, PrefixModel, ProtonPrefix};
use crate::text::{chars_of, decimal, decimal_string, same_chars};
use crate::vdf::{assoc_get, parse_text, parse_vdf, parsed_model, VdfNode, VdfStruct, VdfValue};
use vstd::prelude::*;

verus! {

/// The variable that names a Steam installation to look at first.
pub const ENV_STEAM_DIR: &'static str = "STEAM_DIR";

/// A Steam installation as the contracts see it.
pub struct RootModel {
    /// The installation directory.
    pub path: Seq<char>,
    /// Its `steamapps` directory, in whatever case it is spelled.
    pub steamapps: Seq<char>,
}

/// A Steam installation: a directory that holds a runtime directory and a
/// `steamapps` directory.
#[derive(Debug, Clone)]
pub struct SteamRoot {
    path: String,
    steamapps: String,
}

impl View for SteamRoot {
    type V = RootModel;

    closed spec fn view(&self) -> RootModel {
        RootModel { path: self.path@, steamapps: self.steamapps@ }
    }
}

/// Whether `root` holds one of Steam's runtime directories.
pub open spec fn spec_has_runtime(fs: HostFs, root: Seq<char>) -> bool {
    fs.is_dir(join(root, "ubuntu12_32"@)) || fs.is_dir(join(root, "ubuntu12_64"@))
}

/// Whether `name` is `steamapps` in some mix of upper and lower case.
pub open spec fn names_steamapps(name: Seq<char>) -> bool {
    lower(name) == "steamapps"@
}

/// The first of `names` in `dir` that is spelled like `steamapps` and is a
/// directory, as a path.
pub open spec fn steamapps_among(fs: HostFs, dir: Seq<char>, names: Seq<Seq<char>>) -> Option<
    Seq<char>,
>
    decreases names.len(),
{
    if names.len() == 0 {
        None
    } else if names_steamapps(names[0]) && fs.is_dir(join(dir, names[0])) {
        Some(join(dir, names[0]))
    } else {
        steamapps_among(fs, dir, names.drop_first())
    }
}

/// The `steamapps` directory of `dir`: the first entry of `dir`, in the
/// order in which the directory lists them, that is spelled like
/// `steamapps` and is a directory.
pub open spec fn spec_has_steamapps(fs: HostFs, dir: Seq<char>) -> Option<Seq<char>> {
    match fs.children(dir) {
        Some(names) => steamapps_among(fs, dir, names),
        None => None,
    }
}

/// The Steam installation at `path`: there is one where `path` is a
/// directory with a runtime directory and a `steamapps` directory.
pub open spec fn root_at(fs: HostFs, path: Seq<char>) -> Option<RootModel> {
    if fs.is_dir(path) && spec_has_runtime(fs, path) {
        match spec_has_steamapps(fs, path) {
            Some(apps) => Some(RootModel { path, steamapps: apps }),
            None => None,
        }
    } else {
        None
    }
}

/// The directory that `STEAM_DIR` names: `Err(false)` where the variable is
/// not set, `Err(true)` where it names no directory.
pub open spec fn env_path(fs: HostFs, env: Environment) -> Result<Seq<char>, bool> {
    match env.steam_dir {
        Some(dir) => if fs.is_dir(dir@) {
            Ok(dir@)
        } else {
            Err(true)
        },
        None => Err(false),
    }
}

/// The installation that `STEAM_DIR` names: `Err(false)` where the variable
/// is not set, `Err(true)` where it names no installation.
pub open spec fn env_root(fs: HostFs, env: Environment) -> Result<RootModel, bool> {
    match env_path(fs, env) {
        Ok(path) => match root_at(fs, path) {
            Some(root) => Ok(root),
            None => Err(true),
        },
        Err(e) => Err(e),
    }
}

/// The places where Steam is looked for when `STEAM_DIR` gave nothing, in
/// the order of the search.
pub open spec fn standard_dirs(home: Seq<char>) -> Seq<Seq<char>> {
    seq![
        expand(home, "~/.steam/steam"@),
        expand(home, "~/.local/share/Steam"@),
        expand(home, "~/.var/app/com.valvesoftware.Steam/data/Steam/"@),
    ]
}

/// Whether `STEAM_DIR` is consulted and names no installation.
pub open spec fn override_failed(fs: HostFs, env: Environment) -> bool {
    !env.no_tricks && env_root(fs, env) == Err::<RootModel, bool>(true)
}

/// The first of `dirs` that is a Steam installation.
pub open spec fn first_root(fs: HostFs, dirs: Seq<Seq<char>>) -> Option<RootModel>
    decreases dirs.len(),
{
    if dirs.len() == 0 {
        None
    } else {
        match root_at(fs, dirs[0]) {
            Some(root) => Some(root),
            None => first_root(fs, dirs.drop_first()),
        }
    }
}

/// What the search for one installation gives: the one that `STEAM_DIR`
/// names, else the first of the standard places, on the channel that says
/// whether `STEAM_DIR` failed.
pub open spec fn found_root(fs: HostFs, env: Environment) -> Result<
    Option<RootModel>,
    Option<RootModel>,
> {
    if !env.no_tricks && env_root(fs, env) is Ok {
        Ok(Some(env_root(fs, env)->Ok_0))
    } else {
        let found = first_root(fs, standard_dirs(env.home@));
        if override_failed(fs, env) {
            Err(found)
        } else {
            Ok(found)
        }
    }
}

/// Whether the second standard place is passed over: the first is a
/// symbolic link and both resolve to the same directory.
pub open spec fn same_install(fs: HostFs, first: Seq<char>, second: Seq<char>) -> bool {
    fs.is_symlink(first) && fs.canonical(first) is Some && fs.canonical(first) == fs.canonical(
        second,
    )
}

/// `roots` with the installation at `dir`, if there is one.
pub open spec fn with_root(fs: HostFs, roots: Seq<RootModel>, dir: Seq<char>) -> Seq<RootModel> {
    match root_at(fs, dir) {
        Some(root) => roots.push(root),
        None => roots,
    }
}

/// Every installation that the search finds, in its order: the one that
/// `STEAM_DIR` names, then the standard places, the second of them only
/// where it is not the first under another name.
pub open spec fn all_roots(fs: HostFs, env: Environment) -> Seq<RootModel> {
    let dirs = standard_dirs(env.home@);
    let start = if !env.no_tricks && env_root(fs, env) is Ok {
        seq![env_root(fs, env)->Ok_0]
    } else {
        Seq::empty()
    };
    let one = with_root(fs, start, dirs[0]);
    let two = if same_install(fs, dirs[0], dirs[1]) {
        one
    } else {
        with_root(fs, one, dirs[1])
    };
    with_root(fs, two, dirs[2])
}

/// What the search for all installations gives, on the channel that says
/// whether `STEAM_DIR` failed.
pub open spec fn found_roots(fs: HostFs, env: Environment) -> Result<
    Seq<RootModel>,
    Seq<RootModel>,
> {
    if override_failed(fs, env) {
        Err(all_roots(fs, env))
    } else {
        Ok(all_roots(fs, env))
    }
}

/// The view of an installation that may be there.
pub open spec fn root_view(r: Option<SteamRoot>) -> Option<RootModel> {
    match r {
        Some(root) => Some(root@),
        None => None,
    }
}

/// The view of what a search for one installation gave.
pub open spec fn found_root_view(r: Result<Option<SteamRoot>, Option<SteamRoot>>) -> Result<
    Option<RootModel>,
    Option<RootModel>,
> {
    match r {
        Ok(root) => Ok(root_view(root)),
        Err(root) => Err(root_view(root)),
    }
}

/// The views of installations.
pub open spec fn roots_view(roots: Seq<SteamRoot>) -> Seq<RootModel> {
    roots.map_values(|r: SteamRoot| r@)
}

/// The view of what a search for all installations gave.
pub open spec fn all_roots_view(r: Result<Vec<SteamRoot>, Vec<SteamRoot>>) -> Result<
    Seq<RootModel>,
    Seq<RootModel>,
> {
    match r {
        Ok(roots) => Ok(roots_view(roots@)),
        Err(roots) => Err(roots_view(roots@)),
    }
}

/// Whether `steam_root` holds one of Steam's runtime directories.
pub fn has_runtime(fs: &HostFs, steam_root: &str) -> (r: bool)
    ensures
        r == spec_has_runtime(*fs, steam_root@),
{
    let first = join_path(steam_root, "ubuntu12_32");
    if fs.path_is_dir(first.as_str()) {
        return true;
    }
    // Steam without its 32 bit runtime
    let second = join_path(steam_root, "ubuntu12_64");
    fs.path_is_dir(second.as_str())
}

/// Whether `name` is `steamapps` in some mix of upper and lower case.
pub fn is_steamapps(name: &str) -> (r: bool)
    ensures
        r == names_steamapps(name@),
{
    let v = chars_of(name);
    let mut low: Vec<char> = Vec::new();
    let mut i: usize = 0;
    while i < v.len()
        invariant
            i <= v.len(),
            low@ == lower(v@.subrange(0, i as int)),
        decreases v.len() - i,
    {
        low.push(char_lower(v[i]));
        assert(low@ == lower(v@.subrange(0, i + 1)));
        i += 1;
    }
    assert(v@.subrange(0, v.len() as int) == v@);
    let wanted = chars_of("steamapps");
    same_chars(&low, &wanted)
}

/// The `steamapps` directory of `steam_root`, however its name is spelled.
pub fn has_steamapps(fs: &HostFs, steam_root: &str) -> (r: Option<String>)
    ensures
        match r {
            Some(apps) => spec_has_steamapps(*fs, steam_root@) == Some(apps@),
            None => spec_has_steamapps(*fs, steam_root@) is None,
        },
{
    let names = match fs.read_dir(steam_root) {
        Some(names) => names,
        None => {
            return None;
        },
    };
    let ghost all = crate::host::names_view(names@);
    let mut i: usize = 0;
    assert(all.subrange(0, all.len() as int) == all);
    while i < names.len()
        invariant
            i <= names.len(),
            all == crate::host::names_view(names@),
            fs.children(steam_root@) == Some(all),
            steamapps_among(*fs, steam_root@, all) == steamapps_among(
                *fs,
                steam_root@,
                all.subrange(i as int, all.len() as int),
            ),
        decreases names.len() - i,
    {
        let ghost rest = all.subrange(i as int, all.len() as int);
        assert(rest[0] == names@[i as int]@);
        assert(rest.drop_first() == all.subrange(i + 1, all.len() as int));
        if is_steamapps(names[i].as_str()) {
            let item = join_path(steam_root, names[i].as_str());
            if fs.path_is_dir(item.as_str()) {
                assert(steamapps_among(*fs, steam_root@, rest) == Some(item@));
                return Some(item);
            }
        }
        i += 1;
    }
    None
}

/// The Steam installation at `path`, if there is one.
pub fn steam_root_from(fs: &HostFs, path: String) -> (r: Option<SteamRoot>)
    ensures
        root_view(r) == root_at(*fs, path@),
{
    if !fs.path_is_dir(path.as_str()) {
        return None;
    }
    if has_runtime(fs, path.as_str()) {
        if let Some(apps) = has_steamapps(fs, path.as_str()) {
            return Some(SteamRoot { path, steamapps: apps });
        }
    }
    None
}

/// The value of `STEAM_DIR`, if it is set. `no_tricks` has no part in this.
pub fn get_steam_dir_env_value(env: &Environment) -> (r: Option<String>)
    ensures
        r == env.steam_dir,
{
    env.steam_dir.clone()
}

/// The directory that `STEAM_DIR` names. `no_tricks` has no part in this.
///
/// `Err(false)` says that the variable is not set, `Err(true)` that what it
/// names is no directory.
pub fn get_steam_dir_env_path(fs: &HostFs, env: &Environment) -> (r: Result<String, bool>)
    ensures
        match r {
            Ok(path) => env_path(*fs, *env) == Ok::<Seq<char>, bool>(path@),
            Err(e) => env_path(*fs, *env) == Err::<Seq<char>, bool>(e),
        },
{
    match &env.steam_dir {
        Some(val) => {
            if fs.path_is_dir(val.as_str()) {
                Ok(val.clone())
            } else {
                Err(true)
            }
        },
        None => Err(false),
    }
}

/// The installation that `STEAM_DIR` names. `no_tricks` has no part in
/// this.
///
/// `Err(false)` says that the variable is not set, `Err(true)` that what it
/// names is no Steam installation.
pub fn steam_root_env(fs: &HostFs, env: &Environment) -> (r: Result<SteamRoot, bool>)
    ensures
        match r {
            Ok(root) => env_root(*fs, *env) == Ok::<RootModel, bool>(root@),
            Err(e) => env_root(*fs, *env) == Err::<RootModel, bool>(e),
        },
{
    match get_steam_dir_env_path(fs, env) {
        Ok(path) => match steam_root_from(fs, path) {
            Some(root) => Ok(root),
            None => Err(true),
        },
        Err(e) => Err(e),
    }
}

/// The three standard places under `home`.
pub fn standard_paths(home: &str) -> (r: Vec<String>)
    ensures
        crate::host::names_view(r@) == standard_dirs(home@),
{
    let mut r: Vec<String> = Vec::new();
    r.push(expand_tilde(home, "~/.steam/steam"));
    r.push(expand_tilde(home, "~/.local/share/Steam"));
    r.push(expand_tilde(home, "~/.var/app/com.valvesoftware.Steam/data/Steam/"));
    assert(crate::host::names_view(r@) == standard_dirs(home@));
    r
}

/// The first Steam installation found.
///
/// The places are tried in this order: what `STEAM_DIR` names (unless
/// `no_tricks` is set), `~/.steam/steam`, `~/.local/share/Steam`,
/// `~/.var/app/com.valvesoftware.Steam/data/Steam/`.
///
/// `Err` says that `STEAM_DIR` was consulted and named no installation; it
/// carries what the standard places gave all the same.
pub fn find_steam_root(fs: &HostFs, env: &Environment) -> (r: Result<
    Option<SteamRoot>,
    Option<SteamRoot>,
>)
    ensures
        found_root_view(r) == found_root(*fs, *env),
        r is Err <==> override_failed(*fs, *env),
        env.steam_dir is None ==> r is Ok,
        env.no_tricks ==> r is Ok,
{
    let err = if !env.no_tricks {
        match steam_root_env(fs, env) {
            Ok(root) => {
                return Ok(Some(root));
            },
            Err(err) => err,
        }
    } else {
        false
    };
    let dirs = standard_paths(env.home.as_str());
    let ghost all = standard_dirs(env.home@);
    let mut i: usize = 0;
    assert(all.subrange(0, all.len() as int) == all);
    while i < dirs.len()
        invariant
            i <= dirs.len(),
            all == crate::host::names_view(dirs@),
            all == standard_dirs(env.home@),
            err == override_failed(*fs, *env),
            !(!env.no_tricks && env_root(*fs, *env) is Ok),
            first_root(*fs, all) == first_root(*fs, all.subrange(i as int, all.len() as int)),
        decreases dirs.len() - i,
    {
        let ghost rest = all.subrange(i as int, all.len() as int);
        assert(rest[0] == dirs@[i as int]@);
        assert(rest.drop_first() == all.subrange(i + 1, all.len() as int));
        if let Some(root) = steam_root_from(fs, dirs[i].clone()) {
            return if err {
                Err(Some(root))
            } else {
                Ok(Some(root))
            };
        }
        i += 1;
    }
    if err {
        Err(None)
    } else {
        Ok(None)
    }
}

/// Every Steam installation found, in the order of the search.
///
/// Where `~/.steam/steam` is a symbolic link that resolves to the same
/// directory as `~/.local/share/Steam`, the installation is listed once.
/// One that `STEAM_DIR` names is listed again if it is also found at a
/// standard place.
///
/// `Err` says that `STEAM_DIR` was consulted and named no installation.
pub fn find_all_steam_roots(fs: &HostFs, env: &Environment) -> (r: Result<
    Vec<SteamRoot>,
    Vec<SteamRoot>,
>)
    ensures
        all_roots_view(r) == found_roots(*fs, *env),
        r is Err <==> override_failed(*fs, *env),
        env.steam_dir is None ==> r is Ok,
        env.no_tricks ==> r is Ok,
{
    let mut roots: Vec<SteamRoot> = Vec::new();
    assert(roots_view(roots@) == Seq::<RootModel>::empty());
    let err = if !env.no_tricks {
        match steam_root_env(fs, env) {
            Ok(root) => {
                roots.push(root);
                assert(roots_view(roots@) == seq![root@]);
                false
            },
            Err(err) => err,
        }
    } else {
        false
    };
    let dirs = standard_paths(env.home.as_str());
    let ghost all = standard_dirs(env.home@);
    assert(dirs@.len() == 3) by {
        assert(crate::host::names_view(dirs@).len() == all.len());
    }
    assert(all[0] == dirs@[0]@) by {
        assert(crate::host::names_view(dirs@)[0] == dirs@[0]@);
    }
    assert(all[1] == dirs@[1]@) by {
        assert(crate::host::names_view(dirs@)[1] == dirs@[1]@);
    }
    assert(all[2] == dirs@[2]@) by {
        assert(crate::host::names_view(dirs@)[2] == dirs@[2]@);
    }
    push_root(fs, &mut roots, dirs[0].clone());
    // ~/.steam/steam is often a link to ~/.local/share/Steam
    let already = if fs.path_is_symlink(dirs[0].as_str()) {
        match (fs.canonicalize(dirs[0].as_str()), fs.canonicalize(dirs[1].as_str())) {
            (Some(link), Some(local)) => link == local,
            _ => false,
        }
    } else {
        false
    };
    if !already {
        push_root(fs, &mut roots, dirs[1].clone());
    }
    push_root(fs, &mut roots, dirs[2].clone());
    if err {
        Err(roots)
    } else {
        Ok(roots)
    }
}

/// Adds the installation at `dir` to `roots`, if there is one.
fn push_root(fs: &HostFs, roots: &mut Vec<SteamRoot>, dir: String)
    ensures
        roots_view(final(roots)@) == with_root(*fs, roots_view(old(roots)@), dir@),
{
    let ghost before = roots_view(roots@);
    if let Some(root) = steam_root_from(fs, dir) {
        roots.push(root);
        assert(roots_view(roots@) == before.push(root@));
    }
}

impl SteamRoot {
    /// The installation directory.
    pub fn get_root(&self) -> (r: String)
        ensures
            r@ == self@.path,
    {
        self.path.clone()
    }

    /// The `steamapps` directory of the installation.
    pub fn get_steamapps_folder(&self) -> (r: String)
        ensures
            r@ == self@.steamapps,
    {
        self.steamapps.clone()
    }
}

/// A Steam library as the contracts see it.
pub struct LibraryModel {
    /// Its `steamapps` directory.
    pub steamapps: Seq<char>,
    /// Whether the library is a Steam installation too.
    pub is_root: bool,
}

/// A Steam library: a directory whose `steamapps` holds `compatdata`.
#[derive(Debug, Clone)]
pub struct SteamLibrary {
    steamapps: String,
    is_root: bool,
}

impl View for SteamLibrary {
    type V = LibraryModel;

    closed spec fn view(&self) -> LibraryModel {
        LibraryModel { steamapps: self.steamapps@, is_root: self.is_root }
    }
}

/// The library at `lib`: there is one where `lib` has a `steamapps`
/// directory in which `compatdata` exists. It counts as an installation
/// where `lib` holds a runtime directory.
pub open spec fn library_at(fs: HostFs, lib: Seq<char>) -> Option<LibraryModel> {
    match spec_has_steamapps(fs, lib) {
        Some(apps) => if fs.present(join(apps, "compatdata"@)) {
            Some(LibraryModel { steamapps: apps, is_root: spec_has_runtime(fs, lib) })
        } else {
            None
        },
        None => None,
    }
}

/// Where a library keeps the prefix of the application `game_id`:
/// `compatdata/<game_id>/pfx` under its `steamapps`.
pub open spec fn prefix_dir(steamapps: Seq<char>, game_id: u32) -> Seq<char> {
    join(join(join(steamapps, "compatdata"@), decimal(game_id as nat)), "pfx"@)
}

/// The prefix of the application `game_id` in `lib`.
pub open spec fn library_prefix(fs: HostFs, lib: LibraryModel, game_id: u32) -> Option<
    PrefixModel,
> {
    match prefix_at(fs, prefix_dir(lib.steamapps, game_id)) {
        Some(prefix) => Some(PrefixModel { game: game_id, pfx: prefix.pfx }),
        None => None,
    }
}

/// The installation that `lib` is, if it is one: the one at the directory
/// that holds its `steamapps`.
pub open spec fn library_root(fs: HostFs, lib: LibraryModel) -> Option<RootModel> {
    if lib.is_root {
        root_at(fs, parent(lib.steamapps))
    } else {
        None
    }
}

/// The document in the file at `path`.
pub open spec fn vdf_file(fs: HostFs, path: Seq<char>) -> Option<Seq<(Seq<char>, VdfNode)>> {
    match fs.text(path) {
        Some(text) => parse_text(text),
        None => None,
    }
}

/// The table `libraryfolders` of the library index of `root`.
pub open spec fn library_folders(fs: HostFs, root: RootModel) -> Option<
    Seq<(Seq<char>, VdfNode)>,
> {
    match vdf_file(fs, join(root.steamapps, "libraryfolders.vdf"@)) {
        Some(doc) => match assoc_get(doc, "libraryfolders"@) {
            Some(VdfNode::Table(folders)) => Some(folders),
            _ => None,
        },
        None => None,
    }
}

/// The path of the library that the entry `node` describes, where the
/// entry claims the application `game_id`: a table with a string `path`
/// and a table `apps` that holds the number of the application as a key.
pub open spec fn claimed_by(node: VdfNode, game_id: u32) -> Option<Seq<char>> {
    match node {
        VdfNode::Table(lib) => match (assoc_get(lib, "path"@), assoc_get(lib, "apps"@)) {
            (Some(VdfNode::Leaf(path)), Some(VdfNode::Table(apps))) => if assoc_get(
                apps,
                decimal(game_id as nat),
            ) is Some {
                Some(path)
            } else {
                None
            },
            _ => None,
        },
        _ => None,
    }
}

/// The path of the first library of `folders` that claims `game_id`.
pub open spec fn claimed_path(folders: Seq<(Seq<char>, VdfNode)>, game_id: u32) -> Option<
    Seq<char>,
>
    decreases folders.len(),
{
    if folders.len() == 0 {
        None
    } else {
        match claimed_by(folders[0].1, game_id) {
            Some(path) => Some(path),
            None => claimed_path(folders.drop_first(), game_id),
        }
    }
}

/// The library in which the index of `root` says that `game_id` is
/// installed: the first entry that claims it decides, whether or not there
/// is a library at its path.
pub open spec fn install_library(fs: HostFs, root: RootModel, game_id: u32) -> Option<
    LibraryModel,
> {
    match library_folders(fs, root) {
        Some(folders) => match claimed_path(folders, game_id) {
            Some(path) => library_at(fs, path),
            None => None,
        },
        None => None,
    }
}

/// The library that the entry `node` describes: the one at its string
/// `path`.
pub open spec fn entry_library(fs: HostFs, node: VdfNode) -> Option<LibraryModel> {
    match node {
        VdfNode::Table(lib) => match assoc_get(lib, "path"@) {
            Some(VdfNode::Leaf(path)) => library_at(fs, path),
            _ => None,
        },
        _ => None,
    }
}

/// The libraries that the entries of `folders` describe, in their order.
pub open spec fn listed_libraries(fs: HostFs, folders: Seq<(Seq<char>, VdfNode)>) -> Seq<
    LibraryModel,
>
    decreases folders.len(),
{
    if folders.len() == 0 {
        Seq::empty()
    } else {
        let before = listed_libraries(fs, folders.drop_last());
        match entry_library(fs, folders.last().1) {
            Some(lib) => before.push(lib),
            None => before,
        }
    }
}

/// The libraries of `root`: those that its index lists, in the order of
/// the index; where that gives none, the installation itself.
pub open spec fn libraries(fs: HostFs, root: RootModel) -> Seq<LibraryModel> {
    let listed = match library_folders(fs, root) {
        Some(folders) => listed_libraries(fs, folders),
        None => Seq::empty(),
    };
    if listed.len() == 0 {
        seq![LibraryModel { steamapps: root.steamapps, is_root: true }]
    } else {
        listed
    }
}

/// The prefix of `game_id` in the first of `libs` that has one.
pub open spec fn first_prefix(fs: HostFs, libs: Seq<LibraryModel>, game_id: u32) -> Option<
    PrefixModel,
>
    decreases libs.len(),
{
    if libs.len() == 0 {
        None
    } else {
        match library_prefix(fs, libs[0], game_id) {
            Some(prefix) => Some(prefix),
            None => first_prefix(fs, libs.drop_first(), game_id),
        }
    }
}

/// The prefix of `game_id` in `root`: the one in the library that the
/// index names for it, else the one in the first library that has one.
pub open spec fn root_prefix(fs: HostFs, root: RootModel, game_id: u32) -> Option<PrefixModel> {
    let named = match install_library(fs, root, game_id) {
        Some(lib) => library_prefix(fs, lib, game_id),
        None => None,
    };
    match named {
        Some(prefix) => Some(prefix),
        None => first_prefix(fs, libraries(fs, root), game_id),
    }
}

/// The prefix of `game_id` in the first of `roots` that has one.
pub open spec fn first_root_prefix(fs: HostFs, roots: Seq<RootModel>, game_id: u32) -> Option<
    PrefixModel,
>
    decreases roots.len(),
{
    if roots.len() == 0 {
        None
    } else {
        match root_prefix(fs, roots[0], game_id) {
            Some(prefix) => Some(prefix),
            None => first_root_prefix(fs, roots.drop_first(), game_id),
        }
    }
}

/// The prefixes of `game_id` in `roots`, one for each that has one.
pub open spec fn root_prefixes(fs: HostFs, roots: Seq<RootModel>, game_id: u32) -> Seq<
    PrefixModel,
>
    decreases roots.len(),
{
    if roots.len() == 0 {
        Seq::empty()
    } else {
        let before = root_prefixes(fs, roots.drop_last(), game_id);
        match root_prefix(fs, roots.last(), game_id) {
            Some(prefix) => before.push(prefix),
            None => before,
        }
    }
}

/// What the search for one prefix gives: the prefix of `game_id` in the
/// first installation that has one, on the channel that says whether
/// `STEAM_DIR` failed.
pub open spec fn found_prefix(fs: HostFs, env: Environment, game_id: u32) -> Result<
    Option<PrefixModel>,
    Option<PrefixModel>,
> {
    let found = first_root_prefix(fs, all_roots(fs, env), game_id);
    if override_failed(fs, env) {
        Err(found)
    } else {
        Ok(found)
    }
}

/// What the search for all prefixes gives.
pub open spec fn found_prefixes(fs: HostFs, env: Environment, game_id: u32) -> Result<
    Seq<PrefixModel>,
    Seq<PrefixModel>,
> {
    let found = root_prefixes(fs, all_roots(fs, env), game_id);
    if override_failed(fs, env) {
        Err(found)
    } else {
        Ok(found)
    }
}

/// The view of a library that may be there.
pub open spec fn library_view(r: Option<SteamLibrary>) -> Option<LibraryModel> {
    match r {
        Some(lib) => Some(lib@),
        None => None,
    }
}

/// The views of libraries.
pub open spec fn libraries_view(libs: Seq<SteamLibrary>) -> Seq<LibraryModel> {
    libs.map_values(|l: SteamLibrary| l@)
}

/// The views of prefixes.
pub open spec fn prefixes_view(prefixes: Seq<ProtonPrefix>) -> Seq<PrefixModel> {
    prefixes.map_values(|p: ProtonPrefix| p@)
}

/// The view of what a search for one prefix gave.
pub open spec fn found_prefix_view(r: Result<Option<ProtonPrefix>, Option<ProtonPrefix>>) -> Result<
    Option<PrefixModel>,
    Option<PrefixModel>,
> {
    match r {
        Ok(prefix) => Ok(prefix_view(prefix)),
        Err(prefix) => Err(prefix_view(prefix)),
    }
}

/// The view of what a search for all prefixes gave.
pub open spec fn found_prefixes_view(r: Result<Vec<ProtonPrefix>, Vec<ProtonPrefix>>) -> Result<
    Seq<PrefixModel>,
    Seq<PrefixModel>,
> {
    match r {
        Ok(prefixes) => Ok(prefixes_view(prefixes@)),
        Err(prefixes) => Err(prefixes_view(prefixes@)),
    }
}

/// Reads the document in the file at `file_path`. A file that is missing,
/// or not well formed, gives nothing.
pub fn parse_vdf_file(fs: &HostFs, file_path: &str) -> (r: Option<VdfStruct>)
    ensures
        parsed_model(r) == vdf_file(*fs, file_path@),
{
    match fs.read_to_string(file_path) {
        Some(text) => parse_vdf(text.as_str()),
        None => None,
    }
}

impl SteamLibrary {
    /// The library at `lib`, if there is one. `lib` is the library
    /// directory as Steam names it, not the `steamapps` inside it.
    pub fn from_path(fs: &HostFs, lib: &str) -> (r: Option<SteamLibrary>)
        ensures
            library_view(r) == library_at(*fs, lib@),
    {
        let apps = match has_steamapps(fs, lib) {
            Some(apps) => apps,
            None => {
                return None;
            },
        };
        let compatdata = join_path(apps.as_str(), "compatdata");
        if !fs.path_exists(compatdata.as_str()) {
            return None;
        }
        Some(SteamLibrary { steamapps: apps, is_root: has_runtime(fs, lib) })
    }

    /// The prefix of the application `game_id` in this library, if it has
    /// one. That it has one does not say that the application is installed
    /// here, nor does the lack of one say that it is not.
    pub fn get_prefix(&self, fs: &HostFs, game_id: u32) -> (r: Option<ProtonPrefix>)
        ensures
            prefix_view(r) == library_prefix(*fs, self@, game_id),
    {
        let compatdata = join_path(self.steamapps.as_str(), "compatdata");
        let id = decimal_string(game_id);
        let game = join_path(compatdata.as_str(), id.as_str());
        let path = join_path(game.as_str(), "pfx");
        match ProtonPrefix::from_path(fs, path) {
            Some(prefix) => Some(prefix.for_game(game_id)),
            None => None,
        }
    }

    /// The `steamapps` directory of the library.
    pub fn get_steamapps_folder(&self) -> (r: String)
        ensures
            r@ == self@.steamapps,
    {
        self.steamapps.clone()
    }

    /// The installation that this library is, if it is one.
    pub fn convert_to_steamroot(&self, fs: &HostFs) -> (r: Option<SteamRoot>)
        ensures
            root_view(r) == library_root(*fs, self@),
    {
        if self.is_root {
            let folder = parent_path(self.steamapps.as_str());
            steam_root_from(fs, folder)
        } else {
            None
        }
    }

    /// Whether this library is a Steam installation too.
    pub fn is_root(&self) -> (r: bool)
        ensures
            r == self@.is_root,
    {
        self.is_root
    }
}

/// The path of the library that `entry` describes, where it claims the
/// application whose number is written `id`.
fn entry_claims<'a>(entry: &'a VdfValue, id: &str, game_id: u32) -> (r: Option<&'a String>)
    requires
        id@ == decimal(game_id as nat),
    ensures
        match r {
            Some(path) => claimed_by(entry.model(), game_id) == Some(path@),
            None => claimed_by(entry.model(), game_id) is None,
        },
{
    if let VdfValue::Complex(lib) = entry {
        if let (Some(VdfValue::Simple(path)), Some(VdfValue::Complex(apps))) = (
            lib.get("path"),
            lib.get("apps"),
        ) {
            if apps.contains_key(id) {
                return Some(path);
            }
        }
    }
    None
}

/// The library that `entry` describes.
fn library_of_entry(fs: &HostFs, entry: &VdfValue) -> (r: Option<SteamLibrary>)
    ensures
        library_view(r) == entry_library(*fs, entry.model()),
{
    if let VdfValue::Complex(lib) = entry {
        if let Some(VdfValue::Simple(path)) = lib.get("path") {
            return SteamLibrary::from_path(fs, path.as_str());
        }
    }
    None
}

impl SteamRoot {
    /// The table `libraryfolders` of the library index of this
    /// installation, `steamapps/libraryfolders.vdf`.
    pub fn read_library_folders_vdf_file(&self, fs: &HostFs) -> (r: Option<VdfStruct>)
        ensures
            parsed_model(r) == library_folders(*fs, self@),
    {
        let path = join_path(self.steamapps.as_str(), "libraryfolders.vdf");
        let mut vdf = match parse_vdf_file(fs, path.as_str()) {
            Some(vdf) => vdf,
            None => {
                return None;
            },
        };
        match vdf.remove("libraryfolders") {
            Some(VdfValue::Complex(folders)) => Some(folders),
            _ => None,
        }
    }

    /// The library in which the index says that `game_id` is installed.
    ///
    /// Steam brings its index up to date only now and then, so the answer
    /// may be stale; and the prefix of an application need not lie in the
    /// library that holds the application.
    pub fn get_install_library(&self, fs: &HostFs, game_id: u32) -> (r: Option<SteamLibrary>)
        ensures
            library_view(r) == install_library(*fs, self@, game_id),
    {
        let vdf = match self.read_library_folders_vdf_file(fs) {
            Some(vdf) => vdf,
            None => {
                return None;
            },
        };
        let id = decimal_string(game_id);
        let ghost folders = vdf.model();
        let mut i: usize = 0;
        assert(folders.subrange(0, folders.len() as int) == folders);
        while i < vdf.pairs.len()
            invariant
                i <= vdf.pairs.len(),
                folders == vdf.model(),
                library_folders(*fs, self@) == Some(folders),
                id@ == decimal(game_id as nat),
                claimed_path(folders, game_id) == claimed_path(
                    folders.subrange(i as int, folders.len() as int),
                    game_id,
                ),
            decreases vdf.pairs.len() - i,
        {
            let ghost rest = folders.subrange(i as int, folders.len() as int);
            assert(rest[0].1 == vdf.pairs@[i as int].1.model());
            assert(rest.drop_first() == folders.subrange(i + 1, folders.len() as int));
            if let Some(path) = entry_claims(&vdf.pairs[i].1, id.as_str(), game_id) {
                return SteamLibrary::from_path(fs, path.as_str());
            }
            i += 1;
        }
        None
    }

    /// The libraries of this installation: those that its index lists, in
    /// the order of the index; where that gives none, the installation
    /// itself. There is always at least one.
    pub fn get_libraries(&self, fs: &HostFs) -> (r: Vec<SteamLibrary>)
        ensures
            libraries_view(r@) == libraries(*fs, self@),
            r.len() >= 1,
    {
        let mut res: Vec<SteamLibrary> = Vec::new();
        assert(libraries_view(res@) == Seq::<LibraryModel>::empty());
        if let Some(vdf) = self.read_library_folders_vdf_file(fs) {
            let ghost folders = vdf.model();
            let mut i: usize = 0;
            assert(folders.subrange(0, 0) == Seq::<(Seq<char>, VdfNode)>::empty());
            while i < vdf.pairs.len()
                invariant
                    i <= vdf.pairs.len(),
                    folders == vdf.model(),
                    libraries_view(res@) == listed_libraries(*fs, folders.subrange(0, i as int)),
                decreases vdf.pairs.len() - i,
            {
                let ghost upto = folders.subrange(0, i + 1);
                assert(upto.drop_last() == folders.subrange(0, i as int));
                assert(upto.last().1 == vdf.pairs@[i as int].1.model());
                let ghost before = libraries_view(res@);
                if let Some(item) = library_of_entry(fs, &vdf.pairs[i].1) {
                    res.push(item);
                    assert(libraries_view(res@) == before.push(item@));
                }
                i += 1;
            }
            assert(folders.subrange(0, i as int) == folders);
        }
        if res.len() == 0 {
            // the installation itself is always a library
            let own = SteamLibrary { steamapps: self.steamapps.clone(), is_root: true };
            res.push(own);
            assert(libraries_view(res@) == seq![own@]);
        }
        assert(libraries_view(res@).len() == res@.len());
        res
    }

    /// The prefix of the application `game_id`: the one in the library
    /// that the index names for it, else the one in the first library that
    /// has one.
    pub fn get_prefix(&self, fs: &HostFs, game_id: u32) -> (r: Option<ProtonPrefix>)
        ensures
            prefix_view(r) == root_prefix(*fs, self@, game_id),
    {
        if let Some(lib) = self.get_install_library(fs, game_id) {
            if let Some(pre) = lib.get_prefix(fs, game_id) {
                return Some(pre);
            }
        }
        // the index may be out of date: look in every library
        let libs = self.get_libraries(fs);
        let ghost all = libraries_view(libs@);
        let mut i: usize = 0;
        assert(all.subrange(0, all.len() as int) == all);
        assert(root_prefix(*fs, self@, game_id) == first_prefix(*fs, all, game_id));
        while i < libs.len()
            invariant
                i <= libs.len(),
                all == libraries_view(libs@),
                root_prefix(*fs, self@, game_id) == first_prefix(*fs, all, game_id),
                first_prefix(*fs, all, game_id) == first_prefix(
                    *fs,
                    all.subrange(i as int, all.len() as int),
                    game_id,
                ),
            decreases libs.len() - i,
        {
            let ghost rest = all.subrange(i as int, all.len() as int);
            assert(rest[0] == libs@[i as int]@);
            assert(rest.drop_first() == all.subrange(i + 1, all.len() as int));
            if let Some(pre) = libs[i].get_prefix(fs, game_id) {
                return Some(pre);
            }
            i += 1;
        }
        None
    }
}

/// The first prefix found for the application `game_id`.
///
/// The installations are asked in the order in which
/// [`find_all_steam_roots`] finds them. `Err` says that `STEAM_DIR` was
/// consulted and named no installation; it carries what the other places
/// gave all the same.
pub fn find_prefix(fs: &HostFs, env: &Environment, game_id: u32) -> (r: Result<
    Option<ProtonPrefix>,
    Option<ProtonPrefix>,
>)
    ensures
        found_prefix_view(r) == found_prefix(*fs, *env, game_id),
        r is Err <==> override_failed(*fs, *env),
        env.steam_dir is None ==> r is Ok,
        env.no_tricks ==> r is Ok,
{
    let (roots, err) = match find_all_steam_roots(fs, env) {
        Err(res) => (res, true),
        Ok(res) => (res, false),
    };
    let ghost all = roots_view(roots@);
    let mut i: usize = 0;
    assert(all.subrange(0, all.len() as int) == all);
    while i < roots.len()
        invariant
            i <= roots.len(),
            all == roots_view(roots@),
            all == all_roots(*fs, *env),
            err == override_failed(*fs, *env),
            first_root_prefix(*fs, all, game_id) == first_root_prefix(
                *fs,
                all.subrange(i as int, all.len() as int),
                game_id,
            ),
        decreases roots.len() - i,
    {
        let ghost rest = all.subrange(i as int, all.len() as int);
        assert(rest[0] == roots@[i as int]@);
        assert(rest.drop_first() == all.subrange(i + 1, all.len() as int));
        if let Some(pref) = roots[i].get_prefix(fs, game_id) {
            return if err {
                Err(Some(pref))
            } else {
                Ok(Some(pref))
            };
        }
        i += 1;
    }
    if err {
        Err(None)
    } else {
        Ok(None)
    }
}

/// Every prefix found for the application `game_id`: one for each
/// installation that has one, in the order in which
/// [`find_all_steam_roots`] finds them.
///
/// `Err` says that `STEAM_DIR` was consulted and named no installation.
pub fn find_all_prefixes(fs: &HostFs, env: &Environment, game_id: u32) -> (r: Result<
    Vec<ProtonPrefix>,
    Vec<ProtonPrefix>,
>)
    ensures
        found_prefixes_view(r) == found_prefixes(*fs, *env, game_id),
        r is Err <==> override_failed(*fs, *env),
        env.steam_dir is None ==> r is Ok,
        env.no_tricks ==> r is Ok,
{
    let mut prefixes: Vec<ProtonPrefix> = Vec::new();
    assert(prefixes_view(prefixes@) == Seq::<PrefixModel>::empty());
    let (roots, err) = match find_all_steam_roots(fs, env) {
        Err(res) => (res, true),
        Ok(res) => (res, false),
    };
    let ghost all = roots_view(roots@);
    let mut i: usize = 0;
    assert(all.subrange(0, 0) == Seq::<RootModel>::empty());
    while i < roots.len()
        invariant
            i <= roots.len(),
            all == roots_view(roots@),
            prefixes_view(prefixes@) == root_prefixes(*fs, all.subrange(0, i as int), game_id),
        decreases roots.len() - i,
    {
        let ghost upto = all.subrange(0, i + 1);
        assert(upto.drop_last() == all.subrange(0, i as int));
        assert(upto.last() == roots@[i as int]@);
        let ghost before = prefixes_view(prefixes@);
        if let Some(pref) = roots[i].get_prefix(fs, game_id) {
            prefixes.push(pref);
            assert(prefixes_view(prefixes@) == before.push(pref@));
        }
        i += 1;
    }
    assert(all.subrange(0, i as int) == all);
    if err {
        Err(prefixes)
    } else {
        Ok(prefixes)
    }
}

} // verus!
