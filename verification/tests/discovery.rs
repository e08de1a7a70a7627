use game_drive::host::{Environment, FileKind, FsEntry, HostFs};
use game_drive::linux::{
    find_all_prefixes, find_all_steam_roots, find_prefix, get_steam_dir_env_path,
    get_steam_dir_env_value, has_runtime, has_steamapps, is_steamapps, parse_vdf_file,
    steam_root_env, steam_root_from, SteamLibrary,
};
use game_drive::prefix::ProtonPrefix;
use game_drive::{get_game_drive, GameDrive};

const HOME: &str = "/home/u";
const STEAM: &str = "/home/u/.local/share/Steam";
const PFX: &str = "/home/u/.local/share/Steam/steamapps/compatdata/2420510/pfx";

const USER_REG: &str = r#"WINE REGISTRY Version 2
;; All keys relative to \\User\\S-1-5-21-0-0-0-1000

#arch=win64

[Software\\Microsoft\\Windows\\CurrentVersion\\Explorer\\Shell Folders] 1700000000
#time=1da0000000000
"AppData"="C:\\users\\steamuser\\AppData\\Roaming"
"Desktop"="C:\\users\\steamuser\\Desktop"
"Local AppData"="C:\\users\\steamuser\\AppData\\Local"
"My Music"="C:\\users\\steamuser\\Music"
"Personal"="C:\\users\\steamuser\\Documents"
"{A520A1A4-1780-4FF6-BD18-167343C5AF16}"="C:\\users\\steamuser\\AppData\\LocalLow"

[Software\\Wine\\Drivers] 1700000001
"Audio"="pulse"

[Volatile Environment] 1700000002
"USERPROFILE"="C:\\users\\steamuser"
"#;

const SYSTEM_REG: &str = r#"WINE REGISTRY Version 2

[Software\\Microsoft\\Windows NT\\CurrentVersion\\ProfileList] 1700000000
"ProfilesDirectory"="C:\\users"
"Public"="C:\\users\\Public"
"#;

fn env() -> Environment {
    Environment { steam_dir: None, no_tricks: false, home: HOME.to_string() }
}

fn env_with(dir: &str) -> Environment {
    Environment { steam_dir: Some(dir.to_string()), no_tricks: false, home: HOME.to_string() }
}

fn add_install(fs: &mut HostFs, root: &str) {
    fs.add_dir(root);
    fs.add_dir(&game_drive::path::join_path(root, "ubuntu12_32"));
    fs.add_dir(&game_drive::path::join_path(root, "steamapps"));
    fs.add_dir(&game_drive::path::join_path(root, "steamapps/compatdata"));
}

/// A folder of the prefix, reached through `dosdevices/c:` and resolved to
/// `drive_c`.
fn add_folder(fs: &mut HostFs, pfx: &str, below_c: &str) {
    let real = format!("{}/drive_c/{}", pfx, below_c);
    fs.add_dir(&real);
    fs.add_dir_at(&format!("{}/dosdevices/c:/{}", pfx, below_c), &real, false);
}

fn add_prefix(fs: &mut HostFs, pfx: &str) {
    fs.add_dir(pfx);
    fs.add_dir(&format!("{}/dosdevices", pfx));
    fs.add_dir_at(&format!("{}/dosdevices/c:/", pfx), &format!("{}/drive_c", pfx), false);
    fs.add_dir(&format!("{}/drive_c", pfx));
    fs.add_file(&format!("{}/user.reg", pfx), USER_REG);
    fs.add_file(&format!("{}/system.reg", pfx), SYSTEM_REG);
    add_folder(fs, pfx, "users/steamuser");
    add_folder(fs, pfx, "users/Public");
    add_folder(fs, pfx, "users/steamuser/AppData/Roaming");
    add_folder(fs, pfx, "users/steamuser/AppData/Local");
}

/// A host with Steam in `~/.local/share/Steam` and HoloCure started once.
fn host() -> HostFs {
    let mut fs = HostFs::new();
    add_install(&mut fs, STEAM);
    add_prefix(&mut fs, PFX);
    let holocure = format!("{}/drive_c/users/steamuser/AppData/Local/HoloCure", PFX);
    fs.add_dir(&holocure);
    fs.add_file(&format!("{}/version.ini", holocure), "[version]\n");
    fs
}

fn find_prefix_helper(fs: &HostFs, game_id: u32) -> ProtonPrefix {
    let prefix = match find_prefix(fs, &env(), game_id) {
        Ok(res) => res,
        Err(res) => res,
    };
    assert!(prefix.is_some(), "Unable to find prefix for game {}", game_id);
    prefix.unwrap()
}

fn get_game_drive_helper(fs: &HostFs, game_id: u32) -> GameDrive {
    let prefix = match get_game_drive(fs, &env(), game_id) {
        Ok(res) => res,
        Err(res) => res,
    };
    assert!(prefix.is_some(), "Unable to find windows enviroment for game {}", game_id);
    prefix.unwrap()
}

#[test]
fn find_steam_root() {
    let fs = host();
    assert!(
        match game_drive::linux::find_steam_root(&fs, &env()) {
            Ok(res) => res,
            Err(res) => res,
        }
        .is_some(),
        "Unable to find any steam install"
    );
}

#[test]
fn find_holocure_prefix() {
    let fs = host();
    assert!(
        match find_prefix(&fs, &env(), 2420510) {
            Ok(res) => res,
            Err(res) => res,
        }
        .is_some(),
        "Unable to find HoloCure Prefix (2420510)"
    );
}

#[test]
fn find_holocure_c_drive() {
    let fs = host();
    let path = find_prefix_helper(&fs, 2420510).get_c_drive();
    assert!(fs.path_is_dir(&path), "Unable to find HoloCure drive_c folder: {}", path);
}

#[test]
fn find_holocure_home() {
    let fs = host();
    let path = find_prefix_helper(&fs, 2420510).home_dir(&fs);
    assert!(path.is_some(), "Unable to find HoloCure user home folder: None returned");
    let path = path.unwrap();
    assert!(fs.path_is_dir(&path), "Unable to find HoloCure user home folder: {}", path);
}

#[test]
fn find_holocure_appdata_roaming() {
    let fs = host();
    let path = find_prefix_helper(&fs, 2420510).appdata_roaming(&fs);
    assert!(
        path.is_some(),
        "Unable to find HoloCure user appdata/roaming folder: None returned"
    );
    let path = path.unwrap();
    assert!(
        fs.path_is_dir(&path),
        "Unable to find HoloCure user appdata/roaming folder: {}",
        path
    );
}

#[test]
fn universal_find_holocure_gamedrive() {
    let fs = host();
    let game_drive = match get_game_drive(&fs, &env(), 2420510) {
        Ok(res) => res,
        Err(res) => res,
    };
    assert!(
        game_drive.is_some(),
        "Unable to find windows enviroment for game HoloCure (2420510)"
    );
}

#[test]
fn universal_find_holocure_c_drive() {
    let fs = host();
    let path = get_game_drive_helper(&fs, 2420510).c_drive();
    assert!(
        fs.path_is_dir(&path),
        "C drive within enviroment for HoloCure not found: {}",
        path
    );
}

#[test]
fn universal_find_holocure_user_folder() {
    let fs = host();
    let path = get_game_drive_helper(&fs, 2420510).home_dir(&fs);
    assert!(
        path.is_some(),
        "Home folder within enviroment for HoloCure not found: None returned"
    );
    let path = path.unwrap();
    assert!(
        fs.path_is_dir(&path),
        "Home folder within enviroment for HoloCure not found: {}",
        path
    );
}

#[test]
fn universal_find_holocure_public() {
    let fs = host();
    let path = get_game_drive_helper(&fs, 2420510).public_dir(&fs);
    assert!(
        path.is_some(),
        "Public folder within enviroment for HoloCure not found: None returned"
    );
    let path = path.unwrap();
    assert!(
        fs.path_is_dir(&path),
        "Public folder within enviroment for HoloCure not found: {}",
        path
    );
}

#[test]
fn universal_find_holocure_version_ini() {
    let fs = host();
    let path = get_game_drive_helper(&fs, 2420510).config_local_dir(&fs);
    assert!(
        path.is_some(),
        "AppData\\Local folder within enviroment for HoloCure not found: None returned"
    );
    let mut path = path.unwrap();
    assert!(
        fs.path_is_dir(&path),
        "AppData\\Local within enviroment for HoloCure not found: {}",
        path
    );
    path = game_drive::path::join_path(&path, "HoloCure");
    assert!(
        fs.path_is_dir(&path),
        "HoloCure save folder within enviroment for HoloCure not found: {}",
        path
    );
    path = game_drive::path::join_path(&path, "version.ini");
    assert!(
        fs.path_is_file(&path),
        "HoloCure save version.ini file within enviroment for HoloCure not found: {}",
        path
    );
}

#[test]
fn exact_paths_of_the_found_prefix() {
    let fs = host();
    let prefix = find_prefix_helper(&fs, 2420510);
    assert_eq!(prefix.get_game_id(), 2420510);
    assert_eq!(prefix.get_pfx_path(), PFX);
    assert_eq!(prefix.get_c_drive(), format!("{}/dosdevices/c:/", PFX));
    assert_eq!(
        prefix.home_dir(&fs),
        Some(format!("{}/drive_c/users/steamuser", PFX))
    );
    assert_eq!(
        prefix.appdata_local(&fs),
        Some(format!("{}/drive_c/users/steamuser/AppData/Local", PFX))
    );
    assert_eq!(
        prefix.public_user_dir(&fs),
        Some(format!("{}/drive_c/users/Public", PFX))
    );
}

#[test]
fn folder_that_is_not_on_disk_is_none() {
    let fs = host();
    let prefix = find_prefix_helper(&fs, 2420510);
    // named in the registry, but never created
    assert_eq!(prefix.desktop_dir(&fs), None);
    assert_eq!(prefix.music_dir(&fs), None);
    assert_eq!(prefix.documents_dir(&fs), None);
    assert_eq!(prefix.appdata_local_low(&fs), None);
    // not even named in the registry
    assert_eq!(prefix.videos_dir(&fs), None);
    assert_eq!(prefix.picture_dir(&fs), None);
    assert_eq!(prefix.downloads_dir(&fs), None);
    assert_eq!(prefix.get_path_from_registry(&fs, "No\\Such\\Section", "AppData"), None);
}

#[test]
fn game_drive_names_the_same_folders_as_the_prefix() {
    let fs = host();
    let drive = get_game_drive_helper(&fs, 2420510);
    let roaming = Some(format!("{}/drive_c/users/steamuser/AppData/Roaming", PFX));
    let local = Some(format!("{}/drive_c/users/steamuser/AppData/Local", PFX));
    assert_eq!(drive.config_dir(&fs), roaming);
    assert_eq!(drive.preference_dir(&fs), roaming);
    assert_eq!(drive.data_dir(&fs), roaming);
    assert_eq!(drive.config_local_dir(&fs), local);
    assert_eq!(drive.cache_dir(&fs), local);
    assert_eq!(drive.data_local_dir(&fs), local);
    assert_eq!(drive.config_local_low_dir(&fs), None);
    assert_eq!(drive.audio_dir(&fs), None);
    assert_eq!(drive.video_dir(&fs), None);
    assert_eq!(drive.picture_dir(&fs), None);
    assert_eq!(drive.document_dir(&fs), None);
    assert_eq!(drive.download_dir(&fs), None);
    assert_eq!(drive.desktop_dir(&fs), None);
}

#[test]
fn no_prefix_is_ok_none() {
    let fs = host();
    assert!(matches!(find_prefix(&fs, &env(), 7), Ok(None)));
    assert!(matches!(get_game_drive(&fs, &env(), 7), Ok(None)));
    assert_eq!(find_all_prefixes(&fs, &env(), 7).unwrap().len(), 0);
    let empty = HostFs::new();
    assert!(matches!(game_drive::linux::find_steam_root(&empty, &env()), Ok(None)));
    assert_eq!(find_all_steam_roots(&empty, &env()).unwrap().len(), 0);
    assert!(matches!(find_prefix(&empty, &env(), 2420510), Ok(None)));
}

#[test]
fn root_needs_runtime_and_steamapps() {
    let mut fs = HostFs::new();
    fs.add_dir("/a");
    fs.add_dir("/a/steamapps");
    assert!(steam_root_from(&fs, "/a".to_string()).is_none());
    assert!(!has_runtime(&fs, "/a"));
    fs.add_dir("/a/ubuntu12_64");
    assert!(has_runtime(&fs, "/a"));
    let root = steam_root_from(&fs, "/a".to_string()).unwrap();
    assert_eq!(root.get_root(), "/a");
    assert_eq!(root.get_steamapps_folder(), "/a/steamapps");

    let mut fs = HostFs::new();
    fs.add_dir("/b");
    fs.add_dir("/b/ubuntu12_32");
    assert!(steam_root_from(&fs, "/b".to_string()).is_none());
    // a file named steamapps does not count
    fs.add_file("/b/steamapps", "");
    assert!(steam_root_from(&fs, "/b".to_string()).is_none());
    assert!(steam_root_from(&fs, "/missing".to_string()).is_none());
}

#[test]
fn steamapps_is_found_in_any_case() {
    assert!(is_steamapps("steamapps"));
    assert!(is_steamapps("SteamApps"));
    assert!(is_steamapps("STEAMAPPS"));
    assert!(!is_steamapps("steamapp"));
    assert!(!is_steamapps("steamapps2"));
    assert!(!is_steamapps(""));
    let mut fs = HostFs::new();
    fs.add_dir("/s");
    fs.add_dir("/s/ubuntu12_32");
    fs.add_file("/s/steamapps.txt", "");
    fs.add_dir("/s/SteamApps");
    fs.add_dir("/s/steamapps");
    assert_eq!(has_steamapps(&fs, "/s"), Some("/s/SteamApps".to_string()));
    // the directory is known under the name it was recorded with
    assert_eq!(has_steamapps(&fs, "/s/"), None);
    fs.add_dir("/s/");
    assert_eq!(has_steamapps(&fs, "/s/"), Some("/s/SteamApps".to_string()));
    assert_eq!(has_steamapps(&fs, "/nowhere"), None);
    // entries deeper down are not entries of the directory
    let mut fs = HostFs::new();
    fs.add_dir("/t");
    fs.add_dir("/t/x/steamapps");
    assert_eq!(has_steamapps(&fs, "/t"), None);
}

#[test]
fn search_order_of_the_standard_places() {
    let mut fs = HostFs::new();
    add_install(&mut fs, "/home/u/.var/app/com.valvesoftware.Steam/data/Steam/");
    let found = game_drive::linux::find_steam_root(&fs, &env()).unwrap().unwrap();
    assert_eq!(found.get_root(), "/home/u/.var/app/com.valvesoftware.Steam/data/Steam/");
    assert_eq!(
        found.get_steamapps_folder(),
        "/home/u/.var/app/com.valvesoftware.Steam/data/Steam/steamapps"
    );
    add_install(&mut fs, STEAM);
    let found = game_drive::linux::find_steam_root(&fs, &env()).unwrap().unwrap();
    assert_eq!(found.get_root(), STEAM);
    add_install(&mut fs, "/home/u/.steam/steam");
    let found = game_drive::linux::find_steam_root(&fs, &env()).unwrap().unwrap();
    assert_eq!(found.get_root(), "/home/u/.steam/steam");
    let all = find_all_steam_roots(&fs, &env()).unwrap();
    let paths: Vec<String> = all.iter().map(|r| r.get_root()).collect();
    assert_eq!(
        paths,
        vec![
            "/home/u/.steam/steam".to_string(),
            STEAM.to_string(),
            "/home/u/.var/app/com.valvesoftware.Steam/data/Steam/".to_string(),
        ]
    );
}

#[test]
fn linked_install_is_listed_once() {
    let mut fs = HostFs::new();
    add_install(&mut fs, STEAM);
    // ~/.steam/steam is a link to ~/.local/share/Steam
    fs.add_dir_at("/home/u/.steam/steam", STEAM, true);
    fs.add_dir("/home/u/.steam/steam/ubuntu12_32");
    fs.add_dir("/home/u/.steam/steam/steamapps");
    let all = find_all_steam_roots(&fs, &env()).unwrap();
    assert_eq!(all.len(), 1);
    assert_eq!(all[0].get_root(), "/home/u/.steam/steam");

    // the same two directories, not linked: both are listed
    let mut fs = HostFs::new();
    add_install(&mut fs, STEAM);
    add_install(&mut fs, "/home/u/.steam/steam");
    assert_eq!(find_all_steam_roots(&fs, &env()).unwrap().len(), 2);

    // a link that leads elsewhere: both are listed
    let mut fs = HostFs::new();
    add_install(&mut fs, STEAM);
    fs.add_dir_at("/home/u/.steam/steam", "/opt/steam", true);
    fs.add_dir("/home/u/.steam/steam/ubuntu12_32");
    fs.add_dir("/home/u/.steam/steam/steamapps");
    assert_eq!(find_all_steam_roots(&fs, &env()).unwrap().len(), 2);
}

#[test]
fn unset_override_never_warns() {
    let fs = host();
    let e = env();
    assert!(game_drive::linux::find_steam_root(&fs, &e).is_ok());
    assert!(find_all_steam_roots(&fs, &e).is_ok());
    assert!(find_prefix(&fs, &e, 2420510).is_ok());
    assert!(find_all_prefixes(&fs, &e, 2420510).is_ok());
    assert!(get_game_drive(&fs, &e, 2420510).is_ok());
    let empty = HostFs::new();
    assert!(game_drive::linux::find_steam_root(&empty, &e).is_ok());
    assert!(find_all_steam_roots(&empty, &e).is_ok());
    assert!(find_prefix(&empty, &e, 1).is_ok());
    assert!(find_all_prefixes(&empty, &e, 1).is_ok());
    assert_eq!(get_steam_dir_env_value(&e), None);
    assert_eq!(get_steam_dir_env_path(&fs, &e), Err(false));
    assert!(matches!(steam_root_env(&fs, &e), Err(false)));
}

#[test]
fn missing_override_warns_and_keeps_searching() {
    let fs = host();
    let e = env_with("/does/not/exist");
    assert_eq!(get_steam_dir_env_value(&e), Some("/does/not/exist".to_string()));
    assert_eq!(get_steam_dir_env_path(&fs, &e), Err(true));
    assert!(matches!(steam_root_env(&fs, &e), Err(true)));
    let skipped = Environment { steam_dir: e.steam_dir.clone(), no_tricks: true, home: HOME.into() };
    let with = game_drive::linux::find_steam_root(&fs, &e).unwrap_err().unwrap();
    let without = game_drive::linux::find_steam_root(&fs, &skipped).unwrap().unwrap();
    assert_eq!(with.get_root(), STEAM);
    assert_eq!(with.get_root(), without.get_root());
    assert_eq!(with.get_steamapps_folder(), without.get_steamapps_folder());
    assert_eq!(find_all_steam_roots(&fs, &e).unwrap_err().len(), 1);
    let prefix = find_prefix(&fs, &e, 2420510).unwrap_err().unwrap();
    assert_eq!(prefix.get_pfx_path(), PFX);
    assert_eq!(find_all_prefixes(&fs, &e, 2420510).unwrap_err().len(), 1);
    assert!(matches!(get_game_drive(&fs, &e, 2420510), Err(Some(_))));
    // nothing anywhere: the warning carries nothing
    let empty = HostFs::new();
    assert!(matches!(game_drive::linux::find_steam_root(&empty, &e), Err(None)));
    assert!(matches!(find_prefix(&empty, &e, 2420510), Err(None)));
    assert_eq!(find_all_steam_roots(&empty, &e).unwrap_err().len(), 0);
}

#[test]
fn override_that_is_a_directory_but_no_install_warns() {
    let mut fs = host();
    fs.add_dir("/plain");
    let e = env_with("/plain");
    assert_eq!(get_steam_dir_env_path(&fs, &e), Ok("/plain".to_string()));
    assert!(matches!(steam_root_env(&fs, &e), Err(true)));
    assert!(matches!(game_drive::linux::find_steam_root(&fs, &e), Err(Some(_))));
}

#[test]
fn valid_override_comes_first() {
    let mut fs = host();
    add_install(&mut fs, "/opt/steam");
    let e = env_with("/opt/steam");
    let found = game_drive::linux::find_steam_root(&fs, &e).unwrap().unwrap();
    assert_eq!(found.get_root(), "/opt/steam");
    assert_eq!(steam_root_env(&fs, &e).unwrap().get_root(), "/opt/steam");
    let all = find_all_steam_roots(&fs, &e).unwrap();
    assert_eq!(all.len(), 2);
    assert_eq!(all[0].get_root(), "/opt/steam");
    assert_eq!(all[1].get_root(), STEAM);
    // the prefix lies in the second installation
    let prefix = find_prefix(&fs, &e, 2420510).unwrap().unwrap();
    assert_eq!(prefix.get_pfx_path(), PFX);
    // an override that names a standard place is listed twice
    let twice = find_all_steam_roots(&fs, &env_with(STEAM)).unwrap();
    assert_eq!(twice.len(), 2);
    assert_eq!(find_all_prefixes(&fs, &env_with(STEAM), 2420510).unwrap().len(), 2);
}

#[test]
fn no_tricks_passes_the_override_over() {
    let mut fs = host();
    add_install(&mut fs, "/opt/steam");
    let e = Environment {
        steam_dir: Some("/opt/steam".to_string()),
        no_tricks: true,
        home: HOME.to_string(),
    };
    let found = game_drive::linux::find_steam_root(&fs, &e).unwrap().unwrap();
    assert_eq!(found.get_root(), STEAM);
    assert_eq!(find_all_steam_roots(&fs, &e).unwrap().len(), 1);
    let bad = Environment {
        steam_dir: Some("/does/not/exist".to_string()),
        no_tricks: true,
        home: HOME.to_string(),
    };
    assert!(game_drive::linux::find_steam_root(&fs, &bad).is_ok());
    assert!(find_prefix(&fs, &bad, 2420510).is_ok());
    // the value itself is still reported
    assert_eq!(get_steam_dir_env_path(&fs, &bad), Err(true));
}

fn index_host(with_lib1_prefix: bool, with_own_prefix: bool) -> HostFs {
    let mut fs = HostFs::new();
    add_install(&mut fs, "/steam");
    fs.add_file(
        "/steam/steamapps/libraryfolders.vdf",
        "\"libraryfolders\"\n{\n\t\"0\"\n\t{\n\t\t\"path\"\t\t\"/lib1\"\n\t\t\"apps\"\n\t\t{\n\t\t\t\"100\"\t\t\"0\"\n\t\t}\n\t}\n}\n",
    );
    fs.add_dir("/lib1");
    fs.add_dir("/lib1/steamapps");
    fs.add_dir("/lib1/steamapps/compatdata");
    if with_lib1_prefix {
        fs.add_dir("/lib1/steamapps/compatdata/100/pfx");
        fs.add_dir("/lib1/steamapps/compatdata/100/pfx/dosdevices");
        fs.add_file("/lib1/steamapps/compatdata/100/pfx/user.reg", USER_REG);
    }
    if with_own_prefix {
        fs.add_dir("/steam/steamapps/compatdata/100/pfx");
        fs.add_dir("/steam/steamapps/compatdata/100/pfx/dosdevices");
        fs.add_file("/steam/steamapps/compatdata/100/pfx/user.reg", USER_REG);
    }
    fs
}

#[test]
fn prefix_in_the_library_that_the_index_names() {
    let fs = index_host(true, false);
    let root = steam_root_from(&fs, "/steam".to_string()).unwrap();
    let lib = root.get_install_library(&fs, 100).unwrap();
    assert_eq!(lib.get_steamapps_folder(), "/lib1/steamapps");
    assert!(!lib.is_root());
    assert!(lib.convert_to_steamroot(&fs).is_none());
    let prefix = root.get_prefix(&fs, 100).unwrap();
    assert_eq!(prefix.get_pfx_path(), "/lib1/steamapps/compatdata/100/pfx");
    assert_eq!(prefix.get_game_id(), 100);
    assert!(root.get_install_library(&fs, 101).is_none());
    assert!(root.get_prefix(&fs, 101).is_none());
}

#[test]
fn stale_index_falls_back_to_a_scan() {
    // the index names /lib1, which does not list the root; the scan of the
    // listed libraries finds nothing there, so add the root to the index
    let mut fs = index_host(false, true);
    let root = steam_root_from(&fs, "/steam".to_string()).unwrap();
    // /lib1 is listed and has no prefix; the root is not listed
    assert!(root.get_prefix(&fs, 100).is_none());
    let libs = root.get_libraries(&fs);
    assert_eq!(libs.len(), 1);
    assert_eq!(libs[0].get_steamapps_folder(), "/lib1/steamapps");

    // an index that lists both, and claims the game for /lib1
    fs = HostFs::new();
    add_install(&mut fs, "/steam");
    fs.add_file(
        "/steam/steamapps/libraryfolders.vdf",
        "\"libraryfolders\"\n{\n\"0\"\n{\n\"path\" \"/lib1\"\n\"apps\"\n{\n\"100\" \"0\"\n}\n}\n\"1\"\n{\n\"path\" \"/steam\"\n\"apps\"\n{\n}\n}\n}\n",
    );
    fs.add_dir("/lib1");
    fs.add_dir("/lib1/steamapps");
    fs.add_dir("/lib1/steamapps/compatdata");
    fs.add_dir("/steam/steamapps/compatdata/100/pfx");
    fs.add_dir("/steam/steamapps/compatdata/100/pfx/dosdevices");
    fs.add_file("/steam/steamapps/compatdata/100/pfx/user.reg", USER_REG);
    let root = steam_root_from(&fs, "/steam".to_string()).unwrap();
    assert_eq!(
        root.get_install_library(&fs, 100).unwrap().get_steamapps_folder(),
        "/lib1/steamapps"
    );
    let libs = root.get_libraries(&fs);
    assert_eq!(libs.len(), 2);
    assert!(libs[1].is_root());
    let prefix = root.get_prefix(&fs, 100).unwrap();
    assert_eq!(prefix.get_pfx_path(), "/steam/steamapps/compatdata/100/pfx");
    assert_eq!(prefix.get_game_id(), 100);
}

#[test]
fn stale_index_with_prefix_under_the_root() {
    // the index is unusable for the scan only if nothing is listed: take
    // the library away, so that the root itself is the one library
    let mut fs = HostFs::new();
    add_install(&mut fs, "/steam");
    fs.add_file(
        "/steam/steamapps/libraryfolders.vdf",
        "\"libraryfolders\"\n{\n\"0\"\n{\n\"path\" \"/lib1\"\n\"apps\"\n{\n\"100\" \"0\"\n}\n}\n}\n",
    );
    fs.add_dir("/steam/steamapps/compatdata/100/pfx");
    fs.add_dir("/steam/steamapps/compatdata/100/pfx/dosdevices");
    fs.add_file("/steam/steamapps/compatdata/100/pfx/user.reg", USER_REG);
    let root = steam_root_from(&fs, "/steam".to_string()).unwrap();
    assert!(root.get_install_library(&fs, 100).is_none());
    let prefix = root.get_prefix(&fs, 100).unwrap();
    assert_eq!(prefix.get_pfx_path(), "/steam/steamapps/compatdata/100/pfx");
}

#[test]
fn libraries_are_never_empty() {
    // no index at all
    let mut fs = HostFs::new();
    add_install(&mut fs, "/steam");
    let root = steam_root_from(&fs, "/steam".to_string()).unwrap();
    assert!(root.read_library_folders_vdf_file(&fs).is_none());
    let libs = root.get_libraries(&fs);
    assert_eq!(libs.len(), 1);
    assert!(libs[0].is_root());
    assert_eq!(libs[0].get_steamapps_folder(), "/steam/steamapps");
    let back = libs[0].convert_to_steamroot(&fs).unwrap();
    assert_eq!(back.get_root(), "/steam");
    assert_eq!(back.get_steamapps_folder(), "/steam/steamapps");
    // a broken index
    fs.add_file("/steam/steamapps/libraryfolders.vdf", "\"libraryfolders\"\n{\n\"0\"\n");
    let root = steam_root_from(&fs, "/steam".to_string()).unwrap();
    assert_eq!(root.get_libraries(&fs).len(), 1);
    assert!(root.get_install_library(&fs, 100).is_none());
    // an index without the table
    let mut fs = HostFs::new();
    add_install(&mut fs, "/steam");
    fs.add_file("/steam/steamapps/libraryfolders.vdf", "\"other\"\n{\n}\n");
    let root = steam_root_from(&fs, "/steam".to_string()).unwrap();
    assert!(root.read_library_folders_vdf_file(&fs).is_none());
    assert_eq!(root.get_libraries(&fs).len(), 1);
    // an index whose libraries are all gone
    let fs = {
        let mut fs = HostFs::new();
        add_install(&mut fs, "/steam");
        fs.add_file(
            "/steam/steamapps/libraryfolders.vdf",
            "\"libraryfolders\"\n{\n\"0\"\n{\n\"path\" \"/gone\"\n}\n\"x\" \"y\"\n}\n",
        );
        fs
    };
    let root = steam_root_from(&fs, "/steam".to_string()).unwrap();
    assert_eq!(root.read_library_folders_vdf_file(&fs).unwrap().pairs.len(), 2);
    let libs = root.get_libraries(&fs);
    assert_eq!(libs.len(), 1);
    assert!(libs[0].is_root());
}

#[test]
fn library_needs_compatdata() {
    let mut fs = HostFs::new();
    fs.add_dir("/lib");
    fs.add_dir("/lib/steamapps");
    assert!(SteamLibrary::from_path(&fs, "/lib").is_none());
    fs.add_dir("/lib/steamapps/compatdata");
    let lib = SteamLibrary::from_path(&fs, "/lib").unwrap();
    assert!(!lib.is_root());
    assert!(lib.get_prefix(&fs, 5).is_none());
    fs.add_dir("/lib/ubuntu12_32");
    let lib = SteamLibrary::from_path(&fs, "/lib").unwrap();
    assert!(lib.is_root());
    assert_eq!(lib.convert_to_steamroot(&fs).unwrap().get_root(), "/lib");
    // compatdata may be anything that exists
    let mut fs = HostFs::new();
    fs.add_dir("/l");
    fs.add_dir("/l/steamapps");
    fs.add(FsEntry {
        path: "/l/steamapps/compatdata".to_string(),
        kind: FileKind::Other,
        symlink: false,
        canonical: "/l/steamapps/compatdata".to_string(),
        text: None,
    });
    assert!(SteamLibrary::from_path(&fs, "/l").is_some());
}

#[test]
fn prefix_needs_registry_and_devices() {
    let mut fs = HostFs::new();
    fs.add_dir("/p");
    assert!(ProtonPrefix::from_path(&fs, "/p".to_string()).is_none());
    fs.add_file("/p/user.reg", "");
    assert!(ProtonPrefix::from_path(&fs, "/p".to_string()).is_none());
    fs.add_dir("/p/dosdevices");
    let prefix = ProtonPrefix::from_path(&fs, "/p".to_string()).unwrap();
    assert_eq!(prefix.get_game_id(), 0);
    assert_eq!(prefix.get_pfx_path(), "/p");
    assert_eq!(prefix.for_game(9).get_game_id(), 9);
    // a directory named user.reg does not count
    let mut fs = HostFs::new();
    fs.add_dir("/q");
    fs.add_dir("/q/user.reg");
    fs.add_dir("/q/dosdevices");
    assert!(ProtonPrefix::from_path(&fs, "/q".to_string()).is_none());
    assert!(ProtonPrefix::from_path(&fs, "/none".to_string()).is_none());
}

#[test]
fn all_prefixes_one_for_each_installation() {
    let mut fs = host();
    add_install(&mut fs, "/home/u/.steam/steam");
    add_prefix(&mut fs, "/home/u/.steam/steam/steamapps/compatdata/2420510/pfx");
    let all = find_all_prefixes(&fs, &env(), 2420510).unwrap();
    assert_eq!(all.len(), 2);
    assert_eq!(
        all[0].get_pfx_path(),
        "/home/u/.steam/steam/steamapps/compatdata/2420510/pfx"
    );
    assert_eq!(all[1].get_pfx_path(), PFX);
    assert_eq!(all[0].get_game_id(), 2420510);
    let first = find_prefix(&fs, &env(), 2420510).unwrap().unwrap();
    assert_eq!(first.get_pfx_path(), all[0].get_pfx_path());
}

#[test]
fn vdf_file_is_read_from_the_host() {
    let mut fs = HostFs::new();
    fs.add_file("/f.vdf", "\"a\" \"b\"\n");
    fs.add_dir("/d");
    let doc = parse_vdf_file(&fs, "/f.vdf").unwrap();
    assert_eq!(doc.pairs.len(), 1);
    assert!(parse_vdf_file(&fs, "/d").is_none());
    assert!(parse_vdf_file(&fs, "/missing.vdf").is_none());
    fs.add(FsEntry {
        path: "/bin.vdf".to_string(),
        kind: FileKind::File,
        symlink: false,
        canonical: "/bin.vdf".to_string(),
        text: None,
    });
    assert!(parse_vdf_file(&fs, "/bin.vdf").is_none());
}

#[test]
fn detected_environment_keeps_what_it_was_given() {
    match Environment::detect(Some("/x".to_string()), true) {
        Some(e) => {
            assert_eq!(e.steam_dir, Some("/x".to_string()));
            assert!(e.no_tricks);
            assert!(!e.home.is_empty());
        }
        None => {}
    }
    assert!(Environment::with_home(None, None, false).is_none());
    let e = Environment::with_home(Some("/h".to_string()), None, false).unwrap();
    assert_eq!(e.home, "/h");
    assert_eq!(e.steam_dir, None);
    assert!(!e.no_tricks);
}

#[test]
fn drive_of_a_prefix_outside_steam() {
    let mut fs = HostFs::new();
    add_prefix(&mut fs, "/home/u/.wine");
    let prefix = ProtonPrefix::from_path(&fs, "/home/u/.wine".to_string()).unwrap();
    let drive = GameDrive::new(prefix);
    assert_eq!(drive.c_drive(), "/home/u/.wine/dosdevices/c:/");
    assert_eq!(
        drive.home_dir(&fs),
        Some("/home/u/.wine/drive_c/users/steamuser".to_string())
    );
    assert_eq!(drive.public_dir(&fs), Some("/home/u/.wine/drive_c/users/Public".to_string()));
}
