//! Locating the Windows-like folders of an application that runs inside a
//! Proton prefix, from a description of the host's file system.
//!
//! [`get_game_drive`] searches the Steam installations of the host for the
//! prefix of an application; the [`GameDrive`] it returns answers where the
//! folders of that application's Windows user lie on the host.

pub mod host;
pub mod laws;
pub mod linux;
pub mod path;
pub mod prefix;
pub mod registry;
pub mod text;
pub mod vdf;
pub mod vdf_write;

use crate::host::{Environment, HostFs};
use crate::linux::{find_prefix, found_prefix, override_failed};
use crate::path::windows_path;
use crate::prefix::{path_view, registry_folder, shell_folders, user_folder, PrefixModel, ProtonPrefix};
use vstd::prelude::*;

verus! {

/// The Windows environment of one application: its Proton prefix, asked
/// for folders by the names that a Windows program would use.
#[derive(Debug, Clone)]
pub struct GameDrive {
    prefix: ProtonPrefix,
}

impl View for GameDrive {
    type V = PrefixModel;

    closed spec fn view(&self) -> PrefixModel {
        self.prefix@
    }
}

/// The view of a drive that may be there.
pub open spec fn drive_view(r: Option<GameDrive>) -> Option<PrefixModel> {
    match r {
        Some(drive) => Some(drive@),
        None => None,
    }
}

/// The view of what a search for a drive gave.
pub open spec fn found_drive_view(r: Result<Option<GameDrive>, Option<GameDrive>>) -> Result<
    Option<PrefixModel>,
    Option<PrefixModel>,
> {
    match r {
        Ok(drive) => Ok(drive_view(drive)),
        Err(drive) => Err(drive_view(drive)),
    }
}

/// The Windows environment of the application `game_id`.
///
/// The installations are searched in this order: what `STEAM_DIR` names
/// (unless `no_tricks` is set), `~/.steam/steam`, `~/.local/share/Steam`,
/// `~/.var/app/com.valvesoftware.Steam/data/Steam/`. The first that holds a
/// prefix for the application gives the drive.
///
/// `Err` says that `STEAM_DIR` was consulted and named no installation: the
/// user should be told, and the search went on all the same. `None` on
/// either side says that no prefix was found: the application has to be
/// installed and started once for its prefix to exist.
pub fn get_game_drive(fs: &HostFs, env: &Environment, game_id: u32) -> (r: Result<
    Option<GameDrive>,
    Option<GameDrive>,
>)
    ensures
        found_drive_view(r) == found_prefix(*fs, *env, game_id),
        r is Err <==> override_failed(*fs, *env),
        env.steam_dir is None ==> r is Ok,
        env.no_tricks ==> r is Ok,
{
    let (res, err) = match find_prefix(fs, env, game_id) {
        Ok(res) => (res, false),
        Err(res) => (res, true),
    };
    let res = match res {
        Some(prefix) => Some(GameDrive { prefix }),
        None => None,
    };
    if err {
        Err(res)
    } else {
        Ok(res)
    }
}

impl GameDrive {
    /// The drive of the prefix `prefix`.
    pub fn new(prefix: ProtonPrefix) -> (r: GameDrive)
        ensures
            r@ == prefix@,
    {
        GameDrive { prefix }
    }

    /// The drive `C:`. It is not resolved, and need not exist.
    pub fn c_drive(&self) -> (r: String)
        ensures
            r@ == windows_path(self@.pfx, "C:\\"@),
    {
        self.prefix.get_c_drive()
    }

    /// `C:\users\<name>`.
    pub fn home_dir(&self, fs: &HostFs) -> (r: Option<String>)
        ensures
            path_view(r) == user_folder(*fs, self@.pfx, "Volatile Environment"@, "USERPROFILE"@),
    {
        self.prefix.home_dir(fs)
    }

    /// `C:\users\<name>\AppData\Roaming`.
    pub fn config_dir(&self, fs: &HostFs) -> (r: Option<String>)
        ensures
            path_view(r) == user_folder(*fs, self@.pfx, shell_folders(), "AppData"@),
    {
        self.prefix.appdata_roaming(fs)
    }

    /// The same as [`GameDrive::config_dir`].
    pub fn preference_dir(&self, fs: &HostFs) -> (r: Option<String>)
        ensures
            path_view(r) == user_folder(*fs, self@.pfx, shell_folders(), "AppData"@),
    {
        self.config_dir(fs)
    }

    /// The same as [`GameDrive::config_dir`].
    pub fn data_dir(&self, fs: &HostFs) -> (r: Option<String>)
        ensures
            path_view(r) == user_folder(*fs, self@.pfx, shell_folders(), "AppData"@),
    {
        self.config_dir(fs)
    }

    /// `C:\users\<name>\AppData\Local`.
    pub fn config_local_dir(&self, fs: &HostFs) -> (r: Option<String>)
        ensures
            path_view(r) == user_folder(*fs, self@.pfx, shell_folders(), "Local AppData"@),
    {
        self.prefix.appdata_local(fs)
    }

    /// The same as [`GameDrive::config_local_dir`].
    pub fn cache_dir(&self, fs: &HostFs) -> (r: Option<String>)
        ensures
            path_view(r) == user_folder(*fs, self@.pfx, shell_folders(), "Local AppData"@),
    {
        self.config_local_dir(fs)
    }

    /// The same as [`GameDrive::config_local_dir`].
    pub fn data_local_dir(&self, fs: &HostFs) -> (r: Option<String>)
        ensures
            path_view(r) == user_folder(*fs, self@.pfx, shell_folders(), "Local AppData"@),
    {
        self.config_local_dir(fs)
    }

    /// `C:\users\<name>\AppData\LocalLow`.
    pub fn config_local_low_dir(&self, fs: &HostFs) -> (r: Option<String>)
        ensures
            path_view(r) == user_folder(
                *fs,
                self@.pfx,
                shell_folders(),
                "{A520A1A4-1780-4FF6-BD18-167343C5AF16}"@,
            ),
    {
        self.prefix.appdata_local_low(fs)
    }

    /// `C:\users\<name>\Music`.
    pub fn audio_dir(&self, fs: &HostFs) -> (r: Option<String>)
        ensures
            path_view(r) == user_folder(*fs, self@.pfx, shell_folders(), "My Music"@),
    {
        self.prefix.music_dir(fs)
    }

    /// `C:\users\<name>\Videos`.
    pub fn video_dir(&self, fs: &HostFs) -> (r: Option<String>)
        ensures
            path_view(r) == user_folder(*fs, self@.pfx, shell_folders(), "My Videos"@),
    {
        self.prefix.videos_dir(fs)
    }

    /// `C:\users\<name>\Pictures`.
    pub fn picture_dir(&self, fs: &HostFs) -> (r: Option<String>)
        ensures
            path_view(r) == user_folder(*fs, self@.pfx, shell_folders(), "My Pictures"@),
    {
        self.prefix.picture_dir(fs)
    }

    /// `C:\users\<name>\Documents`.
    pub fn document_dir(&self, fs: &HostFs) -> (r: Option<String>)
        ensures
            path_view(r) == user_folder(*fs, self@.pfx, shell_folders(), "Personal"@),
    {
        self.prefix.documents_dir(fs)
    }

    /// `C:\users\<name>\Downloads`.
    pub fn download_dir(&self, fs: &HostFs) -> (r: Option<String>)
        ensures
            path_view(r) == user_folder(
                *fs,
                self@.pfx,
                shell_folders(),
                "{374DE290-123F-4565-9164-39C4925E467B}"@,
            ),
    {
        self.prefix.downloads_dir(fs)
    }

    /// `C:\users\<name>\Desktop`.
    pub fn desktop_dir(&self, fs: &HostFs) -> (r: Option<String>)
        ensures
            path_view(r) == user_folder(*fs, self@.pfx, shell_folders(), "Desktop"@),
    {
        self.prefix.desktop_dir(fs)
    }

    /// `C:\users\Public`.
    pub fn public_dir(&self, fs: &HostFs) -> (r: Option<String>)
        ensures
            path_view(r) == registry_folder(
                *fs,
                self@.pfx,
                "system.reg"@,
                "Software\\Microsoft\\Windows NT\\CurrentVersion\\ProfileList"@,
                "Public"@,
            ),
    {
        self.prefix.public_user_dir(fs)
    }
}

} // verus!
