//! A Proton prefix: the Windows-like directory tree of one application.

use crate::host::HostFs;
use crate::path::{join, join_path, translate, windows_path};
use crate::registry::{canonical_name, open_section, RegParser};
use crate::text::trimmed_lines;
use crate::vdf::assoc_get;
use vstd::prelude::*;

verus! {

/// A prefix as the contracts see it.
pub struct PrefixModel {
    /// The application that the prefix belongs to; 0 for a prefix that
    /// belongs to none.
    pub game: u32,
    /// The prefix directory.
    pub pfx: Seq<char>,
}

/// A Proton prefix: a directory that holds `user.reg` and `dosdevices`.
#[derive(Debug, Clone)]
pub struct ProtonPrefix {
    game: u32,
    pfx: String,
}

impl View for ProtonPrefix {
    type V = PrefixModel;

    closed spec fn view(&self) -> PrefixModel {
        PrefixModel { game: self.game, pfx: self.pfx@ }
    }
}

/// The prefix at `pfx`, for no application: there is one where `pfx` is a
/// directory that holds the file `user.reg` and the directory `dosdevices`.
pub open spec fn prefix_at(fs: HostFs, pfx: Seq<char>) -> Option<PrefixModel> {
    if fs.is_dir(pfx) && fs.is_file(join(pfx, "user.reg"@)) && fs.is_dir(
        join(pfx, "dosdevices"@),
    ) {
        Some(PrefixModel { game: 0, pfx })
    } else {
        None
    }
}

/// The value of `sub_key` in the section `key` of the registry file at
/// `file`.
pub open spec fn registry_value(
    fs: HostFs,
    file: Seq<char>,
    key: Seq<char>,
    sub_key: Seq<char>,
) -> Option<Seq<char>> {
    match fs.text(file) {
        Some(text) => match open_section(trimmed_lines(text), canonical_name(key)) {
            Some(values) => assoc_get(values, sub_key),
            None => None,
        },
        None => None,
    }
}

/// The folder that the registry file `file_name` of the prefix at `pfx`
/// names under `key` and `sub_key`, resolved on the host. Nothing where the
/// file, the section or the key is missing or the folder does not exist.
pub open spec fn registry_folder(
    fs: HostFs,
    pfx: Seq<char>,
    file_name: Seq<char>,
    key: Seq<char>,
    sub_key: Seq<char>,
) -> Option<Seq<char>> {
    match registry_value(fs, join(pfx, file_name), key, sub_key) {
        Some(windows) => fs.canonical(windows_path(pfx, windows)),
        None => None,
    }
}

/// The section of `user.reg` that names the user's folders.
pub open spec fn shell_folders() -> Seq<char> {
    "Software\\Microsoft\\Windows\\CurrentVersion\\Explorer\\Shell Folders"@
}

/// The folder that `user.reg` names under `key` and `sub_key`.
pub open spec fn user_folder(fs: HostFs, pfx: Seq<char>, key: Seq<char>, sub_key: Seq<char>) -> Option<
    Seq<char>,
> {
    registry_folder(fs, pfx, "user.reg"@, key, sub_key)
}

/// The view of a prefix that may be there.
pub open spec fn prefix_view(r: Option<ProtonPrefix>) -> Option<PrefixModel> {
    match r {
        Some(prefix) => Some(prefix@),
        None => None,
    }
}

/// The view of a path that may be there.
pub open spec fn path_view(r: Option<String>) -> Option<Seq<char>> {
    match r {
        Some(path) => Some(path@),
        None => None,
    }
}

/// The folder that the registry file `file_name` of the prefix at `pfx`
/// names under `key` and `sub_key`.
pub fn folder_from_registry(fs: &HostFs, pfx: &str, file_name: &str, key: &str, sub_key: &str) -> (r:
    Option<String>)
    ensures
        path_view(r) == registry_folder(*fs, pfx@, file_name@, key@, sub_key@),
{
    let file = join_path(pfx, file_name);
    if let Some(reg) = RegParser::new(fs, file.as_str()) {
        if let Some(values) = reg.open_key(key) {
            if let Some(path) = values.get(sub_key) {
                let target = translate(pfx, path.as_str());
                return fs.canonicalize(target.as_str());
            }
        }
    }
    None
}

impl ProtonPrefix {
    /// The prefix at `pfx`, if there is one. It belongs to no application:
    /// its application id is 0.
    pub fn from_path(fs: &HostFs, pfx: String) -> (r: Option<ProtonPrefix>)
        ensures
            prefix_view(r) == prefix_at(*fs, pfx@),
    {
        if fs.path_is_dir(pfx.as_str()) {
            let dos_devices = join_path(pfx.as_str(), "dosdevices");
            let user_reg = join_path(pfx.as_str(), "user.reg");
            if fs.path_is_file(user_reg.as_str()) && fs.path_is_dir(dos_devices.as_str()) {
                return Some(ProtonPrefix { game: 0, pfx });
            }
        }
        None
    }

    /// The same prefix for the application `game_id`.
    pub fn for_game(self, game_id: u32) -> (r: ProtonPrefix)
        ensures
            r@ == (PrefixModel { game: game_id, pfx: self@.pfx }),
    {
        ProtonPrefix { game: game_id, pfx: self.pfx }
    }

    /// The application that the prefix belongs to; 0 for none.
    pub fn get_game_id(&self) -> (r: u32)
        ensures
            r == self@.game,
    {
        self.game
    }

    /// The prefix directory, which holds `dosdevices` and the registry
    /// files.
    pub fn get_pfx_path(&self) -> (r: String)
        ensures
            r@ == self@.pfx,
    {
        self.pfx.clone()
    }

    /// The host path of an absolute Windows path inside this prefix. It is
    /// not resolved, and need not exist.
    pub fn parse_windows_path(&self, windows: &str) -> (r: String)
        ensures
            r@ == windows_path(self@.pfx, windows@),
    {
        translate(self.pfx.as_str(), windows)
    }

    /// What the prefix treats as the drive `C:`. It is not resolved, and
    /// need not exist.
    pub fn get_c_drive(&self) -> (r: String)
        ensures
            r@ == windows_path(self@.pfx, "C:\\"@),
    {
        self.parse_windows_path("C:\\")
    }

    /// The folder that `user.reg` names under `key` and `sub_key`,
    /// resolved on the host.
    pub fn get_path_from_registry(&self, fs: &HostFs, key: &str, sub_key: &str) -> (r: Option<
        String,
    >)
        ensures
            path_view(r) == user_folder(*fs, self@.pfx, key@, sub_key@),
    {
        folder_from_registry(fs, self.pfx.as_str(), "user.reg", key, sub_key)
    }

    /// The user's home folder, usually `C:\users\steamuser`.
    pub fn home_dir(&self, fs: &HostFs) -> (r: Option<String>)
        ensures
            path_view(r) == user_folder(*fs, self@.pfx, "Volatile Environment"@, "USERPROFILE"@),
    {
        self.get_path_from_registry(fs, "Volatile Environment", "USERPROFILE")
    }

    /// The user's `AppData\Roaming`.
    pub fn appdata_roaming(&self, fs: &HostFs) -> (r: Option<String>)
        ensures
            path_view(r) == user_folder(*fs, self@.pfx, shell_folders(), "AppData"@),
    {
        self.get_path_from_registry(
            fs,
            "Software\\Microsoft\\Windows\\CurrentVersion\\Explorer\\Shell Folders",
            "AppData",
        )
    }

    /// The user's `AppData\Local`.
    pub fn appdata_local(&self, fs: &HostFs) -> (r: Option<String>)
        ensures
            path_view(r) == user_folder(*fs, self@.pfx, shell_folders(), "Local AppData"@),
    {
        self.get_path_from_registry(
            fs,
            "Software\\Microsoft\\Windows\\CurrentVersion\\Explorer\\Shell Folders",
            "Local AppData",
        )
    }

    /// The user's `AppData\LocalLow`.
    pub fn appdata_local_low(&self, fs: &HostFs) -> (r: Option<String>)
        ensures
            path_view(r) == user_folder(
                *fs,
                self@.pfx,
                shell_folders(),
                "{A520A1A4-1780-4FF6-BD18-167343C5AF16}"@,
            ),
    {
        self.get_path_from_registry(
            fs,
            "Software\\Microsoft\\Windows\\CurrentVersion\\Explorer\\Shell Folders",
            "{A520A1A4-1780-4FF6-BD18-167343C5AF16}",
        )
    }

    /// The user's music folder.
    pub fn music_dir(&self, fs: &HostFs) -> (r: Option<String>)
        ensures
            path_view(r) == user_folder(*fs, self@.pfx, shell_folders(), "My Music"@),
    {
        self.get_path_from_registry(
            fs,
            "Software\\Microsoft\\Windows\\CurrentVersion\\Explorer\\Shell Folders",
            "My Music",
        )
    }

    /// The user's videos folder.
    pub fn videos_dir(&self, fs: &HostFs) -> (r: Option<String>)
        ensures
            path_view(r) == user_folder(*fs, self@.pfx, shell_folders(), "My Videos"@),
    {
        self.get_path_from_registry(
            fs,
            "Software\\Microsoft\\Windows\\CurrentVersion\\Explorer\\Shell Folders",
            "My Videos",
        )
    }

    /// The user's pictures folder.
    pub fn picture_dir(&self, fs: &HostFs) -> (r: Option<String>)
        ensures
            path_view(r) == user_folder(*fs, self@.pfx, shell_folders(), "My Pictures"@),
    {
        self.get_path_from_registry(
            fs,
            "Software\\Microsoft\\Windows\\CurrentVersion\\Explorer\\Shell Folders",
            "My Pictures",
        )
    }

    /// The user's documents folder.
    pub fn documents_dir(&self, fs: &HostFs) -> (r: Option<String>)
        ensures
            path_view(r) == user_folder(*fs, self@.pfx, shell_folders(), "Personal"@),
    {
        self.get_path_from_registry(
            fs,
            "Software\\Microsoft\\Windows\\CurrentVersion\\Explorer\\Shell Folders",
            "Personal",
        )
    }

    /// The user's downloads folder.
    pub fn downloads_dir(&self, fs: &HostFs) -> (r: Option<String>)
        ensures
            path_view(r) == user_folder(
                *fs,
                self@.pfx,
                shell_folders(),
                "{374DE290-123F-4565-9164-39C4925E467B}"@,
            ),
    {
        self.get_path_from_registry(
            fs,
            "Software\\Microsoft\\Windows\\CurrentVersion\\Explorer\\Shell Folders",
            "{374DE290-123F-4565-9164-39C4925E467B}",
        )
    }

    /// The user's desktop folder.
    pub fn desktop_dir(&self, fs: &HostFs) -> (r: Option<String>)
        ensures
            path_view(r) == user_folder(*fs, self@.pfx, shell_folders(), "Desktop"@),
    {
        self.get_path_from_registry(
            fs,
            "Software\\Microsoft\\Windows\\CurrentVersion\\Explorer\\Shell Folders",
            "Desktop",
        )
    }

    /// The folder shared by all users, which `system.reg` names.
    pub fn public_user_dir(&self, fs: &HostFs) -> (r: Option<String>)
        ensures
            path_view(r) == registry_folder(
                *fs,
                self@.pfx,
                "system.reg"@,
                "Software\\Microsoft\\Windows NT\\CurrentVersion\\ProfileList"@,
                "Public"@,
            ),
    {
        folder_from_registry(
            fs,
            self.pfx.as_str(),
            "system.reg",
            "Software\\Microsoft\\Windows NT\\CurrentVersion\\ProfileList",
            "Public",
        )
    }
}

} // verus!
