//! What the search reads of its host: the environment, and a description of
//! the file system as a table of observations.
//!
//! Each entry of the table says what was seen at one path: whether it leads
//! to a directory or a file, whether the path itself is a symbolic link,
//! where it resolves to, and, for a file, its text. A path without an entry
//! does not exist. Where several entries name one path, the first counts.

use crate::path::{join, join_path};
use crate::text::{chars_of, find_char, first_index, string_of};
use vstd::prelude::*;

verus! {

/// What a path leads to, symbolic links followed.
#[derive(Clone, Copy, Debug, PartialEq, Eq, Structural)]
pub enum FileKind {
    Directory,
    File,
    /// Something that is neither, such as a socket.
    Other,
}

/// What was seen at one path.
#[derive(Debug, Clone)]
pub struct FsEntry {
    /// The path, spelled as the search spells it: the parts joined by
    /// single slashes.
    pub path: String,
    pub kind: FileKind,
    /// Whether the path itself is a symbolic link.
    pub symlink: bool,
    /// The absolute path with every symbolic link resolved.
    pub canonical: String,
    /// The text of a file that could be read as text.
    pub text: Option<String>,
}

/// A description of the host's file system.
#[derive(Debug, Clone)]
pub struct HostFs {
    pub entries: Vec<FsEntry>,
}

/// What the search takes from the environment of the process.
#[derive(Debug, Clone)]
pub struct Environment {
    /// The value of `STEAM_DIR`, if it is set.
    pub steam_dir: Option<String>,
    /// Whether `STEAM_DIR` is to be passed over.
    pub no_tricks: bool,
    /// The home directory of the user.
    pub home: String,
}

/// The position of the first entry for `path`, or `entries.len()`.
pub open spec fn entry_index(entries: Seq<FsEntry>, path: Seq<char>) -> int
    decreases entries.len(),
{
    if entries.len() == 0 {
        0
    } else if entries[0].path@ == path {
        0
    } else {
        1 + entry_index(entries.drop_first(), path)
    }
}

/// `entry_index` is the least position whose entry is for `path`.
pub proof fn lemma_entry_index(entries: Seq<FsEntry>, path: Seq<char>)
    ensures
        0 <= entry_index(entries, path) <= entries.len(),
        forall|j: int| 0 <= j < entry_index(entries, path) ==> entries[j].path@ != path,
        entry_index(entries, path) < entries.len() ==> entries[entry_index(
            entries,
            path,
        )].path@ == path,
    decreases entries.len(),
{
    if entries.len() > 0 && entries[0].path@ != path {
        let t = entries.drop_first();
        lemma_entry_index(t, path);
        assert forall|j: int| 0 <= j < entry_index(entries, path) implies entries[j].path@
            != path by {
            if j > 0 {
                assert(entries[j] == t[j - 1]);
            }
        }
    }
}

/// The name of `path` inside the directory `dir`, if it lies directly in it.
pub open spec fn child_name(dir: Seq<char>, path: Seq<char>) -> Option<Seq<char>> {
    let prefix = join(dir, Seq::empty());
    if path.len() > prefix.len() && path.subrange(0, prefix.len() as int) == prefix {
        let name = path.subrange(prefix.len() as int, path.len() as int);
        if first_index(name, '/') == name.len() {
            Some(name)
        } else {
            None
        }
    } else {
        None
    }
}

/// The names of the entries that lie directly in `dir`, in the order of the
/// table.
pub open spec fn child_names(entries: Seq<FsEntry>, dir: Seq<char>) -> Seq<Seq<char>>
    decreases entries.len(),
{
    if entries.len() == 0 {
        Seq::empty()
    } else {
        let before = child_names(entries.drop_last(), dir);
        match child_name(dir, entries.last().path@) {
            Some(name) => before.push(name),
            None => before,
        }
    }
}

/// The views of `names`.
pub open spec fn names_view(names: Seq<String>) -> Seq<Seq<char>> {
    names.map_values(|s: String| s@)
}

impl HostFs {
    /// What was seen at `path`, if anything.
    pub open spec fn entry(self, path: Seq<char>) -> Option<FsEntry> {
        let i = entry_index(self.entries@, path);
        if 0 <= i < self.entries@.len() {
            Some(self.entries@[i])
        } else {
            None
        }
    }

    /// Whether `path` exists.
    pub open spec fn present(self, path: Seq<char>) -> bool {
        self.entry(path) is Some
    }

    /// Whether `path` leads to a directory.
    pub open spec fn is_dir(self, path: Seq<char>) -> bool {
        self.entry(path) matches Some(e) && e.kind == FileKind::Directory
    }

    /// Whether `path` leads to a file.
    pub open spec fn is_file(self, path: Seq<char>) -> bool {
        self.entry(path) matches Some(e) && e.kind == FileKind::File
    }

    /// Whether `path` is a symbolic link.
    pub open spec fn is_symlink(self, path: Seq<char>) -> bool {
        self.entry(path) matches Some(e) && e.symlink
    }

    /// Where `path` resolves to.
    pub open spec fn canonical(self, path: Seq<char>) -> Option<Seq<char>> {
        match self.entry(path) {
            Some(e) => Some(e.canonical@),
            None => None,
        }
    }

    /// The text of the file at `path`.
    pub open spec fn text(self, path: Seq<char>) -> Option<Seq<char>> {
        match self.entry(path) {
            Some(e) => if e.kind == FileKind::File {
                match e.text {
                    Some(t) => Some(t@),
                    None => None,
                }
            } else {
                None
            },
            None => None,
        }
    }

    /// The names in the directory `dir`; nothing where `dir` is none.
    pub open spec fn children(self, dir: Seq<char>) -> Option<Seq<Seq<char>>> {
        if self.is_dir(dir) {
            Some(child_names(self.entries@, dir))
        } else {
            None
        }
    }

    /// An empty file system.
    pub fn new() -> (fs: HostFs)
        ensures
            fs.entries@.len() == 0,
    {
        HostFs { entries: Vec::new() }
    }

    /// The place of the first entry for `path`.
    pub fn lookup(&self, path: &str) -> (r: Option<usize>)
        ensures
            match r {
                Some(i) => i < self.entries.len() && i == entry_index(self.entries@, path@)
                    && self.entry(path@) == Some(self.entries@[i as int]),
                None => self.entry(path@) is None,
            },
    {
        let wanted = path.to_owned();
        let mut i: usize = 0;
        proof {
            lemma_entry_index(self.entries@, path@);
        }
        while i < self.entries.len()
            invariant
                i <= self.entries.len(),
                wanted@ == path@,
                forall|j: int| 0 <= j < i ==> self.entries@[j].path@ != path@,
                0 <= entry_index(self.entries@, path@) <= self.entries.len(),
                forall|j: int|
                    0 <= j < entry_index(self.entries@, path@) ==> self.entries@[j].path@
                        != path@,
                entry_index(self.entries@, path@) < self.entries.len()
                    ==> self.entries@[entry_index(self.entries@, path@)].path@ == path@,
            decreases self.entries.len() - i,
        {
            if self.entries[i].path == wanted {
                return Some(i);
            }
            i += 1;
        }
        None
    }

    /// Adds an observation. It counts for its path unless an earlier entry
    /// names the same path.
    pub fn add(&mut self, entry: FsEntry)
        ensures
            final(self).entries@ == old(self).entries@.push(entry),
    {
        self.entries.push(entry);
    }

    /// Adds a directory that is no symbolic link.
    pub fn add_dir(&mut self, path: &str)
        ensures
            final(self).entries@.len() == old(self).entries@.len() + 1,
            final(self).entries@.drop_last() == old(self).entries@,
            final(self).entries@.last().path@ == path@,
            final(self).entries@.last().kind == FileKind::Directory,
            !final(self).entries@.last().symlink,
            final(self).entries@.last().canonical@ == path@,
    {
        let ghost before = self.entries@;
        self.entries.push(
            FsEntry {
                path: path.to_owned(),
                kind: FileKind::Directory,
                symlink: false,
                canonical: path.to_owned(),
                text: None,
            },
        );
        assert(self.entries@.drop_last() == before);
    }

    /// Adds a file with the text `text` that is no symbolic link.
    pub fn add_file(&mut self, path: &str, text: &str)
        ensures
            final(self).entries@.len() == old(self).entries@.len() + 1,
            final(self).entries@.drop_last() == old(self).entries@,
            final(self).entries@.last().path@ == path@,
            final(self).entries@.last().kind == FileKind::File,
            !final(self).entries@.last().symlink,
            final(self).entries@.last().canonical@ == path@,
            final(self).entries@.last().text matches Some(t) && t@ == text@,
    {
        let ghost before = self.entries@;
        self.entries.push(
            FsEntry {
                path: path.to_owned(),
                kind: FileKind::File,
                symlink: false,
                canonical: path.to_owned(),
                text: Some(text.to_owned()),
            },
        );
        assert(self.entries@.drop_last() == before);
    }

    /// Adds a path that resolves to the directory `target`; `symlink` says
    /// whether the path itself is a symbolic link.
    pub fn add_dir_at(&mut self, path: &str, target: &str, symlink: bool)
        ensures
            final(self).entries@.len() == old(self).entries@.len() + 1,
            final(self).entries@.drop_last() == old(self).entries@,
            final(self).entries@.last().path@ == path@,
            final(self).entries@.last().kind == FileKind::Directory,
            final(self).entries@.last().symlink == symlink,
            final(self).entries@.last().canonical@ == target@,
    {
        let ghost before = self.entries@;
        self.entries.push(
            FsEntry {
                path: path.to_owned(),
                kind: FileKind::Directory,
                symlink,
                canonical: target.to_owned(),
                text: None,
            },
        );
        assert(self.entries@.drop_last() == before);
    }

    /// Whether `path` exists.
    pub fn path_exists(&self, path: &str) -> (r: bool)
        ensures
            r == self.present(path@),
    {
        self.lookup(path).is_some()
    }

    /// Whether `path` leads to a directory.
    pub fn path_is_dir(&self, path: &str) -> (r: bool)
        ensures
            r == self.is_dir(path@),
    {
        match self.lookup(path) {
            Some(i) => match self.entries[i].kind {
                FileKind::Directory => true,
                _ => false,
            },
            None => false,
        }
    }

    /// Whether `path` leads to a file.
    pub fn path_is_file(&self, path: &str) -> (r: bool)
        ensures
            r == self.is_file(path@),
    {
        match self.lookup(path) {
            Some(i) => match self.entries[i].kind {
                FileKind::File => true,
                _ => false,
            },
            None => false,
        }
    }

    /// Whether `path` is a symbolic link.
    pub fn path_is_symlink(&self, path: &str) -> (r: bool)
        ensures
            r == self.is_symlink(path@),
    {
        match self.lookup(path) {
            Some(i) => self.entries[i].symlink,
            None => false,
        }
    }

    /// Where `path` resolves to, if it exists.
    pub fn canonicalize(&self, path: &str) -> (r: Option<String>)
        ensures
            match r {
                Some(p) => self.canonical(path@) == Some(p@),
                None => self.canonical(path@) is None,
            },
    {
        match self.lookup(path) {
            Some(i) => Some(self.entries[i].canonical.clone()),
            None => None,
        }
    }

    /// The text of the file at `path`, if it is a file with text.
    pub fn read_to_string(&self, path: &str) -> (r: Option<&String>)
        ensures
            match r {
                Some(t) => self.text(path@) == Some(t@),
                None => self.text(path@) is None,
            },
    {
        match self.lookup(path) {
            Some(i) => match self.entries[i].kind {
                FileKind::File => match &self.entries[i].text {
                    Some(t) => Some(t),
                    None => None,
                },
                _ => None,
            },
            None => None,
        }
    }

    /// The names in the directory `dir`, in the order of the table.
    pub fn read_dir(&self, dir: &str) -> (r: Option<Vec<String>>)
        ensures
            match r {
                Some(names) => self.children(dir@) == Some(names_view(names@)),
                None => self.children(dir@) is None,
            },
    {
        if !self.path_is_dir(dir) {
            return None;
        }
        let prefix_text = join_path(dir, "");
        proof {
            reveal_strlit("");
            assert(join(dir@, ""@) == join(dir@, Seq::empty()));
        }
        let prefix = chars_of(prefix_text.as_str());
        let mut names: Vec<String> = Vec::new();
        let mut i: usize = 0;
        assert(self.entries@.subrange(0, 0) == Seq::<FsEntry>::empty());
        assert(names_view(names@) == Seq::<Seq<char>>::empty());
        while i < self.entries.len()
            invariant
                i <= self.entries.len(),
                prefix@ == join(dir@, Seq::empty()),
                names_view(names@) == child_names(self.entries@.subrange(0, i as int), dir@),
            decreases self.entries.len() - i,
        {
            let ghost upto = self.entries@.subrange(0, i + 1);
            assert(upto.drop_last() == self.entries@.subrange(0, i as int));
            assert(upto.last() == self.entries@[i as int]);
            let ghost before = names_view(names@);
            let p = chars_of(self.entries[i].path.as_str());
            if p.len() > prefix.len() && starts_with(&p, &prefix) {
                match find_char(&p, prefix.len(), p.len(), '/') {
                    Some(_) => {},
                    None => {
                        let name = string_of(&p, prefix.len(), p.len());
                        names.push(name);
                        assert(names_view(names@) == before.push(name@));
                    },
                }
            }
            i += 1;
        }
        assert(self.entries@.subrange(0, i as int) == self.entries@);
        Some(names)
    }
}

/// Whether `v` begins with `prefix`.
pub fn starts_with(v: &Vec<char>, prefix: &Vec<char>) -> (r: bool)
    requires
        prefix.len() <= v.len(),
    ensures
        r == (v@.subrange(0, prefix.len() as int) == prefix@),
{
    let mut i: usize = 0;
    while i < prefix.len()
        invariant
            i <= prefix.len() <= v.len(),
            v@.subrange(0, i as int) == prefix@.subrange(0, i as int),
        decreases prefix.len() - i,
    {
        if v[i] != prefix[i] {
            assert(v@.subrange(0, prefix.len() as int)[i as int] != prefix@[i as int]);
            return false;
        }
        assert(v@.subrange(0, i + 1) == v@.subrange(0, i as int).push(v@[i as int]));
        assert(prefix@.subrange(0, i + 1) == prefix@.subrange(0, i as int).push(
            prefix@[i as int],
        ));
        i += 1;
    }
    assert(prefix@.subrange(0, prefix.len() as int) == prefix@);
    true
}

/// `dirs::home_dir` of the `dirs` crate: the home directory of the user,
/// as the environment of the process and the host's user database give it.
/// Nothing is claimed of the result. A home directory whose name is not
/// valid UTF-8 is reported as none.
#[verifier::external_body]
fn host_home_dir() -> (r: Option<String>) {
    match dirs::home_dir() {
        Some(p) => p.into_os_string().into_string().ok(),
        None => None,
    }
}

impl Environment {
    /// The environment with the given values; nothing where no home
    /// directory is known.
    pub fn with_home(home: Option<String>, steam_dir: Option<String>, no_tricks: bool) -> (r:
        Option<Environment>)
        ensures
            match r {
                Some(env) => home == Some(env.home) && env.steam_dir == steam_dir && env.no_tricks
                    == no_tricks,
                None => home is None,
            },
    {
        match home {
            Some(home) => Some(Environment { steam_dir, no_tricks, home }),
            None => None,
        }
    }

    /// The environment of this process, with the home directory that the
    /// host reports; nothing where it reports none.
    pub fn detect(steam_dir: Option<String>, no_tricks: bool) -> (r: Option<Environment>)
        ensures
            r matches Some(env) ==> env.steam_dir == steam_dir && env.no_tricks == no_tricks,
    {
        Environment::with_home(host_home_dir(), steam_dir, no_tricks)
    }
}

} // verus!
