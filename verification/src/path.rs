//! Host paths as text, and the translation of Windows paths into them.

use crate::text::{chars_of, string_of};
use vstd::prelude::*;

verus! {

/// `name` under the directory `base`: one slash stands between them, unless
/// `base` is empty or already ends in one.
pub open spec fn join(base: Seq<char>, name: Seq<char>) -> Seq<char> {
    if base.len() == 0 || base.last() == '/' {
        base + name
    } else {
        base + seq!['/'] + name
    }
}

/// `s` without the slashes at its end; a path of slashes only keeps one.
pub open spec fn strip_slashes(s: Seq<char>) -> Seq<char>
    decreases s.len(),
{
    if s.len() > 1 && s.last() == '/' {
        strip_slashes(s.drop_last())
    } else {
        s
    }
}

/// The position after the last slash of `s`, or 0 where it holds none.
pub open spec fn name_start(s: Seq<char>) -> int
    decreases s.len(),
{
    if s.len() == 0 {
        0
    } else if s.last() == '/' {
        s.len() as int
    } else {
        name_start(s.drop_last())
    }
}

/// The directory that holds `path`: the path without its last component.
/// The root is its own parent, and a single name has the empty parent.
pub open spec fn parent(path: Seq<char>) -> Seq<char> {
    let s = strip_slashes(path);
    strip_slashes(s.subrange(0, name_start(s)))
}

/// The lower-case form of an ASCII capital; any other character unchanged.
pub open spec fn ascii_lower(c: char) -> char {
    if 'A' <= c && c <= 'Z' {
        ((c as u8) + 32u8) as char
    } else {
        c
    }
}

/// `s` with every ASCII capital in lower case.
pub open spec fn lower(s: Seq<char>) -> Seq<char> {
    s.map_values(|c: char| ascii_lower(c))
}

/// `s` with each backslash, and each pair of backslashes taken from the
/// left, made one slash.
pub open spec fn to_slashes(s: Seq<char>) -> Seq<char>
    decreases s.len(),
{
    if s.len() == 0 {
        Seq::empty()
    } else if s.len() >= 2 && s[0] == '\\' && s[1] == '\\' {
        seq!['/'] + to_slashes(s.subrange(2, s.len() as int))
    } else if s[0] == '\\' {
        seq!['/'] + to_slashes(s.drop_first())
    } else {
        seq![s[0]] + to_slashes(s.drop_first())
    }
}

/// `s` with its first character in lower case.
pub open spec fn lower_first(s: Seq<char>) -> Seq<char> {
    if s.len() > 0 {
        s.update(0, ascii_lower(s[0]))
    } else {
        s
    }
}

/// The name under which a prefix keeps its drive letters.
pub open spec fn dos_devices() -> Seq<char> {
    "dosdevices"@
}

/// The host path of the Windows path `windows` inside the prefix at `pfx`:
/// the prefix itself for the empty path, otherwise the path with slashes
/// and a lower-case drive letter, under the prefix's `dosdevices`.
pub open spec fn windows_path(pfx: Seq<char>, windows: Seq<char>) -> Seq<char> {
    if windows.len() == 0 {
        pfx
    } else {
        join(join(pfx, dos_devices()), lower_first(to_slashes(windows)))
    }
}

/// `path` with a leading `~/` replaced by the home directory.
pub open spec fn expand(home: Seq<char>, path: Seq<char>) -> Seq<char> {
    if path.len() >= 2 && path[0] == '~' && path[1] == '/' {
        join(home, path.subrange(2, path.len() as int))
    } else {
        path
    }
}

/// The lower-case form of an ASCII capital; any other character unchanged.
pub fn char_lower(c: char) -> (r: char)
    ensures
        r == ascii_lower(c),
{
    if 'A' <= c && c <= 'Z' {
        ((c as u8) + 32u8) as char
    } else {
        c
    }
}

/// `name` under the directory `base`.
pub fn join_path(base: &str, name: &str) -> (r: String)
    ensures
        r@ == join(base@, name@),
{
    let b = chars_of(base);
    let mut r = base.to_owned();
    if b.len() > 0 && b[b.len() - 1] != '/' {
        r.push('/');
    }
    r.append(name);
    r
}

/// The directory that holds `path`.
pub fn parent_path(path: &str) -> (r: String)
    ensures
        r@ == parent(path@),
{
    let v = chars_of(path);
    let n = strip_end(&v, v.len());
    assert(v@.subrange(0, v.len() as int) == v@);
    let ghost s = v@.subrange(0, n as int);
    let mut k: usize = n;
    while k > 0 && v[k - 1] != '/'
        invariant
            k <= n <= v.len(),
            s == v@.subrange(0, n as int),
            name_start(s) == name_start(v@.subrange(0, k as int)),
        decreases k,
    {
        assert(v@.subrange(0, k as int).drop_last() == v@.subrange(0, k - 1));
        k -= 1;
    }
    assert(name_start(v@.subrange(0, k as int)) == k);
    assert(s.subrange(0, k as int) == v@.subrange(0, k as int));
    let m = strip_end(&v, k);
    string_of(&v, 0, m)
}

/// The length of `v[..n]` without the slashes at its end.
fn strip_end(v: &Vec<char>, n: usize) -> (m: usize)
    requires
        n <= v.len(),
    ensures
        m <= n,
        v@.subrange(0, m as int) == strip_slashes(v@.subrange(0, n as int)),
{
    let mut m: usize = n;
    while m > 1 && v[m - 1] == '/'
        invariant
            m <= n <= v.len(),
            strip_slashes(v@.subrange(0, n as int)) == strip_slashes(v@.subrange(0, m as int)),
        decreases m,
    {
        assert(v@.subrange(0, m as int).drop_last() == v@.subrange(0, m - 1));
        m -= 1;
    }
    m
}

/// The host path of the Windows path `windows` inside the prefix at `pfx`.
pub fn translate(pfx: &str, windows: &str) -> (r: String)
    ensures
        r@ == windows_path(pfx@, windows@),
{
    let v = chars_of(windows);
    if v.len() == 0 {
        return pfx.to_owned();
    }
    let mut out: Vec<char> = Vec::new();
    let mut i: usize = 0;
    assert(v@.subrange(0, v.len() as int) == v@);
    while i < v.len()
        invariant
            i <= v.len(),
            to_slashes(v@) == out@ + to_slashes(v@.subrange(i as int, v.len() as int)),
        decreases v.len() - i,
    {
        let ghost rest = v@.subrange(i as int, v.len() as int);
        if v[i] == '\\' && i + 1 < v.len() && v[i + 1] == '\\' {
            assert(rest.subrange(2, rest.len() as int) == v@.subrange(i + 2, v.len() as int));
            out.push('/');
            i += 2;
        } else {
            assert(rest.drop_first() == v@.subrange(i + 1, v.len() as int));
            if v[i] == '\\' {
                out.push('/');
            } else {
                out.push(v[i]);
            }
            i += 1;
        }
    }
    assert(out@ == to_slashes(v@));
    if out.len() > 0 {
        let first = char_lower(out[0]);
        out.set(0, first);
    }
    let name = string_of(&out, 0, out.len());
    assert(out@.subrange(0, out.len() as int) == out@);
    let devices = join_path(pfx, "dosdevices");
    join_path(devices.as_str(), name.as_str())
}

/// `path` with a leading `~/` replaced by the home directory `home`.
pub fn expand_tilde(home: &str, path: &str) -> (r: String)
    ensures
        r@ == expand(home@, path@),
{
    let v = chars_of(path);
    if v.len() >= 2 && v[0] == '~' && v[1] == '/' {
        let rest = string_of(&v, 2, v.len());
        join_path(home, rest.as_str())
    } else {
        path.to_owned()
    }
}

/// Translation takes no account of the case of the drive letter: two
/// Windows paths that differ only in the case of their first character
/// lead to the same host path.
pub proof fn lemma_drive_letter_case(pfx: Seq<char>, a: Seq<char>, b: Seq<char>)
    requires
        a.len() == b.len(),
        a.len() > 0,
        ascii_lower(a[0]) == ascii_lower(b[0]),
        a.drop_first() == b.drop_first(),
    ensures
        windows_path(pfx, a) == windows_path(pfx, b),
{
    if a[0] == '\\' || b[0] == '\\' {
        assert(ascii_lower('\\') == '\\');
        assert(a[0] == b[0]);
        assert(a == seq![a[0]] + a.drop_first());
        assert(b == seq![b[0]] + b.drop_first());
    } else {
        let ta = to_slashes(a);
        let tb = to_slashes(b);
        assert(ta == seq![a[0]] + to_slashes(a.drop_first()));
        assert(tb == seq![b[0]] + to_slashes(b.drop_first()));
        assert(lower_first(ta) == lower_first(tb));
    }
}

} // verus!
