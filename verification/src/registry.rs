//! The sectioned text format of Wine's registry files (`user.reg`,
//! `system.reg`).
//!
//! ```text
//! [Software\\Microsoft\\Windows\\CurrentVersion\\Explorer\\Shell Folders] 1700000000
//! "AppData"="C:\\users\\steamuser\\AppData\\Roaming"
//! "Flags"=dword:00000001
//! ```
//!
//! A section starts at its header and ends before the next header. The file
//! writes every backslash of a section's name twice.

use crate::host::HostFs;
use crate::text::{
    chars_of, find_char, first_index, lemma_first_index_is, lines_of, rows, same_chars, slice_of,
    split_once, string_of, trimmed_lines,
};
use crate::vdf::{
    assoc_get, assoc_put, distinct_keys, key_index, lemma_key_index_is, lemma_put_distinct,
};
use vstd::prelude::*;

verus! {

/// The name that a header line `[name]` gives: what stands between the
/// opening bracket and the first closing one. What follows is of no account.
pub open spec fn section_header(line: Seq<char>) -> Option<Seq<char>> {
    if line.len() > 0 && line[0] == '[' {
        match split_once(line.subrange(1, line.len() as int), ']') {
            Some((name, _)) => Some(name),
            None => None,
        }
    } else {
        None
    }
}

/// The value that stands after a key: for `="text"` the text between the
/// first quote and the next, for anything else the empty string.
pub open spec fn quoted_value(part: Seq<char>) -> Seq<char> {
    if part.len() > 0 && part[0] == '=' {
        match split_once(part.subrange(1, part.len() as int), '"') {
            Some((_, rest)) => match split_once(rest, '"') {
                Some((value, _)) => value,
                None => Seq::empty(),
            },
            None => Seq::empty(),
        }
    } else {
        Seq::empty()
    }
}

/// The key and value that a line `"key"=...` gives.
pub open spec fn sub_key(line: Seq<char>) -> Option<(Seq<char>, Seq<char>)> {
    if line.len() > 0 && line[0] == '"' {
        match split_once(line.subrange(1, line.len() as int), '"') {
            Some((key, part)) => Some((key, quoted_value(part))),
            None => None,
        }
    } else {
        None
    }
}

/// Whether `line` is the header of the section `name`.
pub open spec fn is_header_of(line: Seq<char>, name: Seq<char>) -> bool {
    section_header(line) == Some(name)
}

/// Whether `line` is a header.
pub open spec fn is_header(line: Seq<char>) -> bool {
    section_header(line) is Some
}

/// The first line at or after `from` that is the header of `name`, or
/// `lines.len()`.
pub open spec fn find_section(lines: Seq<Seq<char>>, name: Seq<char>, from: int) -> int
    decreases lines.len() - from,
{
    if from < 0 || from >= lines.len() {
        lines.len() as int
    } else if is_header_of(lines[from], name) {
        from
    } else {
        find_section(lines, name, from + 1)
    }
}

/// The first line at or after `from` that is a header, or `lines.len()`.
pub open spec fn find_header(lines: Seq<Seq<char>>, from: int) -> int
    decreases lines.len() - from,
{
    if from < 0 || from >= lines.len() {
        lines.len() as int
    } else if is_header(lines[from]) {
        from
    } else {
        find_header(lines, from + 1)
    }
}

/// The keys that the lines `body` define, each with the value of the last
/// line that defines it, in the order in which the keys first appear.
pub open spec fn sub_keys(body: Seq<Seq<char>>) -> Seq<(Seq<char>, Seq<char>)>
    decreases body.len(),
{
    if body.len() == 0 {
        Seq::empty()
    } else {
        let before = sub_keys(body.drop_last());
        match sub_key(body.last()) {
            Some((key, value)) => assoc_put(before, key, value),
            None => before,
        }
    }
}

/// No key occurs twice among the keys that lines define.
pub proof fn lemma_sub_keys_distinct(body: Seq<Seq<char>>)
    ensures
        distinct_keys(sub_keys(body)),
    decreases body.len(),
{
    if body.len() > 0 {
        lemma_sub_keys_distinct(body.drop_last());
        match sub_key(body.last()) {
            Some((key, value)) => {
                lemma_put_distinct(sub_keys(body.drop_last()), key, value);
            },
            None => {},
        }
    }
}

/// The keys of the section `name`: those defined after its first header and
/// before the header that follows. Nothing where no line is its header.
pub open spec fn open_section(lines: Seq<Seq<char>>, name: Seq<char>) -> Option<
    Seq<(Seq<char>, Seq<char>)>,
> {
    let start = find_section(lines, name, 0);
    if 0 <= start < lines.len() {
        Some(sub_keys(lines.subrange(start + 1, find_header(lines, start + 1))))
    } else {
        None
    }
}

/// `s` with every pair of backslashes, taken from the left, made one.
pub open spec fn collapse(s: Seq<char>) -> Seq<char>
    decreases s.len(),
{
    if s.len() == 0 {
        Seq::empty()
    } else if s.len() >= 2 && s[0] == '\\' && s[1] == '\\' {
        seq!['\\'] + collapse(s.subrange(2, s.len() as int))
    } else {
        seq![s[0]] + collapse(s.drop_first())
    }
}

/// `s` with every backslash written twice.
pub open spec fn double(s: Seq<char>) -> Seq<char>
    decreases s.len(),
{
    if s.len() == 0 {
        Seq::empty()
    } else if s[0] == '\\' {
        seq!['\\', '\\'] + double(s.drop_first())
    } else {
        seq![s[0]] + double(s.drop_first())
    }
}

/// The name of a section as the file writes it: with doubled backslashes,
/// whether the caller wrote them once or twice.
pub open spec fn canonical_name(key_path: Seq<char>) -> Seq<char> {
    double(collapse(key_path))
}

/// The name of a section as the file writes it.
pub fn canonical_key(key_path: &str) -> (r: Vec<char>)
    ensures
        r@ == canonical_name(key_path@),
{
    let v = chars_of(key_path);
    let mut single: Vec<char> = Vec::new();
    let mut i: usize = 0;
    assert(v@.subrange(0, v.len() as int) == v@);
    while i < v.len()
        invariant
            i <= v.len(),
            collapse(v@) == single@ + collapse(v@.subrange(i as int, v.len() as int)),
        decreases v.len() - i,
    {
        let ghost rest = v@.subrange(i as int, v.len() as int);
        if v[i] == '\\' && i + 1 < v.len() && v[i + 1] == '\\' {
            assert(rest.subrange(2, rest.len() as int) == v@.subrange(i + 2, v.len() as int));
            single.push('\\');
            i += 2;
        } else {
            assert(rest.drop_first() == v@.subrange(i + 1, v.len() as int));
            single.push(v[i]);
            i += 1;
        }
    }
    assert(single@ == collapse(v@));
    let mut r: Vec<char> = Vec::new();
    let mut j: usize = 0;
    assert(single@.subrange(0, single.len() as int) == single@);
    while j < single.len()
        invariant
            j <= single.len(),
            double(single@) == r@ + double(single@.subrange(j as int, single.len() as int)),
        decreases single.len() - j,
    {
        let ghost rest = single@.subrange(j as int, single.len() as int);
        assert(rest.drop_first() == single@.subrange(j + 1, single.len() as int));
        if single[j] == '\\' {
            r.push('\\');
            r.push('\\');
        } else {
            r.push(single[j]);
        }
        j += 1;
    }
    r
}

/// The keys of one section with their values.
///
/// The entries are kept in the order in which their keys first appeared.
#[derive(Debug, Clone)]
pub struct RegValues {
    pub pairs: Vec<(String, String)>,
}

impl RegValues {
    /// The entries.
    pub open spec fn model(self) -> Seq<(Seq<char>, Seq<char>)> {
        self.pairs@.map_values(|p: (String, String)| (p.0@, p.1@))
    }

    /// No entries.
    pub fn new() -> (r: RegValues)
        ensures
            r.model() == Seq::<(Seq<char>, Seq<char>)>::empty(),
    {
        let r = RegValues { pairs: Vec::new() };
        assert(r.model() == Seq::<(Seq<char>, Seq<char>)>::empty());
        r
    }

    /// The number of keys.
    pub fn len(&self) -> (n: usize)
        ensures
            n == self.model().len(),
    {
        self.pairs.len()
    }

    /// The place of `key` among the entries.
    pub fn position(&self, key: &str) -> (r: Option<usize>)
        ensures
            match r {
                Some(i) => i < self.pairs.len() && i == key_index(self.model(), key@),
                None => key_index(self.model(), key@) == self.pairs.len(),
            },
    {
        let wanted = key.to_owned();
        let mut i: usize = 0;
        while i < self.pairs.len()
            invariant
                i <= self.pairs.len(),
                wanted@ == key@,
                forall|j: int| 0 <= j < i ==> self.model()[j].0 != key@,
            decreases self.pairs.len() - i,
        {
            if self.pairs[i].0 == wanted {
                proof {
                    lemma_key_index_is(self.model(), key@, i as int);
                }
                return Some(i);
            }
            i += 1;
        }
        proof {
            lemma_key_index_is(self.model(), key@, i as int);
        }
        None
    }

    /// The value of `key`.
    pub fn get(&self, key: &str) -> (r: Option<&String>)
        ensures
            match r {
                Some(v) => assoc_get(self.model(), key@) == Some(v@),
                None => assoc_get(self.model(), key@) is None,
            },
    {
        match self.position(key) {
            Some(i) => Some(&self.pairs[i].1),
            None => None,
        }
    }

    /// Gives `key` the value `value`. A key that is already there keeps its
    /// place and loses its former value.
    pub fn insert(&mut self, key: String, value: String)
        ensures
            final(self).model() == assoc_put(old(self).model(), key@, value@),
    {
        let ghost before = self.model();
        match self.position(key.as_str()) {
            Some(i) => {
                self.pairs.set(i, (key, value));
                assert(self.model() == before.update(i as int, (key@, value@)));
            },
            None => {
                self.pairs.push((key, value));
                assert(self.model() == before.push((key@, value@)));
            },
        }
    }
}

/// Whether `line` is a header, and if so where its name stands in it.
pub fn header_bounds(line: &Vec<char>) -> (r: Option<(usize, usize)>)
    ensures
        match r {
            Some((a, b)) => a <= b <= line.len() && section_header(line@) == Some(
                line@.subrange(a as int, b as int),
            ),
            None => section_header(line@) is None,
        },
{
    let n = line.len();
    if n == 0 || line[0] != '[' {
        return None;
    }
    match find_char(line, 1, n, ']') {
        Some(k) => {
            assert(line@.subrange(1, n as int).subrange(0, k - 1) == line@.subrange(1, k as int));
            Some((1, k))
        },
        None => None,
    }
}

/// Whether `line` is the header of the section that the file writes as
/// `name`.
pub fn line_opens(line: &Vec<char>, name: &Vec<char>) -> (r: bool)
    ensures
        r == is_header_of(line@, name@),
{
    match header_bounds(line) {
        Some((a, b)) => {
            let found = slice_of(line, a, b);
            same_chars(&found, name)
        },
        None => false,
    }
}

/// The key and value of a line `"key"=...`, if it is one.
pub fn read_sub_key(line: &Vec<char>) -> (r: Option<(String, String)>)
    ensures
        match r {
            Some((k, v)) => sub_key(line@) == Some((k@, v@)),
            None => sub_key(line@) is None,
        },
{
    let n = line.len();
    if n == 0 || line[0] != '"' {
        return None;
    }
    let ghost after = line@.subrange(1, n as int);
    let k = match find_char(line, 1, n, '"') {
        Some(k) => k,
        None => {
            return None;
        },
    };
    assert(after.subrange(0, k - 1) == line@.subrange(1, k as int));
    let ghost part = line@.subrange(k + 1, n as int);
    assert(after.subrange(k - 1 + 1, after.len() as int) == part);
    let key = string_of(line, 1, k);
    if k + 1 >= n || line[k + 1] != '=' {
        assert(quoted_value(part) == Seq::<char>::empty());
        return Some((key, String::new()));
    }
    let ghost val_part = part.subrange(1, part.len() as int);
    assert(val_part == line@.subrange(k + 2, n as int));
    let i = match find_char(line, k + 2, n, '"') {
        Some(i) => i,
        None => {
            return Some((key, String::new()));
        },
    };
    let ghost rest = val_part.subrange(i - (k + 2) + 1, val_part.len() as int);
    assert(rest == line@.subrange(i + 1, n as int));
    let j = match find_char(line, i + 1, n, '"') {
        Some(j) => j,
        None => {
            return Some((key, String::new()));
        },
    };
    assert(rest.subrange(0, j - (i + 1)) == line@.subrange(i + 1, j as int));
    let value = string_of(line, i + 1, j);
    Some((key, value))
}

/// The section of a reading, as entries.
pub open spec fn values_model(r: Option<RegValues>) -> Option<Seq<(Seq<char>, Seq<char>)>> {
    match r {
        Some(values) => Some(values.model()),
        None => None,
    }
}

/// A registry file that has been read, ready to be asked for its sections.
#[derive(Debug, Clone)]
pub struct RegParser {
    lines: Vec<Vec<char>>,
}

impl RegParser {
    /// The trimmed lines of the file.
    pub closed spec fn lines(self) -> Seq<Seq<char>> {
        rows(self.lines@)
    }

    /// Reads the registry file at `reg_file`; nothing where there is no
    /// file with text at that path.
    pub fn new(fs: &HostFs, reg_file: &str) -> (r: Option<RegParser>)
        ensures
            match r {
                Some(parser) => fs.text(reg_file@) matches Some(text) && parser.lines()
                    == trimmed_lines(text),
                None => fs.text(reg_file@) is None,
            },
    {
        match fs.read_to_string(reg_file) {
            Some(text) => Some(RegParser::from_text(text.as_str())),
            None => None,
        }
    }

    /// Takes the text of a registry file.
    pub fn from_text(text: &str) -> (r: RegParser)
        ensures
            r.lines() == trimmed_lines(text@),
    {
        let chars = chars_of(text);
        RegParser { lines: lines_of(&chars) }
    }

    /// The keys of the section `key_path`, with their values.
    ///
    /// `key_path` is written as Windows writes it, with one backslash
    /// between its parts; two are taken as one. Only the first section of
    /// that name is read, up to the next header of any section. Where the
    /// file holds no such section, nothing is returned.
    pub fn open_key(&self, key_path: &str) -> (r: Option<RegValues>)
        ensures
            values_model(r) == open_section(self.lines(), canonical_name(key_path@)),
            r matches Some(values) ==> distinct_keys(values.model()),
    {
        let name = canonical_key(key_path);
        let ghost all = rows(self.lines@);
        let n = self.lines.len();
        let mut start: usize = 0;
        while start < n && !line_opens(&self.lines[start], &name)
            invariant
                start <= n == self.lines.len(),
                all == rows(self.lines@),
                find_section(all, name@, 0) == find_section(all, name@, start as int),
            decreases n - start,
        {
            assert(all[start as int] == self.lines@[start as int]@);
            start += 1;
        }
        if start >= n {
            return None;
        }
        assert(all[start as int] == self.lines@[start as int]@);
        let mut values = RegValues::new();
        let mut end: usize = start + 1;
        assert(all.subrange(start + 1, end as int) == Seq::<Seq<char>>::empty());
        while end < n && header_bounds(&self.lines[end]).is_none()
            invariant
                start < end <= n == self.lines.len(),
                all == rows(self.lines@),
                find_header(all, start + 1) == find_header(all, end as int),
                values.model() == sub_keys(all.subrange(start + 1, end as int)),
            decreases n - end,
        {
            assert(all[end as int] == self.lines@[end as int]@);
            let ghost body = all.subrange(start + 1, end + 1);
            assert(body.drop_last() == all.subrange(start + 1, end as int));
            assert(body.last() == all[end as int]);
            match read_sub_key(&self.lines[end]) {
                Some((key, value)) => {
                    values.insert(key, value);
                },
                None => {},
            }
            end += 1;
        }
        assert(end < n ==> all[end as int] == self.lines@[end as int]@);
        proof {
            lemma_sub_keys_distinct(all.subrange(start + 1, end as int));
        }
        Some(values)
    }
}

/// A section that stands between lines with no header of its name before
/// it, and either the end of the file or another header after it, is read
/// as the keys of its own lines.
pub proof fn lemma_section_between(
    before: Seq<Seq<char>>,
    header: Seq<char>,
    body: Seq<Seq<char>>,
    after: Seq<Seq<char>>,
    name: Seq<char>,
)
    requires
        forall|i: int| 0 <= i < before.len() ==> !is_header_of(#[trigger] before[i], name),
        is_header_of(header, name),
        forall|i: int| 0 <= i < body.len() ==> !is_header(#[trigger] body[i]),
        after.len() > 0 ==> is_header(after[0]),
    ensures
        open_section(before + seq![header] + body + after, name) == Some(sub_keys(body)),
{
    let lines = before + seq![header] + body + after;
    let start = before.len() as int;
    let end = start + 1 + body.len();
    lemma_find_section_skips(lines, name, 0, start);
    lemma_find_header_skips(lines, start + 1, end);
    assert(lines.subrange(start + 1, end) == body);
}

proof fn lemma_find_section_skips(lines: Seq<Seq<char>>, name: Seq<char>, from: int, to: int)
    requires
        0 <= from <= to < lines.len(),
        forall|i: int| from <= i < to ==> !is_header_of(#[trigger] lines[i], name),
        is_header_of(lines[to], name),
    ensures
        find_section(lines, name, from) == to,
    decreases to - from,
{
    if from < to {
        lemma_find_section_skips(lines, name, from + 1, to);
    }
}

proof fn lemma_find_header_skips(lines: Seq<Seq<char>>, from: int, to: int)
    requires
        0 <= from <= to <= lines.len(),
        forall|i: int| from <= i < to ==> !is_header(#[trigger] lines[i]),
        to < lines.len() ==> is_header(lines[to]),
    ensures
        find_header(lines, from) == to,
    decreases to - from,
{
    if from < to {
        lemma_find_header_skips(lines, from + 1, to);
    }
}

/// A line `"key"="value"` gives the key and the value exactly as they stand
/// between their quotes.
pub proof fn lemma_string_value(key: Seq<char>, value: Seq<char>, tail: Seq<char>)
    requires
        first_index(key, '"') == key.len(),
        first_index(value, '"') == value.len(),
    ensures
        sub_key(seq!['"'] + key + seq!['"', '=', '"'] + value + seq!['"'] + tail) == Some(
            (key, value),
        ),
{
    let line = seq!['"'] + key + seq!['"', '=', '"'] + value + seq!['"'] + tail;
    let after = line.subrange(1, line.len() as int);
    let part = seq!['=', '"'] + value + seq!['"'] + tail;
    assert(after == key + seq!['"'] + part);
    lemma_cut(key, '"', part);
    let rest = value + seq!['"'] + tail;
    assert(part.subrange(1, part.len() as int) == Seq::<char>::empty() + seq!['"'] + rest);
    assert(first_index(Seq::<char>::empty(), '"') == 0);
    lemma_cut(Seq::empty(), '"', rest);
    lemma_cut(value, '"', tail);
}

/// A line `"key"=` followed by anything that holds no quote, such as a
/// number, gives the key with the empty string.
pub proof fn lemma_other_value(key: Seq<char>, other: Seq<char>)
    requires
        first_index(key, '"') == key.len(),
        first_index(other, '"') == other.len(),
    ensures
        sub_key(seq!['"'] + key + seq!['"', '='] + other) == Some((key, Seq::<char>::empty())),
{
    let line = seq!['"'] + key + seq!['"', '='] + other;
    let after = line.subrange(1, line.len() as int);
    let part = seq!['='] + other;
    assert(after == key + seq!['"'] + part);
    lemma_cut(key, '"', part);
    assert(part.subrange(1, part.len() as int) == other);
}

proof fn lemma_cut(a: Seq<char>, c: char, b: Seq<char>)
    requires
        first_index(a, c) == a.len(),
    ensures
        split_once(a + seq![c] + b, c) == Some((a, b)),
{
    let s = a + seq![c] + b;
    crate::text::lemma_first_index(a, c);
    assert forall|j: int| 0 <= j < a.len() implies s[j] != c by {
        assert(s[j] == a[j]);
    }
    lemma_first_index_is(s, c, a.len() as int);
    assert(s.subrange(0, a.len() as int) == a);
    assert(s.subrange(a.len() as int + 1, s.len() as int) == b);
}

} // verus!
