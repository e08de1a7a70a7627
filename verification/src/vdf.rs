//! The nested key/value text format of Steam's library index
//! (`libraryfolders.vdf`).
//!
//! A document is a table of entries, each a quoted key followed either by a
//! quoted string on the same line or, on the following lines, by a table in
//! braces:
//!
//! ```text
//! "libraryfolders"
//! {
//!     "0"
//!     {
//!         "path"      "/home/user/.local/share/Steam"
//!     }
//! }
//! ```

use crate::text::{
    chars_of, find_char, lines_of, rows, split_once, string_of, trim, trim_bounds, trimmed_lines,
};
use vstd::prelude::*;

verus! {

/// What a key of a document stands for.
pub enum VdfNode {
    /// A string.
    Leaf(Seq<char>),
    /// A nested table: its entries in the order in which their keys first
    /// appear.
    Table(Seq<(Seq<char>, VdfNode)>),
}

/// The position of the first entry of `s` with key `k`, or `s.len()` where
/// there is none.
pub open spec fn key_index<V>(s: Seq<(Seq<char>, V)>, k: Seq<char>) -> int
    decreases s.len(),
{
    if s.len() == 0 {
        0
    } else if s[0].0 == k {
        0
    } else {
        1 + key_index(s.drop_first(), k)
    }
}

/// `key_index` is the least position whose key is `k`.
pub proof fn lemma_key_index<V>(s: Seq<(Seq<char>, V)>, k: Seq<char>)
    ensures
        0 <= key_index(s, k) <= s.len(),
        forall|j: int| 0 <= j < key_index(s, k) ==> s[j].0 != k,
        key_index(s, k) < s.len() ==> s[key_index(s, k)].0 == k,
    decreases s.len(),
{
    if s.len() > 0 && s[0].0 != k {
        let t = s.drop_first();
        lemma_key_index(t, k);
        assert forall|j: int| 0 <= j < key_index(s, k) implies s[j].0 != k by {
            if j > 0 {
                assert(s[j] == t[j - 1]);
            }
        }
    }
}

/// A position whose key is `k`, with no such key before it, is the first.
pub proof fn lemma_key_index_is<V>(s: Seq<(Seq<char>, V)>, k: Seq<char>, i: int)
    requires
        0 <= i <= s.len(),
        forall|j: int| 0 <= j < i ==> s[j].0 != k,
        i < s.len() ==> s[i].0 == k,
    ensures
        key_index(s, k) == i,
{
    lemma_key_index(s, k);
}

/// What `k` stands for in `s`.
pub open spec fn assoc_get<V>(s: Seq<(Seq<char>, V)>, k: Seq<char>) -> Option<V> {
    let i = key_index(s, k);
    if 0 <= i < s.len() {
        Some(s[i].1)
    } else {
        None
    }
}

/// `s` with `k` standing for `v`: an entry with that key keeps its place and
/// takes the new value, a new key goes to the end.
pub open spec fn assoc_put<V>(s: Seq<(Seq<char>, V)>, k: Seq<char>, v: V) -> Seq<(Seq<char>, V)> {
    let i = key_index(s, k);
    if 0 <= i < s.len() {
        s.update(i, (k, v))
    } else {
        s.push((k, v))
    }
}

/// No key occurs twice in `s`.
pub open spec fn distinct_keys<V>(s: Seq<(Seq<char>, V)>) -> bool {
    forall|i: int, j: int| 0 <= i < j < s.len() ==> s[i].0 != s[j].0
}

/// Putting a key keeps the keys distinct.
pub proof fn lemma_put_distinct<V>(s: Seq<(Seq<char>, V)>, k: Seq<char>, v: V)
    requires
        distinct_keys(s),
    ensures
        distinct_keys(assoc_put(s, k, v)),
        assoc_get(assoc_put(s, k, v), k) == Some(v),
{
    lemma_key_index(s, k);
    let t = assoc_put(s, k, v);
    let i = key_index(s, k);
    assert(t[i] == (k, v));
    assert forall|j: int| 0 <= j < i implies t[j].0 != k by {
        assert(t[j] == s[j]);
    }
    lemma_key_index_is(t, k, i);
}

/// No table of `doc`, at any depth, holds a key twice.
pub open spec fn well_formed(doc: Seq<(Seq<char>, VdfNode)>) -> bool
    decreases doc,
{
    &&& distinct_keys(doc)
    &&& forall|i: int|
        0 <= i < doc.len() ==> match (#[trigger] doc[i]).1 {
            VdfNode::Table(inner) => well_formed(inner),
            VdfNode::Leaf(_) => true,
        }
}

/// Whether the tables in `node` are well formed.
pub open spec fn node_well_formed(node: VdfNode) -> bool {
    match node {
        VdfNode::Table(inner) => well_formed(inner),
        VdfNode::Leaf(_) => true,
    }
}

/// Putting a well formed value into a well formed table keeps it so.
pub proof fn lemma_put_well_formed(doc: Seq<(Seq<char>, VdfNode)>, k: Seq<char>, node: VdfNode)
    requires
        well_formed(doc),
        node_well_formed(node),
    ensures
        well_formed(assoc_put(doc, k, node)),
{
    lemma_put_distinct(doc, k, node);
    lemma_key_index(doc, k);
    let t = assoc_put(doc, k, node);
    assert forall|i: int| 0 <= i < t.len() implies match (#[trigger] t[i]).1 {
        VdfNode::Table(inner) => well_formed(inner),
        VdfNode::Leaf(_) => true,
    } by {
        if i < doc.len() && i != key_index(doc, k) {
            assert(t[i] == doc[i]);
        }
    }
}

/// A table of the format: keys with the values they stand for.
///
/// The entries are kept in the order in which their keys were first put.
#[derive(Debug)]
pub struct VdfStruct {
    pub pairs: Vec<(String, VdfValue)>,
}

/// The two kinds of value: a table in braces on lines of its own, or a
/// string on the line of its key.
#[derive(Debug)]
pub enum VdfValue {
    Complex(VdfStruct),
    Simple(String),
}

impl VdfValue {
    /// The node that this value stands for.
    pub open spec fn model(self) -> VdfNode
        decreases self,
    {
        match self {
            VdfValue::Simple(s) => VdfNode::Leaf(s@),
            VdfValue::Complex(t) => VdfNode::Table(t.model()),
        }
    }
}

impl VdfStruct {
    /// The entries of this table.
    pub open spec fn model(self) -> Seq<(Seq<char>, VdfNode)>
        decreases self,
    {
        Seq::new(
            self.pairs@.len(),
            |i: int|
                if 0 <= i < self.pairs@.len() {
                    (self.pairs@[i].0@, self.pairs@[i].1.model())
                } else {
                    (Seq::empty(), VdfNode::Leaf(Seq::empty()))
                },
        )
    }

    /// A table without entries.
    pub fn new() -> (t: VdfStruct)
        ensures
            t.model() == Seq::<(Seq<char>, VdfNode)>::empty(),
    {
        VdfStruct { pairs: Vec::new() }
    }

    /// The place of `key` among the entries.
    pub fn position(&self, key: &str) -> (r: Option<usize>)
        ensures
            match r {
                Some(i) => i < self.pairs.len() && i == key_index(self.model(), key@),
                None => key_index(self.model(), key@) == self.pairs.len(),
            },
    {
        let wanted = key.to_owned();
        let mut i: usize = 0;
        while i < self.pairs.len()
            invariant
                i <= self.pairs.len(),
                wanted@ == key@,
                forall|j: int| 0 <= j < i ==> self.model()[j].0 != key@,
            decreases self.pairs.len() - i,
        {
            if self.pairs[i].0 == wanted {
                proof {
                    lemma_key_index_is(self.model(), key@, i as int);
                }
                return Some(i);
            }
            i += 1;
        }
        proof {
            lemma_key_index_is(self.model(), key@, i as int);
        }
        None
    }

    /// What `key` stands for.
    pub fn get(&self, key: &str) -> (r: Option<&VdfValue>)
        ensures
            match r {
                Some(v) => assoc_get(self.model(), key@) == Some(v.model()),
                None => assoc_get(self.model(), key@) is None,
            },
    {
        match self.position(key) {
            Some(i) => Some(&self.pairs[i].1),
            None => None,
        }
    }

    /// Whether `key` stands for anything.
    pub fn contains_key(&self, key: &str) -> (r: bool)
        ensures
            r == assoc_get(self.model(), key@).is_some(),
    {
        self.position(key).is_some()
    }

    /// Lets `key` stand for `value`. A key that is already there keeps its
    /// place and loses its former value.
    pub fn insert(&mut self, key: String, value: VdfValue)
        ensures
            final(self).model() == assoc_put(old(self).model(), key@, value.model()),
    {
        let ghost before = self.model();
        match self.position(key.as_str()) {
            Some(i) => {
                self.pairs.set(i, (key, value));
                assert(self.model() == before.update(i as int, (key@, value.model())));
            },
            None => {
                self.pairs.push((key, value));
                assert(self.model() == before.push((key@, value.model())));
            },
        }
    }

    /// Takes out what `key` stands for.
    pub fn remove(&mut self, key: &str) -> (r: Option<VdfValue>)
        ensures
            match r {
                Some(v) => assoc_get(old(self).model(), key@) == Some(v.model())
                    && final(self).model() == old(self).model().remove(
                    key_index(old(self).model(), key@),
                ),
                None => assoc_get(old(self).model(), key@) is None && final(self).model() == old(
                    self,
                ).model(),
            },
    {
        let ghost before = self.model();
        match self.position(key) {
            Some(i) => {
                let pair = self.pairs.remove(i);
                assert(self.model() == before.remove(i as int));
                Some(pair.1)
            },
            None => None,
        }
    }
}

/// The descent of the value at `path` into nested tables: what the last key
/// stands for in the table that the keys before it lead to.
pub open spec fn lookup(doc: Seq<(Seq<char>, VdfNode)>, path: Seq<Seq<char>>) -> Option<VdfNode>
    decreases path.len(),
{
    if path.len() == 0 {
        None
    } else {
        match assoc_get(doc, path[0]) {
            None => None,
            Some(node) => if path.len() == 1 {
                Some(node)
            } else {
                match node {
                    VdfNode::Table(inner) => lookup(inner, path.drop_first()),
                    VdfNode::Leaf(_) => None,
                }
            },
        }
    }
}

/// What one trimmed line of a document says.
pub enum VdfLine {
    /// `}`: the table ends.
    Close,
    /// Nothing.
    Blank,
    /// `"key" "value"`.
    Leaf(Seq<char>, Seq<char>),
    /// `"key"` with no quoted value after it: a table follows.
    Open(Seq<char>),
    /// Anything else.
    Invalid,
}

/// Reads one trimmed line.
///
/// The key is what stands between the first two quotes. If the trimmed rest
/// holds a quote, the value is what stands between that quote and the next,
/// which must be there; if it holds none, the line opens a table.
pub open spec fn vdf_line(line: Seq<char>) -> VdfLine {
    if line == seq!['}'] {
        VdfLine::Close
    } else if line.len() > 0 && line[0] == '"' {
        match split_once(line.subrange(1, line.len() as int), '"') {
            None => VdfLine::Invalid,
            Some((key, part)) => match split_once(trim(part), '"') {
                None => VdfLine::Open(key),
                Some((_, rest)) => match split_once(rest, '"') {
                    None => VdfLine::Invalid,
                    Some((value, _)) => VdfLine::Leaf(key, value),
                },
            },
        }
    } else if line.len() == 0 {
        VdfLine::Blank
    } else {
        VdfLine::Invalid
    }
}

/// Reads a table from the trimmed lines `lines`, starting at line `pos`,
/// into `acc`: the table read, and the line after it.
///
/// A table ends at a line `}`. The outermost table (`root`) also ends where
/// the lines end; a nested one then fails. A key without a value must be
/// followed by a line `{` and a nested table. Blank lines are passed over;
/// any other line fails the whole reading.
///
/// The test on where a nested table ended is there for the definition's own
/// sake: it always holds (`lemma_parse_advances`).
pub open spec fn parse_from(
    lines: Seq<Seq<char>>,
    pos: int,
    root: bool,
    acc: Seq<(Seq<char>, VdfNode)>,
) -> Option<(Seq<(Seq<char>, VdfNode)>, int)>
    decreases lines.len() - pos,
{
    if pos < 0 {
        None
    } else if pos >= lines.len() {
        if root {
            Some((acc, pos))
        } else {
            None
        }
    } else {
        match vdf_line(lines[pos]) {
            VdfLine::Close => Some((acc, pos + 1)),
            VdfLine::Blank => parse_from(lines, pos + 1, root, acc),
            VdfLine::Leaf(key, value) => parse_from(
                lines,
                pos + 1,
                root,
                assoc_put(acc, key, VdfNode::Leaf(value)),
            ),
            VdfLine::Open(key) => if pos + 1 < lines.len() && lines[pos + 1] == seq!['{'] {
                match parse_from(lines, pos + 2, false, Seq::empty()) {
                    None => None,
                    Some((inner, next)) => if pos < next <= lines.len() {
                        parse_from(lines, next, root, assoc_put(acc, key, VdfNode::Table(inner)))
                    } else {
                        None
                    },
                }
            } else {
                None
            },
            VdfLine::Invalid => None,
        }
    }
}

/// The document that the text `s` holds, if it is well formed.
pub open spec fn parse_text(s: Seq<char>) -> Option<Seq<(Seq<char>, VdfNode)>> {
    match parse_from(trimmed_lines(s), 0, true, Seq::empty()) {
        Some((doc, _)) => Some(doc),
        None => None,
    }
}

/// A reading never goes backwards nor past the last line, and it ends after
/// the line it started on, if there was one.
pub proof fn lemma_parse_advances(
    lines: Seq<Seq<char>>,
    pos: int,
    root: bool,
    acc: Seq<(Seq<char>, VdfNode)>,
)
    ensures
        match parse_from(lines, pos, root, acc) {
            Some((_, next)) => 0 <= pos <= next && (pos < lines.len() ==> pos < next
                <= lines.len()),
            None => true,
        },
    decreases lines.len() - pos,
{
    if 0 <= pos < lines.len() {
        match vdf_line(lines[pos]) {
            VdfLine::Close => {},
            VdfLine::Blank => {
                lemma_parse_advances(lines, pos + 1, root, acc);
            },
            VdfLine::Leaf(key, value) => {
                lemma_parse_advances(
                    lines,
                    pos + 1,
                    root,
                    assoc_put(acc, key, VdfNode::Leaf(value)),
                );
            },
            VdfLine::Open(key) => {
                if pos + 1 < lines.len() && lines[pos + 1] == seq!['{'] {
                    lemma_parse_advances(lines, pos + 2, false, Seq::empty());
                    match parse_from(lines, pos + 2, false, Seq::empty()) {
                        None => {},
                        Some((inner, next)) => {
                            if pos < next <= lines.len() {
                                lemma_parse_advances(
                                    lines,
                                    next,
                                    root,
                                    assoc_put(acc, key, VdfNode::Table(inner)),
                                );
                            }
                        },
                    }
                }
            },
            VdfLine::Invalid => {},
        }
    }
}

/// What is read is well formed: no table of it holds a key twice.
pub proof fn lemma_parse_well_formed(
    lines: Seq<Seq<char>>,
    pos: int,
    root: bool,
    acc: Seq<(Seq<char>, VdfNode)>,
)
    requires
        well_formed(acc),
    ensures
        parse_from(lines, pos, root, acc) matches Some((doc, _)) ==> well_formed(doc),
    decreases lines.len() - pos,
{
    if 0 <= pos < lines.len() {
        match vdf_line(lines[pos]) {
            VdfLine::Close => {},
            VdfLine::Blank => {
                lemma_parse_well_formed(lines, pos + 1, root, acc);
            },
            VdfLine::Leaf(key, value) => {
                lemma_put_well_formed(acc, key, VdfNode::Leaf(value));
                lemma_parse_well_formed(
                    lines,
                    pos + 1,
                    root,
                    assoc_put(acc, key, VdfNode::Leaf(value)),
                );
            },
            VdfLine::Open(key) => {
                if pos + 1 < lines.len() && lines[pos + 1] == seq!['{'] {
                    let none = Seq::<(Seq<char>, VdfNode)>::empty();
                    assert(well_formed(none));
                    lemma_parse_well_formed(lines, pos + 2, false, none);
                    match parse_from(lines, pos + 2, false, none) {
                        None => {},
                        Some((inner, next)) => {
                            if pos < next <= lines.len() {
                                lemma_put_well_formed(acc, key, VdfNode::Table(inner));
                                lemma_parse_well_formed(
                                    lines,
                                    next,
                                    root,
                                    assoc_put(acc, key, VdfNode::Table(inner)),
                                );
                            }
                        },
                    }
                }
            },
            VdfLine::Invalid => {},
        }
    }
}

/// What one line says, with the strings it holds.
pub enum Line {
    Close,
    Blank,
    Leaf(String, String),
    Open(String),
    Invalid,
}

impl Line {
    /// The same line over character sequences.
    pub open spec fn model(self) -> VdfLine {
        match self {
            Line::Close => VdfLine::Close,
            Line::Blank => VdfLine::Blank,
            Line::Leaf(k, v) => VdfLine::Leaf(k@, v@),
            Line::Open(k) => VdfLine::Open(k@),
            Line::Invalid => VdfLine::Invalid,
        }
    }
}

/// Reads one trimmed line.
pub fn read_line(line: &Vec<char>) -> (r: Line)
    ensures
        r.model() == vdf_line(line@),
{
    let n = line.len();
    if n == 1 && line[0] == '}' {
        assert(line@ == seq!['}']);
        return Line::Close;
    }
    assert(line@ != seq!['}']) by {
        if line@ == seq!['}'] {
            assert(seq!['}'].len() == 1);
            assert(seq!['}'][0] == '}');
        }
    }
    if n == 0 {
        return Line::Blank;
    }
    if line[0] != '"' {
        return Line::Invalid;
    }
    let ghost after = line@.subrange(1, n as int);
    let k = match find_char(line, 1, n, '"') {
        Some(k) => k,
        None => {
            return Line::Invalid;
        },
    };
    let ghost part = after.subrange(k - 1 + 1, after.len() as int);
    assert(after.subrange(0, k - 1) == line@.subrange(1, k as int));
    assert(part == line@.subrange(k + 1, n as int));
    let key = string_of(line, 1, k);
    let (a, b) = trim_bounds(line, k + 1, n);
    let ghost trimmed = line@.subrange(a as int, b as int);
    let i = match find_char(line, a, b, '"') {
        Some(i) => i,
        None => {
            return Line::Open(key);
        },
    };
    let ghost rest = trimmed.subrange(i - a + 1, trimmed.len() as int);
    assert(rest == line@.subrange(i + 1, b as int));
    let j = match find_char(line, i + 1, b, '"') {
        Some(j) => j,
        None => {
            return Line::Invalid;
        },
    };
    assert(rest.subrange(0, j - (i + 1)) == line@.subrange(i + 1, j as int));
    let value = string_of(line, i + 1, j);
    Line::Leaf(key, value)
}

/// The table that a reading gave, as a document.
pub open spec fn read_model(r: Option<(VdfStruct, usize)>) -> Option<
    (Seq<(Seq<char>, VdfNode)>, int),
> {
    match r {
        Some((table, next)) => Some((table.model(), next as int)),
        None => None,
    }
}

/// Reads a table from the trimmed lines `lines`, starting at line `start`:
/// the table, and the line after it.
pub fn parse_struct(lines: &Vec<Vec<char>>, start: usize, root: bool) -> (r: Option<
    (VdfStruct, usize),
>)
    requires
        start <= lines.len(),
    ensures
        read_model(r) == parse_from(rows(lines@), start as int, root, Seq::empty()),
    decreases lines.len() - start,
{
    let ghost all = rows(lines@);
    let mut table = VdfStruct::new();
    let mut pos: usize = start;
    while pos < lines.len()
        invariant
            start <= pos <= lines.len(),
            all == rows(lines@),
            parse_from(all, start as int, root, Seq::empty()) == parse_from(
                all,
                pos as int,
                root,
                table.model(),
            ),
        decreases lines.len() - pos,
    {
        assert(all[pos as int] == lines@[pos as int]@);
        match read_line(&lines[pos]) {
            Line::Close => {
                return Some((table, pos + 1));
            },
            Line::Blank => {
                pos += 1;
            },
            Line::Leaf(key, value) => {
                table.insert(key, VdfValue::Simple(value));
                pos += 1;
            },
            Line::Open(key) => {
                if pos + 1 >= lines.len() {
                    return None;
                }
                assert(all[pos + 1] == lines@[pos + 1]@);
                let brace = &lines[pos + 1];
                if !(brace.len() == 1 && brace[0] == '{') {
                    assert(brace@ != seq!['{']) by {
                        if brace@ == seq!['{'] {
                            assert(seq!['{'].len() == 1);
                            assert(seq!['{'][0] == '{');
                        }
                    }
                    return None;
                }
                assert(brace@ == seq!['{']);
                proof {
                    lemma_parse_advances(all, pos + 2, false, Seq::empty());
                }
                match parse_struct(lines, pos + 2, false) {
                    None => {
                        return None;
                    },
                    Some((inner, next)) => {
                        table.insert(key, VdfValue::Complex(inner));
                        pos = next;
                    },
                }
            },
            Line::Invalid => {
                return None;
            },
        }
    }
    if root {
        Some((table, pos))
    } else {
        None
    }
}

/// The document of a reading, if there is one.
pub open spec fn parsed_model(r: Option<VdfStruct>) -> Option<Seq<(Seq<char>, VdfNode)>> {
    match r {
        Some(table) => Some(table.model()),
        None => None,
    }
}

/// Reads the document that `text` holds. A text that is not well formed
/// gives nothing, never a part of a document.
pub fn parse_vdf(text: &str) -> (r: Option<VdfStruct>)
    ensures
        parsed_model(r) == parse_text(text@),
        r matches Some(table) ==> well_formed(table.model()),
{
    let chars = chars_of(text);
    let lines = lines_of(&chars);
    proof {
        let none = Seq::<(Seq<char>, VdfNode)>::empty();
        assert(well_formed(none));
        lemma_parse_well_formed(trimmed_lines(text@), 0, true, none);
    }
    match parse_struct(&lines, 0, true) {
        Some((table, _)) => Some(table),
        None => None,
    }
}

} // verus!
