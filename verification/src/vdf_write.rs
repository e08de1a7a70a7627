//! Writing a document down, and the law that reading gives it back.

use crate::text::{
    first_index, lemma_first_index_is, split_lines, split_once, trim, trim_end, trim_start,
    trimmed_lines,
};
use crate::vdf::{
    assoc_put, distinct_keys, key_index, lemma_key_index_is, lookup, parse_from, parse_text,
    vdf_line, VdfLine, VdfNode,
};
use vstd::prelude::*;

verus! {

/// `s` holds neither a quote nor a line feed: it can stand between quotes
/// on one line.
pub open spec fn plain(s: Seq<char>) -> bool {
    forall|i: int| 0 <= i < s.len() ==> s[i] != '"' && s[i] != '\n'
}

/// Every key and string of `doc` is plain, and no table of it holds a key
/// twice.
pub open spec fn writable(doc: Seq<(Seq<char>, VdfNode)>) -> bool
    decreases doc,
{
    &&& distinct_keys(doc)
    &&& forall|i: int|
        0 <= i < doc.len() ==> plain(#[trigger] doc[i].0) && match doc[i].1 {
            VdfNode::Leaf(v) => plain(v),
            VdfNode::Table(inner) => writable(inner),
        }
}

/// `s` between quotes.
pub open spec fn quoted(s: Seq<char>) -> Seq<char> {
    seq!['"'] + s + seq!['"']
}

/// The line of a key that stands for a string.
pub open spec fn leaf_line(k: Seq<char>, v: Seq<char>) -> Seq<char> {
    quoted(k) + seq!['\t', '\t'] + quoted(v)
}

/// The lines that write `doc` down, without indentation.
pub open spec fn render(doc: Seq<(Seq<char>, VdfNode)>) -> Seq<Seq<char>>
    decreases doc,
{
    if doc.len() == 0 {
        Seq::empty()
    } else {
        render_entry(doc[0].0, doc[0].1) + render(doc.drop_first())
    }
}

/// The lines of one entry.
pub open spec fn render_entry(k: Seq<char>, node: VdfNode) -> Seq<Seq<char>>
    decreases node,
{
    match node {
        VdfNode::Leaf(v) => seq![leaf_line(k, v)],
        VdfNode::Table(inner) => seq![quoted(k), seq!['{']] + render(inner) + seq![seq!['}']],
    }
}

/// The text of `lines`: each followed by a line feed.
pub open spec fn join_lines(lines: Seq<Seq<char>>) -> Seq<char>
    decreases lines.len(),
{
    if lines.len() == 0 {
        Seq::empty()
    } else {
        lines[0] + seq!['\n'] + join_lines(lines.drop_first())
    }
}

/// The text that writes `doc` down.
pub open spec fn write_text(doc: Seq<(Seq<char>, VdfNode)>) -> Seq<char> {
    join_lines(render(doc))
}

proof fn lemma_quoted_prefix(k: Seq<char>, rest: Seq<char>)
    requires
        plain(k),
    ensures
        split_once(k + seq!['"'] + rest, '"') == Some((k, rest)),
{
    let s = k + seq!['"'] + rest;
    lemma_first_index_is(s, '"', k.len() as int);
    assert(s.subrange(0, k.len() as int) == k);
    assert(s.subrange(k.len() as int + 1, s.len() as int) == rest);
}

proof fn lemma_leaf_line(k: Seq<char>, v: Seq<char>)
    requires
        plain(k),
        plain(v),
    ensures
        vdf_line(leaf_line(k, v)) == VdfLine::Leaf(k, v),
        leaf_line(k, v) != seq!['{'],
{
    let line = leaf_line(k, v);
    assert(line[0] == '"');
    assert(seq!['}'][0] == '}');
    assert(seq!['{'][0] == '{');
    let part = seq!['\t', '\t'] + quoted(v);
    assert(line.subrange(1, line.len() as int) == k + seq!['"'] + part);
    lemma_quoted_prefix(k, part);
    let after_one = part.drop_first();
    let after_two = after_one.drop_first();
    assert(after_two == quoted(v));
    assert(part[0] == '\t');
    assert(after_one[0] == '\t');
    assert(after_two[0] == '"');
    assert(trim_start(after_two) == after_two);
    assert(trim_start(after_one) == after_two);
    assert(trim_start(part) == after_two);
    assert(after_two.last() == '"');
    assert(trim_end(after_two) == after_two);
    assert(trim(part) == quoted(v));
    let rest = v + seq!['"'];
    assert(quoted(v) == Seq::<char>::empty() + seq!['"'] + rest);
    lemma_quoted_prefix(Seq::empty(), rest);
    assert(rest == v + seq!['"'] + Seq::<char>::empty());
    lemma_quoted_prefix(v, Seq::empty());
}

proof fn lemma_key_line(k: Seq<char>)
    requires
        plain(k),
    ensures
        vdf_line(quoted(k)) == VdfLine::Open(k),
{
    let line = quoted(k);
    assert(line[0] == '"');
    assert(seq!['}'][0] == '}');
    assert(line.subrange(1, line.len() as int) == k + seq!['"'] + Seq::<char>::empty());
    lemma_quoted_prefix(k, Seq::empty());
    assert(trim(Seq::<char>::empty()) == Seq::<char>::empty());
    assert(first_index(Seq::<char>::empty(), '"') == 0);
}

/// The keys of `a` and `b` are disjoint.
pub open spec fn disjoint_keys(a: Seq<(Seq<char>, VdfNode)>, b: Seq<(Seq<char>, VdfNode)>) -> bool {
    forall|i: int, j: int| 0 <= i < a.len() && 0 <= j < b.len() ==> a[i].0 != b[j].0
}

/// Reading the lines of `doc`, wherever they stand among other lines, adds
/// the entries of `doc` to what was read before and goes on after them.
proof fn lemma_parse_rendered(
    pre: Seq<Seq<char>>,
    doc: Seq<(Seq<char>, VdfNode)>,
    post: Seq<Seq<char>>,
    root: bool,
    acc: Seq<(Seq<char>, VdfNode)>,
)
    requires
        writable(doc),
        disjoint_keys(acc, doc),
    ensures
        parse_from(pre + render(doc) + post, pre.len() as int, root, acc) == parse_from(
            pre + render(doc) + post,
            (pre.len() + render(doc).len()) as int,
            root,
            acc + doc,
        ),
    decreases doc,
{
    let lines = pre + render(doc) + post;
    let pos = pre.len() as int;
    if doc.len() == 0 {
        assert(acc + doc == acc);
    } else {
        let k = doc[0].0;
        let node = doc[0].1;
        let tail = doc.drop_first();
        let head = render_entry(k, node);
        assert(render(doc) == head + render(tail));
        assert(writable(tail)) by {
            assert forall|i: int| 0 <= i < tail.len() implies plain(#[trigger] tail[i].0)
                && match tail[i].1 {
                VdfNode::Leaf(v) => plain(v),
                VdfNode::Table(inner) => writable(inner),
            } by {
                assert(tail[i] == doc[i + 1]);
                assert(plain(doc[i + 1].0));
            }
            assert forall|i: int, j: int| 0 <= i < j < tail.len() implies tail[i].0
                != tail[j].0 by {
                assert(tail[i] == doc[i + 1]);
                assert(tail[j] == doc[j + 1]);
            }
        }
        assert(plain(doc[0].0));
        assert(key_index(acc, k) == acc.len()) by {
            lemma_key_index_is(acc, k, acc.len() as int);
        }
        let acc2 = acc.push((k, node));
        assert(assoc_put(acc, k, node) == acc2);
        assert(acc2 + tail == acc + doc);
        assert(disjoint_keys(acc2, tail)) by {
            assert forall|i: int, j: int| 0 <= i < acc2.len() && 0 <= j < tail.len() implies acc2[i].0
                != tail[j].0 by {
                assert(tail[j] == doc[j + 1]);
                if i < acc.len() {
                    assert(acc2[i] == acc[i]);
                } else {
                    assert(acc2[i].0 == doc[0].0);
                }
            }
        }
        let pre2 = pre + head;
        assert(lines == pre2 + render(tail) + post);
        match node {
            VdfNode::Leaf(v) => {
                assert(head.len() == 1);
                assert(lines[pos] == leaf_line(k, v));
                lemma_leaf_line(k, v);
                lemma_parse_rendered(pre2, tail, post, root, acc2);
            },
            VdfNode::Table(inner) => {
                let opening = seq![quoted(k), seq!['{']];
                assert(head == opening + render(inner) + seq![seq!['}']]);
                assert(lines[pos] == quoted(k));
                assert(lines[pos + 1] == seq!['{']);
                lemma_key_line(k);
                let pre3 = pre + opening;
                let post3 = seq![seq!['}']] + render(tail) + post;
                assert(lines == pre3 + render(inner) + post3);
                assert(writable(inner));
                assert(disjoint_keys(Seq::empty(), inner));
                lemma_parse_rendered(pre3, inner, post3, false, Seq::empty());
                let close = pos + 2 + render(inner).len();
                assert(Seq::<(Seq<char>, VdfNode)>::empty() + inner == inner);
                assert(lines[close] == seq!['}']);
                assert(vdf_line(lines[close]) == VdfLine::Close);
                assert(parse_from(lines, close, false, inner) == Some((inner, close + 1)));
                assert(parse_from(lines, pos + 2, false, Seq::empty()) == Some(
                    (inner, close + 1),
                ));
                assert(close + 1 == pre2.len());
                lemma_parse_rendered(pre2, tail, post, root, acc2);
            },
        }
    }
}

/// Reading the lines that write a document down gives the document back.
pub proof fn lemma_lines_round_trip(doc: Seq<(Seq<char>, VdfNode)>)
    requires
        writable(doc),
    ensures
        parse_from(render(doc), 0, true, Seq::empty()) == Some((doc, render(doc).len() as int)),
{
    let none = Seq::<Seq<char>>::empty();
    assert(none + render(doc) + none == render(doc));
    assert(Seq::<(Seq<char>, VdfNode)>::empty() + doc == doc);
    lemma_parse_rendered(none, doc, none, true, Seq::empty());
}

/// A line that begins and ends with a character that is no white space, and
/// holds no line feed.
pub open spec fn tidy(line: Seq<char>) -> bool {
    &&& line.len() > 0
    &&& trim(line) == line
    &&& first_index(line, '\n') == line.len()
}

proof fn lemma_join_split(lines: Seq<Seq<char>>)
    requires
        forall|i: int| 0 <= i < lines.len() ==> tidy(#[trigger] lines[i]),
    ensures
        trimmed_lines(join_lines(lines)) == lines,
    decreases lines.len(),
{
    if lines.len() == 0 {
        assert(trimmed_lines(join_lines(lines)) == lines);
    } else {
        let first = lines[0];
        let tail = lines.drop_first();
        let rest = join_lines(tail);
        let s = first + seq!['\n'] + rest;
        assert(tidy(first));
        assert forall|i: int| 0 <= i < tail.len() implies tidy(#[trigger] tail[i]) by {
            assert(tail[i] == lines[i + 1]);
        }
        lemma_join_split(tail);
        assert(first_index(s, '\n') == first.len()) by {
            crate::text::lemma_first_index(first, '\n');
            assert forall|j: int| 0 <= j < first.len() implies s[j] != '\n' by {
                assert(s[j] == first[j]);
            }
            lemma_first_index_is(s, '\n', first.len() as int);
        }
        assert(s.subrange(0, first.len() as int) == first);
        assert(s.subrange(first.len() as int + 1, s.len() as int) == rest);
        assert(split_lines(s) == seq![first] + split_lines(rest));
        assert(trimmed_lines(s) == seq![trim(first)] + trimmed_lines(rest));
        assert(seq![first] + tail == lines);
    }
}

proof fn lemma_plain_no_feed(s: Seq<char>, c: char, t: Seq<char>)
    requires
        plain(s),
        plain(t),
        c != '\n',
    ensures
        first_index(s + seq![c] + t, '\n') == (s + seq![c] + t).len(),
{
    lemma_first_index_is(s + seq![c] + t, '\n', (s + seq![c] + t).len() as int);
}

proof fn lemma_seq_no_feed(s: Seq<char>)
    requires
        forall|i: int| 0 <= i < s.len() ==> s[i] != '\n',
    ensures
        first_index(s, '\n') == s.len(),
{
    lemma_first_index_is(s, '\n', s.len() as int);
}

proof fn lemma_edges_trim(s: Seq<char>)
    requires
        s.len() > 0,
        !crate::text::is_whitespace(s[0]),
        !crate::text::is_whitespace(s.last()),
    ensures
        trim(s) == s,
{
}

proof fn lemma_rendered_tidy(doc: Seq<(Seq<char>, VdfNode)>)
    requires
        writable(doc),
    ensures
        forall|i: int| 0 <= i < render(doc).len() ==> tidy(#[trigger] render(doc)[i]),
    decreases doc,
{
    if doc.len() > 0 {
        let k = doc[0].0;
        let node = doc[0].1;
        let tail = doc.drop_first();
        let head = render_entry(k, node);
        assert(plain(doc[0].0));
        assert(writable(tail)) by {
            assert forall|i: int| 0 <= i < tail.len() implies plain(#[trigger] tail[i].0)
                && match tail[i].1 {
                VdfNode::Leaf(v) => plain(v),
                VdfNode::Table(inner) => writable(inner),
            } by {
                assert(tail[i] == doc[i + 1]);
                assert(plain(doc[i + 1].0));
            }
            assert forall|i: int, j: int| 0 <= i < j < tail.len() implies tail[i].0
                != tail[j].0 by {
                assert(tail[i] == doc[i + 1]);
                assert(tail[j] == doc[j + 1]);
            }
        }
        lemma_rendered_tidy(tail);
        assert(tidy(quoted(k))) by {
            lemma_edges_trim(quoted(k));
            lemma_seq_no_feed(quoted(k));
        }
        assert forall|i: int| 0 <= i < head.len() implies tidy(#[trigger] head[i]) by {
            match node {
                VdfNode::Leaf(v) => {
                    let line = leaf_line(k, v);
                    assert(head[i] == line);
                    lemma_edges_trim(line);
                    lemma_seq_no_feed(line);
                },
                VdfNode::Table(inner) => {
                    lemma_rendered_tidy(inner);
                    let open = seq!['{'];
                    let close = seq!['}'];
                    lemma_edges_trim(open);
                    lemma_seq_no_feed(open);
                    lemma_edges_trim(close);
                    lemma_seq_no_feed(close);
                    if i >= 2 && i < 2 + render(inner).len() {
                        assert(head[i] == render(inner)[i - 2]);
                    }
                },
            }
        }
        assert forall|i: int| 0 <= i < render(doc).len() implies tidy(
            #[trigger] render(doc)[i],
        ) by {
            if i >= head.len() {
                assert(render(doc)[i] == render(tail)[i - head.len()]);
            } else {
                assert(render(doc)[i] == head[i]);
            }
        }
    }
}

/// Reading the text that writes a document down gives the document back:
/// every key is there, in its place, with the string or the table it stood
/// for.
pub proof fn lemma_round_trip(doc: Seq<(Seq<char>, VdfNode)>)
    requires
        writable(doc),
    ensures
        parse_text(write_text(doc)) == Some(doc),
{
    lemma_rendered_tidy(doc);
    lemma_join_split(render(doc));
    lemma_lines_round_trip(doc);
}

/// What a path of keys leads to in a document is what it leads to in the
/// document read from its text.
pub proof fn lemma_lookup_round_trip(doc: Seq<(Seq<char>, VdfNode)>, path: Seq<Seq<char>>)
    requires
        writable(doc),
    ensures
        parse_text(write_text(doc)) matches Some(read) && lookup(read, path) == lookup(doc, path),
{
    lemma_round_trip(doc);
}

} // verus!
