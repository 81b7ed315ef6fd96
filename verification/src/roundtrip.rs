//! Python in, Python out: a source text that is one unit comes back as it was.
use vstd::prelude::*;

use crate::scan::{find_char, lemma_find_char};
use crate::split::{lines, concat};
use crate::walker::{NodeView};
use crate::python::{python_graph, first_def_from, unit_start, unit_end, unit_at, declares,
    lemma_first_def, lemma_declared_in};
use crate::ueg_python::{python_text, python_node, python_function, source_line, dedent,
    min_indent, lemma_utf8_len};

verus! {

/// The text made of the lines `ls`, each followed by a line feed.
pub open spec fn text_of_lines(ls: Seq<Seq<char>>) -> Seq<char> {
    concat(ls.map_values(|l: Seq<char>| l + "\n"@))
}

/// `src`, with a line feed after its last line where it has none.
pub open spec fn with_final_line_feed(src: Seq<char>) -> Seq<char> {
    if src.len() == 0 || src.last() == '\n' {
        src
    } else {
        src + "\n"@
    }
}

/// Whether `src` is one unit and nothing else: it holds a declaration; only decorators,
/// comments and blank lines stand above it, and no second declaration follows; and some
/// line that is not blank begins without a space.
pub open spec fn is_single_unit(src: Seq<char>) -> bool {
    let ls = lines(src);
    &&& first_def_from(ls, 0) matches Some(d) && unit_start(ls, d) == 0 && unit_end(ls, d)
        == ls.len()
    &&& min_indent(ls) == 0
}

/// Without shared indentation a line is emitted as it is.
pub proof fn lemma_dedent_none(line: Seq<char>)
    ensures
        dedent(line, 0) == line,
{
    lemma_utf8_len(line);
}

/// The parts after a first part follow it.
proof fn lemma_concat_front(a: Seq<char>, rest: Seq<Seq<char>>)
    ensures
        concat(seq![a] + rest) == a + concat(rest),
    decreases rest.len(),
{
    let all = seq![a] + rest;
    if rest.len() == 0 {
        assert(all.drop_last() == Seq::<Seq<char>>::empty());
        assert(all.last() == a);
        assert(concat(all.drop_last()) == Seq::<char>::empty());
        assert(concat(all) == Seq::<char>::empty() + a);
        assert(a + Seq::<char>::empty() == a);
        assert(Seq::<char>::empty() + a == a);
    } else {
        assert(all.last() == rest.last());
        assert(all.drop_last() == seq![a] + rest.drop_last());
        lemma_concat_front(a, rest.drop_last());
        assert((a + concat(rest.drop_last())) + rest.last() == a + (concat(rest.drop_last())
            + rest.last()));
    }
}

/// The lines of a text, each followed by a line feed, make up the text, with a line feed
/// after its last line where it has none.
pub proof fn lemma_lines_text(src: Seq<char>)
    ensures
        text_of_lines(lines(src)) == with_final_line_feed(src),
    decreases src.len(),
{
    reveal_strlit("\n");
    let feed = |l: Seq<char>| l + "\n"@;
    assert("\n"@ =~= seq!['\n']);
    if src.len() == 0 {
        assert(lines(src).map_values(feed) == Seq::<Seq<char>>::empty());
    } else {
        lemma_find_char(src, '\n');
        match find_char(src, '\n') {
            Some(i) => {
                let rest = src.skip(i + 1);
                lemma_lines_text(rest);
                let head = src.take(i);
                assert(lines(src) == seq![head] + lines(rest));
                assert(lines(src).map_values(feed) == seq![head + "\n"@] + lines(rest).map_values(
                    feed,
                ));
                lemma_concat_front(head + "\n"@, lines(rest).map_values(feed));
                assert(head + "\n"@ == src.take(i + 1));
                if rest.len() == 0 {
                    assert(src.take(i + 1) == src);
                    assert(src.last() == '\n');
                    assert(src + Seq::<char>::empty() == src);
                } else {
                    assert(rest.last() == src.last());
                    assert(src.take(i + 1) + rest == src);
                    assert(src.take(i + 1) + (rest + "\n"@) == src + "\n"@);
                }
            },
            None => {
                assert(lines(src) == seq![src]);
                assert(lines(src).map_values(feed) == seq![src + "\n"@]);
                lemma_concat_front(src + "\n"@, Seq::<Seq<char>>::empty());
                assert(seq![src + "\n"@] + Seq::<Seq<char>>::empty() == seq![src + "\n"@]);
                assert(concat(Seq::<Seq<char>>::empty()) == Seq::<char>::empty());
                assert((src + "\n"@) + Seq::<char>::empty() == src + "\n"@);
                assert(src.last() != '\n');
            },
        }
    }
}

/// Translating Python to Python gives the source back, character for character, for
/// every source text that is one unit; only a line feed is added after its last line
/// where it has none.
pub proof fn lemma_python_round_trip(src: Seq<char>)
    requires
        is_single_unit(src),
    ensures
        python_graph(src).len() == 1,
        python_text(python_graph(src)) == with_final_line_feed(src),
{
    let ls = lines(src);
    let d = first_def_from(ls, 0).unwrap();
    lemma_first_def(ls, 0);
    let l = unit_at(ls, d);
    let g = python_graph(src);
    assert(g == seq![NodeView::Lambda(l)]);
    assert(l.orig_body == ls) by {
        assert(ls.subrange(0, ls.len() as int) == ls);
    }
    assert(declares(ls[d], l.name));
    lemma_declared_in(ls, l.name, d);
    let nodes = g.map_values(|n: NodeView| python_node(n));
    assert(nodes == seq![python_function(l)]);
    assert(concat(nodes) == python_function(l)) by {
        assert(nodes.drop_last() == Seq::<Seq<char>>::empty());
        assert(concat(nodes.drop_last()) == Seq::<char>::empty());
        assert(Seq::<char>::empty() + python_function(l) == python_function(l));
    }
    let emitted = ls.map_values(|line: Seq<char>| source_line(line, min_indent(l.orig_body)));
    let given = ls.map_values(|line: Seq<char>| line + "\n"@);
    assert(emitted == given) by {
        assert forall|i: int| 0 <= i < ls.len() implies emitted[i] == given[i] by {
            lemma_dedent_none(ls[i]);
        }
    }
    lemma_lines_text(src);
}

} // verus!
