//! Small operations on strings, stated over sequences of characters.

use vstd::prelude::*;

verus! {

/// The views of the strings of a sequence, in order.
pub open spec fn texts(items: Seq<String>) -> Seq<Seq<char>> {
    Seq::new(items.len(), |i: int| items[i]@)
}

/// The parts in order, with the separator between each two neighbours.
pub open spec fn joined(parts: Seq<Seq<char>>, separator: Seq<char>) -> Seq<char>
    decreases parts.len(),
{
    if parts.len() == 0 {
        Seq::empty()
    } else if parts.len() == 1 {
        parts[0]
    } else {
        joined(parts.drop_last(), separator) + separator + parts.last()
    }
}

/// The number of characters in front of the first line feed, or the whole
/// length where there is none.
pub open spec fn line_length(text: Seq<char>) -> nat
    decreases text.len(),
{
    if text.len() == 0 || text[0] == '\n' {
        0
    } else {
        1 + line_length(text.drop_first())
    }
}

/// A line without the carriage return that stood in front of its line feed.
pub open spec fn without_carriage_return(line: Seq<char>) -> Seq<char> {
    if line.len() > 0 && line.last() == '\r' {
        line.drop_last()
    } else {
        line
    }
}

/// The lines of a text. A line ends at a line feed, or at a carriage return
/// directly followed by one; the ending is not part of the line. A last line
/// needs no ending, and a text that ends with a line ending has no empty line
/// after it.
pub open spec fn lines_of(text: Seq<char>) -> Seq<Seq<char>>
    decreases text.len(),
{
    if text.len() == 0 {
        Seq::empty()
    } else {
        let n = line_length(text) as int;
        if n >= text.len() {
            seq![text]
        } else {
            seq![without_carriage_return(text.take(n))] + lines_of(text.skip(n + 1))
        }
    }
}

/// Where no line feed stands in front of position `n`, the first line is
/// `n` characters long if a line feed stands there or the text ends there.
proof fn lemma_line_length_is(text: Seq<char>, n: int)
    requires
        0 <= n <= text.len(),
        forall|i: int| 0 <= i < n ==> text[i] != '\n',
        n < text.len() ==> text[n] == '\n',
    ensures
        line_length(text) == n,
    decreases text.len(),
{
    if n == 0 {
    } else {
        let rest = text.drop_first();
        assert forall|i: int| 0 <= i < n - 1 implies rest[i] != '\n' by {
            assert(rest[i] == text[i + 1]);
        }
        lemma_line_length_is(rest, n - 1);
    }
}

/// Joins the parts with the separator between them.
pub fn join(parts: &Vec<String>, separator: &str) -> (out: String)
    ensures
        out@ == joined(texts(parts@), separator@),
{
    let mut out = String::new();
    let mut i: usize = 0;
    while i < parts.len()
        invariant
            i <= parts.len(),
            out@ == joined(texts(parts@).take(i as int), separator@),
        decreases parts.len() - i,
    {
        proof {
            let all = texts(parts@);
            let next = all.take(i + 1);
            assert(next.drop_last() == all.take(i as int));
            assert(next.last() == parts@[i as int]@);
            if i == 0 {
                assert(joined(all.take(0), separator@) == Seq::<char>::empty());
                assert(Seq::<char>::empty() + parts@[0]@ == parts@[0]@);
            }
        }
        if i > 0 {
            out.append(separator);
        }
        out.append(parts[i].as_str());
        i = i + 1;
    }
    proof {
        assert(texts(parts@).take(parts.len() as int) == texts(parts@));
    }
    out
}

/// Splits a text into its lines.
pub fn split_lines(text: &str) -> (lines: Vec<String>)
    ensures
        texts(lines@) == lines_of(text@),
{
    let n = text.unicode_len();
    let mut lines: Vec<String> = Vec::new();
    let mut start: usize = 0;
    let mut at: usize = 0;
    let mut after_return = false;
    proof {
        assert(text@.skip(0) == text@);
        assert(texts(lines@) + lines_of(text@) == lines_of(text@));
    }
    for c in it: text.chars()
        invariant
            n == text@.len(),
            it.seq() == text@,
            at == it.index(),
            start <= at <= n,
            after_return <==> (at > start && text@[at - 1] == '\r'),
            forall|k: int| start <= k < at ==> text@[k] != '\n',
            lines_of(text@) == texts(lines@) + lines_of(text@.skip(start as int)),
    {
        if c == '\n' {
            let end = if after_return {
                at - 1
            } else {
                at
            };
            let line = String::from_str(text.substring_char(start, end));
            proof {
                let rest = text@.skip(start as int);
                let len = at - start;
                assert forall|k: int| 0 <= k < len implies rest[k] != '\n' by {
                    assert(rest[k] == text@[start + k]);
                }
                lemma_line_length_is(rest, len);
                assert(rest.skip(len + 1) == text@.skip(at + 1));
                assert(rest.take(len) == text@.subrange(start as int, at as int));
                assert(line@ == without_carriage_return(rest.take(len))) by {
                    if after_return {
                        assert(rest.take(len).last() == text@[at - 1]);
                        assert(rest.take(len).drop_last() == text@.subrange(
                            start as int,
                            at - 1,
                        ));
                    }
                }
                assert(texts(lines@.push(line)) == texts(lines@) + seq![line@]);
            }
            lines.push(line);
            start = at + 1;
            after_return = false;
        } else {
            after_return = c == '\r';
        }
        at = at + 1;
    }
    if start < n {
        let line = String::from_str(text.substring_char(start, n));
        proof {
            let rest = text@.skip(start as int);
            assert forall|k: int| 0 <= k < rest.len() implies rest[k] != '\n' by {
                assert(rest[k] == text@[start + k]);
            }
            lemma_line_length_is(rest, rest.len() as int);
            assert(rest == text@.subrange(start as int, n as int));
            assert(texts(lines@.push(line)) == texts(lines@) + seq![line@]);
        }
        lines.push(line);
    } else {
        proof {
            assert(text@.skip(start as int).len() == 0);
        }
    }
    lines
}

} // verus!
