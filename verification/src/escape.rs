//! Escaping of names and literals for quoted SQL.
//!
//! A quoted text is written between two quote marks; a mark inside the text is
//! written twice. [`escape_identifier`] does this for backtick-quoted
//! identifiers, [`escape_literal`] for single-quoted string literals.

use vstd::prelude::*;

verus! {

/// What one character of a text becomes inside quotes: the mark is written
/// twice, any other character once.
pub open spec fn escaped_char(c: char, mark: char) -> Seq<char> {
    if c == mark {
        seq![mark, mark]
    } else {
        seq![c]
    }
}

/// `s` with every occurrence of `mark` written twice.
pub open spec fn doubled(s: Seq<char>, mark: char) -> Seq<char>
    decreases s.len(),
{
    if s.len() == 0 {
        Seq::empty()
    } else {
        doubled(s.drop_last(), mark) + escaped_char(s.last(), mark)
    }
}

/// The number of occurrences of `mark` in `s`.
pub open spec fn occurrences(s: Seq<char>, mark: char) -> nat
    decreases s.len(),
{
    if s.len() == 0 {
        0
    } else {
        occurrences(s.drop_last(), mark) + if s.last() == mark {
            1nat
        } else {
            0nat
        }
    }
}

/// What a reader of quoted text finds in `input` from index `from` on, the
/// opening mark having been read already: the text up to the closing mark,
/// with each doubled mark read as one, and the index just past the closing
/// mark. `None` when the input ends before a closing mark.
pub open spec fn read_quoted(input: Seq<char>, mark: char, from: int) -> Option<(Seq<char>, int)>
    decreases input.len() - from,
{
    if from < 0 || from >= input.len() {
        None
    } else if input[from] != mark {
        match read_quoted(input, mark, from + 1) {
            Some((text, end)) => Some((seq![input[from]] + text, end)),
            None => None,
        }
    } else if from + 1 < input.len() && input[from + 1] == mark {
        match read_quoted(input, mark, from + 2) {
            Some((text, end)) => Some((seq![mark] + text, end)),
            None => None,
        }
    } else {
        Some((Seq::empty(), from + 1))
    }
}

/// `s` written between two marks.
pub open spec fn quoted(s: Seq<char>, mark: char) -> Seq<char> {
    seq![mark] + doubled(s, mark) + seq![mark]
}

/// Doubling distributes over concatenation.
proof fn lemma_doubled_concat(a: Seq<char>, b: Seq<char>, mark: char)
    ensures
        doubled(a + b, mark) == doubled(a, mark) + doubled(b, mark),
    decreases b.len(),
{
    if b.len() == 0 {
        assert(a + b =~= a);
        assert(doubled(a, mark) + doubled(b, mark) =~= doubled(a, mark));
    } else {
        assert((a + b).drop_last() =~= a + b.drop_last());
        assert((a + b).last() == b.last());
        lemma_doubled_concat(a, b.drop_last(), mark);
        assert(doubled(a, mark) + doubled(b.drop_last(), mark) + escaped_char(b.last(), mark)
            =~= doubled(a, mark) + (doubled(b.drop_last(), mark) + escaped_char(
            b.last(),
            mark,
        )));
    }
}

/// The escaped form of a text begins with the escaped form of its first
/// character.
proof fn lemma_doubled_first(s: Seq<char>, mark: char)
    requires
        s.len() > 0,
    ensures
        doubled(s, mark) == escaped_char(s.first(), mark) + doubled(s.drop_first(), mark),
{
    let head = seq![s.first()];
    assert(head + s.drop_first() =~= s);
    lemma_doubled_concat(head, s.drop_first(), mark);
    assert(head.drop_last() =~= Seq::<char>::empty());
    assert(doubled(head.drop_last(), mark) =~= Seq::<char>::empty());
    assert(doubled(head, mark) =~= escaped_char(s.first(), mark));
}

/// Law: escaping doubles the marks. A text with `n` marks has `2n` of them
/// once escaped.
pub proof fn law_escape_doubles_marks(s: Seq<char>, mark: char)
    ensures
        occurrences(doubled(s, mark), mark) == 2 * occurrences(s, mark),
    decreases s.len(),
{
    if s.len() > 0 {
        law_escape_doubles_marks(s.drop_last(), mark);
        let front = doubled(s.drop_last(), mark);
        if s.last() == mark {
            let one = front.push(mark);
            let two = one.push(mark);
            assert(two =~= front + seq![mark, mark]);
            assert(two.drop_last() =~= one);
            assert(one.drop_last() =~= front);
            assert(occurrences(one, mark) == occurrences(front, mark) + 1);
            assert(occurrences(two, mark) == occurrences(one, mark) + 1);
        } else {
            let one = front.push(s.last());
            assert(one =~= front + seq![s.last()]);
            assert(one.drop_last() =~= front);
            assert(occurrences(one, mark) == occurrences(front, mark));
        }
    }
}

/// Wherever the escaped form of `s` stands in `input`, followed by one mark
/// that is not itself followed by a mark, a reader that starts at its
/// beginning reads back `s` and stops just past that mark.
proof fn lemma_read_escaped(input: Seq<char>, mark: char, from: int, s: Seq<char>)
    requires
        0 <= from,
        from + doubled(s, mark).len() < input.len(),
        input.subrange(from, from + doubled(s, mark).len()) == doubled(s, mark),
        input[from + doubled(s, mark).len()] == mark,
        from + doubled(s, mark).len() + 1 < input.len() ==> input[from + doubled(s, mark).len()
            + 1] != mark,
    ensures
        read_quoted(input, mark, from) == Some((s, from + doubled(s, mark).len() + 1)),
    decreases s.len(),
{
    let body = doubled(s, mark);
    if s.len() == 0 {
        assert(body.len() == 0);
    } else {
        let rest = s.drop_first();
        lemma_doubled_first(s, mark);
        let step = escaped_char(s.first(), mark);
        assert(body == step + doubled(rest, mark));
        assert forall|i: int| 0 <= i < body.len() implies input[from + i] == body[i] by {
            assert(input.subrange(from, from + body.len())[i] == input[from + i]);
        }
        assert(input[from] == body[0]);
        if s.first() == mark {
            assert(input[from + 1] == body[1]);
        }
        let next = from + step.len();
        assert(input.subrange(next, next + doubled(rest, mark).len()) =~= doubled(rest, mark)) by {
            assert forall|i: int| 0 <= i < doubled(rest, mark).len() implies input[next + i]
                == doubled(rest, mark)[i] by {
                assert(body[step.len() + i] == doubled(rest, mark)[i]);
            }
        }
        lemma_read_escaped(input, mark, next, rest);
        assert(seq![s.first()] + rest =~= s);
    }
}

/// Law: an escaped text is safe between quote marks. Written between two
/// marks, it is read back as exactly the unescaped text, and the reader stops
/// at the closing mark: no mark inside the text ends the quoted text early.
pub proof fn law_quoted_reads_back(s: Seq<char>, mark: char)
    ensures
        read_quoted(quoted(s, mark), mark, 1) == Some((s, quoted(s, mark).len() as int)),
{
    law_quoted_reads_back_before(s, mark, Seq::empty());
    assert(quoted(s, mark) + Seq::<char>::empty() =~= quoted(s, mark));
}

/// Law: a quoted text is read back the same way where more text follows it,
/// as long as what follows does not begin with a mark.
pub proof fn law_quoted_reads_back_before(s: Seq<char>, mark: char, rest: Seq<char>)
    requires
        rest.len() > 0 ==> rest[0] != mark,
    ensures
        read_quoted(quoted(s, mark) + rest, mark, 1) == Some((s, quoted(s, mark).len() as int)),
{
    let input = quoted(s, mark) + rest;
    let body = doubled(s, mark);
    let n = body.len() as int;
    assert(input.subrange(1, 1 + n) =~= body);
    assert(input[1 + n] == mark);
    if 2 + n < input.len() {
        assert(input[2 + n] == rest[0]);
    }
    lemma_read_escaped(input, mark, 1, s);
}

/// `s` with every occurrence of `mark` written twice.
pub fn double_mark(s: &str, mark: char) -> (out: String)
    ensures
        out@ == doubled(s@, mark),
{
    let mut out = String::new();
    for c in it: s.chars()
        invariant
            it.seq() == s@,
            out@ == doubled(it.seq().take(it.index() as int), mark),
    {
        proof {
            let done = it.seq().take(it.index() as int);
            let next = it.seq().take(it.index() + 1);
            assert(next.drop_last() =~= done);
            assert(next.last() == c);
        }
        if c == mark {
            out.push(mark);
            out.push(mark);
            assert(out@ =~= doubled(it.seq().take(it.index() as int), mark) + seq![mark, mark]);
        } else {
            out.push(c);
            assert(out@ =~= doubled(it.seq().take(it.index() as int), mark) + seq![c]);
        }
    }
    assert(s@.take(s@.len() as int) =~= s@);
    out
}

/// The form of an identifier that can stand between backticks: every backtick
/// of it is doubled, and nothing else is changed.
pub fn escape_identifier(identifier: &str) -> (escaped: String)
    ensures
        escaped@ == doubled(identifier@, '`'),
        occurrences(escaped@, '`') == 2 * occurrences(identifier@, '`'),
{
    proof {
        law_escape_doubles_marks(identifier@, '`');
    }
    double_mark(identifier, '`')
}

/// The form of a text that can stand between single quotes: every single
/// quote of it is doubled, and nothing else is changed.
pub fn escape_literal(text: &str) -> (escaped: String)
    ensures
        escaped@ == doubled(text@, '\''),
{
    double_mark(text, '\'')
}

} // verus!
