//! Character-level operations on text: blankness, trimming, prefix and
//! substring tests, and upper-casing.
//!
//! Every function is specified over the sequence of characters of its
//! arguments (`s@`). Three functions of the standard library are used without
//! proof: `char::is_whitespace`, `str::to_uppercase` and `String::push`. What
//! is assumed of each is stated where it is declared below.

use vstd::prelude::*;

verus! {

/// Whether `c` is white space, as `char::is_whitespace` decides it. Which
/// characters these are follows the Unicode tables of the standard library;
/// they are named here, not listed.
pub uninterp spec fn is_whitespace(c: char) -> bool;

/// The upper-case form of `s`, as `str::to_uppercase` computes it from the
/// Unicode tables of the standard library. It is named here, not defined.
pub uninterp spec fn uppercase(s: Seq<char>) -> Seq<char>;

/// Trusted: `char::is_whitespace` is a function of the character alone; its
/// answer is what [`is_whitespace`] names.
pub assume_specification[ char::is_whitespace ](c: char) -> (b: bool)
    ensures
        b == is_whitespace(c),
;

/// Trusted: `str::to_uppercase` is a function of the characters of the slice
/// alone; its result is what [`uppercase`] names.
pub assume_specification[ str::to_uppercase ](s: &str) -> (upper: String)
    ensures
        upper@ == uppercase(s@),
;

/// Trusted: `String::push` appends the character to the end of the string and
/// changes nothing else.
pub assume_specification[ String::push ](s: &mut String, ch: char)
    ensures
        final(s)@ == old(s)@.push(ch),
;

/// A text is blank when every character of it is white space.
pub open spec fn is_blank(s: Seq<char>) -> bool {
    forall|i: int| 0 <= i < s.len() ==> is_whitespace(#[trigger] s[i])
}

/// `s` without its leading white space.
pub open spec fn strip_leading_space(s: Seq<char>) -> Seq<char>
    decreases s.len(),
{
    if s.len() > 0 && is_whitespace(s.first()) {
        strip_leading_space(s.drop_first())
    } else {
        s
    }
}

/// `s` without its trailing white space.
pub open spec fn strip_trailing_space(s: Seq<char>) -> Seq<char>
    decreases s.len(),
{
    if s.len() > 0 && is_whitespace(s.last()) {
        strip_trailing_space(s.drop_last())
    } else {
        s
    }
}

/// `s` without leading and trailing white space.
pub open spec fn trimmed(s: Seq<char>) -> Seq<char> {
    strip_trailing_space(strip_leading_space(s))
}

/// `s` without any trailing occurrences of `ch`.
pub open spec fn strip_trailing_char(s: Seq<char>, ch: char) -> Seq<char>
    decreases s.len(),
{
    if s.len() > 0 && s.last() == ch {
        strip_trailing_char(s.drop_last(), ch)
    } else {
        s
    }
}

/// `pattern` occurs in `s` starting at index `at`.
pub open spec fn occurs_at(s: Seq<char>, pattern: Seq<char>, at: int) -> bool {
    &&& 0 <= at
    &&& at + pattern.len() <= s.len()
    &&& s.subrange(at, at + pattern.len()) == pattern
}

/// `pattern` occurs somewhere in `s`.
pub open spec fn occurs_in(s: Seq<char>, pattern: Seq<char>) -> bool {
    exists|at: int| occurs_at(s, pattern, at)
}

/// Stripping leading white space leaves a suffix: the first `k` characters are
/// white space and the rest is returned, where `k` is the number dropped.
proof fn lemma_strip_leading_space(s: Seq<char>, k: int)
    requires
        0 <= k <= s.len(),
        forall|i: int| 0 <= i < k ==> is_whitespace(#[trigger] s[i]),
        k < s.len() ==> !is_whitespace(s[k]),
    ensures
        strip_leading_space(s) == s.skip(k),
    decreases k,
{
    if k == 0 {
        assert(s.skip(0) =~= s);
    } else {
        let rest = s.drop_first();
        assert forall|i: int| 0 <= i < k - 1 implies is_whitespace(#[trigger] rest[i]) by {
            assert(rest[i] == s[i + 1]);
        }
        lemma_strip_leading_space(rest, k - 1);
        assert(rest.skip(k - 1) =~= s.skip(k));
    }
}

/// Stripping trailing white space leaves a prefix: the characters from `k` on
/// are white space and the first `k` are returned.
proof fn lemma_strip_trailing_space(s: Seq<char>, k: int)
    requires
        0 <= k <= s.len(),
        forall|i: int| k <= i < s.len() ==> is_whitespace(#[trigger] s[i]),
        k > 0 ==> !is_whitespace(s[k - 1]),
    ensures
        strip_trailing_space(s) == s.take(k),
    decreases s.len() - k,
{
    if k == s.len() {
        assert(s.take(k) =~= s);
    } else {
        let rest = s.drop_last();
        lemma_strip_trailing_space(rest, k);
        assert(rest.take(k) =~= s.take(k));
    }
}

/// Stripping trailing occurrences of `ch` leaves a prefix: the characters
/// from `k` on are `ch` and the first `k` are returned.
proof fn lemma_strip_trailing_char(s: Seq<char>, ch: char, k: int)
    requires
        0 <= k <= s.len(),
        forall|i: int| k <= i < s.len() ==> #[trigger] s[i] == ch,
        k > 0 ==> s[k - 1] != ch,
    ensures
        strip_trailing_char(s, ch) == s.take(k),
    decreases s.len() - k,
{
    if k == s.len() {
        assert(s.take(k) =~= s);
    } else {
        let rest = s.drop_last();
        lemma_strip_trailing_char(rest, ch, k);
        assert(rest.take(k) =~= s.take(k));
    }
}

/// Law: a text is blank exactly when trimming it leaves nothing.
pub proof fn law_blank_iff_trimmed_empty(s: Seq<char>)
    ensures
        is_blank(s) <==> trimmed(s).len() == 0,
    decreases s.len(),
{
    if s.len() > 0 && is_whitespace(s.first()) {
        let rest = s.drop_first();
        law_blank_iff_trimmed_empty(rest);
        if is_blank(s) {
            assert forall|i: int| 0 <= i < rest.len() implies is_whitespace(#[trigger] rest[i]) by {
                assert(rest[i] == s[i + 1]);
            }
        }
        if is_blank(rest) {
            assert forall|i: int| 0 <= i < s.len() implies is_whitespace(#[trigger] s[i]) by {
                if i > 0 {
                    assert(s[i] == rest[i - 1]);
                }
            }
        }
    } else if s.len() > 0 {
        assert(strip_leading_space(s) == s);
        lemma_trailing_strip_keeps_first(s);
        assert(!is_whitespace(s[0]));
    }
}

/// A text that does not begin with white space still has its first character
/// after trailing white space is stripped.
proof fn lemma_trailing_strip_keeps_first(s: Seq<char>)
    requires
        s.len() > 0,
        !is_whitespace(s.first()),
    ensures
        strip_trailing_space(s).len() > 0,
    decreases s.len(),
{
    if is_whitespace(s.last()) {
        assert(s.len() > 1);
        assert(s.drop_last().first() == s.first());
        lemma_trailing_strip_keeps_first(s.drop_last());
    }
}

/// The characters of `s`, in order.
pub fn chars_of(s: &str) -> (v: Vec<char>)
    ensures
        v@ == s@,
{
    let mut v: Vec<char> = Vec::new();
    for c in it: s.chars()
        invariant
            v@ == it.seq().take(it.index() as int),
            it.seq() == s@,
    {
        v.push(c);
    }
    v
}

/// Whether every character of `s` is white space.
pub fn is_blank_text(s: &str) -> (blank: bool)
    ensures
        blank == is_blank(s@),
{
    let v = chars_of(s);
    let mut i: usize = 0;
    while i < v.len()
        invariant
            i <= v.len(),
            v@ == s@,
            forall|j: int| 0 <= j < i ==> is_whitespace(#[trigger] s@[j]),
        decreases v.len() - i,
    {
        if !v[i].is_whitespace() {
            return false;
        }
        i += 1;
    }
    true
}

/// `s` without leading and trailing white space.
pub fn trim<'a>(s: &'a str) -> (t: &'a str)
    ensures
        t@ == trimmed(s@),
{
    let v = chars_of(s);
    let mut start: usize = 0;
    while start < v.len() && v[start].is_whitespace()
        invariant
            start <= v.len(),
            v@ == s@,
            forall|j: int| 0 <= j < start ==> is_whitespace(#[trigger] s@[j]),
        decreases v.len() - start,
    {
        start += 1;
    }
    let mut end: usize = v.len();
    while end > start && v[end - 1].is_whitespace()
        invariant
            start <= end <= v.len(),
            v@ == s@,
            forall|j: int| end <= j < v.len() ==> is_whitespace(#[trigger] s@[j]),
        decreases end,
    {
        end -= 1;
    }
    proof {
        lemma_strip_leading_space(s@, start as int);
        let body = s@.skip(start as int);
        assert forall|j: int| end - start <= j < body.len() implies is_whitespace(
            #[trigger] body[j],
        ) by {
            assert(body[j] == s@[j + start]);
        }
        lemma_strip_trailing_space(body, end - start);
        assert(body.take(end - start) =~= s@.subrange(start as int, end as int));
    }
    s.substring_char(start, end)
}

/// `s` without any trailing occurrences of `ch`.
pub fn trim_end_char<'a>(s: &'a str, ch: char) -> (t: &'a str)
    ensures
        t@ == strip_trailing_char(s@, ch),
{
    let v = chars_of(s);
    let mut end: usize = v.len();
    while end > 0 && v[end - 1] == ch
        invariant
            end <= v.len(),
            v@ == s@,
            forall|j: int| end <= j < v.len() ==> #[trigger] s@[j] == ch,
        decreases end,
    {
        end -= 1;
    }
    proof {
        lemma_strip_trailing_char(s@, ch, end as int);
        assert(s@.take(end as int) =~= s@.subrange(0, end as int));
    }
    s.substring_char(0, end)
}

/// Whether `pattern` occurs in `s` starting at index `at`.
fn matches_at(s: &Vec<char>, pattern: &Vec<char>, at: usize) -> (found: bool)
    requires
        at + pattern.len() <= s.len(),
    ensures
        found == occurs_at(s@, pattern@, at as int),
{
    let mut k: usize = 0;
    while k < pattern.len()
        invariant
            k <= pattern.len(),
            at + pattern.len() <= s.len(),
            forall|j: int| 0 <= j < k ==> s@[at + j] == #[trigger] pattern@[j],
        decreases pattern.len() - k,
    {
        if s[at + k] != pattern[k] {
            proof {
                let window = s@.subrange(at as int, at + pattern.len());
                assert(window[k as int] == s@[at + k]);
            }
            return false;
        }
        k += 1;
    }
    assert(s@.subrange(at as int, at + pattern.len()) =~= pattern@);
    true
}

/// Whether `s` begins with `prefix`.
pub fn starts_with(s: &str, prefix: &str) -> (found: bool)
    ensures
        found == prefix@.is_prefix_of(s@),
{
    let text = chars_of(s);
    let head = chars_of(prefix);
    if head.len() > text.len() {
        return false;
    }
    let found = matches_at(&text, &head, 0);
    proof {
        assert(s@.subrange(0, prefix@.len() as int) =~= s@.take(prefix@.len() as int));
        if prefix@.is_prefix_of(s@) {
            assert(s@.take(prefix@.len() as int) =~= prefix@);
        }
    }
    found
}

/// Whether `pattern` occurs somewhere in `s`.
pub fn contains(s: &str, pattern: &str) -> (found: bool)
    ensures
        found == occurs_in(s@, pattern@),
{
    let text = chars_of(s);
    let wanted = chars_of(pattern);
    if wanted.len() > text.len() {
        return false;
    }
    let last: usize = text.len() - wanted.len();
    let mut at: usize = 0;
    loop
        invariant
            at <= last,
            last == text.len() - wanted.len(),
            wanted.len() <= text.len(),
            text@ == s@,
            wanted@ == pattern@,
            forall|j: int| 0 <= j < at ==> !occurs_at(s@, pattern@, j),
        decreases last - at,
    {
        if matches_at(&text, &wanted, at) {
            return true;
        }
        if at == last {
            return false;
        }
        at += 1;
    }
}

} // verus!
