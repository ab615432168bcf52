//! Text as sequences of characters: whitespace, scanning, trimming, fields and lines.
//!
//! Every executable function here works on a slice of characters and is specified
//! by a spec function on the slice's view.

use vstd::prelude::*;
use vstd::slice::slice_subrange;

verus! {

/// Assumed of `String::push`, not proved: afterwards the string holds what it held
/// before, followed by `c`.
pub assume_specification[ String::push ](s: &mut String, c: char)
    ensures
        final(s)@ == old(s)@.push(c),
;

/// Whether `c` has the Unicode `White_Space` property.
pub open spec fn is_space(c: char) -> bool {
    ||| '\u{9}' <= c <= '\u{d}'
    ||| c == ' '
    ||| c == '\u{85}'
    ||| c == '\u{a0}'
    ||| c == '\u{1680}'
    ||| '\u{2000}' <= c <= '\u{200a}'
    ||| c == '\u{2028}'
    ||| c == '\u{2029}'
    ||| c == '\u{202f}'
    ||| c == '\u{205f}'
    ||| c == '\u{3000}'
}

/// Whether every character of `s` is whitespace. The empty sequence is blank.
pub open spec fn is_blank(s: Seq<char>) -> bool {
    forall|i: int| 0 <= i < s.len() ==> is_space(#[trigger] s[i])
}

/// Whether no character of `s` is whitespace.
pub open spec fn is_word(s: Seq<char>) -> bool {
    forall|i: int| 0 <= i < s.len() ==> !is_space(#[trigger] s[i])
}

/// Index of the first occurrence of `c` in `s`, or `s.len()` if `c` does not occur.
pub open spec fn index_of(s: Seq<char>, c: char) -> int
    decreases s.len(),
{
    if s.len() == 0 || s[0] == c {
        0
    } else {
        1 + index_of(s.drop_first(), c)
    }
}

/// Length of the run at the start of `s` of characters that are whitespace, if
/// `spaces` is true, or that are not, if it is false.
pub open spec fn run_len(s: Seq<char>, spaces: bool) -> int
    decreases s.len(),
{
    if s.len() > 0 && is_space(s[0]) == spaces {
        1 + run_len(s.drop_first(), spaces)
    } else {
        0
    }
}

/// Number of whitespace characters at the start of `s`.
pub open spec fn space_prefix(s: Seq<char>) -> int {
    run_len(s, true)
}

/// Number of characters at the start of `s` that are not whitespace.
pub open spec fn word_len(s: Seq<char>) -> int {
    run_len(s, false)
}

/// Number of whitespace characters at the end of `s`.
pub open spec fn space_suffix(s: Seq<char>) -> int {
    space_prefix(s.reverse())
}

/// `s` without its leading and trailing whitespace.
pub open spec fn trim(s: Seq<char>) -> Seq<char> {
    let rest = s.skip(space_prefix(s));
    rest.take(rest.len() - space_suffix(rest))
}

/// The whitespace-delimited field of `s` with the given index, counted from 0.
/// Fields are separated by runs of whitespace; the result is empty exactly when
/// `s` has no field with that index.
pub open spec fn field(s: Seq<char>, index: nat) -> Seq<char>
    decreases index,
{
    let rest = s.skip(space_prefix(s));
    if index == 0 {
        rest.take(word_len(rest))
    } else {
        field(rest.skip(word_len(rest)), (index - 1) as nat)
    }
}

/// The parts of `s` between the occurrences of `sep`, in order: one part more than
/// there are occurrences, so at least one, and a part is empty where two separators
/// meet or one stands at an end.
pub open spec fn split(s: Seq<char>, sep: char) -> Seq<Seq<char>>
    decreases s.len(),
{
    let k = index_of(s, sep);
    if 0 <= k < s.len() {
        seq![s.take(k)] + split(s.skip(k + 1), sep)
    } else {
        seq![s]
    }
}

/// `line` without one carriage return at its end, if it has one.
pub open spec fn strip_cr(line: Seq<char>) -> Seq<char> {
    if line.len() > 0 && line.last() == '\r' {
        line.drop_last()
    } else {
        line
    }
}

/// The lines of `s`. A line ends at a line feed; a carriage return directly before
/// that line feed belongs to the line ending. What follows the last line feed is a
/// line too unless it is empty.
pub open spec fn lines(s: Seq<char>) -> Seq<Seq<char>>
    decreases s.len(),
{
    if s.len() == 0 {
        Seq::empty()
    } else {
        let k = index_of(s, '\n');
        if 0 <= k < s.len() {
            seq![strip_cr(s.take(k))] + lines(s.skip(k + 1))
        } else {
            seq![s]
        }
    }
}

/// `run_len(s, spaces)` is a position of `s`, every character before it is of the
/// kind that `spaces` names, and the character at it, if there is one, is not.
pub proof fn lemma_run_len_is_run(s: Seq<char>, spaces: bool)
    ensures
        0 <= run_len(s, spaces) <= s.len(),
        forall|j: int| 0 <= j < run_len(s, spaces) ==> is_space(#[trigger] s[j]) == spaces,
        run_len(s, spaces) < s.len() ==> is_space(s[run_len(s, spaces)]) != spaces,
    decreases s.len(),
{
    if s.len() > 0 && is_space(s[0]) == spaces {
        let t = s.drop_first();
        lemma_run_len_is_run(t, spaces);
        assert forall|j: int| 0 <= j < run_len(s, spaces) implies is_space(#[trigger] s[j])
            == spaces by {
            if j > 0 {
                assert(s[j] == t[j - 1]);
            }
        }
    }
}

/// The position `k` is `run_len(s, spaces)` if every character before `k` is of the
/// kind that `spaces` names and the character at `k`, if there is one, is not.
pub proof fn lemma_run_len_unique(s: Seq<char>, spaces: bool, k: int)
    requires
        0 <= k <= s.len(),
        forall|j: int| 0 <= j < k ==> is_space(#[trigger] s[j]) == spaces,
        k < s.len() ==> is_space(s[k]) != spaces,
    ensures
        run_len(s, spaces) == k,
    decreases s.len(),
{
    if k > 0 {
        let t = s.drop_first();
        assert forall|j: int| 0 <= j < k - 1 implies is_space(#[trigger] t[j]) == spaces by {
            assert(t[j] == s[j + 1]);
        }
        lemma_run_len_unique(t, spaces, k - 1);
    }
}

/// `index_of(s, c)` is a position of `s`, `c` does not occur before it, and the
/// character at it, if there is one, is `c`.
pub proof fn lemma_index_of_is_first(s: Seq<char>, c: char)
    ensures
        0 <= index_of(s, c) <= s.len(),
        forall|j: int| 0 <= j < index_of(s, c) ==> #[trigger] s[j] != c,
        index_of(s, c) < s.len() ==> s[index_of(s, c)] == c,
    decreases s.len(),
{
    if s.len() > 0 && s[0] != c {
        let t = s.drop_first();
        lemma_index_of_is_first(t, c);
        assert forall|j: int| 0 <= j < index_of(s, c) implies #[trigger] s[j] != c by {
            if j > 0 {
                assert(s[j] == t[j - 1]);
            }
        }
    }
}

/// The position `k` is `index_of(s, c)` if `c` does not occur before `k` and the
/// character at `k`, if there is one, is `c`.
pub proof fn lemma_index_of_unique(s: Seq<char>, c: char, k: int)
    requires
        0 <= k <= s.len(),
        forall|j: int| 0 <= j < k ==> #[trigger] s[j] != c,
        k < s.len() ==> s[k] == c,
    ensures
        index_of(s, c) == k,
    decreases s.len(),
{
    if k > 0 {
        let t = s.drop_first();
        assert forall|j: int| 0 <= j < k - 1 implies #[trigger] t[j] != c by {
            assert(t[j] == s[j + 1]);
        }
        lemma_index_of_unique(t, c, k - 1);
    }
}

/// `c` occurs in `s` exactly if its first index lies inside `s`.
pub proof fn lemma_contains_iff_index_inside(s: Seq<char>, c: char)
    ensures
        s.contains(c) <==> index_of(s, c) < s.len(),
        0 <= index_of(s, c) <= s.len(),
{
    lemma_index_of_is_first(s, c);
    if index_of(s, c) < s.len() {
        assert(s[index_of(s, c)] == c);
    }
}

/// Whitespace in front of something that does not start with whitespace is all the
/// leading whitespace there is.
pub proof fn lemma_space_prefix_joined(blank: Seq<char>, rest: Seq<char>)
    requires
        is_blank(blank),
        rest.len() == 0 || !is_space(rest[0]),
    ensures
        space_prefix(blank + rest) == blank.len(),
        (blank + rest).skip(blank.len() as int) == rest,
{
    let s = blank + rest;
    assert forall|j: int| 0 <= j < blank.len() implies is_space(#[trigger] s[j]) by {
        assert(s[j] == blank[j]);
    }
    if rest.len() > 0 {
        assert(s[blank.len() as int] == rest[0]);
    }
    lemma_run_len_unique(s, true, blank.len() as int);
    assert(s.skip(blank.len() as int) =~= rest);
}

/// A word in front of something that does not go on with a word character ends
/// where that begins.
pub proof fn lemma_word_len_joined(word: Seq<char>, rest: Seq<char>)
    requires
        is_word(word),
        rest.len() == 0 || is_space(rest[0]),
    ensures
        word_len(word + rest) == word.len(),
        (word + rest).take(word.len() as int) == word,
        (word + rest).skip(word.len() as int) == rest,
{
    let s = word + rest;
    assert forall|j: int| 0 <= j < word.len() implies !is_space(#[trigger] s[j]) by {
        assert(s[j] == word[j]);
    }
    if rest.len() > 0 {
        assert(s[word.len() as int] == rest[0]);
    }
    lemma_run_len_unique(s, false, word.len() as int);
    assert(s.take(word.len() as int) =~= word);
    assert(s.skip(word.len() as int) =~= rest);
}

/// Whitespace behind something that does not end with whitespace is all the
/// trailing whitespace there is.
pub proof fn lemma_space_suffix_joined(rest: Seq<char>, blank: Seq<char>)
    requires
        is_blank(blank),
        rest.len() == 0 || !is_space(rest.last()),
    ensures
        space_suffix(rest + blank) == blank.len(),
        (rest + blank).take(rest.len() as int) == rest,
{
    let s = rest + blank;
    let rev = s.reverse();
    assert forall|j: int| 0 <= j < blank.len() implies is_space(#[trigger] rev[j]) by {
        assert(rev[j] == blank[blank.len() - 1 - j]);
    }
    if rest.len() > 0 {
        assert(rev[blank.len() as int] == rest.last());
    }
    lemma_run_len_unique(rev, true, blank.len() as int);
    assert(s.take(rest.len() as int) =~= rest);
}

/// Trimming takes off the whitespace around a core that neither starts nor ends
/// with whitespace, and nothing else.
pub proof fn lemma_trim_core(lead: Seq<char>, core: Seq<char>, trail: Seq<char>)
    requires
        is_blank(lead),
        is_blank(trail),
        core.len() == 0 || (!is_space(core[0]) && !is_space(core.last())),
    ensures
        trim(lead + core + trail) == core,
{
    let s = lead + core + trail;
    if core.len() == 0 {
        assert(is_blank(lead + trail)) by {
            assert forall|i: int| 0 <= i < (lead + trail).len() implies is_space(
                #[trigger] (lead + trail)[i],
            ) by {
                if i < lead.len() {
                    assert((lead + trail)[i] == lead[i]);
                } else {
                    assert((lead + trail)[i] == trail[i - lead.len()]);
                }
            }
        }
        assert(s =~= (lead + trail) + Seq::<char>::empty());
        lemma_space_prefix_joined(lead + trail, Seq::empty());
        lemma_space_suffix_joined(Seq::empty(), Seq::empty());
        assert(Seq::<char>::empty() + Seq::<char>::empty() =~= Seq::<char>::empty());
    } else {
        assert(s =~= lead + (core + trail));
        assert((core + trail)[0] == core[0]);
        lemma_space_prefix_joined(lead, core + trail);
        lemma_space_suffix_joined(core, trail);
    }
}

/// The first field is the first word, whatever whitespace stands before it and
/// whatever follows it.
pub proof fn lemma_field_first(lead: Seq<char>, word: Seq<char>, rest: Seq<char>)
    requires
        is_blank(lead),
        is_word(word),
        word.len() > 0,
        rest.len() == 0 || is_space(rest[0]),
    ensures
        field(lead + word + rest, 0) == word,
{
    let s = lead + word + rest;
    assert(s =~= lead + (word + rest));
    assert((word + rest)[0] == word[0]);
    lemma_space_prefix_joined(lead, word + rest);
    lemma_word_len_joined(word, rest);
}

/// A later field is found by leaving out the first word and counting on in what
/// follows it.
pub proof fn lemma_field_next(lead: Seq<char>, word: Seq<char>, rest: Seq<char>, index: nat)
    requires
        is_blank(lead),
        is_word(word),
        word.len() > 0,
        rest.len() == 0 || is_space(rest[0]),
    ensures
        field(lead + word + rest, index + 1) == field(rest, index),
{
    let s = lead + word + rest;
    assert(s =~= lead + (word + rest));
    assert((word + rest)[0] == word[0]);
    lemma_space_prefix_joined(lead, word + rest);
    lemma_word_len_joined(word, rest);
}

/// A sequence in which `sep` does not occur is its own single part.
pub proof fn lemma_split_whole(s: Seq<char>, sep: char)
    requires
        forall|i: int| 0 <= i < s.len() ==> #[trigger] s[i] != sep,
    ensures
        split(s, sep) == seq![s],
{
    lemma_index_of_unique(s, sep, s.len() as int);
}

/// Where `sep` does not occur in `a`, the parts of `a`, `sep`, `b` joined are `a`
/// followed by the parts of `b`.
pub proof fn lemma_split_joined(a: Seq<char>, sep: char, b: Seq<char>)
    requires
        forall|i: int| 0 <= i < a.len() ==> #[trigger] a[i] != sep,
    ensures
        split(a + seq![sep] + b, sep) == seq![a] + split(b, sep),
{
    let s = a + seq![sep] + b;
    assert forall|j: int| 0 <= j < a.len() implies #[trigger] s[j] != sep by {
        assert(s[j] == a[j]);
    }
    lemma_index_of_unique(s, sep, a.len() as int);
    assert(s.take(a.len() as int) =~= a);
    assert(s.skip(a.len() as int + 1) =~= b);
}

/// Tells whether `c` is whitespace.
pub fn is_space_char(c: char) -> (r: bool)
    ensures
        r == is_space(c),
{
    ('\u{9}' <= c && c <= '\u{d}') || c == ' ' || c == '\u{85}' || c == '\u{a0}' || c
        == '\u{1680}' || ('\u{2000}' <= c && c <= '\u{200a}') || c == '\u{2028}' || c
        == '\u{2029}' || c == '\u{202f}' || c == '\u{205f}' || c == '\u{3000}'
}

/// The characters of `text`, in order.
pub fn chars_of(text: &str) -> (r: Vec<char>)
    ensures
        r@ == text@,
{
    let mut out: Vec<char> = Vec::new();
    for c in it: text.chars()
        invariant
            it.seq() == text@,
            out@ == it.seq().take(it.index()),
    {
        out.push(c);
    }
    out
}

/// The string made of the characters of `s`, in order.
pub fn string_of(s: &[char]) -> (r: String)
    ensures
        r@ == s@,
{
    let mut out = String::new();
    let mut i: usize = 0;
    while i < s.len()
        invariant
            i <= s@.len(),
            out@ == s@.take(i as int),
        decreases s@.len() - i,
    {
        out.push(s[i]);
        i += 1;
    }
    out
}

/// Index of the first occurrence of `c` in `s`, or the length of `s`.
pub fn find_char(s: &[char], c: char) -> (r: usize)
    ensures
        r == index_of(s@, c),
        r <= s@.len(),
{
    let mut i: usize = 0;
    while i < s.len() && s[i] != c
        invariant
            i <= s@.len(),
            forall|j: int| 0 <= j < i ==> s@[j] != c,
        decreases s@.len() - i,
    {
        i += 1;
    }
    proof {
        lemma_index_of_unique(s@, c, i as int);
    }
    i
}

/// Number of whitespace characters at the start of `s`.
pub fn count_leading_spaces(s: &[char]) -> (r: usize)
    ensures
        r == space_prefix(s@),
        r <= s@.len(),
{
    let mut i: usize = 0;
    while i < s.len() && is_space_char(s[i])
        invariant
            i <= s@.len(),
            forall|j: int| 0 <= j < i ==> is_space(s@[j]),
        decreases s@.len() - i,
    {
        i += 1;
    }
    proof {
        lemma_run_len_unique(s@, true, i as int);
    }
    i
}

/// Number of characters at the start of `s` that are not whitespace.
pub fn count_word(s: &[char]) -> (r: usize)
    ensures
        r == word_len(s@),
        r <= s@.len(),
{
    let mut i: usize = 0;
    while i < s.len() && !is_space_char(s[i])
        invariant
            i <= s@.len(),
            forall|j: int| 0 <= j < i ==> !is_space(s@[j]),
        decreases s@.len() - i,
    {
        i += 1;
    }
    proof {
        lemma_run_len_unique(s@, false, i as int);
    }
    i
}

/// Number of whitespace characters at the end of `s`.
pub fn count_trailing_spaces(s: &[char]) -> (r: usize)
    ensures
        r == space_suffix(s@),
        r <= s@.len(),
{
    let n: usize = s.len();
    let mut i: usize = 0;
    while i < n && is_space_char(s[n - 1 - i])
        invariant
            n == s@.len(),
            i <= n,
            forall|j: int| n - i <= j < n ==> is_space(s@[j]),
        decreases n - i,
    {
        i += 1;
    }
    proof {
        let rev = s@.reverse();
        assert forall|j: int| 0 <= j < i implies is_space(#[trigger] rev[j]) by {
            assert(rev[j] == s@[n - 1 - j]);
        }
        if i < n {
            assert(rev[i as int] == s@[n - 1 - i]);
        }
        lemma_run_len_unique(rev, true, i as int);
    }
    i
}

/// Tells whether `s` holds nothing but whitespace.
pub fn is_blank_slice(s: &[char]) -> (r: bool)
    ensures
        r == is_blank(s@),
{
    let k: usize = count_leading_spaces(s);
    proof {
        lemma_run_len_is_run(s@, true);
    }
    k == s.len()
}

/// The part of `s` between its leading and its trailing whitespace.
pub fn trim_slice(s: &[char]) -> (r: &[char])
    ensures
        r@ == trim(s@),
{
    let a: usize = count_leading_spaces(s);
    let rest = slice_subrange(s, a, s.len());
    let b: usize = count_trailing_spaces(rest);
    slice_subrange(rest, 0, rest.len() - b)
}

/// `line` without one carriage return at its end, if it has one.
pub fn strip_cr_slice(line: &[char]) -> (r: &[char])
    ensures
        r@ == strip_cr(line@),
{
    let n: usize = line.len();
    if n > 0 && line[n - 1] == '\r' {
        slice_subrange(line, 0, n - 1)
    } else {
        line
    }
}

/// The whitespace-delimited field of `s` with the given index, counted from 0; empty
/// if `s` has fewer fields.
pub fn field_slice(s: &[char], index: usize) -> (r: &[char])
    ensures
        r@ == field(s@, index as nat),
{
    let mut rest = s;
    let mut left: usize = index;
    loop
        invariant
            field(rest@, left as nat) == field(s@, index as nat),
        decreases left,
    {
        let a: usize = count_leading_spaces(rest);
        let body = slice_subrange(rest, a, rest.len());
        let w: usize = count_word(body);
        if left == 0 {
            return slice_subrange(body, 0, w);
        }
        rest = slice_subrange(body, w, body.len());
        left -= 1;
    }
}

/// Cuts `s` at the first occurrence of `sep`: the part before it and, if `sep`
/// occurs, the part after it.
pub fn split_first(s: &[char], sep: char) -> (r: (&[char], Option<&[char]>))
    ensures
        r.0@ == s@.take(index_of(s@, sep)),
        0 <= index_of(s@, sep) <= s@.len(),
        match r.1 {
            Some(rest) => index_of(s@, sep) < s@.len() && rest@ == s@.skip(index_of(s@, sep) + 1),
            None => index_of(s@, sep) == s@.len(),
        },
{
    let k: usize = find_char(s, sep);
    let head = slice_subrange(s, 0, k);
    if k < s.len() {
        (head, Some(slice_subrange(s, k + 1, s.len())))
    } else {
        (head, None)
    }
}

/// The parts of `s` between the occurrences of `sep`.
pub fn split_slice(s: &[char], sep: char) -> (r: Vec<&[char]>)
    ensures
        r@.len() == split(s@, sep).len(),
        forall|i: int| 0 <= i < r@.len() ==> (#[trigger] r@[i])@ == split(s@, sep)[i],
{
    let mut parts: Vec<&[char]> = Vec::new();
    let mut rest = s;
    let ghost mut done: Seq<Seq<char>> = Seq::empty();
    loop
        invariant
            split(s@, sep) == done + split(rest@, sep),
            done.len() == parts@.len(),
            forall|i: int| 0 <= i < parts@.len() ==> (#[trigger] parts@[i])@ == done[i],
        decreases rest@.len(),
    {
        let (head, tail) = split_first(rest, sep);
        parts.push(head);
        proof {
            let before = done;
            done = done.push(head@);
            if tail is Some {
                assert(before + (seq![head@] + split(tail->0@, sep)) =~= done + split(
                    tail->0@,
                    sep,
                ));
            } else {
                assert(head@ =~= rest@);
                assert(before + seq![rest@] =~= done);
            }
        }
        match tail {
            Some(t) => {
                rest = t;
            },
            None => {
                return parts;
            },
        }
    }
}

} // verus!
