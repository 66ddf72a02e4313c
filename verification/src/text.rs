//! Text: decimal numbers, left-aligned columns, and white space.

use vstd::prelude::*;
use vstd::string::*;

verus! {

/// The character that stands for the decimal digit `d`.
pub open spec fn digit(d: nat) -> char
    recommends
        d < 10,
{
    ('0' as nat + d) as char
}

/// The decimal notation of `n`, without sign, padding or leading zeros.
pub open spec fn decimal(n: nat) -> Seq<char>
    decreases n,
{
    if n < 10 {
        seq![digit(n)]
    } else {
        decimal(n / 10).push(digit(n % 10))
    }
}

/// `count` spaces.
pub open spec fn spaces(count: nat) -> Seq<char> {
    Seq::new(count, |i: int| ' ')
}

/// `text` followed by as many spaces as it takes to reach `width` characters;
/// a text that is already that wide is left as it is.
pub open spec fn padded(text: Seq<char>, width: nat) -> Seq<char> {
    if text.len() < width {
        text + spaces((width - text.len()) as nat)
    } else {
        text
    }
}

/// `String::push` of the standard library: appends one character to the end
/// of the string and leaves what was there before untouched.
#[verifier::external_body]
pub(crate) fn push_char(s: &mut String, c: char)
    ensures
        final(s)@ == old(s)@.push(c),
{
    s.push(c)
}

fn digit_char(d: u8) -> (c: char)
    requires
        d < 10,
    ensures
        c == digit(d as nat),
{
    ('0' as u8 + d) as char
}

/// Appends the decimal notation of `n` to `out`.
pub fn push_decimal(out: &mut String, n: u128)
    ensures
        final(out)@ == old(out)@ + decimal(n as nat),
    decreases n,
{
    if n >= 10 {
        push_decimal(out, n / 10);
    }
    push_char(out, digit_char((n % 10) as u8));
}

/// The decimal notation of `n`.
pub fn to_decimal(n: u128) -> (text: String)
    ensures
        text@ == decimal(n as nat),
{
    let mut text = String::new();
    push_decimal(&mut text, n);
    text
}

/// Appends `text`, left-aligned in a column of `width` characters, to `out`.
pub fn push_padded(out: &mut String, text: &str, width: usize)
    ensures
        final(out)@ == old(out)@ + padded(text@, width as nat),
{
    out.append(text);
    let len = text.unicode_len();
    let mut filled: usize = len;
    while filled < width
        invariant
            len == text@.len(),
            len <= filled,
            len < width ==> filled <= width,
            len >= width ==> filled == len,
            out@ == old(out)@ + text@ + spaces((filled - len) as nat),
        decreases width - filled,
    {
        push_char(out, ' ');
        filled = filled + 1;
        assert(spaces((filled - len) as nat) =~= spaces((filled - 1 - len) as nat).push(' '));
    }
    assert(len >= width ==> out@ =~= old(out)@ + text@);
}

/// `c` is white space: a character with the Unicode property White_Space.
pub open spec fn is_white_space(c: char) -> bool {
    ||| '\u{9}' <= c <= '\u{d}'
    ||| c == ' '
    ||| c == '\u{85}'
    ||| c == '\u{a0}'
    ||| c == '\u{1680}'
    ||| '\u{2000}' <= c <= '\u{200a}'
    ||| c == '\u{2028}'
    ||| c == '\u{2029}'
    ||| c == '\u{202f}'
    ||| c == '\u{205f}'
    ||| c == '\u{3000}'
}

/// `text` without the white space at its beginning.
pub open spec fn trimmed_start(text: Seq<char>) -> Seq<char>
    decreases text.len(),
{
    if text.len() > 0 && is_white_space(text[0]) {
        trimmed_start(text.skip(1))
    } else {
        text
    }
}

/// `text` without the white space at its end.
pub open spec fn trimmed_end(text: Seq<char>) -> Seq<char>
    decreases text.len(),
{
    if text.len() > 0 && is_white_space(text.last()) {
        trimmed_end(text.drop_last())
    } else {
        text
    }
}

/// `text` without the white space at its beginning and at its end.
pub open spec fn trimmed(text: Seq<char>) -> Seq<char> {
    trimmed_end(trimmed_start(text))
}

/// Whether `c` is white space.
pub fn white_space(c: char) -> (yes: bool)
    ensures
        yes == is_white_space(c),
{
    ('\u{9}' <= c && c <= '\u{d}') || c == ' ' || c == '\u{85}' || c == '\u{a0}' || c == '\u{1680}' || (
    '\u{2000}' <= c && c <= '\u{200a}') || c == '\u{2028}' || c == '\u{2029}' || c == '\u{202f}' || c
        == '\u{205f}' || c == '\u{3000}'
}

proof fn lemma_trimmed_start_skips(text: Seq<char>, first: int)
    requires
        0 <= first <= text.len(),
        forall|j: int| 0 <= j < first ==> is_white_space(text[j]),
        first < text.len() ==> !is_white_space(text[first]),
    ensures
        trimmed_start(text) == text.skip(first),
    decreases first,
{
    if first == 0 {
        assert(text.skip(0) =~= text);
    } else {
        let tail = text.skip(1);
        assert forall|j: int| 0 <= j < first - 1 implies is_white_space(tail[j]) by {
            assert(tail[j] == text[j + 1]);
        }
        lemma_trimmed_start_skips(tail, first - 1);
        assert(tail.skip(first - 1) =~= text.skip(first));
    }
}

/// `text` without the white space around it.
pub fn trim(text: &str) -> (kept: String)
    ensures
        kept@ == trimmed(text@),
{
    let mut kept = String::new();
    let mut held = String::new();
    let mut started = false;
    let ghost mut first: int = 0;
    for c in it: text.chars()
        invariant
            it.seq() == text@,
            0 <= first <= it.index(),
            !started ==> first == it.index() && kept@.len() == 0 && held@.len() == 0,
            forall|j: int| 0 <= j < first ==> is_white_space(text@[j]),
            started ==> first < it.index() && !is_white_space(text@[first]),
            kept@ + held@ == text@.subrange(first, it.index() as int),
            kept@ == trimmed_end(text@.subrange(first, it.index() as int)),
    {
        let ghost seen = text@.subrange(first, it.index() as int);
        let ghost grown = text@.subrange(first, it.index() + 1);
        let ghost kept_before = kept@;
        let ghost held_before = held@;
        if white_space(c) {
            if started {
                push_char(&mut held, c);
                assert(grown.drop_last() =~= seen);
                assert(grown.last() == c);
                assert(kept@ + held@ =~= grown);
            } else {
                proof {
                    first = first + 1;
                }
                assert(text@.subrange(first, it.index() + 1) =~= Seq::<char>::empty());
                assert(kept@ + held@ =~= text@.subrange(first, it.index() + 1));
            }
        } else {
            kept.append(held.as_str());
            push_char(&mut kept, c);
            held = String::new();
            started = true;
            assert(grown.last() == c);
            assert(kept@ =~= grown);
            assert(kept@ + held@ =~= grown);
        }
    }
    proof {
        let end = text@.len() as int;
        lemma_trimmed_start_skips(text@, first);
        assert(text@.skip(first) =~= text@.subrange(first, end));
    }
    kept
}

/// A copy of `words`.
pub fn clone_words(words: &Vec<String>) -> (copy: Vec<String>)
    ensures
        copy.deep_view() == words.deep_view(),
{
    let mut copy: Vec<String> = Vec::new();
    let mut i: usize = 0;
    while i < words.len()
        invariant
            i <= words.len(),
            copy.deep_view() == words.deep_view().take(i as int),
        decreases words.len() - i,
    {
        let ghost before = copy.deep_view();
        let word = words[i].clone();
        assert(word@ == words.deep_view()[i as int]);
        copy.push(word);
        i = i + 1;
        assert(copy.deep_view() =~= before.push(word@));
        assert(copy.deep_view() =~= words.deep_view().take(i as int));
    }
    assert(words.deep_view().take(words.len() as int) =~= words.deep_view());
    copy
}

} // verus!
