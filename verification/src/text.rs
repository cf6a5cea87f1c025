//! Small operations on text that the commands share.

use vstd::prelude::*;
use vstd::string::{StrSliceExecFns, StringExecFns};
use vstd::utf8::{encode_utf8, encode_utf8_decode_utf8};

verus! {

/// Two strings with the same UTF-8 encoding are the same string.
pub proof fn lemma_same_encoding(a: Seq<char>, b: Seq<char>)
    requires
        encode_utf8(a) == encode_utf8(b),
    ensures
        a == b,
{
    encode_utf8_decode_utf8(a);
    encode_utf8_decode_utf8(b);
}

/// Whether two strings are equal.
pub fn same_text(a: &str, b: &str) -> (r: bool)
    ensures
        r == (a@ == b@),
{
    let x = a.as_bytes();
    let y = b.as_bytes();
    if x.len() != y.len() {
        return false;
    }
    let mut i: usize = 0;
    while i < x.len()
        invariant
            0 <= i <= x.len(),
            x.len() == y.len(),
            x@ == encode_utf8(a@),
            y@ == encode_utf8(b@),
            forall|j: int| 0 <= j < i ==> x@[j] == y@[j],
        decreases x.len() - i,
    {
        if x[i] != y[i] {
            return false;
        }
        i = i + 1;
    }
    proof {
        assert(x@ =~= y@);
        lemma_same_encoding(a@, b@);
    }
    true
}

/// Whether `text` ends with `suffix`.
pub open spec fn has_suffix(text: Seq<char>, suffix: Seq<char>) -> bool {
    suffix.len() <= text.len() && text.subrange(text.len() - suffix.len(), text.len() as int)
        == suffix
}

/// Whether `text` ends with `suffix`.
pub fn ends_with(text: &str, suffix: &str) -> (r: bool)
    ensures
        r == has_suffix(text@, suffix@),
{
    let n = text.unicode_len();
    let k = suffix.unicode_len();
    if k > n {
        return false;
    }
    same_text(text.substring_char(n - k, n), suffix)
}

/// Whether `c` has the Unicode property `White_Space`.
pub open spec fn is_space(c: char) -> bool {
    ||| '\u{9}' <= c <= '\u{d}'
    ||| c == ' '
    ||| c == '\u{85}'
    ||| c == '\u{a0}'
    ||| c == '\u{1680}'
    ||| '\u{2000}' <= c <= '\u{200a}'
    ||| c == '\u{2028}'
    ||| c == '\u{2029}'
    ||| c == '\u{202f}'
    ||| c == '\u{205f}'
    ||| c == '\u{3000}'
}

/// The number of white space characters at the start of `text`.
pub open spec fn leading_spaces(text: Seq<char>) -> nat
    decreases text.len(),
{
    if text.len() > 0 && is_space(text[0]) {
        1 + leading_spaces(text.skip(1))
    } else {
        0
    }
}

/// The number of white space characters at the end of `text`.
pub open spec fn trailing_spaces(text: Seq<char>) -> nat
    decreases text.len(),
{
    if text.len() > 0 && is_space(text.last()) {
        1 + trailing_spaces(text.drop_last())
    } else {
        0
    }
}

/// The text without the white space at its start and at its end.
pub open spec fn trimmed(text: Seq<char>) -> Seq<char> {
    let from = leading_spaces(text);
    if from == text.len() {
        Seq::empty()
    } else {
        text.subrange(from as int, text.len() - trailing_spaces(text))
    }
}

fn space(c: char) -> (r: bool)
    ensures
        r == is_space(c),
{
    ('\u{9}' <= c && c <= '\u{d}') || c == ' ' || c == '\u{85}' || c == '\u{a0}' || c
        == '\u{1680}' || ('\u{2000}' <= c && c <= '\u{200a}') || c == '\u{2028}' || c
        == '\u{2029}' || c == '\u{202f}' || c == '\u{205f}' || c == '\u{3000}'
}

/// The leading white space of a text is as long as the stretch of white
/// space characters that a scan from the start finds.
proof fn lemma_leading(text: Seq<char>, n: int)
    requires
        0 <= n <= text.len(),
        forall|j: int| 0 <= j < n ==> is_space(#[trigger] text[j]),
        n == text.len() || !is_space(text[n]),
    ensures
        leading_spaces(text) == n,
    decreases n,
{
    if n > 0 {
        let rest = text.skip(1);
        assert forall|j: int| 0 <= j < n - 1 implies is_space(#[trigger] rest[j]) by {
            assert(rest[j] == text[j + 1]);
        }
        lemma_leading(rest, n - 1);
    }
}

/// The trailing white space of a text is as long as the stretch of white
/// space characters that a scan from the end finds.
proof fn lemma_trailing(text: Seq<char>, n: int)
    requires
        0 <= n <= text.len(),
        forall|j: int| text.len() - n <= j < text.len() ==> is_space(#[trigger] text[j]),
        n == text.len() || !is_space(text[text.len() - n - 1]),
    ensures
        trailing_spaces(text) == n,
    decreases n,
{
    if n > 0 {
        let rest = text.drop_last();
        assert forall|j: int| rest.len() - (n - 1) <= j < rest.len() implies is_space(
            #[trigger] rest[j],
        ) by {
            assert(rest[j] == text[j]);
        }
        lemma_trailing(rest, n - 1);
    }
}

/// The text without the white space at its start and at its end.
pub fn trim(text: &str) -> (r: &str)
    ensures
        r@ == trimmed(text@),
{
    let n = text.unicode_len();
    let mut from: usize = 0;
    while from < n && space(text.get_char(from))
        invariant
            n == text@.len(),
            0 <= from <= n,
            forall|j: int| 0 <= j < from ==> is_space(#[trigger] text@[j]),
        decreases n - from,
    {
        from = from + 1;
    }
    proof {
        lemma_leading(text@, from as int);
    }
    if from == n {
        let r = text.substring_char(n, n);
        assert(r@ =~= Seq::<char>::empty());
        return r;
    }
    let mut to: usize = n;
    while to > from + 1 && space(text.get_char(to - 1))
        invariant
            n == text@.len(),
            from < to <= n,
            !is_space(text@[from as int]),
            forall|j: int| to <= j < n ==> is_space(#[trigger] text@[j]),
        decreases to,
    {
        to = to - 1;
    }
    proof {
        lemma_trailing(text@, n - to);
    }
    text.substring_char(from, to)
}

/// The small letter for an ASCII capital letter; any other character
/// unchanged.
pub open spec fn lower_char(c: char) -> char {
    if 'A' <= c <= 'Z' {
        ((c as u32) + 32) as char
    } else {
        c
    }
}

/// The text with its ASCII capital letters lowered.
pub open spec fn ascii_lowered(text: Seq<char>) -> Seq<char> {
    Seq::new(text.len(), |i: int| lower_char(text[i]))
}

/// `str::to_ascii_lowercase` of the standard library. Its documentation
/// says that the result is a copy of the string in which the ASCII letters
/// `A` to `Z` are mapped to `a` to `z` and every other character is
/// unchanged; the contract states just that.
pub assume_specification[ str::to_ascii_lowercase ](text: &str) -> (r: String)
    ensures
        r@ == ascii_lowered(text@),
;

/// The lowercase form of a text by the rules of Unicode, as
/// `str::to_lowercase` of the standard library computes it.
pub uninterp spec fn lowercase_of(text: Seq<char>) -> Seq<char>;

/// `str::to_lowercase` of the standard library. The result follows the
/// Unicode case mappings, which are not restated here: the contract only
/// names it as a function of the text.
pub assume_specification[ str::to_lowercase ](text: &str) -> (r: String)
    ensures
        r@ == lowercase_of(text@),
;

/// The character of a decimal digit.
pub open spec fn digit_char(d: nat) -> char {
    (('0' as u32) + (d as u32)) as char
}

/// The decimal numeral of `n`, without leading zeros.
pub open spec fn numeral(n: nat) -> Seq<char>
    decreases n,
{
    if n < 10 {
        seq![digit_char(n)]
    } else {
        numeral(n / 10).push(digit_char(n % 10))
    }
}

fn digit_text(d: u32) -> (r: &'static str)
    requires
        d < 10,
    ensures
        r@ == seq![digit_char(d as nat)],
{
    proof {
        reveal_strlit("0");
        reveal_strlit("1");
        reveal_strlit("2");
        reveal_strlit("3");
        reveal_strlit("4");
        reveal_strlit("5");
        reveal_strlit("6");
        reveal_strlit("7");
        reveal_strlit("8");
        reveal_strlit("9");
    }
    let r = if d == 0 {
        "0"
    } else if d == 1 {
        "1"
    } else if d == 2 {
        "2"
    } else if d == 3 {
        "3"
    } else if d == 4 {
        "4"
    } else if d == 5 {
        "5"
    } else if d == 6 {
        "6"
    } else if d == 7 {
        "7"
    } else if d == 8 {
        "8"
    } else {
        "9"
    };
    assert(r@ =~= seq![digit_char(d as nat)]);
    r
}

/// The decimal numeral of `n`.
pub fn decimal(n: u32) -> (r: String)
    ensures
        r@ == numeral(n as nat),
    decreases n,
{
    if n < 10 {
        digit_text(n).to_owned()
    } else {
        let mut r = decimal(n / 10);
        r.append(digit_text(n % 10));
        r
    }
}

/// The stretches of a text between its commas. A text with `n` commas has
/// `n + 1` stretches, some of which may be empty.
pub open spec fn split_commas(s: Seq<char>) -> Seq<Seq<char>>
    decreases s.len(),
{
    if s.len() == 0 {
        seq![Seq::empty()]
    } else {
        let before = split_commas(s.drop_last());
        if s.last() == ',' {
            before.push(Seq::empty())
        } else {
            before.drop_last().push(before.last().push(s.last()))
        }
    }
}

/// Splits a text at its commas.
pub fn split_at_commas(text: &str) -> (parts: Vec<String>)
    ensures
        parts.deep_view() == split_commas(text@),
{
    let n = text.unicode_len();
    let mut parts: Vec<String> = Vec::new();
    let mut start: usize = 0;
    let mut i: usize = 0;
    proof {
        assert(text@.take(0) =~= Seq::<char>::empty());
        assert(split_commas(text@.take(0)) =~= parts.deep_view().push(text@.subrange(0, 0)));
    }
    while i < n
        invariant
            n == text@.len(),
            0 <= start <= i <= n,
            split_commas(text@.take(i as int)) == parts.deep_view().push(
                text@.subrange(start as int, i as int),
            ),
        decreases n - i,
    {
        let c = text.get_char(i);
        proof {
            assert(text@.take(i + 1).drop_last() =~= text@.take(i as int));
            assert(text@.take(i + 1).last() == c);
        }
        if c == ',' {
            let part = text.substring_char(start, i).to_owned();
            let ghost before = parts;
            parts.push(part);
            proof {
                crate::rows::lemma_row_push(before, parts, part);
                assert(text@.subrange(i + 1, i + 1) =~= Seq::<char>::empty());
            }
            start = i + 1;
        } else {
            proof {
                let prev = split_commas(text@.take(i as int));
                assert(prev.drop_last() =~= parts.deep_view());
                assert(prev.last().push(c) =~= text@.subrange(start as int, i + 1));
            }
        }
        i = i + 1;
    }
    let part = text.substring_char(start, n).to_owned();
    let ghost before = parts;
    parts.push(part);
    proof {
        crate::rows::lemma_row_push(before, parts, part);
        assert(text@.take(n as int) =~= text@);
    }
    parts
}

} // verus!
