//! Characters and words of one line.

use vstd::prelude::*;
use vstd::std_specs::iter::IteratorSpec;
use vstd::string::StringSliceAdditionalSpecFns;
use vstd::utf8::{decode_utf8, encode_scalar, encode_utf8, valid_utf8};

verus! {

/// The texts of a vector of strings.
pub open spec fn text_views(texts: Seq<String>) -> Seq<Seq<char>> {
    texts.map_values(|text: String| text@)
}

/// True for the characters that separate words: those with the Unicode property
/// `White_Space`.
pub open spec fn is_whitespace(c: char) -> bool {
    ||| '\u{9}' <= c <= '\u{d}'
    ||| c == ' '
    ||| c == '\u{85}'
    ||| c == '\u{a0}'
    ||| c == '\u{1680}'
    ||| '\u{2000}' <= c <= '\u{200a}'
    ||| c == '\u{2028}'
    ||| c == '\u{2029}'
    ||| c == '\u{202f}'
    ||| c == '\u{205f}'
    ||| c == '\u{3000}'
}

/// True when a word begins at index `i` of `text`: a character that is no whitespace, at
/// the start of the text or after whitespace.
pub open spec fn word_starts_at(text: Seq<char>, i: int) -> bool {
    0 <= i < text.len() && !is_whitespace(text[i]) && (i == 0 || is_whitespace(text[i - 1]))
}

/// The number of words in `text`: of maximal runs of characters that are no whitespace.
pub open spec fn word_count(text: Seq<char>) -> nat
    decreases text.len(),
{
    if text.len() == 0 {
        0
    } else {
        word_count(text.drop_last()) + if word_starts_at(text, text.len() - 1) {
            1nat
        } else {
            0nat
        }
    }
}

/// True when `text` holds whitespace only; an empty text does.
pub open spec fn is_blank(text: Seq<char>) -> bool {
    forall|i: int| 0 <= i < text.len() ==> is_whitespace(#[trigger] text[i])
}

/// Tells whether `c` separates words.
pub fn is_whitespace_char(c: char) -> (r: bool)
    ensures
        r == is_whitespace(c),
{
    ('\u{9}' <= c && c <= '\u{d}') || c == ' ' || c == '\u{85}' || c == '\u{a0}' || c
        == '\u{1680}' || ('\u{2000}' <= c && c <= '\u{200a}') || c == '\u{2028}' || c
        == '\u{2029}' || c == '\u{202f}' || c == '\u{205f}' || c == '\u{3000}'
}

/// A text has at most as many words as characters.
pub proof fn lemma_word_count_bound(text: Seq<char>)
    ensures
        word_count(text) <= text.len(),
    decreases text.len(),
{
    if text.len() > 0 {
        lemma_word_count_bound(text.drop_last());
    }
}

/// A text has no word exactly when it is blank.
pub proof fn lemma_no_word_iff_blank(text: Seq<char>)
    ensures
        word_count(text) == 0 <==> is_blank(text),
    decreases text.len(),
{
    if text.len() > 0 {
        let front = text.drop_last();
        lemma_no_word_iff_blank(front);
        let last = text.len() - 1;
        if is_blank(text) {
            assert forall|i: int| 0 <= i < front.len() implies is_whitespace(
                #[trigger] front[i],
            ) by {
                assert(front[i] == text[i]);
            }
        }
        if word_count(text) == 0 {
            assert forall|i: int| 0 <= i < text.len() implies is_whitespace(
                #[trigger] text[i],
            ) by {
                if i < last {
                    assert(text[i] == front[i]);
                } else if last > 0 {
                    assert(text[last - 1] == front[last - 1]);
                }
            }
        }
    }
}

/// A text takes at least one byte for each character.
pub proof fn lemma_chars_at_most_bytes(text: Seq<char>)
    ensures
        text.len() <= encode_utf8(text).len(),
    decreases text.len(),
{
    if text.len() > 0 {
        lemma_chars_at_most_bytes(text.drop_first());
        assert(encode_scalar(text[0] as u32).len() >= 1);
    }
}

/// `core::str::from_utf8`: reads bytes as text. It succeeds exactly on valid UTF-8, and
/// the text it gives has those very bytes.
#[verifier::external_body]
pub(crate) fn text_of_bytes(bytes: &[u8]) -> (text: Option<&str>)
    ensures
        text is Some <==> valid_utf8(bytes@),
        text matches Some(t) ==> t.spec_bytes() == bytes@,
{
    match core::str::from_utf8(bytes) {
        Ok(text) => Some(text),
        Err(_) => None,
    }
}

/// The numbers of characters and of words in `text`.
pub fn count_text(text: &str) -> (counts: (usize, usize))
    ensures
        counts.0 == text@.len(),
        counts.1 == word_count(text@),
{
    let limit: usize = text.as_bytes().len();
    proof {
        lemma_chars_at_most_bytes(text@);
    }
    let mut chars = text.chars();
    let mut seen: usize = 0;
    let mut words: usize = 0;
    let mut in_word: bool = false;
    loop
        invariant
            seen <= text@.len() <= limit,
            chars.remaining() == text@.skip(seen as int),
            words == word_count(text@.take(seen as int)),
            words <= seen,
            in_word == (seen > 0 && !is_whitespace(text@[seen - 1])),
        decreases text@.len() - seen,
    {
        match chars.next() {
            Some(c) => {
                assert(c == text@[seen as int]);
                let separates: bool = is_whitespace_char(c);
                proof {
                    let grown = text@.take(seen + 1);
                    assert(grown.drop_last() =~= text@.take(seen as int));
                    assert(word_starts_at(grown, seen as int) == (!separates && !in_word));
                    lemma_word_count_bound(grown);
                }
                if !separates && !in_word {
                    words = words + 1;
                }
                in_word = !separates;
                seen = seen + 1;
            },
            None => {
                assert(text@.take(seen as int) =~= text@);
                return (seen, words);
            },
        }
    }
}

} // verus!
