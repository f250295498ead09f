//! Splitting voiced kana into a base kana and a sound mark.
//!
//! The name alphabets of both games hold the unvoiced kana and the two sound
//! marks as symbols of their own, so a name typed with voiced kana has to be
//! split before it can be compared with a decoded name.

use vstd::prelude::*;
use crate::text::push_char;

verus! {

/// The voiced sound mark.
pub const DAKUTEN: char = '゛';

/// The half-voiced sound mark.
pub const HANDAKUTEN: char = '゜';

/// The base kana and the sound mark of a voiced or half-voiced hiragana;
/// `None` for every other character.
pub open spec fn decomposition(c: char) -> Option<(char, char)> {
    match c {
        'が' => Some(('か', DAKUTEN)),
        'ぎ' => Some(('き', DAKUTEN)),
        'ぐ' => Some(('く', DAKUTEN)),
        'げ' => Some(('け', DAKUTEN)),
        'ご' => Some(('こ', DAKUTEN)),
        'ざ' => Some(('さ', DAKUTEN)),
        'じ' => Some(('し', DAKUTEN)),
        'ず' => Some(('す', DAKUTEN)),
        'ぜ' => Some(('せ', DAKUTEN)),
        'ぞ' => Some(('そ', DAKUTEN)),
        'だ' => Some(('た', DAKUTEN)),
        'ぢ' => Some(('ち', DAKUTEN)),
        'づ' => Some(('つ', DAKUTEN)),
        'で' => Some(('て', DAKUTEN)),
        'ど' => Some(('と', DAKUTEN)),
        'ば' => Some(('は', DAKUTEN)),
        'び' => Some(('ひ', DAKUTEN)),
        'ぶ' => Some(('ふ', DAKUTEN)),
        'べ' => Some(('へ', DAKUTEN)),
        'ぼ' => Some(('ほ', DAKUTEN)),
        'ぱ' => Some(('は', HANDAKUTEN)),
        'ぴ' => Some(('ひ', HANDAKUTEN)),
        'ぷ' => Some(('ふ', HANDAKUTEN)),
        'ぺ' => Some(('へ', HANDAKUTEN)),
        'ぽ' => Some(('ほ', HANDAKUTEN)),
        _ => None,
    }
}

/// What one character becomes: base kana and mark, or the character itself.
pub open spec fn split_kana(c: char) -> Seq<char> {
    match decomposition(c) {
        Some((base, mark)) => seq![base, mark],
        None => seq![c],
    }
}

/// What a text becomes: each character replaced by `split_kana` of it.
pub open spec fn split_dakuten_spec(s: Seq<char>) -> Seq<char>
    decreases s.len(),
{
    if s.len() == 0 {
        Seq::empty()
    } else {
        split_dakuten_spec(s.drop_last()) + split_kana(s.last())
    }
}

/// What a character becomes holds no kana that could be split again.
pub proof fn lemma_split_kana_is_plain(c: char)
    ensures
        forall|i: int|
            0 <= i < split_kana(c).len() ==> decomposition(#[trigger] split_kana(c)[i]) is None,
{
}

/// A text that has been split holds no voiced or half-voiced kana, so that
/// splitting it again changes nothing.
pub proof fn lemma_split_is_plain(s: Seq<char>)
    ensures
        forall|i: int|
            0 <= i < split_dakuten_spec(s).len() ==> decomposition(
                #[trigger] split_dakuten_spec(s)[i],
            ) is None,
        split_dakuten_spec(split_dakuten_spec(s)) == split_dakuten_spec(s),
    decreases s.len(),
{
    if s.len() > 0 {
        lemma_split_is_plain(s.drop_last());
        lemma_split_kana_is_plain(s.last());
        let head = split_dakuten_spec(s.drop_last());
        let tail = split_kana(s.last());
        lemma_split_of_plain(head + tail);
    }
}

/// Splitting changes nothing in a text without voiced or half-voiced kana.
pub proof fn lemma_split_of_plain(s: Seq<char>)
    requires
        forall|i: int| 0 <= i < s.len() ==> decomposition(#[trigger] s[i]) is None,
    ensures
        split_dakuten_spec(s) == s,
    decreases s.len(),
{
    if s.len() > 0 {
        lemma_split_of_plain(s.drop_last());
        assert(split_kana(s.last()) == seq![s.last()]);
        assert(s.drop_last() + seq![s.last()] =~= s);
    }
}

/// Computes `decomposition`.
pub fn decompose(c: char) -> (r: Option<(char, char)>)
    ensures
        r == decomposition(c),
{
    match c {
        'が' => Some(('か', DAKUTEN)),
        'ぎ' => Some(('き', DAKUTEN)),
        'ぐ' => Some(('く', DAKUTEN)),
        'げ' => Some(('け', DAKUTEN)),
        'ご' => Some(('こ', DAKUTEN)),
        'ざ' => Some(('さ', DAKUTEN)),
        'じ' => Some(('し', DAKUTEN)),
        'ず' => Some(('す', DAKUTEN)),
        'ぜ' => Some(('せ', DAKUTEN)),
        'ぞ' => Some(('そ', DAKUTEN)),
        'だ' => Some(('た', DAKUTEN)),
        'ぢ' => Some(('ち', DAKUTEN)),
        'づ' => Some(('つ', DAKUTEN)),
        'で' => Some(('て', DAKUTEN)),
        'ど' => Some(('と', DAKUTEN)),
        'ば' => Some(('は', DAKUTEN)),
        'び' => Some(('ひ', DAKUTEN)),
        'ぶ' => Some(('ふ', DAKUTEN)),
        'べ' => Some(('へ', DAKUTEN)),
        'ぼ' => Some(('ほ', DAKUTEN)),
        'ぱ' => Some(('は', HANDAKUTEN)),
        'ぴ' => Some(('ひ', HANDAKUTEN)),
        'ぷ' => Some(('ふ', HANDAKUTEN)),
        'ぺ' => Some(('へ', HANDAKUTEN)),
        'ぽ' => Some(('ほ', HANDAKUTEN)),
        _ => None,
    }
}

/// Replaces every voiced or half-voiced hiragana of `input` by its base kana
/// followed by the sound mark, and keeps every other character.
pub fn split_dakuten(input: &str) -> (result: String)
    ensures
        result@ == split_dakuten_spec(input@),
{
    let mut result = String::new();
    for c in it: input.chars()
        invariant
            it.seq() == input@,
            result@ == split_dakuten_spec(input@.take(it.index() as int)),
    {
        proof {
            let done = input@.take(it.index() as int);
            let next = input@.take(it.index() + 1);
            assert(next.drop_last() == done);
            assert(next.last() == c);
        }
        match decompose(c) {
            Some((base, mark)) => {
                push_char(&mut result, base);
                push_char(&mut result, mark);
            },
            None => {
                push_char(&mut result, c);
            },
        }
    }
    proof {
        assert(input@.take(input@.len() as int) == input@);
    }
    result
}

} // verus!
