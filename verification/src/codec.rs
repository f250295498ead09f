//! From the symbols of a code to its six-bit values.
//!
//! Each symbol stands for its index in the alphabet of its format. The
//! indices are enciphered: each one is the value it stands for, plus the
//! index before it, plus a key, all taken modulo 64.

use vstd::prelude::*;
use crate::packing::{lemma_packed_len, pack_sextets, packed, packed_len};
use crate::error::Error;

verus! {

/// The two formats of spell codes.
#[derive(Clone, Copy, Debug, PartialEq, Eq, Structural)]
pub enum Format {
    /// The first game's format: twenty symbols.
    A,
    /// The second game's format: up to 52 symbols.
    B,
}

/// The alphabet of a format's codes.
pub open spec fn code_alphabet(format: Format) -> Seq<char> {
    match format {
        Format::A => crate::dq1::JUMON_MOJI_TABLE@,
        Format::B => crate::dq2::JUMON_MOJI_TABLE@,
    }
}

/// The indices of the symbols of `code` in `alphabet`, or the first symbol
/// of `code` that `alphabet` does not hold.
pub open spec fn symbol_indices(alphabet: Seq<char>, code: Seq<char>) -> Result<Seq<u8>, Error>
    decreases code.len(),
{
    if code.len() == 0 {
        Ok(Seq::empty())
    } else {
        match symbol_indices(alphabet, code.drop_last()) {
            Err(e) => Err(e),
            Ok(indices) => match alphabet.index_of_first(code.last()) {
                Some(index) => Ok(indices.push(index as u8)),
                None => Err(Error::UnsupportedSymbol(code.last())),
            },
        }
    }
}

/// The key of a code: four in the first format; in the second, one more
/// than the number that bits 1 and 2 of the first index spell.
pub open spec fn cipher_key(format: Format, first: u8) -> u8 {
    match format {
        Format::A => 4,
        Format::B => ((first / 2) % 4 + 1) as u8,
    }
}

/// The value that an index stands for, given the index before it and the key.
pub open spec fn unroll(index: u8, previous: u8, key: u8) -> u8 {
    ((index - previous - key) % 64) as u8
}

/// The values that a run of indices stands for. The first index of the
/// first format follows an index of zero; the first index of the second
/// format stands for itself.
pub open spec fn deciphered(format: Format, indices: Seq<u8>) -> Seq<u8> {
    Seq::new(
        indices.len(),
        |i: int|
            if i > 0 {
                unroll(indices[i], indices[i - 1], cipher_key(format, indices[0]))
            } else {
                match format {
                    Format::A => unroll(indices[0], 0, 4),
                    Format::B => indices[0],
                }
            },
    )
}

/// The six-bit values that a code stands for, or the first symbol of it
/// that is not in the alphabet of the format.
pub open spec fn plaintext(format: Format, code: Seq<char>) -> Result<Seq<u8>, Error> {
    match symbol_indices(code_alphabet(format), code) {
        Ok(indices) => Ok(deciphered(format, indices)),
        Err(e) => Err(e),
    }
}

/// Every index is below 64, and there is one for each symbol.
pub proof fn lemma_symbol_indices(alphabet: Seq<char>, code: Seq<char>)
    requires
        alphabet.len() == 64,
    ensures
        match symbol_indices(alphabet, code) {
            Ok(indices) => {
                &&& indices.len() == code.len()
                &&& forall|i: int|
                    0 <= i < code.len() ==> (#[trigger] indices[i]) < 64 && alphabet[indices[i] as int]
                        == code[i]
                &&& forall|i: int| 0 <= i < code.len() ==> alphabet.contains(#[trigger] code[i])
            },
            Err(e) => exists|i: int|
                0 <= i < code.len() && !alphabet.contains(code[i]) && e == Error::UnsupportedSymbol(
                    code[i],
                ),
        },
    decreases code.len(),
{
    if code.len() > 0 {
        let head = code.drop_last();
        lemma_symbol_indices(alphabet, head);
        alphabet.index_of_first_ensures(code.last());
        match symbol_indices(alphabet, head) {
            Ok(indices) => {
                match alphabet.index_of_first(code.last()) {
                    Some(index) => {
                        let all = indices.push(index as u8);
                        assert(symbol_indices(alphabet, code) == Ok::<Seq<u8>, Error>(all));
                        assert forall|i: int| 0 <= i < code.len() implies (#[trigger] all[i]) < 64
                            && alphabet[all[i] as int] == code[i] by {
                            if i < code.len() - 1 {
                                assert(head[i] == code[i]);
                            }
                        }
                        assert forall|i: int| 0 <= i < code.len() implies alphabet.contains(
                            #[trigger] code[i],
                        ) by {
                            if i < code.len() - 1 {
                                assert(head[i] == code[i]);
                            }
                        }
                    },
                    None => {
                        let i = code.len() - 1;
                        assert(0 <= i < code.len() && !alphabet.contains(code[i])
                            && symbol_indices(alphabet, code) == Err::<Seq<u8>, Error>(
                            Error::UnsupportedSymbol(code[i]),
                        ));
                    },
                }
            },
            Err(e) => {
                let i = choose|i: int|
                    0 <= i < head.len() && !alphabet.contains(head[i]) && e
                        == Error::UnsupportedSymbol(head[i]);
                assert(head[i] == code[i]);
                assert(0 <= i < code.len() && !alphabet.contains(code[i]) && symbol_indices(
                    alphabet,
                    code,
                ) == Err::<Seq<u8>, Error>(Error::UnsupportedSymbol(code[i])));
            },
        }
    }
}

/// The index of the first entry of `alphabet` that is `symbol`.
pub fn symbol_index(alphabet: &[char; 64], symbol: char) -> (index: Option<u8>)
    ensures
        match index {
            Some(i) => alphabet@.index_of_first(symbol) == Some(i as int),
            None => alphabet@.index_of_first(symbol) is None,
        },
{
    let mut i: u8 = 0;
    while i < 64
        invariant
            i <= 64,
            forall|j: int| 0 <= j < i ==> alphabet@[j] != symbol,
        decreases 64 - i,
    {
        if alphabet[i as usize] == symbol {
            proof {
                alphabet@.index_of_first_ensures(symbol);
            }
            return Some(i);
        }
        i += 1;
    }
    proof {
        alphabet@.index_of_first_ensures(symbol);
    }
    None
}

proof fn lemma_unroll(index: u8, previous: u8, key: u8)
    requires
        index < 64,
        previous < 64,
        key <= 4,
    ensures
        index.wrapping_sub(previous).wrapping_sub(key) & 0x3f == unroll(index, previous, key),
        unroll(index, previous, key) < 64,
{
    let wrapped = index.wrapping_sub(previous).wrapping_sub(key);
    assert(wrapped & 0x3f == wrapped % 64) by (bit_vector);
}

/// Takes the cipher off a run of indices.
pub fn decipher(format: Format, indices: &[u8]) -> (values: Vec<u8>)
    requires
        forall|i: int| 0 <= i < indices@.len() ==> indices@[i] < 64,
    ensures
        values@ == deciphered(format, indices@),
        forall|i: int| 0 <= i < values@.len() ==> values@[i] < 64,
{
    let mut values: Vec<u8> = Vec::new();
    if indices.len() == 0 {
        return values;
    }
    let first = indices[0];
    proof {
        assert(((first & 0b0110) >> 1) == (first / 2) % 4) by (bit_vector);
        lemma_unroll(first, 0, 4);
    }
    let key: u8 = match format {
        Format::A => 4,
        Format::B => ((first & 0b0110) >> 1) + 1,
    };
    values.push(
        match format {
            Format::A => first.wrapping_sub(0).wrapping_sub(4) & 0x3f,
            Format::B => first,
        },
    );
    let mut i: usize = 1;
    while i < indices.len()
        invariant
            1 <= i <= indices.len(),
            forall|j: int| 0 <= j < indices@.len() ==> indices@[j] < 64,
            key == cipher_key(format, indices@[0]),
            key <= 4,
            values@ == deciphered(format, indices@).take(i as int),
            forall|j: int| 0 <= j < values@.len() ==> values@[j] < 64,
        decreases indices.len() - i,
    {
        proof {
            lemma_unroll(indices@[i as int], indices@[i - 1], key);
        }
        values.push(indices[i].wrapping_sub(indices[i - 1]).wrapping_sub(key) & 0x3f);
        i += 1;
    }
    values
}

/// Turns the symbols of a code into the six-bit values they stand for.
/// Fails on the first symbol that is not in the alphabet of the format.
pub fn decode_symbols(code: &[char], format: Format) -> (result: Result<Vec<u8>, Error>)
    ensures
        match result {
            Ok(values) => plaintext(format, code@) == Ok::<Seq<u8>, Error>(values@),
            Err(e) => plaintext(format, code@) == Err::<Seq<u8>, Error>(e),
        },
        result matches Ok(values) ==> values@.len() == code@.len() && forall|i: int|
            0 <= i < values@.len() ==> values@[i] < 64,
{
    let mut indices: Vec<u8> = Vec::new();
    let mut i: usize = 0;
    while i < code.len()
        invariant
            i <= code.len(),
            symbol_indices(code_alphabet(format), code@.take(i as int)) == Ok::<Seq<u8>, Error>(
                indices@,
            ),
            indices@.len() == i,
            forall|j: int| 0 <= j < indices@.len() ==> indices@[j] < 64,
        decreases code.len() - i,
    {
        proof {
            assert(code@.take(i + 1).drop_last() == code@.take(i as int));
        }
        let found = match format {
            Format::A => symbol_index(&crate::dq1::JUMON_MOJI_TABLE, code[i]),
            Format::B => symbol_index(&crate::dq2::JUMON_MOJI_TABLE, code[i]),
        };
        match found {
            Some(index) => {
                proof {
                    code_alphabet(format).index_of_first_ensures(code@[i as int]);
                }
                indices.push(index);
            },
            None => {
                proof {
                    lemma_rest_keeps_error(code_alphabet(format), code@, i + 1);
                }
                return Err(Error::UnsupportedSymbol(code[i]));
            },
        }
        i += 1;
    }
    proof {
        assert(code@.take(code@.len() as int) == code@);
    }
    Ok(decipher(format, indices.as_slice()))
}

/// A symbol that the alphabet does not hold stays the answer however the
/// code goes on.
proof fn lemma_rest_keeps_error(alphabet: Seq<char>, code: Seq<char>, upto: int)
    requires
        0 <= upto <= code.len(),
        symbol_indices(alphabet, code.take(upto)) is Err,
    ensures
        symbol_indices(alphabet, code) == symbol_indices(alphabet, code.take(upto)),
    decreases code.len() - upto,
{
    if upto < code.len() {
        assert(code.take(upto + 1).drop_last() == code.take(upto));
        lemma_rest_keeps_error(alphabet, code, upto + 1);
    } else {
        assert(code.take(upto) == code);
    }
}

/// The order in which the values of a code are packed: the first format
/// packs the last value first, the second the first value first.
pub open spec fn packing_order(format: Format, values: Seq<u8>) -> Seq<u8> {
    match format {
        Format::A => values.reverse(),
        Format::B => values,
    }
}

/// The buffer that a code packs into, before any check of it, or the first
/// symbol of the code that is not in the alphabet of the format.
pub open spec fn code_buffer(format: Format, code: Seq<char>) -> Result<Seq<u8>, Error> {
    match plaintext(format, code) {
        Ok(values) => Ok(packed(packing_order(format, values))),
        Err(e) => Err(e),
    }
}

/// The buffer of a code has a byte for every eight bits of its symbols, the
/// last byte filled up: fifteen bytes for twenty symbols, and at most 39 for
/// at most 52.
pub proof fn lemma_code_buffer_len(format: Format, code: Seq<char>)
    ensures
        code_buffer(format, code) matches Ok(buffer) ==> {
            &&& buffer.len() == packed_len(code.len())
            &&& code.len() == 20 ==> buffer.len() == 15
            &&& code.len() <= 52 ==> buffer.len() <= 39
        },
{
    if let Ok(values) = plaintext(format, code) {
        lemma_symbol_indices(code_alphabet(format), code);
        lemma_packed_len(packing_order(format, values));
    }
}

/// The values of `values` from the last one to the first.
pub fn reversed(values: &[u8]) -> (turned: Vec<u8>)
    ensures
        turned@ == values@.reverse(),
{
    let mut turned: Vec<u8> = Vec::new();
    let mut i = values.len();
    while i > 0
        invariant
            i <= values.len(),
            turned@ == values@.reverse().take(values.len() - i),
        decreases i,
    {
        i -= 1;
        turned.push(values[i]);
    }
    turned
}

/// Packs the values of a code into a buffer, six bits for each symbol, in
/// the order of the format. A code of `n` symbols fills `n * 6 / 8` bytes,
/// rounded up: twenty symbols fill 15 bytes, and 52 symbols fill 39.
pub fn pack_code(code: &[char], format: Format) -> (result: Result<Vec<u8>, Error>)
    ensures
        match result {
            Ok(buffer) => code_buffer(format, code@) == Ok::<Seq<u8>, Error>(buffer@),
            Err(e) => code_buffer(format, code@) == Err::<Seq<u8>, Error>(e),
        },
        result matches Ok(buffer) ==> buffer@.len() == packed_len(code@.len()),
        result matches Ok(buffer) ==> (code@.len() == 20 ==> buffer@.len() == 15),
        result matches Ok(buffer) ==> (code@.len() <= 52 ==> buffer@.len() <= 39),
{
    match decode_symbols(code, format) {
        Err(e) => Err(e),
        Ok(values) => {
            match format {
                Format::A => {
                    let turned = reversed(values.as_slice());
                    Ok(pack_sextets(turned.as_slice()))
                },
                Format::B => Ok(pack_sextets(values.as_slice())),
            }
        },
    }
}

} // verus!
