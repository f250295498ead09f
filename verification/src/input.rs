//! Telling the format of an input, and working on it in that format.

use vstd::prelude::*;
use crate::codec::{code_alphabet, symbol_index, Format};
use crate::error::Error;
use crate::recovery::{chars_of_wanted, outcome, process_code, wanted_text, Outcome, OutcomeView};
use crate::text::chars_of;

verus! {

/// Whether a text can be a code of a format: all its characters are symbols
/// of the format's alphabet, and it has twenty of them for the first format,
/// or between one and 52 for the second.
pub open spec fn eligible(format: Format, code: Seq<char>) -> bool {
    &&& forall|i: int| 0 <= i < code.len() ==> code_alphabet(format).contains(#[trigger] code[i])
    &&& match format {
        Format::A => code.len() == crate::dq1::CODE_LENGTH,
        Format::B => 1 <= code.len() <= crate::dq2::MAX_CODE_LENGTH,
    }
}

/// How an input is worked on: as a code of the first format where it can be
/// one, and, where that fails, as a code of the second; else as a code of
/// the second format where it can be one. The result names the format that
/// the outcome belongs to; there is none where the input can be a code of
/// neither format.
pub open spec fn routed(
    code: Seq<char>,
    name: Option<Seq<char>>,
    flags: Option<u8>,
    keep_checksum: bool,
) -> Option<(Format, Result<OutcomeView, Error>)> {
    if eligible(Format::A, code) {
        match outcome(Format::A, code, name, flags, keep_checksum) {
            Ok(done) => Some((Format::A, Ok(done))),
            Err(_) => Some((Format::B, outcome(Format::B, code, name, flags, keep_checksum))),
        }
    } else if eligible(Format::B, code) {
        Some((Format::B, outcome(Format::B, code, name, flags, keep_checksum)))
    } else {
        None
    }
}

/// What the result of the work on an input holds.
pub open spec fn routed_view(result: Option<(Format, Result<Outcome, Error>)>) -> Option<
    (Format, Result<OutcomeView, Error>),
> {
    match result {
        Some((format, Ok(done))) => Some((format, Ok(done@))),
        Some((format, Err(e))) => Some((format, Err(e))),
        None => None,
    }
}

/// Whether the symbols of a text make it a possible code of a format.
pub fn is_eligible(code: &[char], format: Format) -> (ok: bool)
    ensures
        ok == eligible(format, code@),
{
    let length_fits = match format {
        Format::A => code.len() == crate::dq1::CODE_LENGTH,
        Format::B => 1 <= code.len() && code.len() <= crate::dq2::MAX_CODE_LENGTH,
    };
    if !length_fits {
        return false;
    }
    let mut i: usize = 0;
    while i < code.len()
        invariant
            i <= code.len(),
            forall|j: int| 0 <= j < i ==> code_alphabet(format).contains(#[trigger] code@[j]),
        decreases code.len() - i,
    {
        let found = match format {
            Format::A => symbol_index(&crate::dq1::JUMON_MOJI_TABLE, code[i]),
            Format::B => symbol_index(&crate::dq2::JUMON_MOJI_TABLE, code[i]),
        };
        proof {
            code_alphabet(format).index_of_first_ensures(code@[i as int]);
        }
        if found.is_none() {
            return false;
        }
        i += 1;
    }
    true
}

/// Works on an input of either format. The input is taken as a code of the
/// first format where it can be one, and as a code of the second where the
/// first gives no result or the input can only be one of the second.
pub fn process_input(
    input: &str,
    name: Option<String>,
    progress_flags: Option<u8>,
    keep_checksum: bool,
) -> (result: Option<(Format, Result<Outcome, Error>)>)
    ensures
        routed_view(result) == routed(input@, wanted_text(name), progress_flags, keep_checksum),
{
    let code = chars_of(input);
    let wanted = chars_of_wanted(&name);
    if is_eligible(code.as_slice(), Format::A) {
        match process_code(code.as_slice(), Format::A, &wanted, progress_flags, keep_checksum) {
            Ok(done) => Some((Format::A, Ok(done))),
            Err(_) => Some(
                (
                    Format::B,
                    process_code(code.as_slice(), Format::B, &wanted, progress_flags, keep_checksum),
                ),
            ),
        }
    } else if is_eligible(code.as_slice(), Format::B) {
        Some(
            (
                Format::B,
                process_code(code.as_slice(), Format::B, &wanted, progress_flags, keep_checksum),
            ),
        )
    } else {
        None
    }
}

} // verus!
