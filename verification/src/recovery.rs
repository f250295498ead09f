//! Repairing a code by trying every substitution of one symbol.
//!
//! A code that does not decode is tried again with each of its symbols
//! replaced in turn by each symbol of the alphabet. The codes that decode,
//! and whose records meet the caller's constraints, are the candidates, in
//! the order of the trials: by position first, then by the alphabet.

use vstd::prelude::*;
use crate::codec::{code_alphabet, Format};
use crate::error::Error;
use crate::record::{decode, flag_mask, flags_of, name_of, plausible, record_of_code, SaveRecord,
    SaveRecordView};
use crate::text::{chars_of, string_of};

verus! {

/// A code that decodes, found by substituting one symbol of an input.
#[derive(Clone, Debug, PartialEq, Eq)]
pub struct Candidate {
    /// The code.
    pub code: String,
    /// The record that the code decodes to.
    pub record: SaveRecord,
    /// The positions at which the code differs from the input, ascending.
    pub diff: Vec<usize>,
}

/// What a candidate holds.
pub struct CandidateView {
    pub code: Seq<char>,
    pub record: SaveRecordView,
    pub diff: Seq<nat>,
}

impl View for Candidate {
    type V = CandidateView;

    open spec fn view(&self) -> CandidateView {
        CandidateView {
            code: self.code@,
            record: self.record@,
            diff: self.diff@.map_values(|p: usize| p as nat),
        }
    }
}

/// How the work on an input ended, where it did not fail.
#[derive(Clone, Debug, PartialEq, Eq)]
pub enum Outcome {
    /// The input decodes as it is; this is its record.
    AlreadyValid(SaveRecord),
    /// The input does not decode; these are the candidates, at least one.
    Recovered(Vec<Candidate>),
}

/// What an outcome holds.
pub enum OutcomeView {
    AlreadyValid(SaveRecordView),
    Recovered(Seq<CandidateView>),
}

/// What a run of candidates holds.
pub open spec fn candidate_views(candidates: Seq<Candidate>) -> Seq<CandidateView> {
    candidates.map_values(|c: Candidate| c@)
}

impl View for Outcome {
    type V = OutcomeView;

    open spec fn view(&self) -> OutcomeView {
        match self {
            Outcome::AlreadyValid(record) => OutcomeView::AlreadyValid(record@),
            Outcome::Recovered(candidates) => OutcomeView::Recovered(candidate_views(candidates@)),
        }
    }
}

/// The positions below `upto` at which two codes differ, ascending.
pub open spec fn differing_upto(code: Seq<char>, input: Seq<char>, upto: nat) -> Seq<nat>
    decreases upto,
{
    if upto == 0 {
        Seq::empty()
    } else {
        let earlier = differing_upto(code, input, (upto - 1) as nat);
        if code[upto - 1] != input[upto - 1] {
            earlier.push((upto - 1) as nat)
        } else {
            earlier
        }
    }
}

/// The positions at which two codes differ, as far as both reach.
pub open spec fn differing_positions(code: Seq<char>, input: Seq<char>) -> Seq<nat> {
    differing_upto(
        code,
        input,
        if code.len() <= input.len() {
            code.len()
        } else {
            input.len()
        },
    )
}

/// Whether a record meets the caller's constraints: it has the name, where
/// one is given; its progress flags spell the number, where one is given;
/// and where either is given, it could come from its game.
pub open spec fn meets(record: SaveRecordView, name: Option<Seq<char>>, flags: Option<u8>) -> bool {
    &&& name matches Some(wanted) ==> name_of(record) == wanted
    &&& flags matches Some(mask) ==> flag_mask(flags_of(record)) == mask
    &&& name is Some || flags is Some ==> plausible(record)
}

/// The code of trial `t`: the input with the symbol at position `t / 64`
/// replaced by symbol `t % 64` of the alphabet.
pub open spec fn attempt(format: Format, code: Seq<char>, t: nat) -> Seq<char> {
    code.update(t as int / 64, code_alphabet(format)[t as int % 64])
}

/// The candidate of trial `t`, where its code decodes and its record meets
/// the constraints.
pub open spec fn trial(
    format: Format,
    code: Seq<char>,
    name: Option<Seq<char>>,
    flags: Option<u8>,
    t: nat,
) -> Option<CandidateView> {
    let tried = attempt(format, code, t);
    match record_of_code(format, tried) {
        Ok(record) => if meets(record, name, flags) {
            Some(CandidateView { code: tried, record, diff: differing_positions(tried, code) })
        } else {
            None
        },
        Err(_) => None,
    }
}

/// The candidates of the first `trials` trials, in the order of the trials.
pub open spec fn survivors(
    format: Format,
    code: Seq<char>,
    name: Option<Seq<char>>,
    flags: Option<u8>,
    trials: nat,
) -> Seq<CandidateView>
    decreases trials,
{
    if trials == 0 {
        Seq::empty()
    } else {
        let earlier = survivors(format, code, name, flags, (trials - 1) as nat);
        match trial(format, code, name, flags, (trials - 1) as nat) {
            Some(candidate) => earlier.push(candidate),
            None => earlier,
        }
    }
}

/// How many positions of a code are tried: all of them, or all but the last
/// where the last symbol is to be kept.
pub open spec fn tried_positions(len: nat, keep_checksum: bool) -> nat {
    if keep_checksum && len > 0 {
        (len - 1) as nat
    } else {
        len
    }
}

/// The candidates for an input.
pub open spec fn candidates(
    format: Format,
    code: Seq<char>,
    name: Option<Seq<char>>,
    flags: Option<u8>,
    keep_checksum: bool,
) -> Seq<CandidateView> {
    survivors(format, code, name, flags, 64 * tried_positions(code.len(), keep_checksum))
}

/// How the work on an input ends: with its record where it decodes as it
/// is, whatever the constraints; else with its candidates; and with a failure
/// where there is none.
pub open spec fn outcome(
    format: Format,
    code: Seq<char>,
    name: Option<Seq<char>>,
    flags: Option<u8>,
    keep_checksum: bool,
) -> Result<OutcomeView, Error> {
    match record_of_code(format, code) {
        Ok(record) => Ok(OutcomeView::AlreadyValid(record)),
        Err(_) => {
            let found = candidates(format, code, name, flags, keep_checksum);
            if found.len() == 0 {
                Err(Error::RecoveryFailed)
            } else {
                Ok(OutcomeView::Recovered(found))
            }
        },
    }
}

/// The characters of a text that may be absent.
pub open spec fn wanted_text(name: Option<String>) -> Option<Seq<char>> {
    match name {
        Some(text) => Some(text@),
        None => None,
    }
}

/// The characters of a name that may be absent.
pub open spec fn wanted_chars(name: Option<Vec<char>>) -> Option<Seq<char>> {
    match name {
        Some(chars) => Some(chars@),
        None => None,
    }
}

/// The positions at which two codes differ, as far as both reach.
pub fn diff_positions(code: &[char], input: &[char]) -> (diff: Vec<usize>)
    ensures
        diff@.map_values(|p: usize| p as nat) == differing_positions(code@, input@),
{
    let end = if code.len() <= input.len() {
        code.len()
    } else {
        input.len()
    };
    let mut diff: Vec<usize> = Vec::new();
    let mut i: usize = 0;
    while i < end
        invariant
            i <= end,
            end <= code@.len(),
            end <= input@.len(),
            diff@.map_values(|p: usize| p as nat) == differing_upto(code@, input@, i as nat),
        decreases end - i,
    {
        if code[i] != input[i] {
            let ghost before = diff@;
            diff.push(i);
            assert(diff@.map_values(|p: usize| p as nat) == before.map_values(|p: usize| p as nat).push(
                i as nat,
            ));
        }
        i += 1;
    }
    diff
}

/// Whether a record meets the caller's constraints.
pub fn meets_constraints(record: &SaveRecord, name: &Option<Vec<char>>, flags: Option<u8>) -> (ok:
    bool)
    ensures
        ok == meets(record@, wanted_chars(*name), flags),
{
    if let Some(wanted) = name {
        if !record.has_name(wanted.as_slice()) {
            return false;
        }
    }
    if let Some(mask) = flags {
        if record.progress_mask() != mask {
            return false;
        }
    }
    if name.is_some() || flags.is_some() {
        record.is_plausible()
    } else {
        true
    }
}

/// Symbol `index` of the alphabet of a format.
pub fn alphabet_symbol(format: Format, index: usize) -> (symbol: char)
    requires
        index < 64,
    ensures
        symbol == code_alphabet(format)[index as int],
{
    match format {
        Format::A => crate::dq1::JUMON_MOJI_TABLE[index],
        Format::B => crate::dq2::JUMON_MOJI_TABLE[index],
    }
}

/// Tries every substitution of one symbol of `code` and collects the
/// candidates. The last position is left alone where `keep_checksum` is set.
pub fn search(
    code: &[char],
    format: Format,
    name: &Option<Vec<char>>,
    flags: Option<u8>,
    keep_checksum: bool,
) -> (found: Vec<Candidate>)
    ensures
        candidate_views(found@) == candidates(
            format,
            code@,
            wanted_chars(*name),
            flags,
            keep_checksum,
        ),
{
    let len = code.len();
    let positions = if keep_checksum && len > 0 {
        len - 1
    } else {
        len
    };
    let mut tried: Vec<char> = Vec::new();
    let mut c: usize = 0;
    while c < len
        invariant
            c <= len == code@.len(),
            tried@ == code@.take(c as int),
        decreases len - c,
    {
        tried.push(code[c]);
        c += 1;
    }
    assert(tried@ == code@);
    let mut found: Vec<Candidate> = Vec::new();
    let mut position: usize = 0;
    while position < positions
        invariant
            position <= positions <= code@.len(),
            tried@ == code@,
            candidate_views(found@) == survivors(
                format,
                code@,
                wanted_chars(*name),
                flags,
                (64 * position) as nat,
            ),
        decreases positions - position,
    {
        let mut index: usize = 0;
        while index < 64
            invariant
                index <= 64,
                position < positions <= code@.len(),
                tried@.len() == code@.len(),
                tried@.update(position as int, code@[position as int]) == code@,
                candidate_views(found@) == survivors(
                    format,
                    code@,
                    wanted_chars(*name),
                    flags,
                    (64 * position + index) as nat,
                ),
            decreases 64 - index,
        {
            let ghost t = (64 * position + index) as nat;
            let symbol = alphabet_symbol(format, index);
            tried[position] = symbol;
            proof {
                assert(t as int / 64 == position && t as int % 64 == index);
                assert(tried@ == attempt(format, code@, t));
            }
            match decode(tried.as_slice(), format) {
                Ok(record) => {
                    if meets_constraints(&record, name, flags) {
                        let candidate = Candidate {
                            code: string_of(tried.as_slice()),
                            record,
                            diff: diff_positions(tried.as_slice(), code),
                        };
                        let ghost before = found@;
                        found.push(candidate);
                        assert(candidate_views(found@) == candidate_views(before).push(
                            candidate@,
                        ));
                    }
                },
                Err(_) => {},
            }
            index += 1;
        }
        tried[position] = code[position];
        position += 1;
    }
    found
}

/// Works on the symbols of an input: decodes them as they are, and where
/// that fails, searches for candidates.
pub fn process_code(
    code: &[char],
    format: Format,
    name: &Option<Vec<char>>,
    progress_flags: Option<u8>,
    keep_checksum: bool,
) -> (result: Result<Outcome, Error>)
    ensures
        match result {
            Ok(done) => outcome(format, code@, wanted_chars(*name), progress_flags, keep_checksum)
                == Ok::<OutcomeView, Error>(done@),
            Err(e) => outcome(format, code@, wanted_chars(*name), progress_flags, keep_checksum)
                == Err::<OutcomeView, Error>(e),
        },
{
    if let Ok(record) = decode(code, format) {
        return Ok(Outcome::AlreadyValid(record));
    }
    let found = search(code, format, name, progress_flags, keep_checksum);
    if found.len() == 0 {
        Err(Error::RecoveryFailed)
    } else {
        Ok(Outcome::Recovered(found))
    }
}

/// The characters of a text that may be absent.
pub fn chars_of_wanted(name: &Option<String>) -> (wanted: Option<Vec<char>>)
    ensures
        wanted_chars(wanted) == wanted_text(*name),
{
    match name {
        Some(text) => Some(chars_of(text.as_str())),
        None => None,
    }
}

/// Works on an input given as text: decodes it as it is, and where that
/// fails, searches for candidates.
pub fn process(
    input: &str,
    format: Format,
    name: Option<String>,
    progress_flags: Option<u8>,
    keep_checksum: bool,
) -> (result: Result<Outcome, Error>)
    ensures
        match result {
            Ok(done) => outcome(format, input@, wanted_text(name), progress_flags, keep_checksum)
                == Ok::<OutcomeView, Error>(done@),
            Err(e) => outcome(format, input@, wanted_text(name), progress_flags, keep_checksum)
                == Err::<OutcomeView, Error>(e),
        },
{
    let code = chars_of(input);
    let wanted = chars_of_wanted(&name);
    process_code(code.as_slice(), format, &wanted, progress_flags, keep_checksum)
}

/// Works on an input of the first format: where it decodes as it is, the
/// result is its record; else the result is the candidates that one
/// substitution gives, and a failure where there is none.
pub fn process_dq1(
    input: &str,
    name: Option<String>,
    progress_flags: Option<u8>,
    keep_checksum: bool,
) -> (result: Result<Outcome, Error>)
    ensures
        match result {
            Ok(done) => outcome(Format::A, input@, wanted_text(name), progress_flags, keep_checksum)
                == Ok::<OutcomeView, Error>(done@),
            Err(e) => outcome(Format::A, input@, wanted_text(name), progress_flags, keep_checksum)
                == Err::<OutcomeView, Error>(e),
        },
{
    process(input, Format::A, name, progress_flags, keep_checksum)
}

/// Works on an input of the second format: where it decodes as it is, the
/// result is its record; else the result is the candidates that one
/// substitution gives, and a failure where there is none.
pub fn process_dq2(
    input: &str,
    name: Option<String>,
    progress_flags: Option<u8>,
    keep_checksum: bool,
) -> (result: Result<Outcome, Error>)
    ensures
        match result {
            Ok(done) => outcome(Format::B, input@, wanted_text(name), progress_flags, keep_checksum)
                == Ok::<OutcomeView, Error>(done@),
            Err(e) => outcome(Format::B, input@, wanted_text(name), progress_flags, keep_checksum)
                == Err::<OutcomeView, Error>(e),
        },
{
    process(input, Format::B, name, progress_flags, keep_checksum)
}

} // verus!
