//! What the search for candidates is sure to find, and what keeping the last
//! symbol leaves out.

use vstd::prelude::*;
use crate::codec::{code_alphabet, lemma_symbol_indices, symbol_indices, Format};
use crate::error::Error;
use crate::record::record_of_code;
use crate::recovery::{attempt, candidates, differing_upto, outcome, survivors, trial,
    tried_positions, CandidateView, OutcomeView};

verus! {

/// The candidates of an outcome; none where the input decodes as it is or
/// the search fails.
pub open spec fn found(result: Result<OutcomeView, Error>) -> Seq<CandidateView> {
    match result {
        Ok(OutcomeView::Recovered(candidates)) => candidates,
        _ => Seq::empty(),
    }
}

/// Whether a candidate differs from the input at `position` and nowhere
/// else.
pub open spec fn edits_only(candidate: CandidateView, position: nat) -> bool {
    candidate.diff == seq![position]
}

/// Each alphabet has 64 symbols.
pub proof fn lemma_alphabet_len(format: Format)
    ensures
        code_alphabet(format).len() == 64,
{
}

/// Every symbol of a code that decodes is in the alphabet of its format.
pub proof fn lemma_decodable_symbols(format: Format, code: Seq<char>, position: int)
    requires
        record_of_code(format, code) is Ok,
        0 <= position < code.len(),
    ensures
        exists|index: int|
            0 <= index < 64 && #[trigger] code_alphabet(format)[index] == code[position],
{
    lemma_alphabet_len(format);
    lemma_symbol_indices(code_alphabet(format), code);
    let indices = symbol_indices(code_alphabet(format), code)->Ok_0;
    let index = indices[position] as int;
    assert(code_alphabet(format)[index] == code[position]);
}

/// A code that differs from another at one position only differs at the
/// positions below `upto` exactly where that position is below `upto` and
/// the symbols there differ.
pub proof fn lemma_differing_upto(code: Seq<char>, position: int, symbol: char, upto: nat)
    requires
        0 <= position < code.len(),
        upto <= code.len(),
    ensures
        differing_upto(code.update(position, symbol), code, upto) == if position < upto && symbol
            != code[position] {
            seq![position as nat]
        } else {
            Seq::<nat>::empty()
        },
    decreases upto,
{
    if upto > 0 {
        lemma_differing_upto(code, position, symbol, (upto - 1) as nat);
        let changed = code.update(position, symbol);
        let earlier = differing_upto(changed, code, (upto - 1) as nat);
        if position == upto - 1 && symbol != code[position] {
            assert(earlier.push((upto - 1) as nat) =~= seq![position as nat]);
        }
    }
}

/// Where the input does not decode, the candidate of a trial differs from
/// the input at the position of the trial and nowhere else.
pub proof fn lemma_trial_edits_its_position(
    format: Format,
    code: Seq<char>,
    name: Option<Seq<char>>,
    flags: Option<u8>,
    t: nat,
)
    requires
        record_of_code(format, code) is Err,
        t < 64 * code.len(),
    ensures
        trial(format, code, name, flags, t) matches Some(candidate) ==> edits_only(candidate, t / 64),
{
    let position = t as int / 64;
    let symbol = code_alphabet(format)[t as int % 64];
    if trial(format, code, name, flags, t) is Some {
        if symbol == code[position] {
            assert(attempt(format, code, t) =~= code);
        }
        lemma_differing_upto(code, position, symbol, code.len());
    }
}

/// The candidate of every trial made is among the candidates collected.
pub proof fn lemma_survivors_hold_trials(
    format: Format,
    code: Seq<char>,
    name: Option<Seq<char>>,
    flags: Option<u8>,
    trials: nat,
    t: nat,
)
    requires
        t < trials,
        trial(format, code, name, flags, t) is Some,
    ensures
        survivors(format, code, name, flags, trials).contains(
            trial(format, code, name, flags, t)->0,
        ),
    decreases trials,
{
    let all = survivors(format, code, name, flags, trials);
    let earlier = survivors(format, code, name, flags, (trials - 1) as nat);
    if t == trials - 1 {
        assert(all.last() == trial(format, code, name, flags, t)->0);
    } else {
        lemma_survivors_hold_trials(format, code, name, flags, (trials - 1) as nat, t);
        let k = choose|k: int|
            0 <= k < earlier.len() && earlier[k] == trial(format, code, name, flags, t)->0;
        assert(all[k] == earlier[k]);
    }
}

/// Every candidate collected is the candidate of one of the trials made.
pub proof fn lemma_survivors_come_from_trials(
    format: Format,
    code: Seq<char>,
    name: Option<Seq<char>>,
    flags: Option<u8>,
    trials: nat,
    k: int,
)
    requires
        0 <= k < survivors(format, code, name, flags, trials).len(),
    ensures
        exists|t: nat|
            t < trials && #[trigger] trial(format, code, name, flags, t) == Some(
                survivors(format, code, name, flags, trials)[k],
            ),
    decreases trials,
{
    let all = survivors(format, code, name, flags, trials);
    let earlier = survivors(format, code, name, flags, (trials - 1) as nat);
    let t = (trials - 1) as nat;
    if k < earlier.len() {
        lemma_survivors_come_from_trials(format, code, name, flags, t, k);
        assert(all[k] == earlier[k]);
    } else {
        assert(trial(format, code, name, flags, t) == Some(all[k]));
    }
}

/// The candidates for an input are exactly the codes that come from the
/// input by putting one symbol of the alphabet at one of the positions
/// tried, that decode, and whose records meet the constraints.
pub proof fn lemma_candidates_are_the_trials_that_decode(
    format: Format,
    code: Seq<char>,
    name: Option<Seq<char>>,
    flags: Option<u8>,
    keep_checksum: bool,
    candidate: CandidateView,
)
    ensures
        candidates(format, code, name, flags, keep_checksum).contains(candidate) <==> exists|t: nat|
            t < 64 * tried_positions(code.len(), keep_checksum) && #[trigger] trial(
                format,
                code,
                name,
                flags,
                t,
            ) == Some(candidate),
{
    let trials = 64 * tried_positions(code.len(), keep_checksum);
    let all = candidates(format, code, name, flags, keep_checksum);
    if all.contains(candidate) {
        let k = choose|k: int| 0 <= k < all.len() && all[k] == candidate;
        lemma_survivors_come_from_trials(format, code, name, flags, trials, k);
    }
    if exists|t: nat| t < trials && #[trigger] trial(format, code, name, flags, t) == Some(candidate) {
        let t = choose|t: nat|
            t < trials && #[trigger] trial(format, code, name, flags, t) == Some(candidate);
        lemma_survivors_hold_trials(format, code, name, flags, trials, t);
    }
}

/// Where one symbol of a code that decodes is replaced by any other, the
/// search without constraints finds the code again: it is among the
/// candidates, with its own record, so that the work on the changed code
/// does not fail. Where the last symbol is kept, this holds for every
/// position but the last.
pub proof fn lemma_intact_code_is_found(
    format: Format,
    intact: Seq<char>,
    corrupted: Seq<char>,
    position: int,
    keep_checksum: bool,
)
    requires
        record_of_code(format, intact) is Ok,
        0 <= position < intact.len(),
        corrupted.len() == intact.len(),
        forall|i: int| 0 <= i < intact.len() && i != position ==> corrupted[i] == intact[i],
        keep_checksum ==> position < intact.len() - 1,
    ensures
        exists|k: int|
            #![trigger candidates(format, corrupted, None, None, keep_checksum)[k]]
            {
                let all = candidates(format, corrupted, None, None, keep_checksum);
                &&& 0 <= k < all.len()
                &&& all[k].code == intact
                &&& record_of_code(format, intact) == Ok::<_, Error>(all[k].record)
            },
        outcome(format, corrupted, None, None, keep_checksum) is Ok,
{
    lemma_decodable_symbols(format, intact, position);
    let index = choose|index: int|
        0 <= index < 64 && #[trigger] code_alphabet(format)[index] == intact[position];
    let t = (64 * position + index) as nat;
    assert(t as int / 64 == position && t as int % 64 == index);
    assert(attempt(format, corrupted, t) =~= intact);
    let trials = 64 * tried_positions(corrupted.len(), keep_checksum);
    assert(t < trials);
    lemma_survivors_hold_trials(format, corrupted, None, None, trials, t);
    let all = candidates(format, corrupted, None, None, keep_checksum);
    let hit = trial(format, corrupted, None, None, t)->0;
    let k = choose|k: int| 0 <= k < all.len() && all[k] == hit;
    assert(all[k].code == intact);
}

/// Where the input does not decode, leaving out of the candidates of the
/// first `trials` trials those that only edit the last position gives the
/// candidates of the trials at the positions before it.
proof fn lemma_filter_survivors(
    format: Format,
    code: Seq<char>,
    name: Option<Seq<char>>,
    flags: Option<u8>,
    trials: nat,
)
    requires
        record_of_code(format, code) is Err,
        code.len() > 0,
        trials <= 64 * code.len(),
    ensures
        survivors(format, code, name, flags, trials).filter(
            |c: CandidateView| !edits_only(c, (code.len() - 1) as nat),
        ) == survivors(
            format,
            code,
            name,
            flags,
            if trials <= 64 * (code.len() - 1) {
                trials
            } else {
                (64 * (code.len() - 1)) as nat
            },
        ),
    decreases trials,
{
    reveal(Seq::filter);
    let last = (code.len() - 1) as nat;
    let pred = |c: CandidateView| !edits_only(c, last);
    if trials > 0 {
        let t = (trials - 1) as nat;
        lemma_filter_survivors(format, code, name, flags, t);
        lemma_trial_edits_its_position(format, code, name, flags, t);
        let earlier = survivors(format, code, name, flags, t);
        match trial(format, code, name, flags, t) {
            Some(candidate) => {
                assert(earlier.push(candidate).drop_last() =~= earlier);
                assert(candidate.diff == seq![t / 64]);
                if t < 64 * last {
                    assert(t / 64 != last);
                    assert(seq![t / 64][0] != seq![last][0]);
                    assert(pred(candidate));
                } else {
                    assert(t / 64 == last);
                    assert(!pred(candidate));
                }
            },
            None => {},
        }
    }
}

/// Keeping the last symbol leaves out exactly the candidates that only edit
/// the last position: an input decodes as it is with the last symbol kept
/// just when it does without, and then to the same record; else the
/// candidates with the last symbol kept are the candidates without, less
/// those whose only edit is at the last position, in the same order.
pub proof fn lemma_keep_checksum(
    format: Format,
    code: Seq<char>,
    name: Option<Seq<char>>,
    flags: Option<u8>,
)
    ensures
        outcome(format, code, name, flags, true) matches Ok(OutcomeView::AlreadyValid(record))
            ==> outcome(format, code, name, flags, false) == Ok::<_, Error>(
            OutcomeView::AlreadyValid(record),
        ),
        outcome(format, code, name, flags, false) matches Ok(OutcomeView::AlreadyValid(record))
            ==> outcome(format, code, name, flags, true) == Ok::<_, Error>(
            OutcomeView::AlreadyValid(record),
        ),
        found(outcome(format, code, name, flags, true)) == found(
            outcome(format, code, name, flags, false),
        ).filter(|c: CandidateView| !edits_only(c, (code.len() - 1) as nat)),
        forall|k: int|
            0 <= k < found(outcome(format, code, name, flags, true)).len() ==> !edits_only(
                #[trigger] found(outcome(format, code, name, flags, true))[k],
                (code.len() - 1) as nat,
            ),
{
    reveal(Seq::filter);
    let last = (code.len() - 1) as nat;
    let pred = |c: CandidateView| !edits_only(c, last);
    let kept = found(outcome(format, code, name, flags, true));
    let all = found(outcome(format, code, name, flags, false));
    if record_of_code(format, code) is Err && code.len() > 0 {
        lemma_filter_survivors(format, code, name, flags, 64 * code.len());
        assert(candidates(format, code, name, flags, true) == candidates(
            format,
            code,
            name,
            flags,
            false,
        ).filter(pred));
        assert(all == candidates(format, code, name, flags, false));
        assert(kept == candidates(format, code, name, flags, true));
        assert(kept == all.filter(pred));
        broadcast use vstd::seq_lib::group_filter_ensures;
    } else {
        assert(kept == Seq::<CandidateView>::empty());
        assert(all == Seq::<CandidateView>::empty());
    }
}

} // verus!
