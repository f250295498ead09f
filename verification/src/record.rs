//! Save records of either format.

use vstd::prelude::*;
use crate::codec::Format;
use crate::error::Error;

verus! {

/// A save record: that of the first format or that of the second.
#[derive(Clone, Copy, Debug, PartialEq, Eq)]
pub enum SaveRecord {
    /// A record of the first format.
    FormatA(crate::dq1::GameData),
    /// A record of the second format.
    FormatB(crate::dq2::GameData),
}

/// What a save record holds.
pub enum SaveRecordView {
    FormatA(crate::dq1::GameDataView),
    FormatB(crate::dq2::GameDataView),
}

impl View for SaveRecord {
    type V = SaveRecordView;

    open spec fn view(&self) -> SaveRecordView {
        match self {
            SaveRecord::FormatA(data) => SaveRecordView::FormatA(data@),
            SaveRecord::FormatB(data) => SaveRecordView::FormatB(data@),
        }
    }
}

/// The record of a code of the given format, or why it has none.
pub open spec fn record_of_code(format: Format, code: Seq<char>) -> Result<SaveRecordView, Error> {
    match format {
        Format::A => match crate::dq1::record_of_code(code) {
            Ok(data) => Ok(SaveRecordView::FormatA(data)),
            Err(e) => Err(e),
        },
        Format::B => match crate::dq2::record_of_code(code) {
            Ok(data) => Ok(SaveRecordView::FormatB(data)),
            Err(e) => Err(e),
        },
    }
}

/// The name in a record: the player's, or the hero's.
pub open spec fn name_of(record: SaveRecordView) -> Seq<char> {
    match record {
        SaveRecordView::FormatA(data) => data.name,
        SaveRecordView::FormatB(data) => data.hero_name,
    }
}

/// The progress flags of a record.
pub open spec fn flags_of(record: SaveRecordView) -> Seq<bool> {
    match record {
        SaveRecordView::FormatA(data) => data.progress_flags,
        SaveRecordView::FormatB(data) => data.progress_flags,
    }
}

/// The number that a run of flags spells, the first flag being the most
/// significant bit.
pub open spec fn flag_mask(flags: Seq<bool>) -> nat
    decreases flags.len(),
{
    if flags.len() == 0 {
        0
    } else {
        2 * flag_mask(flags.drop_last()) + if flags.last() { 1nat } else { 0nat }
    }
}

/// Whether a record could come from its game.
pub open spec fn plausible(record: SaveRecordView) -> bool {
    match record {
        SaveRecordView::FormatA(data) => crate::dq1::plausible(data),
        SaveRecordView::FormatB(data) => crate::dq2::plausible(data),
    }
}

/// A run of at most seven flags spells a number below 128.
pub proof fn lemma_flag_mask_bound(flags: Seq<bool>)
    requires
        flags.len() <= 7,
    ensures
        flag_mask(flags) < 128,
{
    reveal_with_fuel(flag_mask, 8);
}

/// Decodes the symbols of a code of the given format into its record.
pub fn decode(code: &[char], format: Format) -> (result: Result<SaveRecord, Error>)
    ensures
        match result {
            Ok(record) => record_of_code(format, code@) == Ok::<SaveRecordView, Error>(record@),
            Err(e) => record_of_code(format, code@) == Err::<SaveRecordView, Error>(e),
        },
{
    match format {
        Format::A => match crate::dq1::decode_code(code) {
            Ok(data) => Ok(SaveRecord::FormatA(data)),
            Err(e) => Err(e),
        },
        Format::B => match crate::dq2::decode_code(code) {
            Ok(data) => Ok(SaveRecord::FormatB(data)),
            Err(e) => Err(e),
        },
    }
}

/// The number that the flags spell, the first flag being the most
/// significant bit.
fn mask_of(flags: &[bool]) -> (mask: u8)
    requires
        flags@.len() <= 7,
    ensures
        mask as nat == flag_mask(flags@),
{
    let mut mask: u8 = 0;
    let mut i: usize = 0;
    while i < flags.len()
        invariant
            i <= flags.len() <= 7,
            mask as nat == flag_mask(flags@.take(i as int)),
        decreases flags.len() - i,
    {
        proof {
            assert(flags@.take(i + 1).drop_last() == flags@.take(i as int));
            lemma_flag_mask_bound(flags@.take(i as int));
            lemma_flag_mask_bound(flags@.take(i + 1));
        }
        mask = mask * 2 + if flags[i] { 1 } else { 0 };
        i += 1;
    }
    proof {
        assert(flags@.take(flags@.len() as int) == flags@);
    }
    mask
}

/// Whether the four symbols of a name are the characters of `wanted`.
fn same_name(name: &[char; 4], wanted: &[char]) -> (same: bool)
    ensures
        same == (name@ == wanted@),
{
    if wanted.len() != 4 {
        return false;
    }
    let mut i: usize = 0;
    while i < 4
        invariant
            i <= 4,
            wanted@.len() == 4,
            forall|j: int| 0 <= j < i ==> name@[j] == wanted@[j],
        decreases 4 - i,
    {
        if name[i] != wanted[i] {
            return false;
        }
        i += 1;
    }
    assert(name@ =~= wanted@);
    true
}

impl SaveRecord {
    /// Whether the name in the record is `wanted`.
    pub fn has_name(&self, wanted: &[char]) -> (same: bool)
        ensures
            same == (name_of(self@) == wanted@),
    {
        match self {
            SaveRecord::FormatA(data) => same_name(&data.name, wanted),
            SaveRecord::FormatB(data) => same_name(&data.hero_name, wanted),
        }
    }

    /// The number that the progress flags of the record spell.
    pub fn progress_mask(&self) -> (mask: u8)
        ensures
            mask as nat == flag_mask(flags_of(self@)),
    {
        match self {
            SaveRecord::FormatA(data) => mask_of(data.progress_flags.as_slice()),
            SaveRecord::FormatB(data) => mask_of(data.progress_flags.as_slice()),
        }
    }

    /// Whether the record could come from its game.
    pub fn is_plausible(&self) -> (ok: bool)
        ensures
            ok == plausible(self@),
    {
        match self {
            SaveRecord::FormatA(data) => data.is_plausible(),
            SaveRecord::FormatB(data) => data.is_plausible(),
        }
    }
}

} // verus!
