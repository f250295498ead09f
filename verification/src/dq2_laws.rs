//! Where each field of the fixed part of a record of the second format lies
//! in the buffer.
//!
//! The record of a buffer is defined by reading the fields of the field list
//! one after the other, and then the party. Here the fixed part, and the
//! start of the hero's block after it, are written out byte by byte, and the
//! two are proved to agree. What follows the start of the hero's block has
//! no fixed place in the buffer: it lies where the numbers of items put it.

use vstd::prelude::*;
use vstd::arithmetic::power2::pow2;
use crate::bits::{bits_of_bytes, lemma_byte_of_bits, lemma_field_in_byte,
    lemma_value_of_joined_bits, value_of_bits};
use crate::checksum::{checksum_b, stored_checksum_b};
use crate::dq2::{blank, blank_header, checked_buffer, header_record, layout_spec, lemma_layout,
    member_head, record_of_bytes, record_of_code, store_spec, stored, with_party, Field,
    GameDataView, HeaderView, NAME_MOJI_TABLE};
use crate::layout::{field_values, lemma_field_of_byte, lemma_field_values, width_of_first};

verus! {

/// The fixed part of a record as the first nine bytes of a buffer hold it,
/// field by field: where each field lies in the buffer. The index of the
/// second symbol of the name lies in four places.
pub open spec fn fixed_part_by_bytes(b: Seq<u8>) -> GameDataView {
    GameDataView {
        hero_name: seq![
            NAME_MOJI_TABLE@[(b[3] & 0x3f) as int],
            NAME_MOJI_TABLE@[(((b[1] & 0x03) << 4) | ((b[3] >> 6) << 1) | (b[5] >> 7) | ((b[5]
                & 0x01) << 3)) as int],
            NAME_MOJI_TABLE@[(b[1] >> 2) as int],
            NAME_MOJI_TABLE@[((b[5] >> 1) & 0x3f) as int],
        ],
        gold: ((b[2] as u16) << 8) | (b[4] as u16),
        location: b[0] & 0x07,
        progress_flags: seq![
            b[6] & 0x40 != 0,
            b[6] & 0x20 != 0,
            b[6] & 0x10 != 0,
            b[6] & 0x08 != 0,
            b[6] & 0x04 != 0,
            b[6] & 0x02 != 0,
            b[6] & 0x01 != 0,
        ],
        crests: seq![
            b[7] & 0x10 != 0,
            b[7] & 0x08 != 0,
            b[7] & 0x04 != 0,
            b[7] & 0x02 != 0,
            b[7] & 0x01 != 0,
        ],
        encryption_key: (b[6] >> 7) | ((b[7] >> 5) << 1),
        checksum: (((b[0] >> 3) as u16) << 6) | ((b[8] & 0x3f) as u16),
        ..blank()
    }
}

spec fn stored_upto_6(values: Seq<u16>) -> HeaderView {
    HeaderView {
        data: GameDataView {
            hero_name: seq!['\0', '\0', NAME_MOJI_TABLE@[(values[2] % 64) as int], '\0'],
            gold: (0u16) | (values[4] << 8),
            location: (values[1] % 256) as u8,
            progress_flags: seq![false, false, false, false, false, false, false],
            crests: seq![false, false, false, false, false],
            encryption_key: 0u8,
            checksum: (0u16) | (values[0] << 6),
            ..blank()
        },
        name_index: ((0u8) | (((values[3] % 256) as u8) << 4u32)) | (((values[5] % 256) as u8) << 1u32),
        spare_bits: 0u8,
    }
}

spec fn stored_upto_12(values: Seq<u16>) -> HeaderView {
    HeaderView {
        data: GameDataView {
            hero_name: seq![NAME_MOJI_TABLE@[(values[6] % 64) as int], '\0', NAME_MOJI_TABLE@[(values[2] % 64) as int], NAME_MOJI_TABLE@[(values[9] % 64) as int]],
            gold: ((0u16) | (values[4] << 8)) | values[7],
            location: (values[1] % 256) as u8,
            progress_flags: seq![false, false, false, false, false, false, false],
            crests: seq![false, false, false, false, false],
            encryption_key: (0u8) | ((values[11] % 256) as u8),
            checksum: (0u16) | (values[0] << 6),
            ..blank()
        },
        name_index: ((((0u8) | (((values[3] % 256) as u8) << 4u32)) | (((values[5] % 256) as u8) << 1u32)) | (((values[8] % 256) as u8) << 0u32)) | (((values[10] % 256) as u8) << 3u32),
        spare_bits: 0u8,
    }
}

spec fn stored_upto_18(values: Seq<u16>) -> HeaderView {
    HeaderView {
        data: GameDataView {
            hero_name: seq![NAME_MOJI_TABLE@[(values[6] % 64) as int], '\0', NAME_MOJI_TABLE@[(values[2] % 64) as int], NAME_MOJI_TABLE@[(values[9] % 64) as int]],
            gold: ((0u16) | (values[4] << 8)) | values[7],
            location: (values[1] % 256) as u8,
            progress_flags: seq![values[12] != 0, values[13] != 0, values[14] != 0, values[15] != 0, values[16] != 0, values[17] != 0, false],
            crests: seq![false, false, false, false, false],
            encryption_key: (0u8) | ((values[11] % 256) as u8),
            checksum: (0u16) | (values[0] << 6),
            ..blank()
        },
        name_index: ((((0u8) | (((values[3] % 256) as u8) << 4u32)) | (((values[5] % 256) as u8) << 1u32)) | (((values[8] % 256) as u8) << 0u32)) | (((values[10] % 256) as u8) << 3u32),
        spare_bits: 0u8,
    }
}

spec fn stored_upto_24(values: Seq<u16>) -> HeaderView {
    HeaderView {
        data: GameDataView {
            hero_name: seq![NAME_MOJI_TABLE@[(values[6] % 64) as int], '\0', NAME_MOJI_TABLE@[(values[2] % 64) as int], NAME_MOJI_TABLE@[(values[9] % 64) as int]],
            gold: ((0u16) | (values[4] << 8)) | values[7],
            location: (values[1] % 256) as u8,
            progress_flags: seq![values[12] != 0, values[13] != 0, values[14] != 0, values[15] != 0, values[16] != 0, values[17] != 0, values[18] != 0],
            crests: seq![values[20] != 0, values[21] != 0, values[22] != 0, values[23] != 0, false],
            encryption_key: ((0u8) | ((values[11] % 256) as u8)) | (((values[19] % 256) as u8) << 1),
            checksum: (0u16) | (values[0] << 6),
            ..blank()
        },
        name_index: ((((0u8) | (((values[3] % 256) as u8) << 4u32)) | (((values[5] % 256) as u8) << 1u32)) | (((values[8] % 256) as u8) << 0u32)) | (((values[10] % 256) as u8) << 3u32),
        spare_bits: 0u8,
    }
}

spec fn stored_upto_27(values: Seq<u16>) -> HeaderView {
    HeaderView {
        data: GameDataView {
            hero_name: seq![NAME_MOJI_TABLE@[(values[6] % 64) as int], '\0', NAME_MOJI_TABLE@[(values[2] % 64) as int], NAME_MOJI_TABLE@[(values[9] % 64) as int]],
            gold: ((0u16) | (values[4] << 8)) | values[7],
            location: (values[1] % 256) as u8,
            progress_flags: seq![values[12] != 0, values[13] != 0, values[14] != 0, values[15] != 0, values[16] != 0, values[17] != 0, values[18] != 0],
            crests: seq![values[20] != 0, values[21] != 0, values[22] != 0, values[23] != 0, values[24] != 0],
            encryption_key: ((0u8) | ((values[11] % 256) as u8)) | (((values[19] % 256) as u8) << 1),
            checksum: ((0u16) | (values[0] << 6)) | values[26],
            ..blank()
        },
        name_index: ((((0u8) | (((values[3] % 256) as u8) << 4u32)) | (((values[5] % 256) as u8) << 1u32)) | (((values[8] % 256) as u8) << 0u32)) | (((values[10] % 256) as u8) << 3u32),
        spare_bits: (values[25] % 256) as u8,
    }
}

/// The destination of each slot of the field list.
proof fn lemma_slots()
    ensures
        layout_spec()[0].field == Field::ChecksumHigh,
        layout_spec()[1].field == Field::Location,
        layout_spec()[2].field == Field::Name(2),
        layout_spec()[3].field == Field::NameIndexBits(4),
        layout_spec()[4].field == Field::GoldHigh,
        layout_spec()[5].field == Field::NameIndexBits(1),
        layout_spec()[6].field == Field::Name(0),
        layout_spec()[7].field == Field::GoldLow,
        layout_spec()[8].field == Field::NameIndexBits(0),
        layout_spec()[9].field == Field::Name(3),
        layout_spec()[10].field == Field::NameIndexBits(3),
        layout_spec()[11].field == Field::KeyLow,
        layout_spec()[12].field == Field::Flag(0),
        layout_spec()[13].field == Field::Flag(1),
        layout_spec()[14].field == Field::Flag(2),
        layout_spec()[15].field == Field::Flag(3),
        layout_spec()[16].field == Field::Flag(4),
        layout_spec()[17].field == Field::Flag(5),
        layout_spec()[18].field == Field::Flag(6),
        layout_spec()[19].field == Field::KeyHigh,
        layout_spec()[20].field == Field::Crest(0),
        layout_spec()[21].field == Field::Crest(1),
        layout_spec()[22].field == Field::Crest(2),
        layout_spec()[23].field == Field::Crest(3),
        layout_spec()[24].field == Field::Crest(4),
        layout_spec()[25].field == Field::SpareBits,
        layout_spec()[26].field == Field::ChecksumLow,
{
}

#[verifier::rlimit(30)]
proof fn lemma_stored_upto_6(values: Seq<u16>)
    requires
        values.len() == 27,
    ensures
        stored(blank_header(), layout_spec(), values, 6) == stored_upto_6(values),
{
    lemma_slots();
    assert(stored(blank_header(), layout_spec(), values, 1) == store_spec(
        stored(blank_header(), layout_spec(), values, 0),
        Field::ChecksumHigh,
        values[0],
    ));
    assert(stored(blank_header(), layout_spec(), values, 2) == store_spec(
        stored(blank_header(), layout_spec(), values, 1),
        Field::Location,
        values[1],
    ));
    assert(stored(blank_header(), layout_spec(), values, 3) == store_spec(
        stored(blank_header(), layout_spec(), values, 2),
        Field::Name(2),
        values[2],
    ));
    assert(stored(blank_header(), layout_spec(), values, 4) == store_spec(
        stored(blank_header(), layout_spec(), values, 3),
        Field::NameIndexBits(4),
        values[3],
    ));
    assert(stored(blank_header(), layout_spec(), values, 5) == store_spec(
        stored(blank_header(), layout_spec(), values, 4),
        Field::GoldHigh,
        values[4],
    ));
    assert(stored(blank_header(), layout_spec(), values, 6) == store_spec(
        stored(blank_header(), layout_spec(), values, 5),
        Field::NameIndexBits(1),
        values[5],
    ));
    let reached = stored(blank_header(), layout_spec(), values, 6);
    let wanted = stored_upto_6(values);
    assert(reached.data.hero_name =~= wanted.data.hero_name);
    assert(reached.data.progress_flags =~= wanted.data.progress_flags);
    assert(reached.data.crests =~= wanted.data.crests);
    assert(reached.data.hero_items =~= wanted.data.hero_items);
    assert(reached.data.prince_items =~= wanted.data.prince_items);
    assert(reached.data.princess_items =~= wanted.data.princess_items);
    assert(reached.data == wanted.data);
}

#[verifier::rlimit(30)]
proof fn lemma_stored_upto_12(values: Seq<u16>)
    requires
        values.len() == 27,
        stored(blank_header(), layout_spec(), values, 6) == stored_upto_6(values),
    ensures
        stored(blank_header(), layout_spec(), values, 12) == stored_upto_12(values),
{
    lemma_slots();
    assert(stored(blank_header(), layout_spec(), values, 7) == store_spec(
        stored(blank_header(), layout_spec(), values, 6),
        Field::Name(0),
        values[6],
    ));
    assert(stored(blank_header(), layout_spec(), values, 8) == store_spec(
        stored(blank_header(), layout_spec(), values, 7),
        Field::GoldLow,
        values[7],
    ));
    assert(stored(blank_header(), layout_spec(), values, 9) == store_spec(
        stored(blank_header(), layout_spec(), values, 8),
        Field::NameIndexBits(0),
        values[8],
    ));
    assert(stored(blank_header(), layout_spec(), values, 10) == store_spec(
        stored(blank_header(), layout_spec(), values, 9),
        Field::Name(3),
        values[9],
    ));
    assert(stored(blank_header(), layout_spec(), values, 11) == store_spec(
        stored(blank_header(), layout_spec(), values, 10),
        Field::NameIndexBits(3),
        values[10],
    ));
    assert(stored(blank_header(), layout_spec(), values, 12) == store_spec(
        stored(blank_header(), layout_spec(), values, 11),
        Field::KeyLow,
        values[11],
    ));
    let reached = stored(blank_header(), layout_spec(), values, 12);
    let wanted = stored_upto_12(values);
    assert(reached.data.hero_name =~= wanted.data.hero_name);
    assert(reached.data.progress_flags =~= wanted.data.progress_flags);
    assert(reached.data.crests =~= wanted.data.crests);
    assert(reached.data.hero_items =~= wanted.data.hero_items);
    assert(reached.data.prince_items =~= wanted.data.prince_items);
    assert(reached.data.princess_items =~= wanted.data.princess_items);
    assert(reached.data == wanted.data);
}

#[verifier::rlimit(30)]
proof fn lemma_stored_upto_18(values: Seq<u16>)
    requires
        values.len() == 27,
        stored(blank_header(), layout_spec(), values, 12) == stored_upto_12(values),
    ensures
        stored(blank_header(), layout_spec(), values, 18) == stored_upto_18(values),
{
    lemma_slots();
    assert(stored(blank_header(), layout_spec(), values, 13) == store_spec(
        stored(blank_header(), layout_spec(), values, 12),
        Field::Flag(0),
        values[12],
    ));
    assert(stored(blank_header(), layout_spec(), values, 14) == store_spec(
        stored(blank_header(), layout_spec(), values, 13),
        Field::Flag(1),
        values[13],
    ));
    assert(stored(blank_header(), layout_spec(), values, 15) == store_spec(
        stored(blank_header(), layout_spec(), values, 14),
        Field::Flag(2),
        values[14],
    ));
    assert(stored(blank_header(), layout_spec(), values, 16) == store_spec(
        stored(blank_header(), layout_spec(), values, 15),
        Field::Flag(3),
        values[15],
    ));
    assert(stored(blank_header(), layout_spec(), values, 17) == store_spec(
        stored(blank_header(), layout_spec(), values, 16),
        Field::Flag(4),
        values[16],
    ));
    assert(stored(blank_header(), layout_spec(), values, 18) == store_spec(
        stored(blank_header(), layout_spec(), values, 17),
        Field::Flag(5),
        values[17],
    ));
    let reached = stored(blank_header(), layout_spec(), values, 18);
    let wanted = stored_upto_18(values);
    assert(reached.data.hero_name =~= wanted.data.hero_name);
    assert(reached.data.progress_flags =~= wanted.data.progress_flags);
    assert(reached.data.crests =~= wanted.data.crests);
    assert(reached.data.hero_items =~= wanted.data.hero_items);
    assert(reached.data.prince_items =~= wanted.data.prince_items);
    assert(reached.data.princess_items =~= wanted.data.princess_items);
    assert(reached.data == wanted.data);
}

#[verifier::rlimit(30)]
proof fn lemma_stored_upto_24(values: Seq<u16>)
    requires
        values.len() == 27,
        stored(blank_header(), layout_spec(), values, 18) == stored_upto_18(values),
    ensures
        stored(blank_header(), layout_spec(), values, 24) == stored_upto_24(values),
{
    lemma_slots();
    assert(stored(blank_header(), layout_spec(), values, 19) == store_spec(
        stored(blank_header(), layout_spec(), values, 18),
        Field::Flag(6),
        values[18],
    ));
    assert(stored(blank_header(), layout_spec(), values, 20) == store_spec(
        stored(blank_header(), layout_spec(), values, 19),
        Field::KeyHigh,
        values[19],
    ));
    assert(stored(blank_header(), layout_spec(), values, 21) == store_spec(
        stored(blank_header(), layout_spec(), values, 20),
        Field::Crest(0),
        values[20],
    ));
    assert(stored(blank_header(), layout_spec(), values, 22) == store_spec(
        stored(blank_header(), layout_spec(), values, 21),
        Field::Crest(1),
        values[21],
    ));
    assert(stored(blank_header(), layout_spec(), values, 23) == store_spec(
        stored(blank_header(), layout_spec(), values, 22),
        Field::Crest(2),
        values[22],
    ));
    assert(stored(blank_header(), layout_spec(), values, 24) == store_spec(
        stored(blank_header(), layout_spec(), values, 23),
        Field::Crest(3),
        values[23],
    ));
    let reached = stored(blank_header(), layout_spec(), values, 24);
    let wanted = stored_upto_24(values);
    assert(reached.data.hero_name =~= wanted.data.hero_name);
    assert(reached.data.progress_flags =~= wanted.data.progress_flags);
    assert(reached.data.crests =~= wanted.data.crests);
    assert(reached.data.hero_items =~= wanted.data.hero_items);
    assert(reached.data.prince_items =~= wanted.data.prince_items);
    assert(reached.data.princess_items =~= wanted.data.princess_items);
    assert(reached.data == wanted.data);
}

#[verifier::rlimit(30)]
proof fn lemma_stored_upto_27(values: Seq<u16>)
    requires
        values.len() == 27,
        stored(blank_header(), layout_spec(), values, 24) == stored_upto_24(values),
    ensures
        stored(blank_header(), layout_spec(), values, 27) == stored_upto_27(values),
{
    lemma_slots();
    assert(stored(blank_header(), layout_spec(), values, 25) == store_spec(
        stored(blank_header(), layout_spec(), values, 24),
        Field::Crest(4),
        values[24],
    ));
    assert(stored(blank_header(), layout_spec(), values, 26) == store_spec(
        stored(blank_header(), layout_spec(), values, 25),
        Field::SpareBits,
        values[25],
    ));
    assert(stored(blank_header(), layout_spec(), values, 27) == store_spec(
        stored(blank_header(), layout_spec(), values, 26),
        Field::ChecksumLow,
        values[26],
    ));
    let reached = stored(blank_header(), layout_spec(), values, 27);
    let wanted = stored_upto_27(values);
    assert(reached.data.hero_name =~= wanted.data.hero_name);
    assert(reached.data.progress_flags =~= wanted.data.progress_flags);
    assert(reached.data.crests =~= wanted.data.crests);
    assert(reached.data.hero_items =~= wanted.data.hero_items);
    assert(reached.data.prince_items =~= wanted.data.prince_items);
    assert(reached.data.princess_items =~= wanted.data.princess_items);
    assert(reached.data == wanted.data);
}

/// Storing all the values of the list gives the fixed part written out.
proof fn lemma_stored_all(values: Seq<u16>)
    requires
        values.len() == 27,
    ensures
        stored(blank_header(), layout_spec(), values, 27) == stored_upto_27(values),
{
    lemma_stored_upto_6(values);
    lemma_stored_upto_12(values);
    lemma_stored_upto_18(values);
    lemma_stored_upto_24(values);
    lemma_stored_upto_27(values);
}

/// Where each slot of the field list starts.
proof fn lemma_offsets()
    ensures
        width_of_first(layout_spec(), 0) == 0,
        width_of_first(layout_spec(), 1) == 5,
        width_of_first(layout_spec(), 2) == 8,
        width_of_first(layout_spec(), 3) == 14,
        width_of_first(layout_spec(), 4) == 16,
        width_of_first(layout_spec(), 5) == 24,
        width_of_first(layout_spec(), 6) == 26,
        width_of_first(layout_spec(), 7) == 32,
        width_of_first(layout_spec(), 8) == 40,
        width_of_first(layout_spec(), 9) == 41,
        width_of_first(layout_spec(), 10) == 47,
        width_of_first(layout_spec(), 11) == 48,
        width_of_first(layout_spec(), 12) == 49,
        width_of_first(layout_spec(), 13) == 50,
        width_of_first(layout_spec(), 14) == 51,
        width_of_first(layout_spec(), 15) == 52,
        width_of_first(layout_spec(), 16) == 53,
        width_of_first(layout_spec(), 17) == 54,
        width_of_first(layout_spec(), 18) == 55,
        width_of_first(layout_spec(), 19) == 56,
        width_of_first(layout_spec(), 20) == 59,
        width_of_first(layout_spec(), 21) == 60,
        width_of_first(layout_spec(), 22) == 61,
        width_of_first(layout_spec(), 23) == 62,
        width_of_first(layout_spec(), 24) == 63,
        width_of_first(layout_spec(), 25) == 64,
        width_of_first(layout_spec(), 26) == 66,
        width_of_first(layout_spec(), 27) == 72,
{
    reveal_with_fuel(width_of_first, 28);
}

/// How the parts of a byte, given as numbers, are written with shifts and
/// masks.
proof fn lemma_part_forms(b: u8, v: u16)
    by (bit_vector)
    ensures
        v == (b as u16) % 8 ==> (v % 256) as u8 == b & 0x07,
        v == (b as u16) % 4 ==> (v % 256) as u8 == b & 0x03,
        v == (b as u16) / 64 ==> (v % 256) as u8 == b >> 6,
        v == (b as u16) / 128 ==> (v % 256) as u8 == b >> 7,
        v == (b as u16) % 2 ==> (v % 256) as u8 == b & 0x01,
        v == ((b as u16) / 64) % 2 ==> (v != 0) == (b & 0x40 != 0),
        v == ((b as u16) / 32) % 2 ==> (v != 0) == (b & 0x20 != 0),
        v == ((b as u16) / 16) % 2 ==> (v != 0) == (b & 0x10 != 0),
        v == ((b as u16) / 8) % 2 ==> (v != 0) == (b & 0x08 != 0),
        v == ((b as u16) / 4) % 2 ==> (v != 0) == (b & 0x04 != 0),
        v == ((b as u16) / 2) % 2 ==> (v != 0) == (b & 0x02 != 0),
        v == (b as u16) % 2 ==> (v != 0) == (b & 0x01 != 0),
        v == (b as u16) / 32 ==> (v % 256) as u8 == b >> 5,
{
}

proof fn lemma_index_forms(b: u8, v: u16)
    by (bit_vector)
    ensures
        v == (b as u16) / 8 ==> v == (b >> 3) as u16,
        v == (b as u16) / 4 ==> v == (b >> 2) as u16,
        v == (b as u16) ==> v == (b) as u16,
        v == (b as u16) % 64 ==> v == (b & 0x3f) as u16,
        v == ((b as u16) / 2) % 64 ==> v == ((b >> 1) & 0x3f) as u16,
        v == (b as u16) % 64 ==> v == (b & 0x3f) as u16,
{
}

proof fn lemma_joined_forms(high: u16, low: u16, n4: u8, n1: u8, n0: u8, n3: u8, k0: u8, k1: u8)
    by (bit_vector)
    requires
        n4 < 4,
        n1 < 4,
        n0 < 2,
        n3 < 2,
    ensures
        (0u16 | (high << 8)) | low == (high << 8) | low,
        (0u16 | (high << 6)) | low == (high << 6) | low,
        (((0u8 | (n4 << 4u32)) | (n1 << 1u32)) | (n0 << 0u32)) | (n3 << 3u32) == (n4 << 4) | (n1 << 1) | n0
            | (n3 << 3),
        ((n4 << 4) | (n1 << 1) | n0 | (n3 << 3)) % 64 == (n4 << 4) | (n1 << 1) | n0 | (n3 << 3),
        (0u8 | k0) | (k1 << 1) == k0 | (k1 << 1),
{
}

proof fn lemma_small_parts(b1: u8, b3: u8, b5: u8)
    by (bit_vector)
    ensures
        b1 & 0x03 < 4,
        b3 >> 6 < 4,
        b5 >> 7 < 2,
        b5 & 0x01 < 2,
{
}

/// The values of the fields of the list, each written with shifts and masks
/// of the byte that it lies in.
#[verifier::rlimit(40)]
proof fn lemma_values_forms(bytes: Seq<u8>)
    requires
        bytes.len() >= 9,
    ensures
        field_values(bits_of_bytes(bytes), layout_spec()) matches Some((values, rest)) ==> {
            &&& values.len() == 27
            &&& values[0] == (bytes[0] >> 3) as u16
            &&& (values[1] % 256) as u8 == bytes[0] & 0x07
            &&& values[2] < 64 && values[2] == (bytes[1] >> 2) as u16
            &&& (values[3] % 256) as u8 == bytes[1] & 0x03
            &&& values[4] == (bytes[2]) as u16
            &&& (values[5] % 256) as u8 == bytes[3] >> 6
            &&& values[6] < 64 && values[6] == (bytes[3] & 0x3f) as u16
            &&& values[7] == (bytes[4]) as u16
            &&& (values[8] % 256) as u8 == bytes[5] >> 7
            &&& values[9] < 64 && values[9] == ((bytes[5] >> 1) & 0x3f) as u16
            &&& (values[10] % 256) as u8 == bytes[5] & 0x01
            &&& (values[11] % 256) as u8 == bytes[6] >> 7
            &&& (values[12] != 0) == (bytes[6] & 0x40 != 0)
            &&& (values[13] != 0) == (bytes[6] & 0x20 != 0)
            &&& (values[14] != 0) == (bytes[6] & 0x10 != 0)
            &&& (values[15] != 0) == (bytes[6] & 0x08 != 0)
            &&& (values[16] != 0) == (bytes[6] & 0x04 != 0)
            &&& (values[17] != 0) == (bytes[6] & 0x02 != 0)
            &&& (values[18] != 0) == (bytes[6] & 0x01 != 0)
            &&& (values[19] % 256) as u8 == bytes[7] >> 5
            &&& (values[20] != 0) == (bytes[7] & 0x10 != 0)
            &&& (values[21] != 0) == (bytes[7] & 0x08 != 0)
            &&& (values[22] != 0) == (bytes[7] & 0x04 != 0)
            &&& (values[23] != 0) == (bytes[7] & 0x02 != 0)
            &&& (values[24] != 0) == (bytes[7] & 0x01 != 0)
            &&& (values[25] % 256) as u8 == bytes[8] >> 6
            &&& values[26] == (bytes[8] & 0x3f) as u16
        },
{
    lemma_layout();
    lemma_offsets();
    vstd::arithmetic::power2::lemma2_to64();
    let bits = bits_of_bytes(bytes);
    lemma_field_values(bits, layout_spec());
    if let Some((values, rest)) = field_values(bits, layout_spec()) {
        assert(field_values(bits_of_bytes(bytes), layout_spec()) == Some((values, rest)));
        assert(values[0] == (bytes[0] >> 3) as u16) by {
            lemma_field_of_byte(bytes, layout_spec(), 0, 0, 0, 5);
            assert(pow2(3) == 8 && pow2(5) == 32);
            assert(values[0] as nat == (bytes[0] as nat / 8) % 32);
            assert(values[0] == (bytes[0] as u16) / 8);
            lemma_index_forms(bytes[0], values[0]);
        }
        assert((values[1] % 256) as u8 == bytes[0] & 0x07) by {
            lemma_field_of_byte(bytes, layout_spec(), 1, 0, 5, 8);
            assert(pow2(0) == 1 && pow2(3) == 8);
            assert(values[1] as nat == (bytes[0] as nat / 1) % 8);
            assert(values[1] == (bytes[0] as u16) % 8);
            lemma_part_forms(bytes[0], values[1]);
        }
        assert(values[2] < 64 && values[2] == (bytes[1] >> 2) as u16) by {
            lemma_field_of_byte(bytes, layout_spec(), 2, 1, 0, 6);
            assert(pow2(2) == 4 && pow2(6) == 64);
            assert(values[2] as nat == (bytes[1] as nat / 4) % 64);
            assert(values[2] == (bytes[1] as u16) / 4);
            lemma_index_forms(bytes[1], values[2]);
        }
        assert((values[3] % 256) as u8 == bytes[1] & 0x03) by {
            lemma_field_of_byte(bytes, layout_spec(), 3, 1, 6, 8);
            assert(pow2(0) == 1 && pow2(2) == 4);
            assert(values[3] as nat == (bytes[1] as nat / 1) % 4);
            assert(values[3] == (bytes[1] as u16) % 4);
            lemma_part_forms(bytes[1], values[3]);
        }
        assert(values[4] == (bytes[2]) as u16) by {
            lemma_field_of_byte(bytes, layout_spec(), 4, 2, 0, 8);
            assert(pow2(0) == 1 && pow2(8) == 256);
            assert(values[4] as nat == (bytes[2] as nat / 1) % 256);
            assert(values[4] == (bytes[2] as u16));
            lemma_index_forms(bytes[2], values[4]);
        }
        assert((values[5] % 256) as u8 == bytes[3] >> 6) by {
            lemma_field_of_byte(bytes, layout_spec(), 5, 3, 0, 2);
            assert(pow2(6) == 64 && pow2(2) == 4);
            assert(values[5] as nat == (bytes[3] as nat / 64) % 4);
            assert(values[5] == (bytes[3] as u16) / 64);
            lemma_part_forms(bytes[3], values[5]);
        }
        assert(values[6] < 64 && values[6] == (bytes[3] & 0x3f) as u16) by {
            lemma_field_of_byte(bytes, layout_spec(), 6, 3, 2, 8);
            assert(pow2(0) == 1 && pow2(6) == 64);
            assert(values[6] as nat == (bytes[3] as nat / 1) % 64);
            assert(values[6] == (bytes[3] as u16) % 64);
            lemma_index_forms(bytes[3], values[6]);
        }
        assert(values[7] == (bytes[4]) as u16) by {
            lemma_field_of_byte(bytes, layout_spec(), 7, 4, 0, 8);
            assert(pow2(0) == 1 && pow2(8) == 256);
            assert(values[7] as nat == (bytes[4] as nat / 1) % 256);
            assert(values[7] == (bytes[4] as u16));
            lemma_index_forms(bytes[4], values[7]);
        }
        assert((values[8] % 256) as u8 == bytes[5] >> 7) by {
            lemma_field_of_byte(bytes, layout_spec(), 8, 5, 0, 1);
            assert(pow2(7) == 128 && pow2(1) == 2);
            assert(values[8] as nat == (bytes[5] as nat / 128) % 2);
            assert(values[8] == (bytes[5] as u16) / 128);
            lemma_part_forms(bytes[5], values[8]);
        }
        assert(values[9] < 64 && values[9] == ((bytes[5] >> 1) & 0x3f) as u16) by {
            lemma_field_of_byte(bytes, layout_spec(), 9, 5, 1, 7);
            assert(pow2(1) == 2 && pow2(6) == 64);
            assert(values[9] as nat == (bytes[5] as nat / 2) % 64);
            assert(values[9] == ((bytes[5] as u16) / 2) % 64);
            lemma_index_forms(bytes[5], values[9]);
        }
        assert((values[10] % 256) as u8 == bytes[5] & 0x01) by {
            lemma_field_of_byte(bytes, layout_spec(), 10, 5, 7, 8);
            assert(pow2(0) == 1 && pow2(1) == 2);
            assert(values[10] as nat == (bytes[5] as nat / 1) % 2);
            assert(values[10] == (bytes[5] as u16) % 2);
            lemma_part_forms(bytes[5], values[10]);
        }
        assert((values[11] % 256) as u8 == bytes[6] >> 7) by {
            lemma_field_of_byte(bytes, layout_spec(), 11, 6, 0, 1);
            assert(pow2(7) == 128 && pow2(1) == 2);
            assert(values[11] as nat == (bytes[6] as nat / 128) % 2);
            assert(values[11] == (bytes[6] as u16) / 128);
            lemma_part_forms(bytes[6], values[11]);
        }
        assert((values[12] != 0) == (bytes[6] & 0x40 != 0)) by {
            lemma_field_of_byte(bytes, layout_spec(), 12, 6, 1, 2);
            assert(pow2(6) == 64 && pow2(1) == 2);
            assert(values[12] as nat == (bytes[6] as nat / 64) % 2);
            assert(values[12] == ((bytes[6] as u16) / 64) % 2);
            lemma_part_forms(bytes[6], values[12]);
        }
        assert((values[13] != 0) == (bytes[6] & 0x20 != 0)) by {
            lemma_field_of_byte(bytes, layout_spec(), 13, 6, 2, 3);
            assert(pow2(5) == 32 && pow2(1) == 2);
            assert(values[13] as nat == (bytes[6] as nat / 32) % 2);
            assert(values[13] == ((bytes[6] as u16) / 32) % 2);
            lemma_part_forms(bytes[6], values[13]);
        }
        assert((values[14] != 0) == (bytes[6] & 0x10 != 0)) by {
            lemma_field_of_byte(bytes, layout_spec(), 14, 6, 3, 4);
            assert(pow2(4) == 16 && pow2(1) == 2);
            assert(values[14] as nat == (bytes[6] as nat / 16) % 2);
            assert(values[14] == ((bytes[6] as u16) / 16) % 2);
            lemma_part_forms(bytes[6], values[14]);
        }
        assert((values[15] != 0) == (bytes[6] & 0x08 != 0)) by {
            lemma_field_of_byte(bytes, layout_spec(), 15, 6, 4, 5);
            assert(pow2(3) == 8 && pow2(1) == 2);
            assert(values[15] as nat == (bytes[6] as nat / 8) % 2);
            assert(values[15] == ((bytes[6] as u16) / 8) % 2);
            lemma_part_forms(bytes[6], values[15]);
        }
        assert((values[16] != 0) == (bytes[6] & 0x04 != 0)) by {
            lemma_field_of_byte(bytes, layout_spec(), 16, 6, 5, 6);
            assert(pow2(2) == 4 && pow2(1) == 2);
            assert(values[16] as nat == (bytes[6] as nat / 4) % 2);
            assert(values[16] == ((bytes[6] as u16) / 4) % 2);
            lemma_part_forms(bytes[6], values[16]);
        }
        assert((values[17] != 0) == (bytes[6] & 0x02 != 0)) by {
            lemma_field_of_byte(bytes, layout_spec(), 17, 6, 6, 7);
            assert(pow2(1) == 2 && pow2(1) == 2);
            assert(values[17] as nat == (bytes[6] as nat / 2) % 2);
            assert(values[17] == ((bytes[6] as u16) / 2) % 2);
            lemma_part_forms(bytes[6], values[17]);
        }
        assert((values[18] != 0) == (bytes[6] & 0x01 != 0)) by {
            lemma_field_of_byte(bytes, layout_spec(), 18, 6, 7, 8);
            assert(pow2(0) == 1 && pow2(1) == 2);
            assert(values[18] as nat == (bytes[6] as nat / 1) % 2);
            assert(values[18] == (bytes[6] as u16) % 2);
            lemma_part_forms(bytes[6], values[18]);
        }
        assert((values[19] % 256) as u8 == bytes[7] >> 5) by {
            lemma_field_of_byte(bytes, layout_spec(), 19, 7, 0, 3);
            assert(pow2(5) == 32 && pow2(3) == 8);
            assert(values[19] as nat == (bytes[7] as nat / 32) % 8);
            assert(values[19] == (bytes[7] as u16) / 32);
            lemma_part_forms(bytes[7], values[19]);
        }
        assert((values[20] != 0) == (bytes[7] & 0x10 != 0)) by {
            lemma_field_of_byte(bytes, layout_spec(), 20, 7, 3, 4);
            assert(pow2(4) == 16 && pow2(1) == 2);
            assert(values[20] as nat == (bytes[7] as nat / 16) % 2);
            assert(values[20] == ((bytes[7] as u16) / 16) % 2);
            lemma_part_forms(bytes[7], values[20]);
        }
        assert((values[21] != 0) == (bytes[7] & 0x08 != 0)) by {
            lemma_field_of_byte(bytes, layout_spec(), 21, 7, 4, 5);
            assert(pow2(3) == 8 && pow2(1) == 2);
            assert(values[21] as nat == (bytes[7] as nat / 8) % 2);
            assert(values[21] == ((bytes[7] as u16) / 8) % 2);
            lemma_part_forms(bytes[7], values[21]);
        }
        assert((values[22] != 0) == (bytes[7] & 0x04 != 0)) by {
            lemma_field_of_byte(bytes, layout_spec(), 22, 7, 5, 6);
            assert(pow2(2) == 4 && pow2(1) == 2);
            assert(values[22] as nat == (bytes[7] as nat / 4) % 2);
            assert(values[22] == ((bytes[7] as u16) / 4) % 2);
            lemma_part_forms(bytes[7], values[22]);
        }
        assert((values[23] != 0) == (bytes[7] & 0x02 != 0)) by {
            lemma_field_of_byte(bytes, layout_spec(), 23, 7, 6, 7);
            assert(pow2(1) == 2 && pow2(1) == 2);
            assert(values[23] as nat == (bytes[7] as nat / 2) % 2);
            assert(values[23] == ((bytes[7] as u16) / 2) % 2);
            lemma_part_forms(bytes[7], values[23]);
        }
        assert((values[24] != 0) == (bytes[7] & 0x01 != 0)) by {
            lemma_field_of_byte(bytes, layout_spec(), 24, 7, 7, 8);
            assert(pow2(0) == 1 && pow2(1) == 2);
            assert(values[24] as nat == (bytes[7] as nat / 1) % 2);
            assert(values[24] == (bytes[7] as u16) % 2);
            lemma_part_forms(bytes[7], values[24]);
        }
        assert((values[25] % 256) as u8 == bytes[8] >> 6) by {
            lemma_field_of_byte(bytes, layout_spec(), 25, 8, 0, 2);
            assert(pow2(6) == 64 && pow2(2) == 4);
            assert(values[25] as nat == (bytes[8] as nat / 64) % 4);
            assert(values[25] == (bytes[8] as u16) / 64);
            lemma_part_forms(bytes[8], values[25]);
        }
        assert(values[26] == (bytes[8] & 0x3f) as u16) by {
            lemma_field_of_byte(bytes, layout_spec(), 26, 8, 2, 8);
            assert(pow2(0) == 1 && pow2(6) == 64);
            assert(values[26] as nat == (bytes[8] as nat / 1) % 64);
            assert(values[26] == (bytes[8] as u16) % 64);
            lemma_index_forms(bytes[8], values[26]);
        }
    }
}

/// The fixed part of a buffer is what its first nine bytes hold, field by
/// field.
#[verifier::rlimit(40)]
proof fn lemma_fixed_part_by_bytes(bytes: Seq<u8>)
    requires
        bytes.len() >= 9,
    ensures
        field_values(bits_of_bytes(bytes), layout_spec()) matches Some((values, rest)) ==> {
            let header = stored(blank_header(), layout_spec(), values, 27);
            &&& header_record(header) == fixed_part_by_bytes(bytes)
            &&& header.spare_bits == bytes[8] >> 6
            &&& rest == bits_of_bytes(bytes).skip(72)
        },
{
    lemma_layout();
    let bits = bits_of_bytes(bytes);
    lemma_field_values(bits, layout_spec());
    if let Some((values, rest)) = field_values(bits, layout_spec()) {
        assert(field_values(bits_of_bytes(bytes), layout_spec()) == Some((values, rest)));
        lemma_values_forms(bytes);
        lemma_stored_all(values);
        let header = stored_upto_27(values);
        let data = header_record(header);
        let by = fixed_part_by_bytes(bytes);
        lemma_small_parts(bytes[1], bytes[3], bytes[5]);
        lemma_joined_forms(
            values[4],
            values[7],
            bytes[1] & 0x03,
            bytes[3] >> 6,
            bytes[5] >> 7,
            bytes[5] & 0x01,
            bytes[6] >> 7,
            bytes[7] >> 5,
        );
        lemma_joined_forms(values[0], values[26], 0, 0, 0, 0, 0, 0);
        assert(header.name_index == (((bytes[1] & 0x03) << 4) | ((bytes[3] >> 6) << 1) | (bytes[5]
            >> 7) | ((bytes[5] & 0x01) << 3)));
        assert(data.hero_name =~= by.hero_name);
        assert(data.progress_flags =~= by.progress_flags);
        assert(data.crests =~= by.crests);
        assert(data.hero_items =~= by.hero_items);
        assert(data.prince_items =~= by.prince_items);
        assert(data.princess_items =~= by.princess_items);
        assert(data.gold == by.gold);
        assert(data.checksum == by.checksum);
        assert(data.encryption_key == by.encryption_key);
    }
}

/// The record of a buffer is the fixed part that its first nine bytes hold,
/// with the party that the bits after them hold; a buffer of fewer than nine
/// bytes holds no record.
pub proof fn lemma_record_by_bytes(bytes: Seq<u8>)
    ensures
        record_of_bytes(bytes) == if bytes.len() >= 9 {
            with_party(fixed_part_by_bytes(bytes), bytes[8] >> 6, bits_of_bytes(bytes).skip(72))
        } else {
            None
        },
{
    lemma_layout();
    lemma_field_values(bits_of_bytes(bytes), layout_spec());
    if bytes.len() >= 9 {
        lemma_fixed_part_by_bytes(bytes);
    }
}

/// The experience and the number of items of the hero, whose block begins
/// with byte 9: bytes 9 and 10 are the low sixteen bits of the experience,
/// the high half of byte 11 its high four bits, and the low half of byte 11
/// the number of items.
pub open spec fn hero_head_by_bytes(b: Seq<u8>) -> (u32, u8) {
    (
        ((((b[9] as u16) << 8) | (b[10] as u16)) as u32) | ((((b[11] >> 4) as u16) as u32) << 16),
        b[11] & 0x0f,
    )
}

proof fn lemma_head_forms(b9: u8, b10: u8, b11: u8, low: u16, high: u16, count: u16)
    by (bit_vector)
    requires
        low == (b9 as u16) * 256 + (b10 as u16),
        high == (b11 as u16) / 16,
        count == (b11 as u16) % 16,
    ensures
        low == ((b9 as u16) << 8) | (b10 as u16),
        high == (b11 >> 4) as u16,
        (count % 256) as u8 == b11 & 0x0f,
{
}

/// The hero's block begins with byte 9 of the buffer: its start is what
/// bytes 9 to 11 hold, and the hero's items are the bits from byte 12 on.
pub proof fn lemma_hero_head_by_bytes(bytes: Seq<u8>)
    requires
        bytes.len() >= 9,
    ensures
        member_head(bits_of_bytes(bytes).skip(72)) == if bytes.len() >= 12 {
            Some(
                (
                    hero_head_by_bytes(bytes).0,
                    hero_head_by_bytes(bytes).1,
                    bits_of_bytes(bytes).skip(96),
                ),
            )
        } else {
            None
        },
{
    if bytes.len() >= 12 {
        let bits = bits_of_bytes(bytes);
        let rest = bits.skip(72);
        vstd::arithmetic::power2::lemma2_to64();
        assert(rest.take(16) =~= bits.subrange(72, 80) + bits.subrange(80, 88));
        lemma_value_of_joined_bits(bits.subrange(72, 80), bits.subrange(80, 88));
        lemma_byte_of_bits(bytes, 9);
        lemma_byte_of_bits(bytes, 10);
        assert(pow2(8) == 256 && pow2(4) == 16 && pow2(0) == 1);
        let low = value_of_bits(rest.take(16));
        assert(low == bytes[9] * 256 + bytes[10]);
        assert(rest.subrange(16, 20) =~= bits.subrange(88, 92));
        lemma_field_in_byte(bytes, 11, 0, 4);
        let high = value_of_bits(rest.subrange(16, 20));
        assert(high == (bytes[11] as nat / 16) % 16);
        assert(rest.subrange(20, 24) =~= bits.subrange(92, 96));
        lemma_field_in_byte(bytes, 11, 4, 8);
        let count = value_of_bits(rest.subrange(20, 24));
        assert(count == (bytes[11] as nat / 1) % 16);
        assert(rest.skip(24) =~= bits.skip(96));
        assert(low as u16 == (bytes[9] as u16) * 256 + (bytes[10] as u16));
        assert(high as u16 == (bytes[11] as u16) / 16);
        assert(count as u16 == (bytes[11] as u16) % 16);
        lemma_head_forms(bytes[9], bytes[10], bytes[11], low as u16, high as u16, count as u16);
    }
}

/// The checksum of a record is the checksum that its buffer stores.
pub proof fn lemma_record_checksum(bytes: Seq<u8>)
    ensures
        record_of_bytes(bytes) matches Some(data) ==> bytes.len() >= 9 && data.checksum
            == stored_checksum_b(bytes),
{
    lemma_record_by_bytes(bytes);
}

/// The checksum of the record of a code is the checksum computed for the
/// code's buffer.
pub proof fn lemma_decoded_checksum(code: Seq<char>)
    ensures
        record_of_code(code) matches Ok(data) ==> data.checksum == checksum_b(
            checked_buffer(code)->Ok_0,
        ),
{
    if let Ok(buffer) = checked_buffer(code) {
        lemma_record_checksum(buffer);
    }
}

} // verus!
