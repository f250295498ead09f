//! Where each field of a record of the first format lies in the buffer.
//!
//! The record of a buffer is defined by reading the fields of the field list
//! one after the other. Here it is written out byte by byte, and the two are
//! proved to agree.

use vstd::prelude::*;
use vstd::arithmetic::power2::pow2;
use crate::bits::bits_of_bytes;
use crate::checksum::checksum_a;
use crate::codec::{lemma_code_buffer_len, Format};
use crate::dq1::{blank, checked_buffer, layout_spec, lemma_layout, record_of_bytes, record_of_code,
    store_spec, stored, Field, GameDataView, NAME_MOJI_TABLE};
use crate::layout::{field_values, lemma_field_of_byte, lemma_field_values, width_of_first};

verus! {

/// The record that fifteen bytes hold, field by field: where each field
/// lies in the buffer.
pub open spec fn record_by_bytes(b: Seq<u8>) -> GameDataView {
    GameDataView {
        name: seq![
            NAME_MOJI_TABLE@[(b[9] >> 2) as int],
            NAME_MOJI_TABLE@[((b[1] >> 1) & 0x3f) as int],
            NAME_MOJI_TABLE@[(b[12] & 0x3f) as int],
            NAME_MOJI_TABLE@[(b[7] & 0x3f) as int],
        ],
        experience: ((b[2] as u16) << 8) | (b[13] as u16),
        gold: ((b[5] as u16) << 8) | (b[10] as u16),
        weapon: b[6] >> 5,
        armor: (b[6] >> 2) & 0x07,
        shield: b[6] & 0x03,
        herbs: b[4] >> 4,
        keys: b[4] & 0x0f,
        items: seq![
            b[0] & 0x0f,
            b[0] >> 4,
            b[11] & 0x0f,
            b[11] >> 4,
            b[3] & 0x0f,
            b[3] >> 4,
            b[8] & 0x0f,
            b[8] >> 4,
        ],
        progress_flags: seq![
            b[1] & 0x80 != 0,
            b[1] & 0x01 != 0,
            b[7] & 0x40 != 0,
            b[9] & 0x02 != 0,
            b[12] & 0x40 != 0,
        ],
        encryption_key: ((b[7] >> 7) << 2) | ((b[9] & 0x01) << 1) | (b[12] >> 7),
        checksum: b[14],
    }
}

spec fn stored_upto_6(values: Seq<u16>) -> GameDataView {
    GameDataView {
        name: seq!['\0', NAME_MOJI_TABLE@[(values[3] % 64) as int], '\0', '\0'],
        experience: (0u16) | (values[5] << 8),
        gold: 0u16,
        weapon: 0u8,
        armor: 0u8,
        shield: 0u8,
        herbs: 0u8,
        keys: 0u8,
        items: seq![(values[1] % 256) as u8, (values[0] % 256) as u8, 0u8, 0u8, 0u8, 0u8, 0u8, 0u8],
        progress_flags: seq![values[2] != 0, values[4] != 0, false, false, false],
        encryption_key: 0u8,
        checksum: 0u8,
    }
}

spec fn stored_upto_12(values: Seq<u16>) -> GameDataView {
    GameDataView {
        name: seq!['\0', NAME_MOJI_TABLE@[(values[3] % 64) as int], '\0', '\0'],
        experience: (0u16) | (values[5] << 8),
        gold: (0u16) | (values[10] << 8),
        weapon: (values[11] % 256) as u8,
        armor: 0u8,
        shield: 0u8,
        herbs: (values[8] % 256) as u8,
        keys: (values[9] % 256) as u8,
        items: seq![(values[1] % 256) as u8, (values[0] % 256) as u8, 0u8, 0u8, (values[7] % 256) as u8, (values[6] % 256) as u8, 0u8, 0u8],
        progress_flags: seq![values[2] != 0, values[4] != 0, false, false, false],
        encryption_key: 0u8,
        checksum: 0u8,
    }
}

spec fn stored_upto_18(values: Seq<u16>) -> GameDataView {
    GameDataView {
        name: seq!['\0', NAME_MOJI_TABLE@[(values[3] % 64) as int], '\0', NAME_MOJI_TABLE@[(values[16] % 64) as int]],
        experience: (0u16) | (values[5] << 8),
        gold: (0u16) | (values[10] << 8),
        weapon: (values[11] % 256) as u8,
        armor: (values[12] % 256) as u8,
        shield: (values[13] % 256) as u8,
        herbs: (values[8] % 256) as u8,
        keys: (values[9] % 256) as u8,
        items: seq![(values[1] % 256) as u8, (values[0] % 256) as u8, 0u8, 0u8, (values[7] % 256) as u8, (values[6] % 256) as u8, 0u8, (values[17] % 256) as u8],
        progress_flags: seq![values[2] != 0, values[4] != 0, values[15] != 0, false, false],
        encryption_key: (0u8) | (((values[14] % 256) as u8) << 2),
        checksum: 0u8,
    }
}

spec fn stored_upto_24(values: Seq<u16>) -> GameDataView {
    GameDataView {
        name: seq![NAME_MOJI_TABLE@[(values[19] % 64) as int], NAME_MOJI_TABLE@[(values[3] % 64) as int], '\0', NAME_MOJI_TABLE@[(values[16] % 64) as int]],
        experience: (0u16) | (values[5] << 8),
        gold: ((0u16) | (values[10] << 8)) | values[22],
        weapon: (values[11] % 256) as u8,
        armor: (values[12] % 256) as u8,
        shield: (values[13] % 256) as u8,
        herbs: (values[8] % 256) as u8,
        keys: (values[9] % 256) as u8,
        items: seq![(values[1] % 256) as u8, (values[0] % 256) as u8, 0u8, (values[23] % 256) as u8, (values[7] % 256) as u8, (values[6] % 256) as u8, (values[18] % 256) as u8, (values[17] % 256) as u8],
        progress_flags: seq![values[2] != 0, values[4] != 0, values[15] != 0, values[20] != 0, false],
        encryption_key: ((0u8) | (((values[14] % 256) as u8) << 2)) | (((values[21] % 256) as u8) << 1),
        checksum: 0u8,
    }
}

spec fn stored_upto_30(values: Seq<u16>) -> GameDataView {
    GameDataView {
        name: seq![NAME_MOJI_TABLE@[(values[19] % 64) as int], NAME_MOJI_TABLE@[(values[3] % 64) as int], NAME_MOJI_TABLE@[(values[27] % 64) as int], NAME_MOJI_TABLE@[(values[16] % 64) as int]],
        experience: ((0u16) | (values[5] << 8)) | values[28],
        gold: ((0u16) | (values[10] << 8)) | values[22],
        weapon: (values[11] % 256) as u8,
        armor: (values[12] % 256) as u8,
        shield: (values[13] % 256) as u8,
        herbs: (values[8] % 256) as u8,
        keys: (values[9] % 256) as u8,
        items: seq![(values[1] % 256) as u8, (values[0] % 256) as u8, (values[24] % 256) as u8, (values[23] % 256) as u8, (values[7] % 256) as u8, (values[6] % 256) as u8, (values[18] % 256) as u8, (values[17] % 256) as u8],
        progress_flags: seq![values[2] != 0, values[4] != 0, values[15] != 0, values[20] != 0, values[26] != 0],
        encryption_key: (((0u8) | (((values[14] % 256) as u8) << 2)) | (((values[21] % 256) as u8) << 1)) | ((values[25] % 256) as u8),
        checksum: (values[29] % 256) as u8,
    }
}

/// The destination of each slot of the field list.
proof fn lemma_slots()
    ensures
        layout_spec()[0].field == Field::Item(1),
        layout_spec()[1].field == Field::Item(0),
        layout_spec()[2].field == Field::Flag(0),
        layout_spec()[3].field == Field::Name(1),
        layout_spec()[4].field == Field::Flag(1),
        layout_spec()[5].field == Field::ExperienceHigh,
        layout_spec()[6].field == Field::Item(5),
        layout_spec()[7].field == Field::Item(4),
        layout_spec()[8].field == Field::Herbs,
        layout_spec()[9].field == Field::Keys,
        layout_spec()[10].field == Field::GoldHigh,
        layout_spec()[11].field == Field::Weapon,
        layout_spec()[12].field == Field::Armor,
        layout_spec()[13].field == Field::Shield,
        layout_spec()[14].field == Field::KeyBit2,
        layout_spec()[15].field == Field::Flag(2),
        layout_spec()[16].field == Field::Name(3),
        layout_spec()[17].field == Field::Item(7),
        layout_spec()[18].field == Field::Item(6),
        layout_spec()[19].field == Field::Name(0),
        layout_spec()[20].field == Field::Flag(3),
        layout_spec()[21].field == Field::KeyBit1,
        layout_spec()[22].field == Field::GoldLow,
        layout_spec()[23].field == Field::Item(3),
        layout_spec()[24].field == Field::Item(2),
        layout_spec()[25].field == Field::KeyBit0,
        layout_spec()[26].field == Field::Flag(4),
        layout_spec()[27].field == Field::Name(2),
        layout_spec()[28].field == Field::ExperienceLow,
        layout_spec()[29].field == Field::Checksum,
{
}

#[verifier::rlimit(30)]
proof fn lemma_stored_upto_6(values: Seq<u16>)
    requires
        values.len() == 30,
    ensures
        stored(blank(), layout_spec(), values, 6) == stored_upto_6(values),
{
    lemma_slots();
    assert(stored(blank(), layout_spec(), values, 1) == store_spec(
        stored(blank(), layout_spec(), values, 0),
        Field::Item(1),
        values[0],
    ));
    assert(stored(blank(), layout_spec(), values, 2) == store_spec(
        stored(blank(), layout_spec(), values, 1),
        Field::Item(0),
        values[1],
    ));
    assert(stored(blank(), layout_spec(), values, 3) == store_spec(
        stored(blank(), layout_spec(), values, 2),
        Field::Flag(0),
        values[2],
    ));
    assert(stored(blank(), layout_spec(), values, 4) == store_spec(
        stored(blank(), layout_spec(), values, 3),
        Field::Name(1),
        values[3],
    ));
    assert(stored(blank(), layout_spec(), values, 5) == store_spec(
        stored(blank(), layout_spec(), values, 4),
        Field::Flag(1),
        values[4],
    ));
    assert(stored(blank(), layout_spec(), values, 6) == store_spec(
        stored(blank(), layout_spec(), values, 5),
        Field::ExperienceHigh,
        values[5],
    ));
    let reached = stored(blank(), layout_spec(), values, 6);
    let wanted = stored_upto_6(values);
    assert(reached.name =~= wanted.name);
    assert(reached.items =~= wanted.items);
    assert(reached.progress_flags =~= wanted.progress_flags);
}

#[verifier::rlimit(30)]
proof fn lemma_stored_upto_12(values: Seq<u16>)
    requires
        values.len() == 30,
        stored(blank(), layout_spec(), values, 6) == stored_upto_6(values),
    ensures
        stored(blank(), layout_spec(), values, 12) == stored_upto_12(values),
{
    lemma_slots();
    assert(stored(blank(), layout_spec(), values, 7) == store_spec(
        stored(blank(), layout_spec(), values, 6),
        Field::Item(5),
        values[6],
    ));
    assert(stored(blank(), layout_spec(), values, 8) == store_spec(
        stored(blank(), layout_spec(), values, 7),
        Field::Item(4),
        values[7],
    ));
    assert(stored(blank(), layout_spec(), values, 9) == store_spec(
        stored(blank(), layout_spec(), values, 8),
        Field::Herbs,
        values[8],
    ));
    assert(stored(blank(), layout_spec(), values, 10) == store_spec(
        stored(blank(), layout_spec(), values, 9),
        Field::Keys,
        values[9],
    ));
    assert(stored(blank(), layout_spec(), values, 11) == store_spec(
        stored(blank(), layout_spec(), values, 10),
        Field::GoldHigh,
        values[10],
    ));
    assert(stored(blank(), layout_spec(), values, 12) == store_spec(
        stored(blank(), layout_spec(), values, 11),
        Field::Weapon,
        values[11],
    ));
    let reached = stored(blank(), layout_spec(), values, 12);
    let wanted = stored_upto_12(values);
    assert(reached.name =~= wanted.name);
    assert(reached.items =~= wanted.items);
    assert(reached.progress_flags =~= wanted.progress_flags);
}

#[verifier::rlimit(30)]
proof fn lemma_stored_upto_18(values: Seq<u16>)
    requires
        values.len() == 30,
        stored(blank(), layout_spec(), values, 12) == stored_upto_12(values),
    ensures
        stored(blank(), layout_spec(), values, 18) == stored_upto_18(values),
{
    lemma_slots();
    assert(stored(blank(), layout_spec(), values, 13) == store_spec(
        stored(blank(), layout_spec(), values, 12),
        Field::Armor,
        values[12],
    ));
    assert(stored(blank(), layout_spec(), values, 14) == store_spec(
        stored(blank(), layout_spec(), values, 13),
        Field::Shield,
        values[13],
    ));
    assert(stored(blank(), layout_spec(), values, 15) == store_spec(
        stored(blank(), layout_spec(), values, 14),
        Field::KeyBit2,
        values[14],
    ));
    assert(stored(blank(), layout_spec(), values, 16) == store_spec(
        stored(blank(), layout_spec(), values, 15),
        Field::Flag(2),
        values[15],
    ));
    assert(stored(blank(), layout_spec(), values, 17) == store_spec(
        stored(blank(), layout_spec(), values, 16),
        Field::Name(3),
        values[16],
    ));
    assert(stored(blank(), layout_spec(), values, 18) == store_spec(
        stored(blank(), layout_spec(), values, 17),
        Field::Item(7),
        values[17],
    ));
    let reached = stored(blank(), layout_spec(), values, 18);
    let wanted = stored_upto_18(values);
    assert(reached.name =~= wanted.name);
    assert(reached.items =~= wanted.items);
    assert(reached.progress_flags =~= wanted.progress_flags);
}

#[verifier::rlimit(30)]
proof fn lemma_stored_upto_24(values: Seq<u16>)
    requires
        values.len() == 30,
        stored(blank(), layout_spec(), values, 18) == stored_upto_18(values),
    ensures
        stored(blank(), layout_spec(), values, 24) == stored_upto_24(values),
{
    lemma_slots();
    assert(stored(blank(), layout_spec(), values, 19) == store_spec(
        stored(blank(), layout_spec(), values, 18),
        Field::Item(6),
        values[18],
    ));
    assert(stored(blank(), layout_spec(), values, 20) == store_spec(
        stored(blank(), layout_spec(), values, 19),
        Field::Name(0),
        values[19],
    ));
    assert(stored(blank(), layout_spec(), values, 21) == store_spec(
        stored(blank(), layout_spec(), values, 20),
        Field::Flag(3),
        values[20],
    ));
    assert(stored(blank(), layout_spec(), values, 22) == store_spec(
        stored(blank(), layout_spec(), values, 21),
        Field::KeyBit1,
        values[21],
    ));
    assert(stored(blank(), layout_spec(), values, 23) == store_spec(
        stored(blank(), layout_spec(), values, 22),
        Field::GoldLow,
        values[22],
    ));
    assert(stored(blank(), layout_spec(), values, 24) == store_spec(
        stored(blank(), layout_spec(), values, 23),
        Field::Item(3),
        values[23],
    ));
    let reached = stored(blank(), layout_spec(), values, 24);
    let wanted = stored_upto_24(values);
    assert(reached.name =~= wanted.name);
    assert(reached.items =~= wanted.items);
    assert(reached.progress_flags =~= wanted.progress_flags);
}

#[verifier::rlimit(30)]
proof fn lemma_stored_upto_30(values: Seq<u16>)
    requires
        values.len() == 30,
        stored(blank(), layout_spec(), values, 24) == stored_upto_24(values),
    ensures
        stored(blank(), layout_spec(), values, 30) == stored_upto_30(values),
{
    lemma_slots();
    assert(stored(blank(), layout_spec(), values, 25) == store_spec(
        stored(blank(), layout_spec(), values, 24),
        Field::Item(2),
        values[24],
    ));
    assert(stored(blank(), layout_spec(), values, 26) == store_spec(
        stored(blank(), layout_spec(), values, 25),
        Field::KeyBit0,
        values[25],
    ));
    assert(stored(blank(), layout_spec(), values, 27) == store_spec(
        stored(blank(), layout_spec(), values, 26),
        Field::Flag(4),
        values[26],
    ));
    assert(stored(blank(), layout_spec(), values, 28) == store_spec(
        stored(blank(), layout_spec(), values, 27),
        Field::Name(2),
        values[27],
    ));
    assert(stored(blank(), layout_spec(), values, 29) == store_spec(
        stored(blank(), layout_spec(), values, 28),
        Field::ExperienceLow,
        values[28],
    ));
    assert(stored(blank(), layout_spec(), values, 30) == store_spec(
        stored(blank(), layout_spec(), values, 29),
        Field::Checksum,
        values[29],
    ));
    let reached = stored(blank(), layout_spec(), values, 30);
    let wanted = stored_upto_30(values);
    assert(reached.name =~= wanted.name);
    assert(reached.items =~= wanted.items);
    assert(reached.progress_flags =~= wanted.progress_flags);
}

/// Storing all the values of the list gives the record written out.
proof fn lemma_stored_all(values: Seq<u16>)
    requires
        values.len() == 30,
    ensures
        stored(blank(), layout_spec(), values, 30) == stored_upto_30(values),
{
    lemma_stored_upto_6(values);
    lemma_stored_upto_12(values);
    lemma_stored_upto_18(values);
    lemma_stored_upto_24(values);
    lemma_stored_upto_30(values);
}

/// Where each slot of the field list starts.
proof fn lemma_offsets()
    ensures
        width_of_first(layout_spec(), 0) == 0,
        width_of_first(layout_spec(), 1) == 4,
        width_of_first(layout_spec(), 2) == 8,
        width_of_first(layout_spec(), 3) == 9,
        width_of_first(layout_spec(), 4) == 15,
        width_of_first(layout_spec(), 5) == 16,
        width_of_first(layout_spec(), 6) == 24,
        width_of_first(layout_spec(), 7) == 28,
        width_of_first(layout_spec(), 8) == 32,
        width_of_first(layout_spec(), 9) == 36,
        width_of_first(layout_spec(), 10) == 40,
        width_of_first(layout_spec(), 11) == 48,
        width_of_first(layout_spec(), 12) == 51,
        width_of_first(layout_spec(), 13) == 54,
        width_of_first(layout_spec(), 14) == 56,
        width_of_first(layout_spec(), 15) == 57,
        width_of_first(layout_spec(), 16) == 58,
        width_of_first(layout_spec(), 17) == 64,
        width_of_first(layout_spec(), 18) == 68,
        width_of_first(layout_spec(), 19) == 72,
        width_of_first(layout_spec(), 20) == 78,
        width_of_first(layout_spec(), 21) == 79,
        width_of_first(layout_spec(), 22) == 80,
        width_of_first(layout_spec(), 23) == 88,
        width_of_first(layout_spec(), 24) == 92,
        width_of_first(layout_spec(), 25) == 96,
        width_of_first(layout_spec(), 26) == 97,
        width_of_first(layout_spec(), 27) == 98,
        width_of_first(layout_spec(), 28) == 104,
        width_of_first(layout_spec(), 29) == 112,
        width_of_first(layout_spec(), 30) == 120,
{
    reveal_with_fuel(width_of_first, 31);
}

/// How the parts of a byte, given as numbers, are written with shifts and
/// masks.
proof fn lemma_part_forms(b: u8, v: u16)
    by (bit_vector)
    ensures
        v == (b as u16) / 16 ==> (v % 256) as u8 == b >> 4,
        v == (b as u16) % 16 ==> (v % 256) as u8 == b & 0x0f,
        v == (b as u16) / 128 ==> (v != 0) == (b & 0x80 != 0),
        v == (b as u16) % 2 ==> (v != 0) == (b & 0x01 != 0),
        v == (b as u16) / 32 ==> (v % 256) as u8 == b >> 5,
        v == ((b as u16) / 4) % 8 ==> (v % 256) as u8 == (b >> 2) & 0x07,
        v == (b as u16) % 4 ==> (v % 256) as u8 == b & 0x03,
        v == (b as u16) / 128 ==> (v % 256) as u8 == b >> 7,
        v == ((b as u16) / 64) % 2 ==> (v != 0) == (b & 0x40 != 0),
        v == ((b as u16) / 2) % 2 ==> (v != 0) == (b & 0x02 != 0),
        v == (b as u16) % 2 ==> (v % 256) as u8 == b & 0x01,
        v == (b as u16) ==> (v % 256) as u8 == b,
{
}

proof fn lemma_index_forms(b: u8, v: u16)
    by (bit_vector)
    ensures
        v == ((b as u16) / 2) % 64 ==> v == ((b >> 1) & 0x3f) as u16,
        v == (b as u16) ==> v == (b) as u16,
        v == (b as u16) % 64 ==> v == (b & 0x3f) as u16,
        v == (b as u16) / 4 ==> v == (b >> 2) as u16,
{
}

proof fn lemma_joined_forms(high: u16, low: u16, k2: u8, k1: u8, k0: u8)
    by (bit_vector)
    ensures
        (0u16 | (high << 8)) | low == (high << 8) | low,
        ((0u8 | (k2 << 2)) | (k1 << 1)) | k0 == (k2 << 2) | (k1 << 1) | k0,
{
}

/// The values of the fields of the list, each written with shifts and masks
/// of the byte that it lies in.
#[verifier::rlimit(40)]
proof fn lemma_values_forms(bytes: Seq<u8>)
    requires
        bytes.len() >= 15,
    ensures
        field_values(bits_of_bytes(bytes), layout_spec()) matches Some((values, rest)) ==> {
            &&& values.len() == 30
            &&& (values[0] % 256) as u8 == bytes[0] >> 4
            &&& (values[1] % 256) as u8 == bytes[0] & 0x0f
            &&& (values[2] != 0) == (bytes[1] & 0x80 != 0)
            &&& values[3] < 64 && values[3] == ((bytes[1] >> 1) & 0x3f) as u16
            &&& (values[4] != 0) == (bytes[1] & 0x01 != 0)
            &&& values[5] == (bytes[2]) as u16
            &&& (values[6] % 256) as u8 == bytes[3] >> 4
            &&& (values[7] % 256) as u8 == bytes[3] & 0x0f
            &&& (values[8] % 256) as u8 == bytes[4] >> 4
            &&& (values[9] % 256) as u8 == bytes[4] & 0x0f
            &&& values[10] == (bytes[5]) as u16
            &&& (values[11] % 256) as u8 == bytes[6] >> 5
            &&& (values[12] % 256) as u8 == (bytes[6] >> 2) & 0x07
            &&& (values[13] % 256) as u8 == bytes[6] & 0x03
            &&& (values[14] % 256) as u8 == bytes[7] >> 7
            &&& (values[15] != 0) == (bytes[7] & 0x40 != 0)
            &&& values[16] < 64 && values[16] == (bytes[7] & 0x3f) as u16
            &&& (values[17] % 256) as u8 == bytes[8] >> 4
            &&& (values[18] % 256) as u8 == bytes[8] & 0x0f
            &&& values[19] < 64 && values[19] == (bytes[9] >> 2) as u16
            &&& (values[20] != 0) == (bytes[9] & 0x02 != 0)
            &&& (values[21] % 256) as u8 == bytes[9] & 0x01
            &&& values[22] == (bytes[10]) as u16
            &&& (values[23] % 256) as u8 == bytes[11] >> 4
            &&& (values[24] % 256) as u8 == bytes[11] & 0x0f
            &&& (values[25] % 256) as u8 == bytes[12] >> 7
            &&& (values[26] != 0) == (bytes[12] & 0x40 != 0)
            &&& values[27] < 64 && values[27] == (bytes[12] & 0x3f) as u16
            &&& values[28] == (bytes[13]) as u16
            &&& (values[29] % 256) as u8 == bytes[14]
        },
{
    lemma_layout();
    lemma_offsets();
    vstd::arithmetic::power2::lemma2_to64();
    let bits = bits_of_bytes(bytes);
    lemma_field_values(bits, layout_spec());
    if let Some((values, rest)) = field_values(bits, layout_spec()) {
        assert(field_values(bits_of_bytes(bytes), layout_spec()) == Some((values, rest)));
        assert((values[0] % 256) as u8 == bytes[0] >> 4) by {
            lemma_field_of_byte(bytes, layout_spec(), 0, 0, 0, 4);
            assert(pow2(4) == 16 && pow2(4) == 16);
            assert(values[0] as nat == (bytes[0] as nat / 16) % 16);
            assert(values[0] == (bytes[0] as u16) / 16);
            lemma_part_forms(bytes[0], values[0]);
        }
        assert((values[1] % 256) as u8 == bytes[0] & 0x0f) by {
            lemma_field_of_byte(bytes, layout_spec(), 1, 0, 4, 8);
            assert(pow2(0) == 1 && pow2(4) == 16);
            assert(values[1] as nat == (bytes[0] as nat / 1) % 16);
            assert(values[1] == (bytes[0] as u16) % 16);
            lemma_part_forms(bytes[0], values[1]);
        }
        assert((values[2] != 0) == (bytes[1] & 0x80 != 0)) by {
            lemma_field_of_byte(bytes, layout_spec(), 2, 1, 0, 1);
            assert(pow2(7) == 128 && pow2(1) == 2);
            assert(values[2] as nat == (bytes[1] as nat / 128) % 2);
            assert(values[2] == (bytes[1] as u16) / 128);
            lemma_part_forms(bytes[1], values[2]);
        }
        assert(values[3] < 64 && values[3] == ((bytes[1] >> 1) & 0x3f) as u16) by {
            lemma_field_of_byte(bytes, layout_spec(), 3, 1, 1, 7);
            assert(pow2(1) == 2 && pow2(6) == 64);
            assert(values[3] as nat == (bytes[1] as nat / 2) % 64);
            assert(values[3] == ((bytes[1] as u16) / 2) % 64);
            lemma_index_forms(bytes[1], values[3]);
        }
        assert((values[4] != 0) == (bytes[1] & 0x01 != 0)) by {
            lemma_field_of_byte(bytes, layout_spec(), 4, 1, 7, 8);
            assert(pow2(0) == 1 && pow2(1) == 2);
            assert(values[4] as nat == (bytes[1] as nat / 1) % 2);
            assert(values[4] == (bytes[1] as u16) % 2);
            lemma_part_forms(bytes[1], values[4]);
        }
        assert(values[5] == (bytes[2]) as u16) by {
            lemma_field_of_byte(bytes, layout_spec(), 5, 2, 0, 8);
            assert(pow2(0) == 1 && pow2(8) == 256);
            assert(values[5] as nat == (bytes[2] as nat / 1) % 256);
            assert(values[5] == (bytes[2] as u16));
            lemma_index_forms(bytes[2], values[5]);
        }
        assert((values[6] % 256) as u8 == bytes[3] >> 4) by {
            lemma_field_of_byte(bytes, layout_spec(), 6, 3, 0, 4);
            assert(pow2(4) == 16 && pow2(4) == 16);
            assert(values[6] as nat == (bytes[3] as nat / 16) % 16);
            assert(values[6] == (bytes[3] as u16) / 16);
            lemma_part_forms(bytes[3], values[6]);
        }
        assert((values[7] % 256) as u8 == bytes[3] & 0x0f) by {
            lemma_field_of_byte(bytes, layout_spec(), 7, 3, 4, 8);
            assert(pow2(0) == 1 && pow2(4) == 16);
            assert(values[7] as nat == (bytes[3] as nat / 1) % 16);
            assert(values[7] == (bytes[3] as u16) % 16);
            lemma_part_forms(bytes[3], values[7]);
        }
        assert((values[8] % 256) as u8 == bytes[4] >> 4) by {
            lemma_field_of_byte(bytes, layout_spec(), 8, 4, 0, 4);
            assert(pow2(4) == 16 && pow2(4) == 16);
            assert(values[8] as nat == (bytes[4] as nat / 16) % 16);
            assert(values[8] == (bytes[4] as u16) / 16);
            lemma_part_forms(bytes[4], values[8]);
        }
        assert((values[9] % 256) as u8 == bytes[4] & 0x0f) by {
            lemma_field_of_byte(bytes, layout_spec(), 9, 4, 4, 8);
            assert(pow2(0) == 1 && pow2(4) == 16);
            assert(values[9] as nat == (bytes[4] as nat / 1) % 16);
            assert(values[9] == (bytes[4] as u16) % 16);
            lemma_part_forms(bytes[4], values[9]);
        }
        assert(values[10] == (bytes[5]) as u16) by {
            lemma_field_of_byte(bytes, layout_spec(), 10, 5, 0, 8);
            assert(pow2(0) == 1 && pow2(8) == 256);
            assert(values[10] as nat == (bytes[5] as nat / 1) % 256);
            assert(values[10] == (bytes[5] as u16));
            lemma_index_forms(bytes[5], values[10]);
        }
        assert((values[11] % 256) as u8 == bytes[6] >> 5) by {
            lemma_field_of_byte(bytes, layout_spec(), 11, 6, 0, 3);
            assert(pow2(5) == 32 && pow2(3) == 8);
            assert(values[11] as nat == (bytes[6] as nat / 32) % 8);
            assert(values[11] == (bytes[6] as u16) / 32);
            lemma_part_forms(bytes[6], values[11]);
        }
        assert((values[12] % 256) as u8 == (bytes[6] >> 2) & 0x07) by {
            lemma_field_of_byte(bytes, layout_spec(), 12, 6, 3, 6);
            assert(pow2(2) == 4 && pow2(3) == 8);
            assert(values[12] as nat == (bytes[6] as nat / 4) % 8);
            assert(values[12] == ((bytes[6] as u16) / 4) % 8);
            lemma_part_forms(bytes[6], values[12]);
        }
        assert((values[13] % 256) as u8 == bytes[6] & 0x03) by {
            lemma_field_of_byte(bytes, layout_spec(), 13, 6, 6, 8);
            assert(pow2(0) == 1 && pow2(2) == 4);
            assert(values[13] as nat == (bytes[6] as nat / 1) % 4);
            assert(values[13] == (bytes[6] as u16) % 4);
            lemma_part_forms(bytes[6], values[13]);
        }
        assert((values[14] % 256) as u8 == bytes[7] >> 7) by {
            lemma_field_of_byte(bytes, layout_spec(), 14, 7, 0, 1);
            assert(pow2(7) == 128 && pow2(1) == 2);
            assert(values[14] as nat == (bytes[7] as nat / 128) % 2);
            assert(values[14] == (bytes[7] as u16) / 128);
            lemma_part_forms(bytes[7], values[14]);
        }
        assert((values[15] != 0) == (bytes[7] & 0x40 != 0)) by {
            lemma_field_of_byte(bytes, layout_spec(), 15, 7, 1, 2);
            assert(pow2(6) == 64 && pow2(1) == 2);
            assert(values[15] as nat == (bytes[7] as nat / 64) % 2);
            assert(values[15] == ((bytes[7] as u16) / 64) % 2);
            lemma_part_forms(bytes[7], values[15]);
        }
        assert(values[16] < 64 && values[16] == (bytes[7] & 0x3f) as u16) by {
            lemma_field_of_byte(bytes, layout_spec(), 16, 7, 2, 8);
            assert(pow2(0) == 1 && pow2(6) == 64);
            assert(values[16] as nat == (bytes[7] as nat / 1) % 64);
            assert(values[16] == (bytes[7] as u16) % 64);
            lemma_index_forms(bytes[7], values[16]);
        }
        assert((values[17] % 256) as u8 == bytes[8] >> 4) by {
            lemma_field_of_byte(bytes, layout_spec(), 17, 8, 0, 4);
            assert(pow2(4) == 16 && pow2(4) == 16);
            assert(values[17] as nat == (bytes[8] as nat / 16) % 16);
            assert(values[17] == (bytes[8] as u16) / 16);
            lemma_part_forms(bytes[8], values[17]);
        }
        assert((values[18] % 256) as u8 == bytes[8] & 0x0f) by {
            lemma_field_of_byte(bytes, layout_spec(), 18, 8, 4, 8);
            assert(pow2(0) == 1 && pow2(4) == 16);
            assert(values[18] as nat == (bytes[8] as nat / 1) % 16);
            assert(values[18] == (bytes[8] as u16) % 16);
            lemma_part_forms(bytes[8], values[18]);
        }
        assert(values[19] < 64 && values[19] == (bytes[9] >> 2) as u16) by {
            lemma_field_of_byte(bytes, layout_spec(), 19, 9, 0, 6);
            assert(pow2(2) == 4 && pow2(6) == 64);
            assert(values[19] as nat == (bytes[9] as nat / 4) % 64);
            assert(values[19] == (bytes[9] as u16) / 4);
            lemma_index_forms(bytes[9], values[19]);
        }
        assert((values[20] != 0) == (bytes[9] & 0x02 != 0)) by {
            lemma_field_of_byte(bytes, layout_spec(), 20, 9, 6, 7);
            assert(pow2(1) == 2 && pow2(1) == 2);
            assert(values[20] as nat == (bytes[9] as nat / 2) % 2);
            assert(values[20] == ((bytes[9] as u16) / 2) % 2);
            lemma_part_forms(bytes[9], values[20]);
        }
        assert((values[21] % 256) as u8 == bytes[9] & 0x01) by {
            lemma_field_of_byte(bytes, layout_spec(), 21, 9, 7, 8);
            assert(pow2(0) == 1 && pow2(1) == 2);
            assert(values[21] as nat == (bytes[9] as nat / 1) % 2);
            assert(values[21] == (bytes[9] as u16) % 2);
            lemma_part_forms(bytes[9], values[21]);
        }
        assert(values[22] == (bytes[10]) as u16) by {
            lemma_field_of_byte(bytes, layout_spec(), 22, 10, 0, 8);
            assert(pow2(0) == 1 && pow2(8) == 256);
            assert(values[22] as nat == (bytes[10] as nat / 1) % 256);
            assert(values[22] == (bytes[10] as u16));
            lemma_index_forms(bytes[10], values[22]);
        }
        assert((values[23] % 256) as u8 == bytes[11] >> 4) by {
            lemma_field_of_byte(bytes, layout_spec(), 23, 11, 0, 4);
            assert(pow2(4) == 16 && pow2(4) == 16);
            assert(values[23] as nat == (bytes[11] as nat / 16) % 16);
            assert(values[23] == (bytes[11] as u16) / 16);
            lemma_part_forms(bytes[11], values[23]);
        }
        assert((values[24] % 256) as u8 == bytes[11] & 0x0f) by {
            lemma_field_of_byte(bytes, layout_spec(), 24, 11, 4, 8);
            assert(pow2(0) == 1 && pow2(4) == 16);
            assert(values[24] as nat == (bytes[11] as nat / 1) % 16);
            assert(values[24] == (bytes[11] as u16) % 16);
            lemma_part_forms(bytes[11], values[24]);
        }
        assert((values[25] % 256) as u8 == bytes[12] >> 7) by {
            lemma_field_of_byte(bytes, layout_spec(), 25, 12, 0, 1);
            assert(pow2(7) == 128 && pow2(1) == 2);
            assert(values[25] as nat == (bytes[12] as nat / 128) % 2);
            assert(values[25] == (bytes[12] as u16) / 128);
            lemma_part_forms(bytes[12], values[25]);
        }
        assert((values[26] != 0) == (bytes[12] & 0x40 != 0)) by {
            lemma_field_of_byte(bytes, layout_spec(), 26, 12, 1, 2);
            assert(pow2(6) == 64 && pow2(1) == 2);
            assert(values[26] as nat == (bytes[12] as nat / 64) % 2);
            assert(values[26] == ((bytes[12] as u16) / 64) % 2);
            lemma_part_forms(bytes[12], values[26]);
        }
        assert(values[27] < 64 && values[27] == (bytes[12] & 0x3f) as u16) by {
            lemma_field_of_byte(bytes, layout_spec(), 27, 12, 2, 8);
            assert(pow2(0) == 1 && pow2(6) == 64);
            assert(values[27] as nat == (bytes[12] as nat / 1) % 64);
            assert(values[27] == (bytes[12] as u16) % 64);
            lemma_index_forms(bytes[12], values[27]);
        }
        assert(values[28] == (bytes[13]) as u16) by {
            lemma_field_of_byte(bytes, layout_spec(), 28, 13, 0, 8);
            assert(pow2(0) == 1 && pow2(8) == 256);
            assert(values[28] as nat == (bytes[13] as nat / 1) % 256);
            assert(values[28] == (bytes[13] as u16));
            lemma_index_forms(bytes[13], values[28]);
        }
        assert((values[29] % 256) as u8 == bytes[14]) by {
            lemma_field_of_byte(bytes, layout_spec(), 29, 14, 0, 8);
            assert(pow2(0) == 1 && pow2(8) == 256);
            assert(values[29] as nat == (bytes[14] as nat / 1) % 256);
            assert(values[29] == (bytes[14] as u16));
            lemma_part_forms(bytes[14], values[29]);
        }
    }
}

/// The record of a buffer is what its first fifteen bytes hold, field by
/// field; a shorter buffer holds no record.
#[verifier::rlimit(40)]
pub proof fn lemma_record_by_bytes(bytes: Seq<u8>)
    ensures
        record_of_bytes(bytes) == if bytes.len() >= 15 {
            Some(record_by_bytes(bytes))
        } else {
            None
        },
{
    lemma_layout();
    let bits = bits_of_bytes(bytes);
    lemma_field_values(bits, layout_spec());
    if let Some((values, rest)) = field_values(bits, layout_spec()) {
        assert(field_values(bits_of_bytes(bytes), layout_spec()) == Some((values, rest)));
        lemma_values_forms(bytes);
        lemma_stored_all(values);
        let data = stored_upto_30(values);
        let by = record_by_bytes(bytes);
        lemma_joined_forms(values[5], values[28], (values[14] % 256) as u8, (values[21] % 256) as u8, (values[25] % 256) as u8);
        lemma_joined_forms(values[10], values[22], 0, 0, 0);
        assert(data.name =~= by.name);
        assert(data.items =~= by.items);
        assert(data.progress_flags =~= by.progress_flags);
        assert(data.experience == by.experience);
        assert(data.gold == by.gold);
        assert(data.encryption_key == by.encryption_key);
    }
}

/// The checksum of a record is the last of the fifteen bytes that the
/// record is read from.
pub proof fn lemma_record_checksum(bytes: Seq<u8>)
    ensures
        record_of_bytes(bytes) matches Some(data) ==> bytes.len() >= 15 && data.checksum
            == bytes[14],
{
    lemma_record_by_bytes(bytes);
}

/// The checksum of the record of a code is the checksum computed over the
/// first fourteen bytes of the code's buffer.
pub proof fn lemma_decoded_checksum(code: Seq<char>)
    ensures
        record_of_code(code) matches Ok(data) ==> data.checksum == checksum_a(
            checked_buffer(code)->Ok_0.drop_last(),
        ),
{
    if let Ok(buffer) = checked_buffer(code) {
        lemma_code_buffer_len(Format::A, code);
        lemma_record_checksum(buffer);
    }
}

} // verus!
