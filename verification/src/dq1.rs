//! The first format: codes of twenty symbols that pack into fifteen bytes.

use vstd::prelude::*;
use vstd::arithmetic::power2::pow2;
use crate::bits::bits_of_bytes;
use crate::cursor::BitCursor;
use crate::checksum::{checksum_a, checksum_valid_a, verify_checksum_a};
use crate::codec::{code_buffer, lemma_code_buffer_len, pack_code, Format};
use crate::error::Error;
use crate::layout::{field_values, lemma_field_of_byte, lemma_field_values, read_fields,
    total_width, width_of_first, widths_in_range, Slot};
use crate::text::chars_of;

verus! {

/// The alphabet of the first format's codes; a symbol's value is its index.
pub const JUMON_MOJI_TABLE: [char; 64] = [
    'あ', 'い', 'う', 'え', 'お', 'か', 'き', 'く', 'け', 'こ', 'さ', 'し', 'す', 'せ', 'そ', 'た',
    'ち', 'つ', 'て', 'と', 'な', 'に', 'ぬ', 'ね', 'の', 'は', 'ひ', 'ふ', 'へ', 'ほ', 'ま', 'み',
    'む', 'め', 'も', 'や', 'ゆ', 'よ', 'ら', 'り', 'る', 'れ', 'ろ', 'わ', 'が', 'ぎ', 'ぐ', 'げ',
    'ご', 'ざ', 'じ', 'ず', 'ぜ', 'ぞ', 'だ', 'ぢ', 'づ', 'で', 'ど', 'ば', 'び', 'ぶ', 'べ', 'ぼ',
];

/// The alphabet of the first format's player names.
pub const NAME_MOJI_TABLE: [char; 64] = [
    '０', '１', '２', '３', '４', '５', '６', '７', '８', '９', 'あ', 'い', 'う', 'え', 'お', 'か',
    'き', 'く', 'け', 'こ', 'さ', 'し', 'す', 'せ', 'そ', 'た', 'ち', 'つ', 'て', 'と', 'な', 'に',
    'ぬ', 'ね', 'の', 'は', 'ひ', 'ふ', 'へ', 'ほ', 'ま', 'み', 'む', 'め', 'も', 'や', 'ゆ', 'よ',
    'ら', 'り', 'る', 'れ', 'ろ', 'わ', 'を', 'ん', 'っ', 'ゃ', 'ゅ', 'ょ', '゛', '゜', 'ー', '　',
];

/// The number of symbols of a code of the first format.
pub const CODE_LENGTH: usize = 20;

/// The item number that stands for no item of the game.
pub const INVALID_ITEM: u8 = 15;

/// The most herbs, and the most keys, that a player can carry.
pub const MAX_SUPPLIES: u8 = 6;

/// The save record of the first format.
#[derive(Clone, Copy, Debug, PartialEq, Eq)]
pub struct GameData {
    /// The player's name: four symbols of the name alphabet.
    pub name: [char; 4],
    /// Experience points.
    pub experience: u16,
    /// Gold.
    pub gold: u16,
    /// The weapon's number, three bits.
    pub weapon: u8,
    /// The armor's number, three bits.
    pub armor: u8,
    /// The shield's number, two bits.
    pub shield: u8,
    /// The number of herbs, four bits.
    pub herbs: u8,
    /// The number of keys, four bits.
    pub keys: u8,
    /// The item numbers of the eight item slots, four bits each.
    pub items: [u8; 8],
    /// The five progress flags.
    pub progress_flags: [bool; 5],
    /// What is left of the cipher key, three bits; decoded and not used.
    pub encryption_key: u8,
    /// The checksum byte.
    pub checksum: u8,
}

/// What a save record of the first format holds.
pub struct GameDataView {
    pub name: Seq<char>,
    pub experience: u16,
    pub gold: u16,
    pub weapon: u8,
    pub armor: u8,
    pub shield: u8,
    pub herbs: u8,
    pub keys: u8,
    pub items: Seq<u8>,
    pub progress_flags: Seq<bool>,
    pub encryption_key: u8,
    pub checksum: u8,
}

impl View for GameData {
    type V = GameDataView;

    open spec fn view(&self) -> GameDataView {
        GameDataView {
            name: self.name@,
            experience: self.experience,
            gold: self.gold,
            weapon: self.weapon,
            armor: self.armor,
            shield: self.shield,
            herbs: self.herbs,
            keys: self.keys,
            items: self.items@,
            progress_flags: self.progress_flags@,
            encryption_key: self.encryption_key,
            checksum: self.checksum,
        }
    }
}

/// Where a field of the buffer goes in the record.
#[derive(Clone, Copy, Debug)]
pub enum Field {
    /// The item number of one of the eight item slots.
    Item(usize),
    /// One of the five progress flags.
    Flag(usize),
    /// One of the four symbols of the name, as an index into the name
    /// alphabet.
    Name(usize),
    /// The high byte of the experience.
    ExperienceHigh,
    /// The low byte of the experience.
    ExperienceLow,
    /// The high byte of the gold.
    GoldHigh,
    /// The low byte of the gold.
    GoldLow,
    /// The number of herbs.
    Herbs,
    /// The number of keys.
    Keys,
    /// The weapon's number.
    Weapon,
    /// The armor's number.
    Armor,
    /// The shield's number.
    Shield,
    /// Bit 2 of the cipher key's remnant.
    KeyBit2,
    /// Bit 1 of the cipher key's remnant.
    KeyBit1,
    /// Bit 0 of the cipher key's remnant.
    KeyBit0,
    /// The checksum byte.
    Checksum,
}

/// Whether a destination names a slot, flag or symbol that the record has.
pub open spec fn field_in_range(field: Field) -> bool {
    match field {
        Field::Item(i) => i < 8,
        Field::Flag(i) => i < 5,
        Field::Name(i) => i < 4,
        _ => true,
    }
}

/// The field list of the first format: the fields of the buffer in the order
/// in which they lie in it, 120 bits in all.
pub open spec fn layout_spec() -> Seq<Slot<Field>> {
    seq![
        Slot { field: Field::Item(1), width: 4 },
        Slot { field: Field::Item(0), width: 4 },
        Slot { field: Field::Flag(0), width: 1 },
        Slot { field: Field::Name(1), width: 6 },
        Slot { field: Field::Flag(1), width: 1 },
        Slot { field: Field::ExperienceHigh, width: 8 },
        Slot { field: Field::Item(5), width: 4 },
        Slot { field: Field::Item(4), width: 4 },
        Slot { field: Field::Herbs, width: 4 },
        Slot { field: Field::Keys, width: 4 },
        Slot { field: Field::GoldHigh, width: 8 },
        Slot { field: Field::Weapon, width: 3 },
        Slot { field: Field::Armor, width: 3 },
        Slot { field: Field::Shield, width: 2 },
        Slot { field: Field::KeyBit2, width: 1 },
        Slot { field: Field::Flag(2), width: 1 },
        Slot { field: Field::Name(3), width: 6 },
        Slot { field: Field::Item(7), width: 4 },
        Slot { field: Field::Item(6), width: 4 },
        Slot { field: Field::Name(0), width: 6 },
        Slot { field: Field::Flag(3), width: 1 },
        Slot { field: Field::KeyBit1, width: 1 },
        Slot { field: Field::GoldLow, width: 8 },
        Slot { field: Field::Item(3), width: 4 },
        Slot { field: Field::Item(2), width: 4 },
        Slot { field: Field::KeyBit0, width: 1 },
        Slot { field: Field::Flag(4), width: 1 },
        Slot { field: Field::Name(2), width: 6 },
        Slot { field: Field::ExperienceLow, width: 8 },
        Slot { field: Field::Checksum, width: 8 },
    ]
}

/// The record before any field is stored: every number zero, every flag
/// unset, every symbol of the name the null character.
pub open spec fn blank() -> GameDataView {
    GameDataView {
        name: Seq::new(4, |i: int| '\0'),
        experience: 0,
        gold: 0,
        weapon: 0,
        armor: 0,
        shield: 0,
        herbs: 0,
        keys: 0,
        items: Seq::new(8, |i: int| 0u8),
        progress_flags: Seq::new(5, |i: int| false),
        encryption_key: 0,
        checksum: 0,
    }
}

/// The record after `value` is stored at the destination `field`. A part of
/// a number is put in its place beside the parts that are there; a symbol of
/// the name is looked up in the name alphabet.
pub open spec fn store_spec(data: GameDataView, field: Field, value: u16) -> GameDataView {
    match field {
        Field::Item(i) => GameDataView { items: data.items.update(i as int, (value % 256) as u8), ..data },
        Field::Flag(i) => GameDataView {
            progress_flags: data.progress_flags.update(i as int, value != 0),
            ..data
        },
        Field::Name(i) => GameDataView {
            name: data.name.update(i as int, NAME_MOJI_TABLE@[(value % 64) as int]),
            ..data
        },
        Field::ExperienceHigh => GameDataView { experience: data.experience | (value << 8), ..data },
        Field::ExperienceLow => GameDataView { experience: data.experience | value, ..data },
        Field::GoldHigh => GameDataView { gold: data.gold | (value << 8), ..data },
        Field::GoldLow => GameDataView { gold: data.gold | value, ..data },
        Field::Herbs => GameDataView { herbs: (value % 256) as u8, ..data },
        Field::Keys => GameDataView { keys: (value % 256) as u8, ..data },
        Field::Weapon => GameDataView { weapon: (value % 256) as u8, ..data },
        Field::Armor => GameDataView { armor: (value % 256) as u8, ..data },
        Field::Shield => GameDataView { shield: (value % 256) as u8, ..data },
        Field::KeyBit2 => GameDataView {
            encryption_key: data.encryption_key | (((value % 256) as u8) << 2),
            ..data
        },
        Field::KeyBit1 => GameDataView {
            encryption_key: data.encryption_key | (((value % 256) as u8) << 1),
            ..data
        },
        Field::KeyBit0 => GameDataView {
            encryption_key: data.encryption_key | ((value % 256) as u8),
            ..data
        },
        Field::Checksum => GameDataView { checksum: (value % 256) as u8, ..data },
    }
}

/// The record after the first `count` values are stored, each at the
/// destination of its slot.
pub open spec fn stored(
    data: GameDataView,
    layout: Seq<Slot<Field>>,
    values: Seq<u16>,
    count: nat,
) -> GameDataView
    decreases count,
{
    if count == 0 {
        data
    } else {
        store_spec(
            stored(data, layout, values, (count - 1) as nat),
            layout[count - 1].field,
            values[count - 1],
        )
    }
}

/// The record that a buffer holds: its fields read in the order of the field
/// list and stored one by one; `None` where the buffer is too short.
pub open spec fn record_of_bytes(bytes: Seq<u8>) -> Option<GameDataView> {
    match field_values(bits_of_bytes(bytes), layout_spec()) {
        Some((values, _)) => Some(stored(blank(), layout_spec(), values, layout_spec().len())),
        None => None,
    }
}

/// The checked buffer of a code: the first symbol that is not in the
/// alphabet; else a malformed record where the code does not have twenty
/// symbols; else an invalid checksum where the last byte of the buffer is
/// not the checksum of the bytes before it; else the buffer.
pub open spec fn checked_buffer(code: Seq<char>) -> Result<Seq<u8>, Error> {
    match code_buffer(Format::A, code) {
        Err(e) => Err(e),
        Ok(buffer) => if code.len() != CODE_LENGTH {
            Err(Error::MalformedRecord)
        } else if !checksum_valid_a(buffer) {
            Err(Error::InvalidChecksum)
        } else {
            Ok(buffer)
        },
    }
}

/// The record of a code: the record in its checked buffer.
pub open spec fn record_of_code(code: Seq<char>) -> Result<GameDataView, Error> {
    match checked_buffer(code) {
        Err(e) => Err(e),
        Ok(buffer) => match record_of_bytes(buffer) {
            Some(data) => Ok(data),
            None => Err(Error::MalformedRecord),
        },
    }
}

/// Whether a record could come from the game: no item slot holds the number
/// that stands for no item, and herbs and keys are six at most.
pub open spec fn plausible(data: GameDataView) -> bool {
    &&& forall|i: int| 0 <= i < data.items.len() ==> data.items[i] != INVALID_ITEM
    &&& data.herbs <= MAX_SUPPLIES
    &&& data.keys <= MAX_SUPPLIES
}

/// The field list takes 120 bits, and each of its slots is in range.
pub proof fn lemma_layout()
    ensures
        layout_spec().len() == 30,
        total_width(layout_spec()) == 120,
        widths_in_range(layout_spec()),
        forall|i: int| 0 <= i < 30 ==> field_in_range(#[trigger] layout_spec()[i].field),
{
    let l = layout_spec();
    assert(l.len() == 30);
    assert forall|i: int| 0 <= i < 30 implies 1 <= (#[trigger] l[i]).width <= 16 && field_in_range(
        l[i].field,
    ) by {
        assert(i == 0 || i == 1 || i == 2 || i == 3 || i == 4 || i == 5 || i == 6 || i == 7 || i
            == 8 || i == 9 || i == 10 || i == 11 || i == 12 || i == 13 || i == 14 || i == 15 || i
            == 16 || i == 17 || i == 18 || i == 19 || i == 20 || i == 21 || i == 22 || i == 23 || i
            == 24 || i == 25 || i == 26 || i == 27 || i == 28 || i == 29);
    }
    reveal_with_fuel(width_of_first, 31);
}

/// The field list of the first format.
pub fn layout() -> (slots: [Slot<Field>; 30])
    ensures
        slots@ == layout_spec(),
{
    let slots = [
        Slot { field: Field::Item(1), width: 4 },
        Slot { field: Field::Item(0), width: 4 },
        Slot { field: Field::Flag(0), width: 1 },
        Slot { field: Field::Name(1), width: 6 },
        Slot { field: Field::Flag(1), width: 1 },
        Slot { field: Field::ExperienceHigh, width: 8 },
        Slot { field: Field::Item(5), width: 4 },
        Slot { field: Field::Item(4), width: 4 },
        Slot { field: Field::Herbs, width: 4 },
        Slot { field: Field::Keys, width: 4 },
        Slot { field: Field::GoldHigh, width: 8 },
        Slot { field: Field::Weapon, width: 3 },
        Slot { field: Field::Armor, width: 3 },
        Slot { field: Field::Shield, width: 2 },
        Slot { field: Field::KeyBit2, width: 1 },
        Slot { field: Field::Flag(2), width: 1 },
        Slot { field: Field::Name(3), width: 6 },
        Slot { field: Field::Item(7), width: 4 },
        Slot { field: Field::Item(6), width: 4 },
        Slot { field: Field::Name(0), width: 6 },
        Slot { field: Field::Flag(3), width: 1 },
        Slot { field: Field::KeyBit1, width: 1 },
        Slot { field: Field::GoldLow, width: 8 },
        Slot { field: Field::Item(3), width: 4 },
        Slot { field: Field::Item(2), width: 4 },
        Slot { field: Field::KeyBit0, width: 1 },
        Slot { field: Field::Flag(4), width: 1 },
        Slot { field: Field::Name(2), width: 6 },
        Slot { field: Field::ExperienceLow, width: 8 },
        Slot { field: Field::Checksum, width: 8 },
    ];
    assert(slots@ =~= layout_spec());
    slots
}

impl GameData {
    /// The record before any field is stored.
    pub fn new() -> (data: GameData)
        ensures
            data@ == blank(),
    {
        let data = GameData {
            name: ['\0', '\0', '\0', '\0'],
            experience: 0,
            gold: 0,
            weapon: 0,
            armor: 0,
            shield: 0,
            herbs: 0,
            keys: 0,
            items: [0, 0, 0, 0, 0, 0, 0, 0],
            progress_flags: [false, false, false, false, false],
            encryption_key: 0,
            checksum: 0,
        };
        assert(data@.name =~= blank().name);
        assert(data@.items =~= blank().items);
        assert(data@.progress_flags =~= blank().progress_flags);
        data
    }

    /// Stores one field at its destination.
    pub fn store(&mut self, field: Field, value: u16)
        requires
            field_in_range(field),
        ensures
            final(self)@ == store_spec(old(self)@, field, value),
    {
        let low: u8 = (value % 256) as u8;
        match field {
            Field::Item(i) => {
                self.items[i] = low;
            },
            Field::Flag(i) => {
                self.progress_flags[i] = value != 0;
            },
            Field::Name(i) => {
                self.name[i] = NAME_MOJI_TABLE[(value % 64) as usize];
            },
            Field::ExperienceHigh => {
                self.experience = self.experience | (value << 8);
            },
            Field::ExperienceLow => {
                self.experience = self.experience | value;
            },
            Field::GoldHigh => {
                self.gold = self.gold | (value << 8);
            },
            Field::GoldLow => {
                self.gold = self.gold | value;
            },
            Field::Herbs => {
                self.herbs = low;
            },
            Field::Keys => {
                self.keys = low;
            },
            Field::Weapon => {
                self.weapon = low;
            },
            Field::Armor => {
                self.armor = low;
            },
            Field::Shield => {
                self.shield = low;
            },
            Field::KeyBit2 => {
                self.encryption_key = self.encryption_key | (low << 2);
            },
            Field::KeyBit1 => {
                self.encryption_key = self.encryption_key | (low << 1);
            },
            Field::KeyBit0 => {
                self.encryption_key = self.encryption_key | low;
            },
            Field::Checksum => {
                self.checksum = low;
            },
        }
    }

    /// Reads the record out of a buffer, field by field in the order of the
    /// field list. Fails with a malformed record exactly where the buffer
    /// has fewer than fifteen bytes.
    pub fn from_bytes(bytes: &[u8]) -> (result: Result<GameData, Error>)
        ensures
            match result {
                Ok(data) => record_of_bytes(bytes@) == Some(data@),
                Err(e) => e == Error::MalformedRecord && record_of_bytes(bytes@) is None,
            },
            result is Ok <==> bytes@.len() >= 15,
    {
        let slots = layout();
        proof {
            lemma_layout();
            lemma_field_values(bits_of_bytes(bytes@), layout_spec());
        }
        let mut cursor = BitCursor::new(bytes);
        match read_fields(&mut cursor, slots.as_slice()) {
            None => Err(Error::MalformedRecord),
            Some(values) => {
                let mut data = GameData::new();
                let mut i: usize = 0;
                while i < 30
                    invariant
                        i <= 30,
                        values@.len() == 30,
                        slots@ == layout_spec(),
                        forall|j: int| 0 <= j < 30 ==> field_in_range(#[trigger] layout_spec()[j].field),
                        data@ == stored(blank(), layout_spec(), values@, i as nat),
                    decreases 30 - i,
                {
                    data.store(slots[i].field, values[i]);
                    i += 1;
                }
                Ok(data)
            },
        }
    }

    /// Whether the record could come from the game.
    pub fn is_plausible(&self) -> (ok: bool)
        ensures
            ok == plausible(self@),
    {
        let mut i: usize = 0;
        while i < 8
            invariant
                i <= 8,
                forall|j: int| 0 <= j < i ==> self.items@[j] != INVALID_ITEM,
            decreases 8 - i,
        {
            if self.items[i] == INVALID_ITEM {
                assert(self@.items[i as int] == INVALID_ITEM);
                return false;
            }
            i += 1;
        }
        self.herbs <= MAX_SUPPLIES && self.keys <= MAX_SUPPLIES
    }
}

impl Default for GameData {
    /// The record before any field is stored.
    fn default() -> (data: GameData)
        ensures
            data@ == blank(),
    {
        GameData::new()
    }
}

/// Packs the symbols of a code of the first format into its buffer and
/// checks it: the symbols, then the length of the code, then the checksum byte.
pub fn check_code(code: &[char]) -> (result: Result<Vec<u8>, Error>)
    ensures
        match result {
            Ok(buffer) => checked_buffer(code@) == Ok::<Seq<u8>, Error>(buffer@),
            Err(e) => checked_buffer(code@) == Err::<Seq<u8>, Error>(e),
        },
        result matches Ok(buffer) ==> buffer@.len() == 15,
{
    match pack_code(code, Format::A) {
        Err(e) => Err(e),
        Ok(buffer) => {
            if code.len() != CODE_LENGTH {
                Err(Error::MalformedRecord)
            } else if !verify_checksum_a(buffer.as_slice()) {
                Err(Error::InvalidChecksum)
            } else {
                Ok(buffer)
            }
        },
    }
}

/// Packs a code of the first format, given as text, into its buffer and
/// checks it.
pub fn decode_jumon(input: &str) -> (result: Result<Vec<u8>, Error>)
    ensures
        match result {
            Ok(buffer) => checked_buffer(input@) == Ok::<Seq<u8>, Error>(buffer@),
            Err(e) => checked_buffer(input@) == Err::<Seq<u8>, Error>(e),
        },
        result matches Ok(buffer) ==> buffer@.len() == 15,
{
    let code = chars_of(input);
    check_code(code.as_slice())
}

/// Decodes the symbols of a code of the first format into its record.
pub fn decode_code(code: &[char]) -> (result: Result<GameData, Error>)
    ensures
        match result {
            Ok(data) => record_of_code(code@) == Ok::<GameDataView, Error>(data@),
            Err(e) => record_of_code(code@) == Err::<GameDataView, Error>(e),
        },
{
    match check_code(code) {
        Err(e) => Err(e),
        Ok(buffer) => GameData::from_bytes(buffer.as_slice()),
    }
}

/// Decodes a code of the first format, given as text, into its record.
pub fn decode(input: &str) -> (result: Result<GameData, Error>)
    ensures
        match result {
            Ok(data) => record_of_code(input@) == Ok::<GameDataView, Error>(data@),
            Err(e) => record_of_code(input@) == Err::<GameDataView, Error>(e),
        },
{
    let code = chars_of(input);
    decode_code(code.as_slice())
}

} // verus!
