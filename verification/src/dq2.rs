//! The second format: codes of up to 52 symbols that pack into up to 39
//! bytes.

use vstd::prelude::*;
use vstd::arithmetic::power2::pow2;
use crate::bits::{bits_of_bytes, value_of_bits};
use crate::cursor::BitCursor;
use crate::checksum::{checksum_b, checksum_valid_b, stored_checksum_b, verify_checksum_b};
use crate::codec::{code_buffer, pack_code, Format};
use crate::error::Error;
use crate::layout::{field_values, lemma_field_of_byte, lemma_field_values, read_fields,
    total_width, width_of_first, widths_in_range, Slot};
use crate::text::chars_of;

verus! {

/// The alphabet of the second format's codes; a symbol's value is its index.
pub const JUMON_MOJI_TABLE: [char; 64] = [
    'あ', 'い', 'う', 'え', 'お', 'か', 'き', 'く', 'け', 'こ', 'さ', 'し', 'す', 'せ', 'そ', 'た',
    'ち', 'つ', 'て', 'と', 'な', 'に', 'ぬ', 'ね', 'の', 'は', 'ひ', 'ふ', 'へ', 'ほ', 'ま', 'み',
    'む', 'め', 'も', 'や', 'ゆ', 'よ', 'ら', 'り', 'る', 'れ', 'ろ', 'わ', 'が', 'ぎ', 'ぐ', 'げ',
    'ご', 'ざ', 'じ', 'ず', 'ぜ', 'ぞ', 'ば', 'び', 'ぶ', 'べ', 'ぼ', 'ぱ', 'ぴ', 'ぷ', 'ぺ', 'ぽ',
];

/// The alphabet of the second format's hero names. Its last entry is a
/// placeholder that no name holds.
pub const NAME_MOJI_TABLE: [char; 64] = [
    '０', '１', '２', '３', '４', '５', '６', '７', '８', '９', 'あ', 'い', 'う', 'え', 'お', 'か',
    'き', 'く', 'け', 'こ', 'さ', 'し', 'す', 'せ', 'そ', 'た', 'ち', 'つ', 'て', 'と', 'な', 'に',
    'ぬ', 'ね', 'の', 'は', 'ひ', 'ふ', 'へ', 'ほ', 'ま', 'み', 'む', 'め', 'も', 'や', 'ゆ', 'よ',
    'ら', 'り', 'る', 'れ', 'ろ', 'わ', 'を', 'ん', 'っ', 'ゃ', 'ゅ', 'ょ', '゛', '゜', '　', '\0',
];

/// The most symbols that a code of the second format has.
pub const MAX_CODE_LENGTH: usize = 52;

/// The number of places that a record can name.
pub const LOCATION_COUNT: u8 = 7;

/// The most experience that a member of the party can have.
pub const MAX_EXPERIENCE: u32 = 1000000;

/// The save record of the second format.
#[derive(Clone, Copy, Debug, PartialEq, Eq)]
pub struct GameData {
    /// The hero's name: four symbols of the name alphabet.
    pub hero_name: [char; 4],
    /// The hero's items, seven bits each; slots after the last item are zero.
    pub hero_items: [u8; 8],
    /// The prince's items; all zero where the prince has not joined.
    pub prince_items: [u8; 8],
    /// The princess's items; all zero where the princess has not joined.
    pub princess_items: [u8; 8],
    /// The hero's experience, twenty bits.
    pub hero_experience: u32,
    /// The prince's experience; zero where the prince has not joined.
    pub prince_experience: u32,
    /// The princess's experience; zero where the princess has not joined.
    pub princess_experience: u32,
    /// Whether the prince has joined.
    pub prince_flag: bool,
    /// Whether the princess has joined.
    pub princess_flag: bool,
    /// Gold.
    pub gold: u16,
    /// The number of the place where the game goes on, three bits.
    pub location: u8,
    /// The seven progress flags.
    pub progress_flags: [bool; 7],
    /// The five crest flags.
    pub crests: [bool; 5],
    /// What is left of the cipher key, four bits; decoded and not used.
    pub encryption_key: u8,
    /// The checksum, eleven bits.
    pub checksum: u16,
}

/// What a save record of the second format holds.
pub struct GameDataView {
    pub hero_name: Seq<char>,
    pub hero_items: Seq<u8>,
    pub prince_items: Seq<u8>,
    pub princess_items: Seq<u8>,
    pub hero_experience: u32,
    pub prince_experience: u32,
    pub princess_experience: u32,
    pub prince_flag: bool,
    pub princess_flag: bool,
    pub gold: u16,
    pub location: u8,
    pub progress_flags: Seq<bool>,
    pub crests: Seq<bool>,
    pub encryption_key: u8,
    pub checksum: u16,
}

impl View for GameData {
    type V = GameDataView;

    open spec fn view(&self) -> GameDataView {
        GameDataView {
            hero_name: self.hero_name@,
            hero_items: self.hero_items@,
            prince_items: self.prince_items@,
            princess_items: self.princess_items@,
            hero_experience: self.hero_experience,
            prince_experience: self.prince_experience,
            princess_experience: self.princess_experience,
            prince_flag: self.prince_flag,
            princess_flag: self.princess_flag,
            gold: self.gold,
            location: self.location,
            progress_flags: self.progress_flags@,
            crests: self.crests@,
            encryption_key: self.encryption_key,
            checksum: self.checksum,
        }
    }
}

/// The fixed part of a buffer while it is read: the record so far, the
/// index of the second symbol of the name, whose bits lie in four places,
/// and the two spare bits that the last item of a full party borrows.
#[derive(Clone, Copy, Debug)]
pub struct Header {
    pub data: GameData,
    pub name_index: u8,
    pub spare_bits: u8,
}

/// What the fixed part of a buffer holds while it is read.
pub struct HeaderView {
    pub data: GameDataView,
    pub name_index: u8,
    pub spare_bits: u8,
}

impl View for Header {
    type V = HeaderView;

    open spec fn view(&self) -> HeaderView {
        HeaderView { data: self.data@, name_index: self.name_index, spare_bits: self.spare_bits }
    }
}

/// Where a field of the fixed part of the buffer goes.
#[derive(Clone, Copy, Debug)]
pub enum Field {
    /// The high five bits of the checksum.
    ChecksumHigh,
    /// The low six bits of the checksum.
    ChecksumLow,
    /// The number of the place.
    Location,
    /// One of the four symbols of the name, as an index into the name
    /// alphabet; the second symbol does not come this way.
    Name(usize),
    /// Bits of the index of the second symbol of the name, to be shifted
    /// left by the number given.
    NameIndexBits(u32),
    /// The high byte of the gold.
    GoldHigh,
    /// The low byte of the gold.
    GoldLow,
    /// Bit 0 of the cipher key's remnant.
    KeyLow,
    /// Bits 1 to 3 of the cipher key's remnant.
    KeyHigh,
    /// One of the seven progress flags.
    Flag(usize),
    /// One of the five crest flags.
    Crest(usize),
    /// The two spare bits.
    SpareBits,
}

/// Whether a destination names a symbol, flag or shift that the record has.
pub open spec fn field_in_range(field: Field) -> bool {
    match field {
        Field::Name(i) => i < 4,
        Field::NameIndexBits(shift) => shift < 8,
        Field::Flag(i) => i < 7,
        Field::Crest(i) => i < 5,
        _ => true,
    }
}

/// The field list of the fixed part of the second format: its fields in the
/// order in which they lie in the buffer, 72 bits in all.
pub open spec fn layout_spec() -> Seq<Slot<Field>> {
    seq![
        Slot { field: Field::ChecksumHigh, width: 5 },
        Slot { field: Field::Location, width: 3 },
        Slot { field: Field::Name(2), width: 6 },
        Slot { field: Field::NameIndexBits(4), width: 2 },
        Slot { field: Field::GoldHigh, width: 8 },
        Slot { field: Field::NameIndexBits(1), width: 2 },
        Slot { field: Field::Name(0), width: 6 },
        Slot { field: Field::GoldLow, width: 8 },
        Slot { field: Field::NameIndexBits(0), width: 1 },
        Slot { field: Field::Name(3), width: 6 },
        Slot { field: Field::NameIndexBits(3), width: 1 },
        Slot { field: Field::KeyLow, width: 1 },
        Slot { field: Field::Flag(0), width: 1 },
        Slot { field: Field::Flag(1), width: 1 },
        Slot { field: Field::Flag(2), width: 1 },
        Slot { field: Field::Flag(3), width: 1 },
        Slot { field: Field::Flag(4), width: 1 },
        Slot { field: Field::Flag(5), width: 1 },
        Slot { field: Field::Flag(6), width: 1 },
        Slot { field: Field::KeyHigh, width: 3 },
        Slot { field: Field::Crest(0), width: 1 },
        Slot { field: Field::Crest(1), width: 1 },
        Slot { field: Field::Crest(2), width: 1 },
        Slot { field: Field::Crest(3), width: 1 },
        Slot { field: Field::Crest(4), width: 1 },
        Slot { field: Field::SpareBits, width: 2 },
        Slot { field: Field::ChecksumLow, width: 6 },
    ]
}

/// The record before any field is stored: every number zero, every flag
/// unset, every symbol of the name the null character.
pub open spec fn blank() -> GameDataView {
    GameDataView {
        hero_name: Seq::new(4, |i: int| '\0'),
        hero_items: Seq::new(8, |i: int| 0u8),
        prince_items: Seq::new(8, |i: int| 0u8),
        princess_items: Seq::new(8, |i: int| 0u8),
        hero_experience: 0,
        prince_experience: 0,
        princess_experience: 0,
        prince_flag: false,
        princess_flag: false,
        gold: 0,
        location: 0,
        progress_flags: Seq::new(7, |i: int| false),
        crests: Seq::new(5, |i: int| false),
        encryption_key: 0,
        checksum: 0,
    }
}

/// The fixed part before any field is stored.
pub open spec fn blank_header() -> HeaderView {
    HeaderView { data: blank(), name_index: 0, spare_bits: 0 }
}

/// The fixed part after `value` is stored at the destination `field`. A
/// part of a number is put in its place beside the parts that are there; a
/// symbol of the name is looked up in the name alphabet.
pub open spec fn store_spec(header: HeaderView, field: Field, value: u16) -> HeaderView {
    let data = header.data;
    let low = (value % 256) as u8;
    match field {
        Field::ChecksumHigh => HeaderView {
            data: GameDataView { checksum: data.checksum | (value << 6), ..data },
            ..header
        },
        Field::ChecksumLow => HeaderView {
            data: GameDataView { checksum: data.checksum | value, ..data },
            ..header
        },
        Field::Location => HeaderView { data: GameDataView { location: low, ..data }, ..header },
        Field::Name(i) => HeaderView {
            data: GameDataView {
                hero_name: data.hero_name.update(i as int, NAME_MOJI_TABLE@[(value % 64) as int]),
                ..data
            },
            ..header
        },
        Field::NameIndexBits(shift) => HeaderView {
            name_index: header.name_index | (low << shift),
            ..header
        },
        Field::GoldHigh => HeaderView {
            data: GameDataView { gold: data.gold | (value << 8), ..data },
            ..header
        },
        Field::GoldLow => HeaderView { data: GameDataView { gold: data.gold | value, ..data }, ..header },
        Field::KeyLow => HeaderView {
            data: GameDataView { encryption_key: data.encryption_key | low, ..data },
            ..header
        },
        Field::KeyHigh => HeaderView {
            data: GameDataView { encryption_key: data.encryption_key | (low << 1), ..data },
            ..header
        },
        Field::Flag(i) => HeaderView {
            data: GameDataView {
                progress_flags: data.progress_flags.update(i as int, value != 0),
                ..data
            },
            ..header
        },
        Field::Crest(i) => HeaderView {
            data: GameDataView { crests: data.crests.update(i as int, value != 0), ..data },
            ..header
        },
        Field::SpareBits => HeaderView { spare_bits: low, ..header },
    }
}

/// The fixed part after the first `count` values are stored, each at the
/// destination of its slot.
pub open spec fn stored(
    header: HeaderView,
    layout: Seq<Slot<Field>>,
    values: Seq<u16>,
    count: nat,
) -> HeaderView
    decreases count,
{
    if count == 0 {
        header
    } else {
        store_spec(
            stored(header, layout, values, (count - 1) as nat),
            layout[count - 1].field,
            values[count - 1],
        )
    }
}

/// The record of a fixed part that has been read: the second symbol of the
/// name is looked up once all the bits of its index are there.
pub open spec fn header_record(header: HeaderView) -> GameDataView {
    GameDataView {
        hero_name: header.data.hero_name.update(1, NAME_MOJI_TABLE@[(header.name_index % 64) as int]),
        ..header.data
    }
}

/// The start of a member's block: the experience, whose low sixteen bits
/// come before its high four, and the number of items, four bits; with the
/// bits after them. `None` where fewer than 24 bits are left.
pub open spec fn member_head(bits: Seq<bool>) -> Option<(u32, u8, Seq<bool>)> {
    if bits.len() < 24 {
        None
    } else {
        let low = value_of_bits(bits.take(16)) as u16;
        let high = value_of_bits(bits.subrange(16, 20)) as u16;
        let count = value_of_bits(bits.subrange(20, 24)) as u16;
        Some(((low as u32) | ((high as u32) << 16), (count % 256) as u8, bits.skip(24)))
    }
}

/// Item `i` of a run of items of seven bits each.
pub open spec fn whole_item(bits: Seq<bool>, i: int) -> u8 {
    ((value_of_bits(bits.subrange(7 * i, 7 * i + 7)) as u16) % 256) as u8
}

/// The high five bits of item `i` of a run of items.
pub open spec fn item_high(bits: Seq<bool>, i: int) -> u8 {
    ((value_of_bits(bits.subrange(7 * i, 7 * i + 5)) as u16) % 256) as u8
}

/// The low two bits of item `i` of a run of items.
pub open spec fn item_low(bits: Seq<bool>, i: int) -> u8 {
    ((value_of_bits(bits.subrange(7 * i + 5, 7 * i + 7)) as u16) % 256) as u8
}

/// The items of the hero or of the prince: `count` items of seven bits, in
/// the first slots of eight, with the bits after them. `None` where there
/// are more than eight items or not all of them fit.
pub open spec fn plain_items(bits: Seq<bool>, count: u8) -> Option<(Seq<u8>, Seq<bool>)> {
    if count > 8 || bits.len() < 7 * count {
        None
    } else {
        Some((Seq::new(8, |i: int| if i < count { whole_item(bits, i) } else { 0u8 }), bits.skip(7 * count)))
    }
}

/// The items of the princess, who comes last: each item is its high five
/// bits and its low two. Where the buffer ends after the high bits of the
/// last item, the two spare bits of the fixed part are its low bits. `None`
/// where there are more than eight items, or where more is missing than the
/// low bits of the last one.
pub open spec fn last_items(bits: Seq<bool>, count: u8, spare: u8) -> Option<Seq<u8>> {
    if count > 8 {
        None
    } else if bits.len() >= 7 * count {
        Some(
            Seq::new(
                8,
                |i: int| if i < count { (item_high(bits, i) << 2) | item_low(bits, i) } else { 0u8 },
            ),
        )
    } else if bits.len() >= 7 * count - 2 {
        Some(
            Seq::new(
                8,
                |i: int|
                    if i < count - 1 {
                        (item_high(bits, i) << 2) | item_low(bits, i)
                    } else if i == count - 1 {
                        (item_high(bits, i) << 2) | spare
                    } else {
                        0u8
                    },
            ),
        )
    } else {
        None
    }
}

/// Whether the next bit is there and set; `None` where no bit is left.
pub open spec fn joined(bits: Seq<bool>) -> Option<bool> {
    if bits.len() < 1 {
        None
    } else {
        Some(value_of_bits(bits.take(1)) != 0)
    }
}

/// The record with the party added: the hero's block; then a bit that says
/// whether the prince has joined, and if so his block; then a bit that says
/// whether the princess has joined, and if so her block. A member who has
/// not joined ends the record, and nothing after that bit is read.
pub open spec fn with_party(data: GameDataView, spare: u8, bits: Seq<bool>) -> Option<GameDataView> {
    match member_head(bits) {
        None => None,
        Some((experience, count, rest)) => match plain_items(rest, count) {
            None => None,
            Some((items, rest)) => {
                let data = GameDataView { hero_experience: experience, hero_items: items, ..data };
                match joined(rest) {
                    None => None,
                    Some(false) => Some(data),
                    Some(true) => with_prince(
                        GameDataView { prince_flag: true, ..data },
                        spare,
                        rest.skip(1),
                    ),
                }
            },
        },
    }
}

/// The record with the prince's block added, and what follows it.
pub open spec fn with_prince(data: GameDataView, spare: u8, bits: Seq<bool>) -> Option<GameDataView> {
    match member_head(bits) {
        None => None,
        Some((experience, count, rest)) => match plain_items(rest, count) {
            None => None,
            Some((items, rest)) => {
                let data = GameDataView { prince_experience: experience, prince_items: items, ..data };
                match joined(rest) {
                    None => None,
                    Some(false) => Some(data),
                    Some(true) => with_princess(
                        GameDataView { princess_flag: true, ..data },
                        spare,
                        rest.skip(1),
                    ),
                }
            },
        },
    }
}

/// The record with the princess's block added.
pub open spec fn with_princess(data: GameDataView, spare: u8, bits: Seq<bool>) -> Option<
    GameDataView,
> {
    match member_head(bits) {
        None => None,
        Some((experience, count, rest)) => match last_items(rest, count, spare) {
            None => None,
            Some(items) => Some(
                GameDataView { princess_experience: experience, princess_items: items, ..data },
            ),
        },
    }
}

/// The record that a buffer holds: the fields of the fixed part read in the
/// order of the field list and stored one by one, then the party; `None`
/// where the buffer ends before a field that has to be there.
pub open spec fn record_of_bytes(bytes: Seq<u8>) -> Option<GameDataView> {
    match field_values(bits_of_bytes(bytes), layout_spec()) {
        None => None,
        Some((values, rest)) => {
            let header = stored(blank_header(), layout_spec(), values, layout_spec().len());
            with_party(header_record(header), header.spare_bits, rest)
        },
    }
}

/// The checked buffer of a code: the first symbol that is not in the
/// alphabet; else a malformed record where the code has more than 52 symbols
/// or its buffer has no byte 8; else an invalid checksum where the stored
/// checksum is not the computed one; else the buffer.
pub open spec fn checked_buffer(code: Seq<char>) -> Result<Seq<u8>, Error> {
    match code_buffer(Format::B, code) {
        Err(e) => Err(e),
        Ok(buffer) => if code.len() > MAX_CODE_LENGTH || buffer.len() < 9 {
            Err(Error::MalformedRecord)
        } else if !checksum_valid_b(buffer) {
            Err(Error::InvalidChecksum)
        } else {
            Ok(buffer)
        },
    }
}

/// The record of a code: the record in its checked buffer.
pub open spec fn record_of_code(code: Seq<char>) -> Result<GameDataView, Error> {
    match checked_buffer(code) {
        Err(e) => Err(e),
        Ok(buffer) => match record_of_bytes(buffer) {
            Some(data) => Ok(data),
            None => Err(Error::MalformedRecord),
        },
    }
}

/// Whether a record could come from the game: no symbol of the name is the
/// placeholder, the place is one that the game has, and no member has more
/// than a million experience points.
pub open spec fn plausible(data: GameDataView) -> bool {
    &&& forall|i: int| 0 <= i < data.hero_name.len() ==> data.hero_name[i] != '\0'
    &&& data.location < LOCATION_COUNT
    &&& data.hero_experience <= MAX_EXPERIENCE
    &&& data.prince_experience <= MAX_EXPERIENCE
    &&& data.princess_experience <= MAX_EXPERIENCE
}

/// The field list takes 72 bits, and each of its slots is in range.
pub proof fn lemma_layout()
    ensures
        layout_spec().len() == 27,
        total_width(layout_spec()) == 72,
        widths_in_range(layout_spec()),
        forall|i: int| 0 <= i < 27 ==> field_in_range(#[trigger] layout_spec()[i].field),
{
    let l = layout_spec();
    assert(l.len() == 27);
    assert forall|i: int| 0 <= i < 27 implies 1 <= (#[trigger] l[i]).width <= 16 && field_in_range(
        l[i].field,
    ) by {
        assert(i == 0 || i == 1 || i == 2 || i == 3 || i == 4 || i == 5 || i == 6 || i == 7 || i
            == 8 || i == 9 || i == 10 || i == 11 || i == 12 || i == 13 || i == 14 || i == 15 || i
            == 16 || i == 17 || i == 18 || i == 19 || i == 20 || i == 21 || i == 22 || i == 23 || i
            == 24 || i == 25 || i == 26);
    }
    reveal_with_fuel(width_of_first, 28);
}

/// The field list of the fixed part of the second format.
pub fn layout() -> (slots: [Slot<Field>; 27])
    ensures
        slots@ == layout_spec(),
{
    let slots = [
        Slot { field: Field::ChecksumHigh, width: 5 },
        Slot { field: Field::Location, width: 3 },
        Slot { field: Field::Name(2), width: 6 },
        Slot { field: Field::NameIndexBits(4), width: 2 },
        Slot { field: Field::GoldHigh, width: 8 },
        Slot { field: Field::NameIndexBits(1), width: 2 },
        Slot { field: Field::Name(0), width: 6 },
        Slot { field: Field::GoldLow, width: 8 },
        Slot { field: Field::NameIndexBits(0), width: 1 },
        Slot { field: Field::Name(3), width: 6 },
        Slot { field: Field::NameIndexBits(3), width: 1 },
        Slot { field: Field::KeyLow, width: 1 },
        Slot { field: Field::Flag(0), width: 1 },
        Slot { field: Field::Flag(1), width: 1 },
        Slot { field: Field::Flag(2), width: 1 },
        Slot { field: Field::Flag(3), width: 1 },
        Slot { field: Field::Flag(4), width: 1 },
        Slot { field: Field::Flag(5), width: 1 },
        Slot { field: Field::Flag(6), width: 1 },
        Slot { field: Field::KeyHigh, width: 3 },
        Slot { field: Field::Crest(0), width: 1 },
        Slot { field: Field::Crest(1), width: 1 },
        Slot { field: Field::Crest(2), width: 1 },
        Slot { field: Field::Crest(3), width: 1 },
        Slot { field: Field::Crest(4), width: 1 },
        Slot { field: Field::SpareBits, width: 2 },
        Slot { field: Field::ChecksumLow, width: 6 },
    ];
    assert(slots@ =~= layout_spec());
    slots
}

impl Header {
    /// The fixed part before any field is stored.
    pub fn new() -> (header: Header)
        ensures
            header@ == blank_header(),
    {
        Header { data: GameData::new(), name_index: 0, spare_bits: 0 }
    }

    /// Stores one field at its destination.
    pub fn store(&mut self, field: Field, value: u16)
        requires
            field_in_range(field),
        ensures
            final(self)@ == store_spec(old(self)@, field, value),
    {
        let low: u8 = (value % 256) as u8;
        match field {
            Field::ChecksumHigh => {
                self.data.checksum = self.data.checksum | (value << 6);
            },
            Field::ChecksumLow => {
                self.data.checksum = self.data.checksum | value;
            },
            Field::Location => {
                self.data.location = low;
            },
            Field::Name(i) => {
                self.data.hero_name[i] = NAME_MOJI_TABLE[(value % 64) as usize];
            },
            Field::NameIndexBits(shift) => {
                self.name_index = self.name_index | (low << shift);
            },
            Field::GoldHigh => {
                self.data.gold = self.data.gold | (value << 8);
            },
            Field::GoldLow => {
                self.data.gold = self.data.gold | value;
            },
            Field::KeyLow => {
                self.data.encryption_key = self.data.encryption_key | low;
            },
            Field::KeyHigh => {
                self.data.encryption_key = self.data.encryption_key | (low << 1);
            },
            Field::Flag(i) => {
                self.data.progress_flags[i] = value != 0;
            },
            Field::Crest(i) => {
                self.data.crests[i] = value != 0;
            },
            Field::SpareBits => {
                self.spare_bits = low;
            },
        }
    }

    /// The record of a fixed part that has been read.
    pub fn record(&self) -> (data: GameData)
        ensures
            data@ == header_record(self@),
    {
        let mut data = self.data;
        data.hero_name[1] = NAME_MOJI_TABLE[(self.name_index % 64) as usize];
        data
    }
}

/// Reads the start of a member's block.
fn read_member_head(cursor: &mut BitCursor) -> (result: Option<(u32, u8)>)
    ensures
        match result {
            Some((experience, count)) => member_head(old(cursor).remaining()) == Some(
                (experience, count, final(cursor).remaining()),
            ),
            None => member_head(old(cursor).remaining()) is None,
        },
{
    let ghost bits = cursor.remaining();
    let low = match cursor.read(16) {
        Some(v) => v,
        None => { return None; },
    };
    let high = match cursor.read(4) {
        Some(v) => v,
        None => { return None; },
    };
    let count = match cursor.read(4) {
        Some(v) => v,
        None => { return None; },
    };
    proof {
        assert(bits.skip(16).take(4) == bits.subrange(16, 20));
        assert(bits.skip(16).skip(4).take(4) == bits.subrange(20, 24));
        assert(bits.skip(16).skip(4).skip(4) == bits.skip(24));
    }
    Some(((low as u32) | ((high as u32) << 16), (count % 256) as u8))
}

/// Reads the bit that says whether the next member has joined.
fn read_joined(cursor: &mut BitCursor) -> (result: Option<bool>)
    ensures
        result == joined(old(cursor).remaining()),
        result is Some ==> final(cursor).remaining() == old(cursor).remaining().skip(1),
{
    match cursor.read(1) {
        Some(v) => Some(v != 0),
        None => None,
    }
}

/// Reads the items of the hero or of the prince.
fn read_plain_items(cursor: &mut BitCursor, count: u8) -> (result: Option<[u8; 8]>)
    ensures
        match result {
            Some(items) => plain_items(old(cursor).remaining(), count) == Some(
                (items@, final(cursor).remaining()),
            ),
            None => plain_items(old(cursor).remaining(), count) is None,
        },
{
    if count > 8 {
        return None;
    }
    let ghost bits = cursor.remaining();
    let mut items: [u8; 8] = [0, 0, 0, 0, 0, 0, 0, 0];
    let mut i: u8 = 0;
    proof {
        assert(bits.skip(0) == bits);
    }
    while i < count
        invariant
            i <= count <= 8,
            bits == old(cursor).remaining(),
            bits.len() >= 7 * i,
            cursor.remaining() == bits.skip(7 * i),
            forall|j: int| 0 <= j < i ==> items@[j] == whole_item(bits, j),
            forall|j: int| i <= j < 8 ==> items@[j] == 0,
        decreases count - i,
    {
        proof {
            if bits.len() >= 7 * i + 7 {
                assert(bits.skip(7 * i).take(7) == bits.subrange(7 * i, 7 * i + 7));
                assert(bits.skip(7 * i).skip(7) == bits.skip(7 * (i + 1)));
            }
        }
        match cursor.read(7) {
            Some(v) => {
                items[i as usize] = (v % 256) as u8;
            },
            None => {
                return None;
            },
        }
        i += 1;
    }
    proof {
        let expected = Seq::new(8, |j: int| if j < count { whole_item(bits, j) } else { 0u8 });
        assert(items@ =~= expected);
    }
    Some(items)
}

/// Reads the items of the princess.
fn read_last_items(cursor: &mut BitCursor, count: u8, spare: u8) -> (result: Option<[u8; 8]>)
    ensures
        match result {
            Some(items) => last_items(old(cursor).remaining(), count, spare) == Some(items@),
            None => last_items(old(cursor).remaining(), count, spare) is None,
        },
{
    if count > 8 {
        return None;
    }
    let ghost bits = cursor.remaining();
    let mut items: [u8; 8] = [0, 0, 0, 0, 0, 0, 0, 0];
    let mut i: u8 = 0;
    proof {
        assert(bits.skip(0) == bits);
    }
    while i < count
        invariant
            i <= count <= 8,
            bits == old(cursor).remaining(),
            bits.len() >= 7 * i,
            cursor.remaining() == bits.skip(7 * i),
            forall|j: int| 0 <= j < i ==> items@[j] == (item_high(bits, j) << 2) | item_low(bits, j),
            forall|j: int| i <= j < 8 ==> items@[j] == 0,
        decreases count - i,
    {
        proof {
            if bits.len() >= 7 * i + 5 {
                assert(bits.skip(7 * i).take(5) == bits.subrange(7 * i, 7 * i + 5));
            }
            if bits.len() >= 7 * i + 7 {
                assert(bits.skip(7 * i).skip(5).take(2) == bits.subrange(7 * i + 5, 7 * i + 7));
                assert(bits.skip(7 * i).skip(5).skip(2) == bits.skip(7 * (i + 1)));
            }
        }
        let high = match cursor.read(5) {
            Some(v) => (v % 256) as u8,
            None => { return None; },
        };
        match cursor.read(2) {
            Some(v) => {
                items[i as usize] = (high << 2) | ((v % 256) as u8);
            },
            None => {
                if i + 1 < count {
                    return None;
                }
                items[i as usize] = (high << 2) | spare;
                proof {
                    assert(items@ =~= last_items(bits, count, spare)->0);
                }
                return Some(items);
            },
        }
        i += 1;
    }
    proof {
        assert(items@ =~= last_items(bits, count, spare)->0);
    }
    Some(items)
}

/// Reads the princess's block into the record.
fn add_princess(data: GameData, spare: u8, cursor: &mut BitCursor) -> (result: Option<GameData>)
    ensures
        match result {
            Some(full) => with_princess(data@, spare, old(cursor).remaining()) == Some(full@),
            None => with_princess(data@, spare, old(cursor).remaining()) is None,
        },
{
    let (experience, count) = match read_member_head(cursor) {
        Some(head) => head,
        None => { return None; },
    };
    let items = match read_last_items(cursor, count, spare) {
        Some(items) => items,
        None => { return None; },
    };
    let mut full = data;
    full.princess_experience = experience;
    full.princess_items = items;
    Some(full)
}

/// Reads the prince's block, and what follows it, into the record.
fn add_prince(data: GameData, spare: u8, cursor: &mut BitCursor) -> (result: Option<GameData>)
    ensures
        match result {
            Some(full) => with_prince(data@, spare, old(cursor).remaining()) == Some(full@),
            None => with_prince(data@, spare, old(cursor).remaining()) is None,
        },
{
    let (experience, count) = match read_member_head(cursor) {
        Some(head) => head,
        None => { return None; },
    };
    let items = match read_plain_items(cursor, count) {
        Some(items) => items,
        None => { return None; },
    };
    let mut full = data;
    full.prince_experience = experience;
    full.prince_items = items;
    match read_joined(cursor) {
        None => None,
        Some(false) => Some(full),
        Some(true) => {
            full.princess_flag = true;
            add_princess(full, spare, cursor)
        },
    }
}

/// Reads the party into the record.
fn add_party(data: GameData, spare: u8, cursor: &mut BitCursor) -> (result: Option<GameData>)
    ensures
        match result {
            Some(full) => with_party(data@, spare, old(cursor).remaining()) == Some(full@),
            None => with_party(data@, spare, old(cursor).remaining()) is None,
        },
{
    let (experience, count) = match read_member_head(cursor) {
        Some(head) => head,
        None => { return None; },
    };
    let items = match read_plain_items(cursor, count) {
        Some(items) => items,
        None => { return None; },
    };
    let mut full = data;
    full.hero_experience = experience;
    full.hero_items = items;
    match read_joined(cursor) {
        None => None,
        Some(false) => Some(full),
        Some(true) => {
            full.prince_flag = true;
            add_prince(full, spare, cursor)
        },
    }
}

impl GameData {
    /// The record before any field is stored.
    pub fn new() -> (data: GameData)
        ensures
            data@ == blank(),
    {
        let data = GameData {
            hero_name: ['\0', '\0', '\0', '\0'],
            hero_items: [0, 0, 0, 0, 0, 0, 0, 0],
            prince_items: [0, 0, 0, 0, 0, 0, 0, 0],
            princess_items: [0, 0, 0, 0, 0, 0, 0, 0],
            hero_experience: 0,
            prince_experience: 0,
            princess_experience: 0,
            prince_flag: false,
            princess_flag: false,
            gold: 0,
            location: 0,
            progress_flags: [false, false, false, false, false, false, false],
            crests: [false, false, false, false, false],
            encryption_key: 0,
            checksum: 0,
        };
        assert(data@.hero_name =~= blank().hero_name);
        assert(data@.hero_items =~= blank().hero_items);
        assert(data@.prince_items =~= blank().prince_items);
        assert(data@.princess_items =~= blank().princess_items);
        assert(data@.progress_flags =~= blank().progress_flags);
        assert(data@.crests =~= blank().crests);
        data
    }

    /// Reads the record out of a buffer: the fixed part field by field in
    /// the order of the field list, then the party. Fails with a malformed
    /// record exactly where the buffer ends before a field that has to be
    /// there, or a member has more than eight items.
    pub fn from_bytes(bytes: &[u8]) -> (result: Result<GameData, Error>)
        ensures
            match result {
                Ok(data) => record_of_bytes(bytes@) == Some(data@),
                Err(e) => e == Error::MalformedRecord && record_of_bytes(bytes@) is None,
            },
    {
        let slots = layout();
        proof {
            lemma_layout();
            lemma_field_values(bits_of_bytes(bytes@), layout_spec());
        }
        let mut cursor = BitCursor::new(bytes);
        let values = match read_fields(&mut cursor, slots.as_slice()) {
            Some(values) => values,
            None => { return Err(Error::MalformedRecord); },
        };
        let mut header = Header::new();
        let mut i: usize = 0;
        while i < 27
            invariant
                i <= 27,
                values@.len() == 27,
                slots@ == layout_spec(),
                forall|j: int| 0 <= j < 27 ==> field_in_range(#[trigger] layout_spec()[j].field),
                header@ == stored(blank_header(), layout_spec(), values@, i as nat),
            decreases 27 - i,
        {
            header.store(slots[i].field, values[i]);
            i += 1;
        }
        match add_party(header.record(), header.spare_bits, &mut cursor) {
            Some(data) => Ok(data),
            None => Err(Error::MalformedRecord),
        }
    }

    /// Whether the record could come from the game.
    pub fn is_plausible(&self) -> (ok: bool)
        ensures
            ok == plausible(self@),
    {
        let mut i: usize = 0;
        while i < 4
            invariant
                i <= 4,
                forall|j: int| 0 <= j < i ==> self.hero_name@[j] != '\0',
            decreases 4 - i,
        {
            if self.hero_name[i] == '\0' {
                assert(self@.hero_name[i as int] == '\0');
                return false;
            }
            i += 1;
        }
        self.location < LOCATION_COUNT && self.hero_experience <= MAX_EXPERIENCE
            && self.prince_experience <= MAX_EXPERIENCE && self.princess_experience
            <= MAX_EXPERIENCE
    }
}

impl Default for GameData {
    /// The record before any field is stored.
    fn default() -> (data: GameData)
        ensures
            data@ == blank(),
    {
        GameData::new()
    }
}

/// Packs the symbols of a code of the second format into its buffer and
/// checks it: the symbols, then the length of the code and of the buffer, then the checksum.
pub fn check_code(code: &[char]) -> (result: Result<Vec<u8>, Error>)
    ensures
        match result {
            Ok(buffer) => checked_buffer(code@) == Ok::<Seq<u8>, Error>(buffer@),
            Err(e) => checked_buffer(code@) == Err::<Seq<u8>, Error>(e),
        },
        result matches Ok(buffer) ==> 9 <= buffer@.len() <= 39,
{
    match pack_code(code, Format::B) {
        Err(e) => Err(e),
        Ok(buffer) => {
            let mut buffer = buffer;
            if code.len() > MAX_CODE_LENGTH || buffer.len() < 9 {
                Err(Error::MalformedRecord)
            } else if !verify_checksum_b(&mut buffer) {
                Err(Error::InvalidChecksum)
            } else {
                Ok(buffer)
            }
        },
    }
}

/// Packs a code of the second format, given as text, into its buffer and
/// checks it.
pub fn decode_jumon(input: &str) -> (result: Result<Vec<u8>, Error>)
    ensures
        match result {
            Ok(buffer) => checked_buffer(input@) == Ok::<Seq<u8>, Error>(buffer@),
            Err(e) => checked_buffer(input@) == Err::<Seq<u8>, Error>(e),
        },
        result matches Ok(buffer) ==> 9 <= buffer@.len() <= 39,
{
    let code = chars_of(input);
    check_code(code.as_slice())
}

/// Decodes the symbols of a code of the second format into its record.
pub fn decode_code(code: &[char]) -> (result: Result<GameData, Error>)
    ensures
        match result {
            Ok(data) => record_of_code(code@) == Ok::<GameDataView, Error>(data@),
            Err(e) => record_of_code(code@) == Err::<GameDataView, Error>(e),
        },
{
    match check_code(code) {
        Err(e) => Err(e),
        Ok(buffer) => GameData::from_bytes(buffer.as_slice()),
    }
}

/// Decodes a code of the second format, given as text, into its record.
pub fn decode(input: &str) -> (result: Result<GameData, Error>)
    ensures
        match result {
            Ok(data) => record_of_code(input@) == Ok::<GameDataView, Error>(data@),
            Err(e) => record_of_code(input@) == Err::<GameDataView, Error>(e),
        },
{
    let code = chars_of(input);
    decode_code(code.as_slice())
}

} // verus!
