use jumon::dq2::{
    check_code, decode, decode_code, decode_jumon, layout, Field, GameData, Header,
    MAX_CODE_LENGTH, NAME_MOJI_TABLE,
};
use jumon::error::Error;
use jumon::text::chars_of;

const LONG: &str = "へぼさべねふぴぼぺのぽずそのじにのふまめゆりろぎごずばべぴぽうかけしそつなねひほむやられがげじぞぶぱぺい";
const FULL_PARTY: &str = "がもよのぎとぴひてごいふほみまれがたじせむぎばぴめざばこふまかへろずべせあぽやよりれゆげぬぱねろねごぺじ";
const HERO_ONLY: &str = "ぷよすてぼしがほむずばぎざいすたて";
const HERO_AND_PRINCE: &str = "ぷぞへもさふぷぺいなねてさぞなべひがくさずぬめぶ";
const NINE_ITEMS: &str = "えろちにぴすがへまごじこすふよごじなばちもぐばぱみもが";
const CUT_AFTER_FLAG: &str = "つびへむきにぜやゆぞばしせふゆよき";
const FIXED_PART_ONLY: &str = "べみおけぐぷへしすほまね";
const OTHER_ARRANGEMENT: &str = "ゆうていみやおうきむこうほりいゆうじとりやまあきらぺぺぺぺぺぺぺぺぺぺぺぺぺぺぺぺぺぺぺぺぺぺぺぺぺぺぺ";

fn blank() -> GameData {
    GameData::new()
}

#[test]
fn second_format_layout_takes_72_bits() {
    let slots = layout();
    assert_eq!(slots.len(), 27);
    let total: u32 = slots.iter().map(|slot| slot.width).sum();
    assert_eq!(total, 72);
    assert!(matches!(slots[0].field, Field::ChecksumHigh));
    assert!(matches!(slots[26].field, Field::ChecksumLow));
}

#[test]
fn second_format_code_of_52_symbols() {
    assert_eq!(LONG.chars().count(), 52);
    let buffer = decode_jumon(LONG).unwrap();
    assert_eq!(
        buffer,
        vec![
            113, 179, 108, 108, 23, 187, 5, 121, 49, 96, 117, 224, 0, 0, 0, 0, 0, 0, 0, 0, 0, 0,
            0, 0, 0, 0, 0, 0, 0, 0, 0, 0, 0, 0, 0, 0, 0, 0, 0
        ]
    );
    let data = GameData::from_bytes(&buffer).unwrap();
    let expected = GameData {
        hero_name: ['も', 'ょ', 'も', 'と'],
        hero_experience: 942197,
        gold: 27671,
        location: 1,
        progress_flags: [false, false, false, false, true, false, true],
        crests: [true, true, false, false, true],
        encryption_key: 6,
        checksum: 945,
        ..blank()
    };
    assert_eq!(data, expected);
    assert_eq!(decode(LONG), Ok(expected));
}

#[test]
fn second_format_checksum_stored_the_other_way_round_is_invalid() {
    // this code stores the computed checksum with the bits of byte 0 low
    assert_eq!(OTHER_ARRANGEMENT.chars().count(), 52);
    assert_eq!(decode_jumon(OTHER_ARRANGEMENT), Err(Error::InvalidChecksum));
}

#[test]
fn second_format_record_checksum_follows_the_buffer() {
    // byte 0 gives the high five bits, byte 8 the low six
    let mut buffer = [0u8; 13];
    buffer[0] = 0x08;
    assert_eq!(GameData::from_bytes(&buffer).unwrap().checksum, 64);
    buffer[0] = 0xf8;
    buffer[8] = 0x3f;
    assert_eq!(GameData::from_bytes(&buffer).unwrap().checksum, 2047);
    buffer[0] = 0x07;
    buffer[8] = 0x01;
    let data = GameData::from_bytes(&buffer).unwrap();
    assert_eq!(data.checksum, 1);
    assert_eq!(data.location, 7);
}

#[test]
fn second_format_full_party_borrows_the_spare_bits() {
    assert_eq!(FULL_PARTY.chars().count(), 52);
    let expected = GameData {
        hero_name: ['あ', 'い', 'う', 'え'],
        hero_items: [1, 2, 3, 4, 5, 6, 7, 8],
        prince_items: [9, 10, 11, 12, 13, 14, 15, 16],
        princess_items: [17, 18, 19, 20, 21, 22, 23, 70],
        hero_experience: 65535,
        prince_experience: 500000,
        princess_experience: 1048575,
        prince_flag: true,
        princess_flag: true,
        gold: 12345,
        location: 3,
        progress_flags: [true, false, true, false, true, false, true],
        crests: [true, false, false, true, true],
        encryption_key: 11,
        checksum: 1431,
    };
    assert_eq!(decode(FULL_PARTY), Ok(expected));
    assert_eq!(decode_code(&chars_of(FULL_PARTY)), Ok(expected));
}

#[test]
fn second_format_hero_only() {
    let buffer = decode_jumon(HERO_ONLY).unwrap();
    assert_eq!(buffer, vec![246, 89, 3, 148, 231, 174, 1, 0, 52, 4, 210, 0, 0]);
    assert_eq!(check_code(&chars_of(HERO_ONLY)), Ok(buffer));
    let expected = GameData {
        hero_name: ['さ', 'し', 'す', 'せ'],
        hero_experience: 1234,
        gold: 999,
        location: 6,
        progress_flags: [false, false, false, false, false, false, true],
        checksum: 1972,
        ..blank()
    };
    assert_eq!(decode(HERO_ONLY), Ok(expected));
}

#[test]
fn second_format_hero_and_prince() {
    let expected = GameData {
        hero_name: ['さ', 'し', 'す', '\0'],
        hero_items: [60, 61, 0, 0, 0, 0, 0, 0],
        prince_items: [5, 0, 0, 0, 0, 0, 0, 0],
        hero_experience: 185991,
        prince_experience: 77,
        prince_flag: true,
        princess_flag: false,
        gold: 999,
        location: 7,
        progress_flags: [false, false, false, false, false, false, true],
        checksum: 1976,
        ..blank()
    };
    assert_eq!(decode(HERO_AND_PRINCE), Ok(expected));
}

#[test]
fn second_format_more_than_eight_items_is_malformed() {
    assert!(decode_jumon(NINE_ITEMS).is_ok());
    assert_eq!(decode(NINE_ITEMS), Err(Error::MalformedRecord));
}

#[test]
fn second_format_missing_block_is_malformed() {
    assert!(decode_jumon(CUT_AFTER_FLAG).is_ok());
    assert_eq!(decode(CUT_AFTER_FLAG), Err(Error::MalformedRecord));
}

#[test]
fn second_format_fixed_part_alone_is_malformed() {
    let buffer = decode_jumon(FIXED_PART_ONLY).unwrap();
    assert_eq!(buffer.len(), 9);
    assert_eq!(GameData::from_bytes(&buffer), Err(Error::MalformedRecord));
    assert_eq!(decode(FIXED_PART_ONLY), Err(Error::MalformedRecord));
}

#[test]
fn second_format_from_bytes_of_short_buffers() {
    assert_eq!(GameData::from_bytes(&[]), Err(Error::MalformedRecord));
    assert_eq!(GameData::from_bytes(&[0; 8]), Err(Error::MalformedRecord));
    assert_eq!(GameData::from_bytes(&[0; 12]), Err(Error::MalformedRecord));
    // 72 bits of fixed part, 24 of the hero's block, one bit for the prince
    let data = GameData::from_bytes(&[0; 13]).unwrap();
    assert_eq!(data.hero_name, ['０'; 4]);
    assert!(!data.prince_flag);
}

#[test]
fn second_format_from_bytes_borrows_where_one_bit_is_left() {
    // spare bits 0b11; hero and prince without items; the princess has one
    // item, and the buffer ends one bit after its five high bits
    let buffer = [0, 0, 0, 0, 0, 0, 0, 0, 192, 0, 0, 0, 128, 0, 0, 64, 0, 0, 106];
    let data = GameData::from_bytes(&buffer).unwrap();
    assert!(data.prince_flag && data.princess_flag);
    assert_eq!(data.princess_items, [0b1010111, 0, 0, 0, 0, 0, 0, 0]);
}

#[test]
fn second_format_from_bytes_reads_low_bits_that_are_there() {
    let buffer = [0, 0, 0, 0, 0, 0, 0, 0, 192, 0, 0, 0, 128, 0, 0, 64, 0, 0, 106, 128];
    let data = GameData::from_bytes(&buffer).unwrap();
    assert_eq!(data.princess_items, [0b1010101, 0, 0, 0, 0, 0, 0, 0]);
}

#[test]
fn second_format_from_bytes_borrows_for_the_last_of_two_items() {
    // spare bits 0b01; the buffer ends with the five high bits of the
    // princess's second item
    let buffer = [
        0, 0, 0, 0, 0, 0, 0, 0, 64, 0, 0, 6, 2, 8, 24, 64, 161, 160, 0, 0, 16, 0, 0, 42, 191,
    ];
    let data = GameData::from_bytes(&buffer).unwrap();
    assert_eq!(data.hero_items, [1, 2, 3, 4, 5, 6, 0, 0]);
    assert_eq!(data.princess_items, [85, 0b1111101, 0, 0, 0, 0, 0, 0]);
}

#[test]
fn second_format_from_bytes_does_not_borrow_before_the_last_item() {
    // as before, but the princess is to have three items
    let buffer = [
        0, 0, 0, 0, 0, 0, 0, 0, 64, 0, 0, 6, 2, 8, 24, 64, 161, 160, 0, 0, 16, 0, 0, 58, 191,
    ];
    assert_eq!(GameData::from_bytes(&buffer), Err(Error::MalformedRecord));
}

#[test]
fn second_format_header_store() {
    let mut header = Header::new();
    header.store(Field::ChecksumHigh, 0b10101);
    header.store(Field::ChecksumLow, 0b110011);
    header.store(Field::NameIndexBits(4), 0b10);
    header.store(Field::NameIndexBits(1), 0b01);
    header.store(Field::NameIndexBits(0), 1);
    header.store(Field::NameIndexBits(3), 1);
    header.store(Field::KeyLow, 1);
    header.store(Field::KeyHigh, 0b101);
    header.store(Field::SpareBits, 0b10);
    header.store(Field::Crest(4), 1);
    header.store(Field::Flag(6), 1);
    header.store(Field::Location, 5);
    assert_eq!(header.data.checksum, 0b10101_110011);
    assert_eq!(header.name_index, 0b101011);
    assert_eq!(header.data.encryption_key, 0b1011);
    assert_eq!(header.spare_bits, 0b10);
    assert_eq!(header.data.crests, [false, false, false, false, true]);
    assert_eq!(header.data.progress_flags, [false, false, false, false, false, false, true]);
    let data = header.record();
    assert_eq!(data.hero_name[1], NAME_MOJI_TABLE[0b101011]);
    assert_eq!(data.location, 5);
}

#[test]
fn second_format_length_limits() {
    assert_eq!(MAX_CODE_LENGTH, 52);
    assert_eq!(decode_jumon(""), Err(Error::MalformedRecord));
    assert_eq!(decode_jumon("ゆうていみやおうきむ"), Err(Error::MalformedRecord));
    assert_eq!(decode_jumon("ゆうていみやおうきむこ"), Err(Error::InvalidChecksum));
    let mut long = String::from(LONG);
    long.push('あ');
    assert_eq!(decode_jumon(&long), Err(Error::MalformedRecord));
}

#[test]
fn second_format_unsupported_symbol() {
    assert_eq!(decode_jumon("ゆうていだ"), Err(Error::UnsupportedSymbol('だ')));
    assert_eq!(decode("ゆうてい みや"), Err(Error::UnsupportedSymbol(' ')));
}

#[test]
fn second_format_invalid_checksum() {
    assert_eq!(decode("ぷよすてぼあがほむずばぎざいすたて"), Err(Error::InvalidChecksum));
    let mut changed: Vec<char> = LONG.chars().collect();
    changed[51] = 'あ';
    assert_eq!(decode_code(&changed), Err(Error::InvalidChecksum));
}

#[test]
fn second_format_plausible_records() {
    let good = decode(HERO_ONLY).unwrap();
    assert!(good.is_plausible());
    let placeholder = decode(HERO_AND_PRINCE).unwrap();
    assert!(!placeholder.is_plausible());
    let mut bad = good;
    bad.location = 7;
    assert!(!bad.is_plausible());
    let mut bad = good;
    bad.princess_experience = 1000001;
    assert!(!bad.is_plausible());
    let mut edge = good;
    edge.hero_experience = 1000000;
    edge.location = 6;
    assert!(edge.is_plausible());
}

#[test]
fn second_format_default_record_is_blank() {
    let data = GameData::default();
    assert_eq!(data, GameData::new());
    assert_eq!(data.hero_name, ['\0'; 4]);
    assert_eq!(data.princess_items, [0; 8]);
    assert_eq!(data.progress_flags, [false; 7]);
    assert_eq!(data.crests, [false; 5]);
    assert!(!data.prince_flag && !data.princess_flag);
}

#[test]
fn second_format_fixed_part_lies_in_the_first_nine_bytes() {
    let buffer = [0x9d, 0x6a, 0x12, 0xb7, 0x34, 0xd5, 0xa6, 0x5b, 0xe9, 0, 0, 0, 0];
    let data = GameData::from_bytes(&buffer).unwrap();
    assert_eq!(data.checksum, ((0x9d >> 3) << 6) | (0xe9 & 0x3f));
    assert_eq!(data.location, 0x9d & 0x07);
    assert_eq!(data.gold, 0x1234);
    assert_eq!(data.hero_name[0], NAME_MOJI_TABLE[0xb7 & 0x3f]);
    assert_eq!(data.hero_name[2], NAME_MOJI_TABLE[0x6a >> 2]);
    assert_eq!(data.hero_name[3], NAME_MOJI_TABLE[(0xd5 >> 1) & 0x3f]);
    let index = ((0x6a & 0x03) << 4) | ((0xb7 >> 6) << 1) | (0xd5 >> 7) | ((0xd5 & 0x01) << 3);
    assert_eq!(data.hero_name[1], NAME_MOJI_TABLE[index]);
    assert_eq!(data.progress_flags, [false, true, false, false, true, true, false]);
    assert_eq!(data.crests, [true, true, false, true, true]);
    assert_eq!(data.encryption_key, (0xa6 >> 7) | ((0x5b >> 5) << 1));
    assert!(!data.prince_flag);
}

#[test]
fn second_format_hero_block_begins_with_byte_9() {
    let mut buffer = [0u8; 14];
    buffer[9] = 0x12;
    buffer[10] = 0x34;
    buffer[11] = 0x51;
    // one item of seven bits from byte 12 on, then the bit for the prince
    buffer[12] = 0b1010_1010;
    let data = GameData::from_bytes(&buffer).unwrap();
    assert_eq!(data.hero_experience, 0x51234);
    assert_eq!(data.hero_items, [0b101_0101, 0, 0, 0, 0, 0, 0, 0]);
    assert!(!data.prince_flag);
}
