use jumon::packing::pack_sextets;
use jumon::codec::{decipher, decode_symbols, pack_code, reversed, symbol_index, Format};
use jumon::error::Error;
use jumon::text::{chars_of, string_of};

const VALID_A: &str = "ふるいけやかわずとびこむみずのおとばしや";
const VALID_B: &str = "ぷよすてぼしがほむずばぎざいすたて";

#[test]
fn chars_and_string_round_trip() {
    let chars = chars_of("ふるいけや");
    assert_eq!(chars, vec!['ふ', 'る', 'い', 'け', 'や']);
    assert_eq!(string_of(&chars), "ふるいけや");
    assert_eq!(chars_of(""), Vec::<char>::new());
    assert_eq!(string_of(&[]), "");
}

#[test]
fn symbol_index_finds_position() {
    assert_eq!(symbol_index(&jumon::dq1::JUMON_MOJI_TABLE, 'あ'), Some(0));
    assert_eq!(symbol_index(&jumon::dq1::JUMON_MOJI_TABLE, 'ぼ'), Some(63));
    assert_eq!(symbol_index(&jumon::dq1::JUMON_MOJI_TABLE, 'だ'), Some(54));
    assert_eq!(symbol_index(&jumon::dq2::JUMON_MOJI_TABLE, 'ば'), Some(54));
    assert_eq!(symbol_index(&jumon::dq2::JUMON_MOJI_TABLE, 'ぽ'), Some(63));
}

#[test]
fn symbol_index_rejects_foreign_symbols() {
    assert_eq!(symbol_index(&jumon::dq1::JUMON_MOJI_TABLE, 'ぱ'), None);
    assert_eq!(symbol_index(&jumon::dq2::JUMON_MOJI_TABLE, 'だ'), None);
    assert_eq!(symbol_index(&jumon::dq1::JUMON_MOJI_TABLE, 'x'), None);
    assert_eq!(symbol_index(&jumon::dq1::JUMON_MOJI_TABLE, '゛'), None);
}

#[test]
fn both_alphabets_hold_each_symbol_once() {
    for i in 0..64 {
        let a = jumon::dq1::JUMON_MOJI_TABLE[i];
        let b = jumon::dq2::JUMON_MOJI_TABLE[i];
        assert_eq!(symbol_index(&jumon::dq1::JUMON_MOJI_TABLE, a), Some(i as u8));
        assert_eq!(symbol_index(&jumon::dq2::JUMON_MOJI_TABLE, b), Some(i as u8));
    }
}

#[test]
fn decipher_first_format() {
    let indices = [27u8, 40, 1, 8, 35, 5, 43, 51, 19, 60, 9, 32, 31, 51, 24, 4, 19, 59, 11, 35];
    let values = decipher(Format::A, &indices);
    assert_eq!(
        values,
        vec![23, 9, 21, 3, 23, 30, 34, 4, 28, 37, 9, 19, 59, 16, 33, 40, 11, 36, 12, 20]
    );
}

#[test]
fn decipher_first_format_wraps() {
    // 0 - 0 - 4 = 60 (mod 64); 63 - 0 - 4 = 59; 0 - 63 - 4 = 61 (mod 64)
    assert_eq!(decipher(Format::A, &[0]), vec![60]);
    assert_eq!(decipher(Format::A, &[63, 0]), vec![59, 61]);
    assert_eq!(decipher(Format::A, &[4, 8, 12]), vec![0, 0, 0]);
}

#[test]
fn decipher_second_format() {
    let indices = [61u8, 37, 12, 18, 58, 11, 44, 29, 32, 51, 54, 45, 49, 1, 12, 15, 18];
    let values = decipher(Format::B, &indices);
    assert_eq!(values, vec![61, 37, 36, 3, 37, 14, 30, 46, 0, 16, 0, 52, 1, 13, 8, 0, 0]);
}

#[test]
fn decipher_second_format_key_comes_from_first_index() {
    // first index 0b000000: key 1; 0b000010: key 2; 0b000100: key 3; 0b000110: key 4
    assert_eq!(decipher(Format::B, &[0, 1]), vec![0, 0]);
    assert_eq!(decipher(Format::B, &[2, 4]), vec![2, 0]);
    assert_eq!(decipher(Format::B, &[4, 7]), vec![4, 0]);
    assert_eq!(decipher(Format::B, &[6, 10]), vec![6, 0]);
    assert_eq!(decipher(Format::B, &[7, 11]), vec![7, 0]);
    assert_eq!(decipher(Format::B, &[63, 0]), vec![63, 61]);
}

#[test]
fn decipher_empty() {
    assert_eq!(decipher(Format::A, &[]), Vec::<u8>::new());
    assert_eq!(decipher(Format::B, &[]), Vec::<u8>::new());
}

#[test]
fn decode_symbols_first_format() {
    let code = chars_of(VALID_A);
    assert_eq!(
        decode_symbols(&code, Format::A),
        Ok(vec![23, 9, 21, 3, 23, 30, 34, 4, 28, 37, 9, 19, 59, 16, 33, 40, 11, 36, 12, 20])
    );
}

#[test]
fn decode_symbols_second_format() {
    let code = chars_of(VALID_B);
    assert_eq!(
        decode_symbols(&code, Format::B),
        Ok(vec![61, 37, 36, 3, 37, 14, 30, 46, 0, 16, 0, 52, 1, 13, 8, 0, 0])
    );
}

#[test]
fn decode_symbols_names_first_unsupported_symbol() {
    let code = chars_of("ふるXけYかわず");
    assert_eq!(decode_symbols(&code, Format::A), Err(Error::UnsupportedSymbol('X')));
    let code = chars_of("ふるいぱ");
    assert_eq!(decode_symbols(&code, Format::A), Err(Error::UnsupportedSymbol('ぱ')));
    assert_eq!(decode_symbols(&code, Format::B), Ok(vec![27, 11, 23, 56]));
    let code = chars_of("だ");
    assert_eq!(decode_symbols(&code, Format::B), Err(Error::UnsupportedSymbol('だ')));
}

#[test]
fn reversed_turns_the_order() {
    assert_eq!(reversed(&[1, 2, 3]), vec![3, 2, 1]);
    assert_eq!(reversed(&[]), Vec::<u8>::new());
}

#[test]
fn pack_sextets_is_most_significant_bit_first() {
    assert_eq!(pack_sextets(&[1, 2, 3]), vec![4, 32, 192]);
    assert_eq!(pack_sextets(&[63, 0, 63, 0, 63]), vec![252, 15, 192, 252]);
    assert_eq!(pack_sextets(&[0b101010; 4]), vec![170, 170, 170]);
    assert_eq!(pack_sextets(&[]), Vec::<u8>::new());
}

#[test]
fn pack_sextets_pads_the_last_byte_with_zeros() {
    assert_eq!(pack_sextets(&[63]), vec![0b1111_1100]);
    assert_eq!(pack_sextets(&[63, 63]), vec![0xff, 0xf0]);
    assert_eq!(pack_sextets(&[63, 63, 63]), vec![0xff, 0xff, 0xc0]);
}

#[test]
fn pack_code_first_format_packs_last_symbol_first() {
    let code = chars_of(VALID_A);
    assert_eq!(
        pack_code(&code, Format::A),
        Ok(vec![80, 201, 11, 162, 20, 59, 76, 153, 92, 18, 39, 151, 13, 82, 87])
    );
}

#[test]
fn pack_code_second_format_packs_first_symbol_first() {
    let code = chars_of(VALID_B);
    assert_eq!(
        pack_code(&code, Format::B),
        Ok(vec![246, 89, 3, 148, 231, 174, 1, 0, 52, 4, 210, 0, 0])
    );
}

#[test]
fn pack_code_twenty_symbols_fill_fifteen_bytes() {
    for symbol in jumon::dq1::JUMON_MOJI_TABLE {
        let code = vec![symbol; 20];
        assert_eq!(pack_code(&code, Format::A).unwrap().len(), 15);
    }
}

#[test]
fn pack_code_length_is_rounded_up() {
    let expected = [(1, 1), (2, 2), (3, 3), (4, 3), (11, 9), (12, 9), (17, 13), (20, 15), (51, 39), (52, 39)];
    for (symbols, bytes) in expected {
        let code = vec!['あ'; symbols];
        assert_eq!(pack_code(&code, Format::B).unwrap().len(), bytes);
    }
    for symbols in 0..=52usize {
        let code = vec!['ぺ'; symbols];
        let buffer = pack_code(&code, Format::B).unwrap();
        assert_eq!(buffer.len(), (symbols * 6 + 7) / 8);
        assert!(buffer.len() <= 39);
    }
}

#[test]
fn pack_code_rejects_unsupported_symbol() {
    let code = chars_of("ふるいけやかわずとびこむみずのおとばし?");
    assert_eq!(pack_code(&code, Format::A), Err(Error::UnsupportedSymbol('?')));
}

#[test]
fn cursor_reads_most_significant_bit_first() {
    let data = [0b1011_0111u8, 0b0000_1111, 0xa5];
    let mut cursor = jumon::cursor::BitCursor::new(&data);
    assert_eq!(cursor.read(1), Some(0b1));
    assert_eq!(cursor.read(2), Some(0b01));
    assert_eq!(cursor.read(5), Some(0b10111));
    assert_eq!(cursor.read(16), Some(0x0fa5));
    assert_eq!(cursor.read(1), None);
}

#[test]
fn cursor_reads_fields_across_bytes() {
    let data = [0x12u8, 0x34, 0x56, 0x78];
    let mut cursor = jumon::cursor::BitCursor::new(&data);
    assert_eq!(cursor.read(4), Some(0x1));
    assert_eq!(cursor.read(12), Some(0x234));
    assert_eq!(cursor.read(3), Some(0b010));
    assert_eq!(cursor.read(9), Some(0b1_0110_0111));
    assert_eq!(cursor.read(4), Some(0x8));
    assert_eq!(cursor.read(1), None);
}

#[test]
fn cursor_reads_every_width() {
    for width in 1..=16u32 {
        let data = [0xffu8, 0xff, 0xff];
        let mut cursor = jumon::cursor::BitCursor::new(&data);
        assert_eq!(cursor.read(width), Some(((1u32 << width) - 1) as u16));
        let zeros = [0x00u8, 0x00, 0x01];
        let mut cursor = jumon::cursor::BitCursor::new(&zeros);
        assert_eq!(cursor.read(8), Some(0));
        assert_eq!(cursor.read(width), Some(if width == 16 { 1 } else { 0 }));
    }
}

#[test]
fn cursor_reports_insufficient_bits() {
    let data = [0xabu8];
    let mut cursor = jumon::cursor::BitCursor::new(&data);
    assert_eq!(cursor.read(9), None);
    let mut cursor = jumon::cursor::BitCursor::new(&data);
    assert_eq!(cursor.read(7), Some(0x55));
    assert_eq!(cursor.read(2), None);
    assert_eq!(cursor.read(2), None);
    let mut cursor = jumon::cursor::BitCursor::new(&[]);
    assert_eq!(cursor.read(1), None);
}

#[test]
fn read_fields_follows_the_layout() {
    let slots = vec![
        jumon::layout::Slot { field: 'a', width: 4 },
        jumon::layout::Slot { field: 'b', width: 1 },
        jumon::layout::Slot { field: 'c', width: 11 },
    ];
    let data = [0x9cu8, 0x3a];
    let mut cursor = jumon::cursor::BitCursor::new(&data);
    assert_eq!(jumon::layout::read_fields(&mut cursor, &slots), Some(vec![0x9, 1, 0x43a]));
    let mut cursor = jumon::cursor::BitCursor::new(&data[..1]);
    assert_eq!(jumon::layout::read_fields(&mut cursor, &slots), None);
    let mut cursor = jumon::cursor::BitCursor::new(&data);
    assert_eq!(jumon::layout::read_fields::<char>(&mut cursor, &[]), Some(vec![]));
}
