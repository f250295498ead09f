use jumon::codec::Format;
use jumon::error::Error;
use jumon::input::is_eligible;
use jumon::record::{decode, SaveRecord};
use jumon::recovery::{
    alphabet_symbol, diff_positions, meets_constraints, process, search, Candidate, Outcome,
};
use jumon::text::chars_of;
use jumon::{process_dq1, process_dq2};

const VALID_A: &str = "ふるいけやかわずとびこむみずのおとばしや";
const VALID_B: &str = "ぷよすてぼしがほむずばぎざいすたて";

fn record_a() -> SaveRecord {
    SaveRecord::FormatA(jumon::dq1::decode(VALID_A).unwrap())
}

fn codes(candidates: &[Candidate]) -> Vec<(String, Vec<usize>)> {
    candidates.iter().map(|c| (c.code.clone(), c.diff.clone())).collect()
}

fn recovered(result: Result<Outcome, Error>) -> Vec<Candidate> {
    match result {
        Ok(Outcome::Recovered(candidates)) => candidates,
        other => panic!("not recovered: {:?}", other),
    }
}

fn pair(code: &str, position: usize) -> (String, Vec<usize>) {
    (code.to_string(), vec![position])
}

#[test]
fn valid_password_is_already_valid() {
    let result = process_dq1(VALID_A, None, None, false);
    let data = match result {
        Ok(Outcome::AlreadyValid(SaveRecord::FormatA(data))) => data,
        other => panic!("not already valid: {:?}", other),
    };
    assert_eq!(data.name, ['４', 'ひ', 'え', 'た']);
    assert_eq!(data.gold, 15143);
    assert_eq!(data.items, [0, 5, 7, 9, 2, 10, 12, 5]);
    assert_eq!(data.experience, 2898);
}

#[test]
fn valid_password_is_already_valid_whatever_the_constraints() {
    let result = process_dq1(VALID_A, Some("とんぬら".to_string()), Some(0), true);
    assert_eq!(result, Ok(Outcome::AlreadyValid(record_a())));
}

#[test]
fn swapped_symbol_is_recovered() {
    // the first symbol is replaced by the next one of the alphabet
    let corrupted = "へるいけやかわずとびこむみずのおとばしや";
    assert_eq!(jumon::dq1::decode(corrupted), Err(Error::InvalidChecksum));
    let candidates = recovered(process_dq1(corrupted, None, None, false));
    assert!(!candidates.is_empty());
    assert_eq!(
        codes(&candidates),
        vec![
            pair("ふるいけやかわずとびこむみずのおとばしや", 0),
            pair("へるいけやかわずゆびこむみずのおとばしや", 8),
            pair("へるいけやかわずとびこぞみずのおとばしや", 11),
            pair("へるいけやかわずとびこむみてのおとばしや", 13),
            pair("へるいけやかわずとびこむみずのおとうしや", 17),
        ]
    );
    let named = recovered(process_dq1(corrupted, Some("４ひえた".to_string()), None, false));
    assert_eq!(
        codes(&named),
        vec![
            pair("ふるいけやかわずとびこむみずのおとばしや", 0),
            pair("へるいけやかわずとびこぞみずのおとばしや", 11),
        ]
    );
    assert_eq!(named[0].code, VALID_A);
    assert_eq!(named[0].record, record_a());
    assert_eq!(named[0].diff, vec![0]);
}

#[test]
fn corrupted_symbol_brings_back_the_valid_code() {
    let valid: Vec<char> = VALID_A.chars().collect();
    for position in 0..19 {
        let mut corrupted = valid.clone();
        corrupted[position] = if valid[position] == 'あ' { 'い' } else { 'あ' };
        for keep_checksum in [false, true] {
            let found = search(&corrupted, Format::A, &None, None, keep_checksum);
            let hit = found.iter().find(|c| c.code == VALID_A).expect("valid code among candidates");
            assert_eq!(hit.record, record_a());
            assert_eq!(hit.diff, vec![position]);
        }
    }
}

#[test]
fn search_is_ordered_by_position_then_alphabet() {
    let corrupted = chars_of("ふるいけやかわあとびこむみずのおとばしや");
    let found = search(&corrupted, Format::A, &None, None, false);
    assert_eq!(
        codes(&found),
        vec![
            pair("いるいけやかわあとびこむみずのおとばしや", 0),
            pair("ふるいけやらわあとびこむみずのおとばしや", 5),
            pair("ふるいけやかとあとびこむみずのおとばしや", 6),
            pair("ふるいけやかわずとびこむみずのおとばしや", 7),
            pair("ふるいけやかわあとづこむみずのおとばしや", 9),
            pair("ふるいけやかわあとびこむみずのおだばしや", 16),
            pair("ふるいけやかわあとびこむみずのおとじしや", 17),
            pair("ふるいけやかわあとびこむみずのおとばむや", 18),
        ]
    );
    for candidate in &found {
        let code = chars_of(&candidate.code);
        assert_eq!(decode(&code, Format::A), Ok(candidate.record));
    }
}

#[test]
fn two_candidates_at_one_position_come_in_alphabet_order() {
    let corrupted = chars_of("ふるいけやかわずとびこむみずのおとばしあ");
    let found = search(&corrupted, Format::A, &None, None, false);
    assert_eq!(
        codes(&found),
        vec![
            pair("ふるいけやかわずとびことみずのおとばしあ", 11),
            pair("ふるいけやかわずとびこむみずのおとばつあ", 18),
            pair("ふるいけやかわずとびこむみずのおとばがあ", 18),
            pair("ふるいけやかわずとびこむみずのおとばしや", 19),
        ]
    );
}

#[test]
fn keep_checksum_leaves_the_last_symbol_alone() {
    let corrupted = "ふるいけやかわずとびこむみずのおとばしあ";
    let all = recovered(process_dq1(corrupted, None, None, false));
    let kept = recovered(process_dq1(corrupted, None, None, true));
    assert_eq!(
        codes(&kept),
        vec![
            pair("ふるいけやかわずとびことみずのおとばしあ", 11),
            pair("ふるいけやかわずとびこむみずのおとばつあ", 18),
            pair("ふるいけやかわずとびこむみずのおとばがあ", 18),
        ]
    );
    let expected: Vec<Candidate> = all.iter().filter(|c| c.diff != vec![19]).cloned().collect();
    assert_eq!(kept, expected);
    assert!(kept.iter().all(|c| !c.diff.contains(&19)));
}

#[test]
fn keep_checksum_changes_nothing_where_no_candidate_edits_the_last_symbol() {
    let corrupted = "ふるいけやかわあとびこむみずのおとばしや";
    let all = recovered(process_dq1(corrupted, None, None, false));
    let kept = recovered(process_dq1(corrupted, None, None, true));
    assert_eq!(all, kept);
    assert_eq!(all.len(), 8);
}

#[test]
fn flags_constraint_filters_candidates() {
    let corrupted = "ふるいけやかわあとびこむみずのおとばしや";
    // flags 1, 1, 0, 1, 0 spell 0b11010
    let found = recovered(process_dq1(corrupted, None, Some(26), false));
    assert_eq!(codes(&found), vec![pair(VALID_A, 7)]);
    assert_eq!(process_dq1(corrupted, None, Some(27), false), Err(Error::RecoveryFailed));
}

#[test]
fn constraints_bring_the_plausibility_bounds() {
    let corrupted = chars_of("ふるいけやかわあとびこむみずのおとばしや");
    let found = search(&corrupted, Format::A, &None, None, false);
    // seven of the eight candidates hold the item that stands for none
    let implausible = found.iter().filter(|c| !c.record.is_plausible()).count();
    assert_eq!(implausible, 7);
    let first = &found[0];
    assert!(meets_constraints(&first.record, &None, None));
    let name = match first.record {
        SaveRecord::FormatA(data) => data.name.to_vec(),
        SaveRecord::FormatB(_) => panic!("wrong format"),
    };
    assert!(!meets_constraints(&first.record, &Some(name.clone()), None));
    assert!(!meets_constraints(&first.record, &None, Some(first.record.progress_mask())));
    let good = record_a();
    assert!(meets_constraints(&good, &Some(vec!['４', 'ひ', 'え', 'た']), Some(26)));
    assert!(!meets_constraints(&good, &Some(vec!['４', 'ひ', 'え']), None));
    assert!(!meets_constraints(&good, &Some(vec!['４', 'ひ', 'え', 'だ']), None));
    assert!(!meets_constraints(&good, &None, Some(10)));
}

#[test]
fn name_is_compared_as_given() {
    let corrupted = "へるいけやかわずとびこむみずのおとばしや";
    let result = process_dq1(corrupted, Some("zzzz".to_string()), None, false);
    assert_eq!(result, Err(Error::RecoveryFailed));
}

#[test]
fn recovery_fails_where_nothing_decodes() {
    // nineteen symbols: no substitution makes twenty of them
    let short = "ふるいけやかわずとびこむみずのおとばし";
    assert_eq!(process_dq1(short, None, None, false), Err(Error::RecoveryFailed));
    assert_eq!(process_dq1("", None, None, true), Err(Error::RecoveryFailed));
    assert_eq!(process_dq2("", None, None, true), Err(Error::RecoveryFailed));
    assert_eq!(process_dq2("あ", None, None, false), Err(Error::RecoveryFailed));
}

#[test]
fn unsupported_symbol_can_be_substituted() {
    let corrupted = "ふるいけやかわ?とびこむみずのおとばしや";
    assert_eq!(jumon::dq1::decode(corrupted), Err(Error::UnsupportedSymbol('?')));
    let found = recovered(process_dq1(corrupted, None, None, false));
    assert_eq!(codes(&found), vec![pair(VALID_A, 7)]);
    let two = "ふるいけやかわ?とびこむみずのおとばし?";
    assert_eq!(process_dq1(two, None, None, false), Err(Error::RecoveryFailed));
}

#[test]
fn second_format_valid_code_is_already_valid() {
    let data = jumon::dq2::decode(VALID_B).unwrap();
    assert_eq!(
        process_dq2(VALID_B, None, None, false),
        Ok(Outcome::AlreadyValid(SaveRecord::FormatB(data)))
    );
}

#[test]
fn second_format_corrupted_code_is_recovered() {
    let corrupted = "ぷよすてぼあがほむずばぎざいすたて";
    let data = jumon::dq2::decode(VALID_B).unwrap();
    for keep_checksum in [false, true] {
        let found = recovered(process_dq2(corrupted, None, None, keep_checksum));
        assert_eq!(codes(&found), vec![pair(VALID_B, 5)]);
        assert_eq!(found[0].record, SaveRecord::FormatB(data));
    }
    let named = recovered(process_dq2(corrupted, Some("さしすせ".to_string()), Some(1), false));
    assert_eq!(codes(&named), vec![pair(VALID_B, 5)]);
    assert_eq!(
        process_dq2(corrupted, Some("さしすそ".to_string()), None, false),
        Err(Error::RecoveryFailed)
    );
    assert_eq!(process_dq2(corrupted, None, Some(2), false), Err(Error::RecoveryFailed));
}

#[test]
fn second_format_constraints_bring_the_plausibility_bounds() {
    // this record has the placeholder in its name and a place that the game
    // does not have
    let valid = "ぷぞへもさふぷぺいなねてさぞなべひがくさずぬめぶ";
    let record = SaveRecord::FormatB(jumon::dq2::decode(valid).unwrap());
    assert!(!record.is_plausible());
    let mut corrupted: Vec<char> = valid.chars().collect();
    corrupted[20] = if corrupted[20] == 'あ' { 'い' } else { 'あ' };
    let corrupted: String = corrupted.into_iter().collect();
    let found = recovered(process_dq2(&corrupted, None, None, false));
    assert!(found.iter().any(|c| c.code == valid && c.record == record));
    match process_dq2(&corrupted, None, Some(record.progress_mask()), false) {
        Ok(Outcome::Recovered(found)) => assert!(found.iter().all(|c| c.code != valid)),
        Err(e) => assert_eq!(e, Error::RecoveryFailed),
        other => panic!("unexpected: {:?}", other),
    }
}

#[test]
fn process_takes_the_format() {
    assert_eq!(
        process(VALID_A, Format::A, None, None, false),
        Ok(Outcome::AlreadyValid(record_a()))
    );
    // as a code of the second format the same text has a wrong checksum
    assert_eq!(jumon::dq2::decode(VALID_A), Err(Error::InvalidChecksum));
}

#[test]
fn diff_positions_lists_differences() {
    let a = chars_of("あいうえお");
    let b = chars_of("あかうえこ");
    assert_eq!(diff_positions(&a, &b), vec![1, 4]);
    assert_eq!(diff_positions(&a, &a), Vec::<usize>::new());
    assert_eq!(diff_positions(&a, &chars_of("かい")), vec![0]);
    assert_eq!(diff_positions(&[], &a), Vec::<usize>::new());
}

#[test]
fn alphabet_symbol_follows_the_tables() {
    assert_eq!(alphabet_symbol(Format::A, 0), 'あ');
    assert_eq!(alphabet_symbol(Format::A, 54), 'だ');
    assert_eq!(alphabet_symbol(Format::B, 54), 'ば');
    assert_eq!(alphabet_symbol(Format::B, 63), 'ぽ');
}

#[test]
fn progress_mask_takes_the_first_flag_as_the_top_bit() {
    assert_eq!(record_a().progress_mask(), 0b11010);
    let b = SaveRecord::FormatB(jumon::dq2::decode(VALID_B).unwrap());
    assert_eq!(b.progress_mask(), 1);
    assert!(record_a().has_name(&['４', 'ひ', 'え', 'た']));
    assert!(!record_a().has_name(&['４', 'ひ', 'え', 'た', 'あ']));
    assert!(b.has_name(&['さ', 'し', 'す', 'せ']));
}

#[test]
fn input_of_twenty_symbols_is_taken_as_first_format() {
    let (format, result) = jumon::input::process_input(VALID_A, None, None, false).unwrap();
    assert_eq!(format, Format::A);
    assert_eq!(result, Ok(Outcome::AlreadyValid(record_a())));
}

#[test]
fn input_falls_back_to_the_second_format() {
    // twenty symbols of the first alphabet that no substitution repairs
    // there: the result is that of the second format
    let input = "ふるいあやかわずとびこむあずのおとばしや";
    let first = process_dq1(input, Some("zzzz".to_string()), None, false);
    assert_eq!(first, Err(Error::RecoveryFailed));
    let routed = jumon::input::process_input(input, Some("zzzz".to_string()), None, false);
    let second = process_dq2(input, Some("zzzz".to_string()), None, false);
    assert_eq!(routed, Some((Format::B, second)));
}

#[test]
fn input_of_the_second_alphabet_is_taken_as_second_format() {
    let (format, result) = jumon::input::process_input(VALID_B, None, None, false).unwrap();
    assert_eq!(format, Format::B);
    assert_eq!(result, process_dq2(VALID_B, None, None, false));
}

#[test]
fn input_that_fits_no_format_is_refused() {
    assert_eq!(jumon::input::process_input("", None, None, false), None);
    assert_eq!(jumon::input::process_input("abc", None, None, false), None);
    let long = "あ".repeat(53);
    assert_eq!(jumon::input::process_input(&long, None, None, false), None);
    // 'だ' is a symbol of the first alphabet only
    assert_eq!(jumon::input::process_input("だだだ", None, None, false), None);
}

#[test]
fn eligible_inputs() {
    let twenty = chars_of(VALID_A);
    assert!(is_eligible(&twenty, Format::A));
    assert!(!is_eligible(&twenty[..19], Format::A));
    assert!(is_eligible(&twenty[..19], Format::B));
    assert!(!is_eligible(&[], Format::B));
    assert!(!is_eligible(&[], Format::A));
    assert!(is_eligible(&vec!['ぽ'; 52], Format::B));
    assert!(!is_eligible(&vec!['ぽ'; 53], Format::B));
    assert!(!is_eligible(&vec!['ぽ'; 20], Format::A));
    assert!(is_eligible(&vec!['だ'; 20], Format::A));
    assert!(!is_eligible(&vec!['だ'; 20], Format::B));
}

#[test]
fn process_code_takes_symbols() {
    let code = chars_of(VALID_A);
    assert_eq!(
        jumon::recovery::process_code(&code, Format::A, &None, None, false),
        Ok(Outcome::AlreadyValid(record_a()))
    );
    assert_eq!(
        jumon::recovery::chars_of_wanted(&Some("ばしや".to_string())),
        Some(vec!['ば', 'し', 'や'])
    );
    assert_eq!(jumon::recovery::chars_of_wanted(&None), None);
}
