use jumon::kana::{decompose, DAKUTEN, HANDAKUTEN};
use jumon::split_dakuten;

#[test]
fn split_dakuten_keeps_plain_text() {
    assert_eq!(split_dakuten("もょもと"), "もょもと");
    assert_eq!(split_dakuten(""), "");
    assert_eq!(split_dakuten("abc １２３"), "abc １２３");
}

#[test]
fn split_dakuten_splits_voiced_kana() {
    assert_eq!(split_dakuten("がぎぐげご"), "か゛き゛く゛け゛こ゛");
    assert_eq!(split_dakuten("ざじずぜぞ"), "さ゛し゛す゛せ゛そ゛");
    assert_eq!(split_dakuten("だぢづでど"), "た゛ち゛つ゛て゛と゛");
    assert_eq!(split_dakuten("ばびぶべぼ"), "は゛ひ゛ふ゛へ゛ほ゛");
}

#[test]
fn split_dakuten_splits_half_voiced_kana() {
    assert_eq!(split_dakuten("ぱぴぷぺぽ"), "は゜ひ゜ふ゜へ゜ほ゜");
}

#[test]
fn split_dakuten_in_a_name() {
    assert_eq!(split_dakuten("ばしや"), "は゛しや");
    assert_eq!(split_dakuten("とんぬら"), "とんぬら");
    assert_eq!(split_dakuten("ぺぺ"), "へ゜へ゜");
}

#[test]
fn split_dakuten_grows_by_one_for_each_voiced_kana() {
    let input = "あがいぱう";
    let output = split_dakuten(input);
    assert_eq!(output.chars().count(), input.chars().count() + 2);
}

#[test]
fn split_dakuten_twice_is_the_same() {
    let once = split_dakuten("ふるいけやかわずとびこむみずのおとばしや");
    assert_eq!(split_dakuten(&once), once);
}

#[test]
fn decompose_gives_base_and_mark() {
    assert_eq!(decompose('が'), Some(('か', DAKUTEN)));
    assert_eq!(decompose('ぽ'), Some(('ほ', HANDAKUTEN)));
    assert_eq!(decompose('か'), None);
    assert_eq!(decompose('゛'), None);
    assert_eq!(decompose('a'), None);
}
