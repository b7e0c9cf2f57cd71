use voicecode::config::Cleaner;
use voicecode::domain::models::TranscribedText;
use voicecode::pipeline::cleaner::{
    capitalize_first, clean_text, collapse_repeated_punctuation, collapse_whitespace,
    compile_patterns, strip_dangling_punctuation, tidy_text, FillerPattern, RegexCleaner,
};

fn patterns() -> Vec<FillerPattern> {
    let cfg = Cleaner::default();
    compile_patterns(&cfg.filler_patterns).unwrap()
}

#[test]
fn removes_filler_and_capitalizes() {
    assert_eq!(clean_text("eh, quiero esto", &patterns()), "Quiero esto");
}

#[test]
fn removes_multiple_fillers() {
    assert_eq!(
        clean_text("pues o sea quiero digamos algo", &patterns()),
        "Quiero algo"
    );
}

#[test]
fn collapses_internal_whitespace() {
    assert_eq!(clean_text("hola    mundo", &patterns()), "Hola mundo");
}

#[test]
fn empty_input_stays_empty() {
    assert_eq!(clean_text("", &patterns()), "");
}

#[test]
fn only_filler_becomes_empty() {
    assert_eq!(clean_text("eh mmm", &patterns()), "");
}

#[test]
fn case_insensitive_filler() {
    assert_eq!(clean_text("PUES claro", &patterns()), "Claro");
}

#[test]
fn accented_first_letter_is_capitalized() {
    assert_eq!(clean_text("ábaco", &patterns()), "Ábaco");
}

#[test]
fn strips_dangling_leading_comma() {
    assert_eq!(clean_text("o sea, listo", &patterns()), "Listo");
}

#[test]
fn collapses_orphaned_comma_left_by_mid_sentence_filler() {
    assert_eq!(
        clean_text("Hola, eh, quiero decir algo", &patterns()),
        "Hola, quiero decir algo"
    );
}

#[test]
fn collapses_orphaned_commas_from_consecutive_fillers() {
    assert_eq!(
        clean_text("Hola, eh, mmm, quiero decir algo", &patterns()),
        "Hola, quiero decir algo"
    );
}

#[test]
fn strips_dangling_trailing_comma() {
    assert_eq!(
        clean_text("Quiero decir algo, pues", &patterns()),
        "Quiero decir algo"
    );
}

#[test]
fn default_patterns_all_compile() {
    let compiled = patterns();
    assert_eq!(compiled.len(), 8);
    assert_eq!(compiled[0].as_str(), "\\beh+\\b");
}

#[test]
fn invalid_pattern_reports_its_position() {
    let pats = vec!["\\bok\\b".to_string(), "(unclosed".to_string(), "[".to_string()];
    let err = compile_patterns(&pats).err().unwrap();
    assert_eq!(err.index, 1);
    assert_eq!(err.pattern, "(unclosed");
    let expected = regex::RegexBuilder::new("(unclosed")
        .case_insensitive(true)
        .build()
        .err()
        .unwrap()
        .to_string();
    assert_eq!(err.message, expected);
}

#[test]
fn no_patterns_only_tidies() {
    assert_eq!(clean_text("  t0  ", &[]), "T0");
}

#[test]
fn punctuation_runs_collapse_to_first_mark() {
    assert_eq!(collapse_repeated_punctuation("a, , b"), "a, b");
    assert_eq!(collapse_repeated_punctuation("a;  :,x"), "a;x");
    assert_eq!(collapse_repeated_punctuation("a, b, c"), "a, b, c");
    assert_eq!(collapse_repeated_punctuation("a,  "), "a,  ");
    assert_eq!(collapse_repeated_punctuation(""), "");
}

#[test]
fn whitespace_collapses_to_single_spaces() {
    assert_eq!(collapse_whitespace("  a \t b\n\nc  "), "a b c");
    assert_eq!(collapse_whitespace("   "), "");
    assert_eq!(collapse_whitespace("uno\u{3000}dos"), "uno dos");
}

#[test]
fn dangling_punctuation_is_stripped_at_both_ends() {
    assert_eq!(strip_dangling_punctuation(", ;hola, mundo: "), "hola, mundo");
    assert_eq!(strip_dangling_punctuation(",;: "), "");
    assert_eq!(strip_dangling_punctuation("x"), "x");
}

#[test]
fn capitalize_first_letter_only() {
    assert_eq!(capitalize_first("hola Mundo"), "Hola Mundo");
    assert_eq!(capitalize_first("ñandú"), "Ñandú");
    assert_eq!(capitalize_first("1abc"), "1abc");
    assert_eq!(capitalize_first(""), "");
    // Uppercase mapping may expand to several characters.
    assert_eq!(capitalize_first("ßa"), "SSa");
}

#[test]
fn tidy_text_runs_every_step() {
    assert_eq!(tidy_text(" , hola,  , mundo ;"), "Hola, mundo");
}

#[test]
fn cleaner_keeps_the_seq() {
    let cleaner = RegexCleaner::new(patterns());
    let out = cleaner.clean(&TranscribedText {
        seq: 7,
        raw: "eh hola".to_string(),
    });
    assert_eq!(out.seq, 7);
    assert_eq!(out.text, "Hola");
}

#[test]
fn tidied_text_is_single_spaced_with_clean_ends() {
    assert_eq!(tidy_text(" ,  hola ;\t\tmundo , "), "Hola ; mundo");
    assert_eq!(tidy_text(" , ; : "), "");
}
