//! Tests of the validating conversion, the boundary-aware conversion,
//! the error model, and the input history.

use dero::strict::{deromanize, deromanize_validated, DeromanizeError};
use dero::History;

fn is_boundary(c: char) -> bool {
    !c.is_ascii_alphabetic()
}

#[test]
fn validated_accepts_clean_romaja() {
    assert_eq!(deromanize_validated("gasa").unwrap(), "가사");
    assert_eq!(deromanize_validated("gas").unwrap(), "갓");
    assert_eq!(deromanize_validated("ilgo").unwrap(), "일고");
    assert_eq!(deromanize_validated("annyeoxhaseyo").unwrap(), "안녕하세요");
    assert_eq!(deromanize_validated("").unwrap(), "");
}

#[test]
fn validated_rejects_missing_vowel() {
    assert_eq!(
        deromanize_validated("kkk"),
        Err(DeromanizeError::MissingFinalVowel { position: 0 })
    );
    assert_eq!(
        deromanize_validated("k"),
        Err(DeromanizeError::MissingFinalVowel { position: 0 })
    );
    // "gak" closes the syllable with a final; the second "k" is a fresh
    // initial that never receives a vowel.
    assert_eq!(deromanize_validated("gak").unwrap(), "갘");
    assert_eq!(
        deromanize_validated("gakk"),
        Err(DeromanizeError::MissingFinalVowel { position: 3 })
    );
}

#[test]
fn validated_rejects_foreign_letters() {
    assert_eq!(
        deromanize_validated("!"),
        Err(DeromanizeError::InvalidLetter { letter: '!', position: 0 })
    );
    assert_eq!(
        deromanize_validated("ga !"),
        Err(DeromanizeError::InvalidLetter { letter: ' ', position: 2 })
    );
    assert_eq!(
        deromanize_validated("gaq"),
        Err(DeromanizeError::InvalidLetter { letter: 'q', position: 2 })
    );
}

#[test]
fn words_conversion_examples() {
    assert_eq!(deromanize("igeo mweoyeyo?", is_boundary).unwrap(), "이거 뭐예요?");
    assert_eq!(deromanize("gasa, gasa!", is_boundary).unwrap(), "가사, 가사!");
    assert_eq!(deromanize("", is_boundary).unwrap(), "");
}

#[test]
fn words_conversion_keeps_boundaries_unchanged() {
    let texts = [" ", " \t", ".,:;!?", "(~)", "1 2 3"];
    for text in texts {
        assert_eq!(deromanize(text, is_boundary).unwrap(), text);
    }
}

#[test]
fn words_error_offsets_are_character_offsets() {
    let err = deromanize("gasa kkk", is_boundary).unwrap_err();
    assert_eq!(err, DeromanizeError::MissingFinalVowel { position: 5 });
    assert_eq!(err.position(), 5);

    // The run sits after multi-byte characters: positions still count
    // characters of the original string, not bytes.
    let boundary_or_hangul = |c: char| !c.is_ascii_alphabetic() || c >= '\u{AC00}';
    let err = deromanize("한글 k", boundary_or_hangul).unwrap_err();
    assert_eq!(err, DeromanizeError::MissingFinalVowel { position: 3 });
}

#[test]
fn error_offset_moves_position() {
    let e = DeromanizeError::InvalidLetter { letter: 'q', position: 4 };
    assert_eq!(e.offset(10), DeromanizeError::InvalidLetter { letter: 'q', position: 14 });
    assert_eq!(e.position(), 4);
    let m = DeromanizeError::MissingFinalVowel { position: 0 };
    assert_eq!(m.offset(7), DeromanizeError::MissingFinalVowel { position: 7 });
}

#[test]
fn history_records_trimmed_inputs() {
    let mut h = History::new(4);
    assert!(h.is_empty());
    assert_eq!(h.len(), 0);
    h.push("  annyeox  ");
    assert_eq!(h.len(), 1);
    assert_eq!(h.get(0).unwrap().as_str(), "annyeox");
    assert!(!h.is_empty());
}

#[test]
fn history_drops_blank_and_repeated_inputs() {
    let mut h = History::new(4);
    h.push("   ");
    h.push("");
    assert_eq!(h.len(), 0);
    h.push("ga");
    h.push("ga");
    h.push("  ga  ");
    assert_eq!(h.len(), 1);
    h.push("na");
    h.push("ga");
    assert_eq!(h.len(), 3);
    assert_eq!(h.get(2).unwrap().as_str(), "ga");
}

#[test]
fn history_evicts_oldest_when_full() {
    let mut h = History::new(2);
    h.push("a1");
    h.push("a2");
    h.push("a3");
    assert_eq!(h.len(), 2);
    assert_eq!(h.get(0).unwrap().as_str(), "a2");
    assert_eq!(h.get(1).unwrap().as_str(), "a3");
    assert!(h.get(2).is_none());
}
