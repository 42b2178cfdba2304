use babelfont_fontc_web::references::{check_references, first_unsound_glyph};
use babelfont_fontc_web::FailureKind;

fn list(glyphs: &[(&str, &[&str])]) -> Vec<(String, Vec<String>)> {
    glyphs
        .iter()
        .map(|(name, components)| {
            (name.to_string(), components.iter().map(|c| c.to_string()).collect())
        })
        .collect()
}

fn detail_for(name: &str) -> String {
    format!(
        "glyph '{}' cannot be built: its components lead to a glyph that is missing or is part of itself",
        name
    )
}

#[test]
fn empty_list_is_sound() {
    assert_eq!(first_unsound_glyph(&list(&[])), None);
    assert_eq!(check_references(&list(&[])), Ok(()));
}

#[test]
fn glyphs_without_components_are_sound() {
    let refs = list(&[("A", &[]), ("B", &[]), ("space", &[])]);
    assert_eq!(first_unsound_glyph(&refs), None);
    assert_eq!(check_references(&refs), Ok(()));
}

#[test]
fn composite_of_earlier_glyphs_is_sound() {
    let refs = list(&[("A", &[]), ("acute", &[]), ("Aacute", &["A", "acute"])]);
    assert_eq!(first_unsound_glyph(&refs), None);
}

#[test]
fn composite_of_later_glyphs_is_sound() {
    let refs = list(&[("Aacute", &["A", "acute"]), ("acute", &[]), ("A", &[])]);
    assert_eq!(first_unsound_glyph(&refs), None);
}

#[test]
fn chain_against_the_order_is_sound() {
    let refs = list(&[("e", &["d"]), ("d", &["c"]), ("c", &["b"]), ("b", &["a"]), ("a", &[])]);
    assert_eq!(first_unsound_glyph(&refs), None);
    assert_eq!(check_references(&refs), Ok(()));
}

#[test]
fn glyph_used_twice_is_sound() {
    let refs = list(&[("colon", &["period", "period"]), ("period", &[])]);
    assert_eq!(first_unsound_glyph(&refs), None);
}

#[test]
fn missing_glyph_is_found() {
    let refs = list(&[("A", &[]), ("Aacute", &["A", "acute"])]);
    assert_eq!(first_unsound_glyph(&refs), Some(1));
}

#[test]
fn glyph_that_names_itself_is_found() {
    let refs = list(&[("A", &[]), ("B", &["A", "B"]), ("C", &[])]);
    assert_eq!(first_unsound_glyph(&refs), Some(1));
}

#[test]
fn glyphs_that_name_each_other_are_found() {
    let refs = list(&[("space", &[]), ("A", &["B"]), ("B", &["A"])]);
    assert_eq!(first_unsound_glyph(&refs), Some(1));
}

#[test]
fn long_cycle_is_found() {
    let refs = list(&[("a", &["b"]), ("b", &["c"]), ("c", &["d"]), ("d", &["a"])]);
    assert_eq!(first_unsound_glyph(&refs), Some(0));
}

#[test]
fn glyph_built_on_an_unsound_glyph_is_found_first() {
    let refs = list(&[("ok", &[]), ("Aacute", &["A", "ok"]), ("A", &["ghost"])]);
    assert_eq!(first_unsound_glyph(&refs), Some(1));
    let refs = list(&[("ok", &[]), ("A", &["ghost"]), ("Aacute", &["A", "ok"])]);
    assert_eq!(first_unsound_glyph(&refs), Some(1));
    let refs = list(&[("A", &["ok"]), ("loop", &["loop"]), ("ok", &[])]);
    assert_eq!(first_unsound_glyph(&refs), Some(1));
}

#[test]
fn every_glyph_of_a_name_must_be_sound() {
    let refs = list(&[("A", &[]), ("A", &["A"])]);
    assert_eq!(first_unsound_glyph(&refs), Some(1));
    let refs = list(&[("B", &["A"]), ("A", &[]), ("A", &["ghost"])]);
    assert_eq!(first_unsound_glyph(&refs), Some(0));
    let refs = list(&[("B", &["A"]), ("A", &[]), ("A", &[])]);
    assert_eq!(first_unsound_glyph(&refs), None);
}

#[test]
fn names_are_compared_whole() {
    let refs = list(&[("A", &["a"]), ("a.alt", &[]), ("AA", &[])]);
    assert_eq!(first_unsound_glyph(&refs), Some(0));
    let refs = list(&[("A", &[""]), ("", &[])]);
    assert_eq!(first_unsound_glyph(&refs), None);
}

#[test]
fn check_fails_as_an_adaptation_failure() {
    let refs = list(&[("A", &[]), ("Aacute", &["A", "acute"])]);
    let failure = check_references(&refs).unwrap_err();
    assert_eq!(failure.kind, FailureKind::Adaptation);
    assert_eq!(failure.detail, detail_for("Aacute"));
    assert_eq!(
        failure.message(),
        "Failed to create IR source: glyph 'Aacute' cannot be built: its components lead to a glyph that is missing or is part of itself"
    );
}

#[test]
fn check_names_the_first_glyph_that_cannot_be_built() {
    let refs = list(&[("x", &[]), ("loop", &["loop"]), ("lost", &["nowhere"])]);
    let failure = check_references(&refs).unwrap_err();
    assert_eq!(failure.kind, FailureKind::Adaptation);
    assert_eq!(failure.detail, detail_for("loop"));
    let refs = list(&[("x", &[]), ("lost", &["nowhere"]), ("loop", &["loop"])]);
    assert_eq!(check_references(&refs).unwrap_err().detail, detail_for("lost"));
}
