use babelfont_fontc_web::{after_compile, after_decode, compile_babelfont, FailureKind};

const ONE_GLYPH: &str = "{\"upm\":2048,\"version\":[3,7],\"masters\":[{\"name\":{\"dflt\":\"Regular\"},\"id\":\"m01\",\"metrics\":{},\"kerning\":{}}],\"glyphs\":[{\"name\":\"space\",\"category\":\"Base\",\"codepoints\":[32],\"layers\":[{\"width\":512.0,\"id\":\"m01\",\"master\":{\"type\":\"DefaultForMaster\",\"master\":\"m01\"}}]}],\"date\":\"2020-02-29T12:00:00Z\",\"names\":{\"family_name\":{\"dflt\":\"Stage\"}},\"features\":{\"classes\":{},\"prefixes\":{},\"features\":[]}}";

#[test]
fn after_decode_compiles_the_document() {
    let font = serde_json::from_str::<babelfont::Font>(ONE_GLYPH).unwrap();
    assert_eq!(font.upm, 2048);
    let bytes = after_decode(Ok(font)).unwrap();
    assert!(bytes.len() >= 12);
    assert_eq!(&bytes[0..4], &[0u8, 1, 0, 0]);
    assert_eq!(bytes.len(), compile_babelfont(ONE_GLYPH).unwrap().len());
}

#[test]
fn after_decode_reports_the_engine_on_an_unfit_document() {
    let font = babelfont::Font::new();
    let failure = after_decode(Ok(font)).unwrap_err();
    assert_eq!(failure.kind, FailureKind::Compilation);
    assert_eq!(
        failure.message(),
        "Compilation failed: Panic(\"No master at default location Normalized {}\")"
    );
}

#[test]
fn after_decode_rejects_a_glyph_that_is_part_of_itself() {
    let text = ONE_GLYPH.replace(
        "\"master\":{\"type\":\"DefaultForMaster\",\"master\":\"m01\"}",
        "\"master\":{\"type\":\"DefaultForMaster\",\"master\":\"m01\"},\"shapes\":[{\"nodes\":\"0 0 l 9 0 l 9 9 l\",\"closed\":true},{\"reference\":\"space\"}]",
    );
    let font = serde_json::from_str::<babelfont::Font>(&text).unwrap();
    let failure = after_decode(Ok(font)).unwrap_err();
    assert_eq!(failure.kind, FailureKind::Adaptation);
    assert_eq!(
        failure.message(),
        "Failed to create IR source: glyph 'space' cannot be built: its components lead to a glyph that is missing or is part of itself"
    );
}

#[test]
fn after_decode_reads_the_components_of_every_layer() {
    let mut font = serde_json::from_str::<babelfont::Font>(ONE_GLYPH).unwrap();
    let mut layer = babelfont::Layer::new(100.0);
    layer.shapes.push(babelfont::Shape::Component(babelfont::Component {
        reference: "nowhere".into(),
        transform: babelfont::DecomposedAffine::default(),
        location: Default::default(),
        format_specific: Default::default(),
    }));
    font.glyphs[0].layers.push(layer);
    let failure = after_decode(Ok(font)).unwrap_err();
    assert_eq!(failure.kind, FailureKind::Adaptation);
    assert!(failure.detail.starts_with("glyph 'space' cannot be built"));
}

#[test]
fn after_decode_reports_the_decoder_in_its_own_words() {
    let error = serde_json::from_str::<serde_json::Value>("[1, 2").unwrap_err();
    let rendered = error.to_string();
    assert_eq!(rendered, "EOF while parsing a list at line 1 column 5");
    match after_decode(Err(error)) {
        Ok(_) => panic!("a decoder error was answered with bytes"),
        Err(failure) => {
            assert_eq!(failure.kind, FailureKind::Decode);
            assert_eq!(failure.detail, rendered);
            assert_eq!(
                failure.message(),
                "JSON parse error: EOF while parsing a list at line 1 column 5"
            );
        }
    }
}

#[test]
fn after_decode_reports_a_schema_mismatch() {
    let error = serde_json::from_str::<babelfont::Font>("{\"upm\": \"large\"}").unwrap_err();
    let rendered = error.to_string();
    match after_decode(Err(error)) {
        Ok(_) => panic!("a decoder error was answered with bytes"),
        Err(failure) => {
            assert_eq!(failure.kind, FailureKind::Decode);
            assert_eq!(failure.detail, rendered);
            assert_eq!(
                failure.message(),
                "JSON parse error: invalid type: string \"large\", expected u16 at line 1 column 15"
            );
        }
    }
}

#[test]
fn after_decode_reports_an_error_without_a_position() {
    let error = serde_json::from_value::<u8>(serde_json::Value::Bool(true)).unwrap_err();
    assert_eq!(error.line(), 0);
    let failure = after_decode(Err(error)).unwrap_err();
    assert_eq!(failure.kind, FailureKind::Decode);
    assert_eq!(
        failure.message(),
        "JSON parse error: invalid type: boolean `true`, expected u8"
    );
}

#[test]
fn after_compile_hands_the_bytes_on() {
    let bytes: Vec<u8> = vec![0, 1, 0, 0, 255, 17, 42];
    assert_eq!(after_compile(Ok(bytes.clone())), Ok(bytes));
}

#[test]
fn after_compile_hands_empty_bytes_on() {
    assert_eq!(after_compile(Ok(Vec::new())), Ok(Vec::new()));
}

#[test]
fn after_compile_reports_the_engine_in_its_own_words() {
    match after_compile(Err(fontc::Error::UnableToProceed(3))) {
        Ok(_) => panic!("an engine error was answered with bytes"),
        Err(failure) => {
            assert_eq!(failure.kind, FailureKind::Compilation);
            assert_eq!(failure.detail, "UnableToProceed(3)");
            assert_eq!(failure.message(), "Compilation failed: UnableToProceed(3)");
        }
    }
}

#[test]
fn after_compile_reports_an_engine_fault() {
    let error = fontc::Error::Panic("glyph order is gone".to_string());
    let rendered = format!("{:?}", error);
    match after_compile(Err(error)) {
        Ok(_) => panic!("an engine error was answered with bytes"),
        Err(failure) => {
            assert_eq!(failure.kind, FailureKind::Compilation);
            assert_eq!(failure.detail, rendered);
            assert_eq!(
                failure.message(),
                "Compilation failed: Panic(\"glyph order is gone\")"
            );
        }
    }
}

#[test]
fn after_compile_reports_a_unit_error() {
    match after_compile(Err(fontc::Error::NoOutputFile)) {
        Ok(_) => panic!("an engine error was answered with bytes"),
        Err(failure) => {
            assert_eq!(failure.kind, FailureKind::Compilation);
            assert_eq!(failure.message(), "Compilation failed: NoOutputFile");
        }
    }
}
