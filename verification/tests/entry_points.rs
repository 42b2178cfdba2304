use babelfont_fontc_web::bridge::{BUILD_VERSION, PRODUCT_NAME};
use babelfont_fontc_web::{
    compile_babelfont, compile_glyphs, init, version, version_of, FailureKind,
};

#[test]
fn version_names_product_and_build() {
    assert_eq!(version(), "babelfont-fontc-web v0.1.0");
}

#[test]
fn version_is_product_then_build() {
    let text = version();
    assert!(!text.is_empty());
    assert_eq!(text, format!("{} v{}", PRODUCT_NAME, BUILD_VERSION));
    assert!(text.starts_with("babelfont-fontc-web"));
    assert!(text.ends_with("0.1.0"));
    assert_eq!(version(), text);
}

#[test]
fn version_of_reports_the_number_it_is_given() {
    assert_eq!(version_of("1.2.3"), "babelfont-fontc-web v1.2.3");
    assert_eq!(version_of("0.10.0-beta.1"), "babelfont-fontc-web v0.10.0-beta.1");
    assert_eq!(version_of(""), "babelfont-fontc-web v");
    assert_eq!(version_of(BUILD_VERSION), version());
    assert_ne!(version_of("0.1.1"), version());
}

#[test]
fn version_of_ends_with_the_number() {
    for build in ["0.1.0", "2.0.0", "12.34.56", "1.0.0+build.7"] {
        let text = version_of(build);
        assert!(text.ends_with(build));
        assert!(text.starts_with("babelfont-fontc-web v"));
        assert_eq!(text.len(), "babelfont-fontc-web v".len() + build.len());
        assert_eq!(text, format!("babelfont-fontc-web v{}", build));
    }
}

#[test]
fn compile_glyphs_redirects() {
    let r = compile_glyphs("{\"glyphs\": []}");
    match r {
        Ok(_) => panic!("the legacy entry point compiled something"),
        Err(failure) => {
            assert_eq!(failure.kind, FailureKind::Unsupported);
            assert_eq!(failure.detail, "");
            assert_eq!(failure.message(), "Please use compile_babelfont() instead.");
        }
    }
}

#[test]
fn compile_glyphs_fails_whatever_it_is_given() {
    let inputs = vec![
        "",
        "{}",
        "{ not json",
        "{\"upm\":1000,\"version\":[1,0],\"glyphs\":[],\"date\":\"2024-01-01T00:00:00Z\",\"names\":{},\"features\":{\"classes\":{},\"prefixes\":{},\"features\":[]}}",
        "\u{0}\u{1f}\u{2028}",
    ];
    for input in inputs {
        let failure = compile_glyphs(input).unwrap_err();
        assert_eq!(failure.kind, FailureKind::Unsupported);
        assert_eq!(failure.message(), "Please use compile_babelfont() instead.");
    }
}

#[test]
fn init_may_be_called_again() {
    init();
    init();
    let failure = compile_babelfont("{ not json").unwrap_err();
    assert_eq!(failure.kind, FailureKind::Decode);
    init();
    assert_eq!(version(), "babelfont-fontc-web v0.1.0");
}
