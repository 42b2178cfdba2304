//! The operations that the host calls.
//!
//! A compilation runs in three steps, each to completion before the next: the
//! text is decoded into a document; the document is adapted, that is, its
//! glyph references are checked and it is wrapped as an in-memory source; and
//! the engine compiles that source. The first failure ends the call. Nothing
//! is kept between calls.

use vstd::prelude::*;
use vstd::string::StringExecFns;

use crate::artifact::opens_as_truetype;
use crate::diagnostic::{
    is_message_of, lemma_message_opens_with_label, lemma_message_tells_kind, message_text,
    BuildError, FailureKind, UNSUPPORTED_LABEL,
};
use crate::engine::{
    component_references, default_flags, engine_error_text, generate_font, install_panic_hook,
    json_error_text, memory_source, parse_font, read_component_references, render_engine_error,
    render_json_error,
};
use crate::references::{check_references, first_unsound, references_are_sound, unsound_detail};

verus! {

/// The product name that [`version`] reports.
pub const PRODUCT_NAME: &'static str = "babelfont-fontc-web";

/// The version number that this library declares for itself.
pub const BUILD_VERSION: &'static str = "0.1.0";

/// The identifier of a build with the given version number: the product name,
/// `" v"`, and the number, with nothing after it.
pub open spec fn version_text(build: Seq<char>) -> Seq<char> {
    PRODUCT_NAME@ + " v"@ + build
}

/// Installs the fault barrier: from then on a fault anywhere below the bridge
/// is reported to the host's console as a readable message. Only the first
/// call installs anything; the barrier is never taken down.
pub fn init() {
    install_panic_hook();
}

/// The rest of a call once the engine has answered: the compiled bytes are
/// handed to the caller whole and unchanged; an engine error ends the call as
/// a compilation failure whose detail is the engine's own text.
pub fn after_compile(generated: Result<Vec<u8>, fontc::Error>) -> (r: Result<Vec<u8>, BuildError>)
    ensures
        match generated {
            Ok(bytes) => r == Ok::<Vec<u8>, BuildError>(bytes),
            Err(e) => r matches Err(failure) && failure@ == (
                FailureKind::Compilation,
                engine_error_text(e),
            ),
        },
{
    match generated {
        Ok(bytes) => Ok(bytes),
        Err(e) => Err(BuildError::new(FailureKind::Compilation, render_engine_error(&e))),
    }
}

/// The rest of a call once the decoder has answered.
///
/// A decoder error ends the call there and then, as a decode failure whose
/// detail is the decoder's own text: the engine is not run and no bytes are
/// returned. A decoded document is adapted: its component references are
/// checked, and where a glyph cannot be built from them the call ends as an
/// adaptation failure that names the first such glyph, again without a run of
/// the engine. Otherwise the document is wrapped as an in-memory source and
/// compiled with the default flags; from then on the outcome is the engine's,
/// so bytes open as a TrueType font does, and a failure is a compilation
/// failure. No failure after decoding reads as a decode failure.
pub fn after_decode(parsed: Result<babelfont::Font, serde_json::Error>) -> (r: Result<
    Vec<u8>,
    BuildError,
>)
    ensures
        match parsed {
            Err(e) => r matches Err(failure) && failure@ == (
                FailureKind::Decode,
                json_error_text(e),
            ),
            Ok(font) => {
                let refs = component_references(font);
                if references_are_sound(refs) {
                    match r {
                        Ok(bytes) => opens_as_truetype(bytes@),
                        Err(failure) => failure.kind == FailureKind::Compilation,
                    }
                } else {
                    r matches Err(failure) && failure@ == (
                        FailureKind::Adaptation,
                        unsound_detail(refs[first_unsound(refs)].0),
                    )
                }
            },
        },
        parsed is Ok ==> (r matches Err(failure) ==> {
            &&& is_message_of(FailureKind::Adaptation, failure.text()) || is_message_of(
                FailureKind::Compilation,
                failure.text(),
            )
            &&& !is_message_of(FailureKind::Decode, failure.text())
            &&& failure.text().len() > 0
        }),
{
    match parsed {
        Err(e) => Err(BuildError::new(FailureKind::Decode, render_json_error(&e))),
        Ok(font) => {
            let refs = read_component_references(&font);
            let r = match check_references(&refs) {
                Err(failure) => Err(failure),
                Ok(()) => {
                    let source = memory_source(font);
                    after_compile(generate_font(source, default_flags()))
                },
            };
            proof {
                if r is Err {
                    let failure = r->Err_0;
                    lemma_message_opens_with_label(failure.kind, failure.detail@);
                    lemma_message_tells_kind(failure.kind, FailureKind::Decode, failure.detail@);
                }
            }
            r
        },
    }
}

/// Compiles a font-source document, given as JSON text, to the bytes of a
/// binary font.
///
/// Whether the call succeeds is for the decoder and the engine to say, so the
/// contract states what holds of every outcome: bytes are never empty and
/// open as a TrueType font does; a failure is a decode, an adaptation or a
/// compilation failure. [`after_decode`] and [`after_compile`] state what is
/// returned for each answer of the two, and
/// [`check_references`](crate::references::check_references) which documents
/// fail adaptation.
pub fn compile_babelfont(babelfont_json: &str) -> (r: Result<Vec<u8>, BuildError>)
    ensures
        r matches Ok(bytes) ==> opens_as_truetype(bytes@) && bytes@.len() >= 12,
        r matches Err(failure) ==> failure.kind != FailureKind::Unsupported,
{
    after_decode(parse_font(babelfont_json))
}

/// The entry point of earlier releases. It compiles nothing and does not look
/// at its argument: every call fails, with a message that names
/// [`compile_babelfont`].
pub fn compile_glyphs(_glyphs_json: &str) -> (r: Result<Vec<u8>, BuildError>)
    ensures
        r matches Err(failure) && failure@ == (FailureKind::Unsupported, Seq::<char>::empty()),
        r matches Err(failure) && failure.text() == UNSUPPORTED_LABEL@,
{
    let failure = BuildError::new(FailureKind::Unsupported, String::new());
    assert(message_text(failure.kind, failure.detail@) =~= UNSUPPORTED_LABEL@);
    Err(failure)
}

/// The identifier of a build that declares the version number `build`.
pub fn version_of(build: &str) -> (v: String)
    ensures
        v@ == version_text(build@),
{
    String::from_str(PRODUCT_NAME).concat(" v").concat(build)
}

/// The identifier of a build that declares the library's own version number.
/// A build that declares a number of its own reports it with [`version_of`].
pub fn version() -> (v: String)
    ensures
        v@ == version_text(BUILD_VERSION@),
{
    version_of(BUILD_VERSION)
}

/// The identifier of a build is never empty: it opens with the product name
/// and `" v"`, and closes with the version number of the build, whatever that
/// number is. Builds that declare different numbers have different
/// identifiers.
pub proof fn lemma_version_text(build: Seq<char>, other: Seq<char>)
    ensures
        version_text(build).len() == 21 + build.len(),
        PRODUCT_NAME@.is_prefix_of(version_text(build)),
        "babelfont-fontc-web v"@.is_prefix_of(version_text(build)),
        build.is_suffix_of(version_text(build)),
        version_text(build) == version_text(other) ==> build == other,
{
    reveal_strlit("babelfont-fontc-web");
    reveal_strlit(" v");
    reveal_strlit("babelfont-fontc-web v");
    let text = version_text(build);
    assert(text.subrange(0, PRODUCT_NAME@.len() as int) =~= PRODUCT_NAME@);
    assert(text.subrange(0, 21) =~= "babelfont-fontc-web v"@);
    assert(text.subrange(text.len() - build.len(), text.len() as int) =~= build);
    if version_text(build) == version_text(other) {
        assert(version_text(other).subrange(21, version_text(other).len() as int) =~= other);
        assert(text.subrange(21, text.len() as int) =~= build);
    }
}

/// The identifier of a build of the library itself.
pub proof fn lemma_own_version_text()
    ensures
        version_text(BUILD_VERSION@) == "babelfont-fontc-web v0.1.0"@,
{
    reveal_strlit("babelfont-fontc-web");
    reveal_strlit(" v");
    reveal_strlit("0.1.0");
    reveal_strlit("babelfont-fontc-web v0.1.0");
    assert(version_text(BUILD_VERSION@) =~= "babelfont-fontc-web v0.1.0"@);
}

} // verus!
