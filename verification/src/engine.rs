//! The boundary to the font-description library and the compilation engine.
//!
//! Everything in this module is taken on trust: the types are opaque to the
//! verifier, and the contracts of the functions are stated, not proved. Each
//! function holds one call into an outside crate and what that call needs.

use vstd::prelude::*;

use crate::artifact::opens_as_truetype;
use crate::references::references_are_sound;

verus! {

/// A decoded font-source document (`babelfont::Font`). The bridge carries it
/// from the decoder to the engine and never looks inside.
#[verifier::external_type_specification]
#[verifier::external_body]
pub struct ExFont(babelfont::Font);

/// A document wrapped as an in-memory source for the engine
/// (`babelfont::convertors::fontir::BabelfontIrSource`).
#[verifier::external_type_specification]
#[verifier::external_body]
pub struct ExIrSource(babelfont::convertors::fontir::BabelfontIrSource);

/// The engine's switches for optional steps of a compilation
/// (`fontir::orchestration::Flags`).
#[verifier::external_type_specification]
#[verifier::external_body]
pub struct ExFlags(fontir::orchestration::Flags);

/// The decoder's error (`serde_json::Error`).
#[verifier::external_type_specification]
#[verifier::external_body]
pub struct ExJsonError(serde_json::Error);

/// The engine's error (`fontc::Error`).
#[verifier::external_type_specification]
#[verifier::external_body]
pub struct ExEngineError(fontc::Error);

/// The text that `Display` gives for a decoder error: the kind of problem and,
/// where the decoder knows them, the line and column at which it arose.
pub uninterp spec fn json_error_text(e: serde_json::Error) -> Seq<char>;

/// The text that `Debug` gives for an engine error.
pub uninterp spec fn engine_error_text(e: fontc::Error) -> Seq<char>;

/// The component references of a document: for each glyph, in the order of
/// the document, its name and the names that its components refer to, layer
/// after layer and within a layer in the order of its shapes.
pub uninterp spec fn component_references(font: babelfont::Font) -> Seq<
    (Seq<char>, Seq<Seq<char>>),
>;

/// The document that a source holds.
pub uninterp spec fn wrapped_document(
    source: babelfont::convertors::fontir::BabelfontIrSource,
) -> babelfont::Font;

/// Calls `serde_json::from_str::<babelfont::Font>` on `text`.
///
/// Nothing is claimed of the outcome. The decoder accepts a text only if it is
/// JSON and fits the document schema as a whole; which texts those are is the
/// font-description library's business. The outcome is not even fixed by the
/// text: some maps of a document are read through a `HashMap`, so the order
/// of their entries, and which of two faulty entries is reported, may differ
/// from one call to the next.
#[verifier::external_body]
pub(crate) fn parse_font(text: &str) -> Result<babelfont::Font, serde_json::Error> {
    serde_json::from_str::<babelfont::Font>(text)
}

/// Calls `ToString::to_string` on a decoder error, which renders it with its
/// `Display` impl. The contract only gives that text its name.
#[verifier::external_body]
pub(crate) fn render_json_error(e: &serde_json::Error) -> (text: String)
    ensures
        text@ == json_error_text(*e),
{
    e.to_string()
}

/// Reads the component references out of a document: each glyph's `name`,
/// and for each of its layers the components that `Layer::components` hands
/// out, by their `reference`. No glyph, layer or component is left out, and
/// no name is looked at: each is copied into a `String`. The contract only
/// gives the list its name.
#[verifier::external_body]
pub(crate) fn read_component_references(font: &babelfont::Font) -> (refs: Vec<
    (String, Vec<String>),
>)
    ensures
        refs.deep_view() == component_references(*font),
{
    let names = |layer: &babelfont::Layer| -> Vec<String> {
        layer.components().map(|component| component.reference.to_string()).collect()
    };
    font.glyphs.iter().map(|glyph| {
        (glyph.name.to_string(), glyph.layers.iter().flat_map(names).collect())
    }).collect()
}

/// Calls `BabelfontIrSource::new` with the default compilation options, which
/// stores the document, as it is, for the engine to query. The call cannot
/// fail. The contract states that the source holds the document it was given.
#[verifier::external_body]
pub(crate) fn memory_source(font: babelfont::Font) -> (source:
    babelfont::convertors::fontir::BabelfontIrSource)
    ensures
        wrapped_document(source) == font,
{
    babelfont::convertors::fontir::BabelfontIrSource::new(
        font,
        babelfont::convertors::fontir::CompilationOptions::default(),
    )
}

/// Calls `Flags::default`, which gives the switches that the engine itself
/// starts from. Nothing is claimed of them.
#[verifier::external_body]
pub(crate) fn default_flags() -> fontir::orchestration::Flags {
    fontir::orchestration::Flags::default()
}

/// Calls `fontc::generate_font` on `source`, with `flags` and otherwise the
/// engine's default options: features are compiled, and there is no output
/// file and no debug directory, so that the engine is handed no path. (A
/// document may still name files: feature code that includes one makes the
/// engine look for it.)
///
/// The engine follows component references from glyph to glyph and does not
/// look for one that leads back (`fontir`'s `resolve_inconsistencies`): on a
/// document in which a glyph is part of itself it may never return. So the
/// call asks that the references of the document be sound. That is more than
/// the engine needs: it would drop a component that names no glyph.
///
/// Little is claimed of the outcome: the bytes hold the time of compilation,
/// so not even two runs on one source need agree. What the contract states is
/// that bytes, where there are any, open as a TrueType font does. The engine
/// returns what its last task assembled with `write_fonts::FontBuilder::build`
/// from a fixed list of tables, none of them `CFF ` or `CFF2`, and `build`
/// writes a table directory before anything else: the signature, which
/// without such a table is `0x00010000`, and four 16-bit numbers.
///
/// Where a panic unwinds, a fault inside a task of the engine is caught there
/// and returned as an error. Where a panic aborts, as on `wasm32`, such a
/// fault ends the call, and the host learns of it through the fault barrier.
#[verifier::external_body]
pub(crate) fn generate_font(
    source: babelfont::convertors::fontir::BabelfontIrSource,
    flags: fontir::orchestration::Flags,
) -> (r: Result<Vec<u8>, fontc::Error>)
    requires
        references_are_sound(component_references(wrapped_document(source))),
    ensures
        r matches Ok(bytes) ==> opens_as_truetype(bytes@),
{
    let options = fontc::Options { flags, ..Default::default() };
    fontc::generate_font(Box::new(source), options)
}

/// Formats an engine error with `{:?}`, that is with its `Debug` impl. The
/// contract only gives that text its name.
#[verifier::external_body]
pub(crate) fn render_engine_error(e: &fontc::Error) -> (text: String)
    ensures
        text@ == engine_error_text(*e),
{
    format!("{:?}", e)
}

/// Calls `console_error_panic_hook::set_once`, which installs the hook the
/// first time it runs and does nothing afterwards. That first time it goes
/// through `std::panic::set_hook`, which must not run on a thread that is
/// already unwinding.
#[verifier::external_body]
pub(crate) fn install_panic_hook() {
    console_error_panic_hook::set_once()
}

} // verus!
