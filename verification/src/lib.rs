//! Generation of repeated template invocations over a range of tuple arities.
//!
//! A directive names a template, an inclusive arity range and a list of
//! name prefixes; for every arity in the range one invocation of the
//! template is emitted, with one synthesized name per prefix and position.
//! An optional marker asks for documentation-collapsing annotations on the
//! emitted invocations.

pub mod directive;
pub mod emit;
pub mod laws;
pub mod synth;
pub mod text;
pub mod views;

pub use directive::parse_directive;
pub use directive::DirectiveError;
pub use directive::GenerationRequest;
pub use directive::Token;
pub use emit::all_tuples;
pub use emit::all_tuples_enumerated;
pub use emit::all_tuples_with_size;
pub use emit::expand;
pub use emit::render_invocations;
pub use emit::Annotation;
pub use emit::Emission;
pub use emit::Mode;
pub use synth::Slot;
