//! A compile-time code generator for structure definitions with inline field
//! defaults.
//!
//! The input grammar is the standard structure-definition grammar extended
//! with an optional `= expression` suffix per field.  From one such
//! definition the library produces two token sequences: the plain definition
//! with the default annotations removed, and an implementation of the
//! default-construction trait that uses, for each field, either the given
//! expression or the field type's own empty/zero-value constructor.
//!
//! Token trees are modelled by [`tokens::Tok`]; the boundary that turns
//! compiler token streams into this model and back lives outside the library.

pub mod emit;
pub mod grammar;
pub mod laws;
pub mod parse;
pub mod tokens;

pub use emit::synthesize;
pub use parse::parse_definition;
pub use parse::FieldShape;
pub use parse::ParseError;
pub use parse::ParsedDef;
pub use parse::ParsedField;
pub use tokens::Delim;
pub use tokens::Tok;
pub use tokens::TokS;

use vstd::prelude::*;

verus! {

/// The expansion of a well-formed extended definition; `None` exactly on
/// the inputs the grammar rejects.
pub open spec fn expansion_of(s: Seq<TokS>) -> Option<Seq<TokS>> {
    match crate::grammar::parse_def(s) {
        Ok(d) => Some(crate::emit::expansion_tokens(d)),
        Err(_) => None,
    }
}

/// The single entry point: parse one extended structure definition and
/// return its expansion — the plain definition followed by the generated
/// default-construction implementation — or fail with a syntax error
/// whose message says what was expected and whose position names the
/// first token at which the grammar's scan fails.
pub fn default(input: &Vec<Tok>) -> (r: Result<Vec<Tok>, ParseError>)
    ensures
        (r matches Ok(out) ==> expansion_of(tokens::deep_seq(input@)) == Some(
            tokens::deep_seq(out@),
        )),
        (r matches Err(e) ==> grammar::parse_def(tokens::deep_seq(input@))
            == Err::<grammar::DefS, (int, Option<int>)>((e.at as int, parse::opt_pos(e.inner)))),
{
    match crate::parse::parse_definition(input) {
        Err(e) => Err(e),
        Ok(d) => Ok(crate::emit::synthesize(&d)),
    }
}

} // verus!
