//! A second name for the grammar.

use vstd::prelude::*;
use crate::grammar::{reports_failure, MohoGrammar, SyntaxError};
use crate::syntax::parsed;
use crate::tree::{view_pairs, Pair, Rule};

verus! {

/// The grammar of the language: another name for `MohoGrammar`.
#[derive(Debug)]
pub struct MohoAST;

impl MohoAST {
    /// Matches `rule` at the start of `input`, as `MohoGrammar::parse` does.
    pub fn parse(rule: Rule, input: &str) -> (result: Result<Vec<Pair>, SyntaxError>)
        ensures
            match parsed(rule, input@) {
                Some(pairs) => result matches Ok(found) && view_pairs(found@) == pairs,
                None => result matches Err(e) && reports_failure(e, rule, input@),
            },
    {
        MohoGrammar::parse(rule, input)
    }
}

} // verus!
