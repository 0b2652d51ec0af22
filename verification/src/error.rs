//! The single error kind of this crate.
//!
//! Every failure is fail-fast and aborts translation of the whole struct
//! or expression; no partial layout or initializer is ever returned.

use vstd::prelude::*;

use crate::assign::AssignOp;
use crate::assign::op_token;
use crate::assign::op_token_str;

verus! {

/// Why a struct or expression could not be translated.
#[derive(Clone, Copy, Debug, PartialEq, Eq, Structural)]
pub enum LayoutError {
    /// A struct literal supplied more expressions than the struct has
    /// field descriptors.
    ExcessInitializers { supplied: usize, expected: usize },
    /// An assignment operator on a bit-field member that this crate does
    /// not desugar.
    UnsupportedOperator { op: AssignOp },
}

/// The human-readable cause of an error.
pub open spec fn spec_message(e: LayoutError) -> Seq<char> {
    match e {
        LayoutError::ExcessInitializers { .. } => "struct literal supplies more expressions than there are fields"@,
        LayoutError::UnsupportedOperator { op } => "unimplemented assignment operator: "@
            + op_token(op),
    }
}

impl LayoutError {
    /// Renders the human-readable cause.
    pub fn message(&self) -> (r: String)
        ensures
            r@ == spec_message(*self),
    {
        match self {
            LayoutError::ExcessInitializers { .. } => {
                let mut s = String::new();
                s.append("struct literal supplies more expressions than there are fields");
                s
            },
            LayoutError::UnsupportedOperator { op } => {
                let mut s = String::new();
                s.append("unimplemented assignment operator: ");
                s.append(op_token_str(*op));
                s
            },
        }
    }
}

} // verus!
