//! Micro parser combinators.
//!
//! A grammar is a tree of [`MpcParser`] values built from primitive character
//! matchers and combinators. [`mpc_parse`] runs such a tree over an input text
//! and yields a typed value or a positioned error. What a parser does on a text
//! is defined by the specification function [`semantics::spec_parse`], and the
//! evaluator is proved to compute exactly that.

pub mod state;
pub mod text;
pub mod input;
pub mod value;
pub mod error;
pub mod parser;
pub mod semantics;
pub mod eval;
pub mod fold;
pub mod grammar;
pub mod laws;

pub use crate::error::{MpcErr, MpcResult};
pub use crate::eval::mpc_parse;
pub use crate::fold::{mpcf_fst, mpcf_null, mpcf_strfold, FstFold, NullFold, StrFold};
pub use crate::grammar::{
    mpc_alpha, mpc_alphanum, mpc_blank, mpc_boundary, mpc_boundary_newline, mpc_digit, mpc_digits,
    mpc_eoi, mpc_escape, mpc_hexdigit, mpc_hexdigits, mpc_lower, mpc_newline, mpc_octdigit,
    mpc_octdigits, mpc_soi, mpc_tab, mpc_underscore, mpc_upper, mpc_whitespace, mpc_whitespaces,
    BoundaryAnchor, EoiAnchor, SoiAnchor, WordChar,
};
pub use crate::input::MpcInput;
pub use crate::parser::{
    mpc_and, mpc_any, mpc_anchor, mpc_char, mpc_count, mpc_fail, mpc_lift, mpc_lift_val, mpc_many,
    mpc_many1, mpc_noneof, mpc_oneof, mpc_or, mpc_pass, mpc_range, mpc_satisfy, mpc_sepby,
    mpc_sepby1, mpc_state, mpc_string, mpca_root, mpca_tag, MpcAnchor, MpcCallback, MpcFold,
    MpcLift, MpcParser, MpcParserType, MpcSatisfy,
};
pub use crate::state::MpcState;
pub use crate::value::{MpcAst, MpcVal};
