//! Grammar-driven generation of byte strings.
//!
//! A tree of [`Generator`] nodes produces byte sequences that follow a
//! grammar, or, through negation, sequences that deliberately do not.
//! Every random decision is drawn from an explicit [`Entropy`], and named
//! rules live in a [`Rules`] registry that `Rule` nodes look up, which lets
//! grammars refer to themselves. Grammars in the ANTLR4 style are described
//! by the types of [`ast`] and turned into a registry by
//! [`translate::generate_rules`].
use vstd::prelude::*;

pub mod ast;
pub mod charset;
pub mod combinator;
pub mod entropy;
pub mod generate;
pub mod language;
pub mod laws;
pub mod registry;
pub mod translate;
pub mod unicode;
pub mod value;

pub use charset::{parse_charset, CharsetError};
pub use combinator::{
    choice, join_with, many, many1, not, optional, range, repeat_n, rule, sep_by, sep_by1,
    BuildError, Choice, Generator, JoinWith, Many, Many1, Not, Optional, Range, RepeatN, Rule,
    SepBy, SepBy1, Sequence,
};
pub use entropy::Entropy;
pub use language::{GenerateError, MANY_MAX, MAX_DEPTH, REPEAT_MAX, SEP_BY_MAX};
pub use registry::{register_rule, Rules};
pub use translate::{generate_rules, translate_rule, AntlrError};
pub use value::{
    any, byte, ch, char_range, string, Any, ByteLiteral, CharLiteral, CharRange, StringLiteral,
    STRING_MAX,
};

verus! {

} // verus!
