//! A token-tree rewriting library.
//!
//! The library recognizes marked regions inside a sequence of tokens,
//! parses each region into segments carrying chains of named
//! transformations, applies the chains left to right, and splices the
//! results back into the surrounding stream.

pub mod case;
pub mod chain;
pub mod concatenate;
pub mod embed;
pub mod error;
pub mod kinds;
pub mod laws;
pub mod lexer;
pub mod stringify;
pub mod text;
pub mod token;
pub mod unstringify;

pub use chain::{Transform, TransformChain, TransformKind};
pub use embed::{Block, Embed, Segment, SegmentModified, SegmentUntouched, Sequence};
pub use error::EmbedError;
pub use token::{Delim, Lit, LitV, Tok, Token};
