use vstd::prelude::*;

use crate::text::{chars_string, push_all, str_chars};
use crate::token::{toks_view, Tok, Token};

verus! {

/// The mathematical model of an expansion failure.
pub enum ErrV {
    /// A transform chain named a transform outside the registry.
    UnrecognizedTransform(Seq<char>),
    /// The `case` transform named a case style outside the registry.
    UnknownCase(Seq<char>),
    /// The `concatenate` transform named a mode outside the registry.
    UnknownMode(Seq<char>),
    /// A byte or byte-string literal reached a concatenation.
    ByteLiteral,
    /// Rewritten text could not be read back as a token sequence.
    Reparse,
    /// A transform chain expected an identifier and found none.
    ExpectedIdent,
    /// A block's opening marker was missing.
    MissingOpenMarker,
    /// A block ended before its closing marker.
    MissingCloseMarker,
    /// Tokens followed a block's closing marker inside its group.
    TrailingTokens,
    /// A rewritten text would not leave room for one more fence mark.
    Capacity,
}

/// An expansion failure. The first failure anywhere aborts the whole
/// expansion; no partial output is produced.
#[derive(Debug, PartialEq, Eq)]
pub enum EmbedError {
    UnrecognizedTransform(Vec<char>),
    UnknownCase(Vec<char>),
    UnknownMode(Vec<char>),
    ByteLiteral,
    Reparse,
    ExpectedIdent,
    MissingOpenMarker,
    MissingCloseMarker,
    TrailingTokens,
    Capacity,
}

impl DeepView for EmbedError {
    type V = ErrV;

    open spec fn deep_view(&self) -> ErrV {
        match self {
            EmbedError::UnrecognizedTransform(n) => ErrV::UnrecognizedTransform(n@),
            EmbedError::UnknownCase(n) => ErrV::UnknownCase(n@),
            EmbedError::UnknownMode(n) => ErrV::UnknownMode(n@),
            EmbedError::ByteLiteral => ErrV::ByteLiteral,
            EmbedError::Reparse => ErrV::Reparse,
            EmbedError::ExpectedIdent => ErrV::ExpectedIdent,
            EmbedError::MissingOpenMarker => ErrV::MissingOpenMarker,
            EmbedError::MissingCloseMarker => ErrV::MissingCloseMarker,
            EmbedError::TrailingTokens => ErrV::TrailingTokens,
            EmbedError::Capacity => ErrV::Capacity,
        }
    }
}

/// The model of a transformation's outcome: the models of the tokens
/// it produced, or the model of the failure that aborted it.
pub open spec fn result_view(r: Result<Vec<Token>, EmbedError>) -> Result<Seq<Tok>, ErrV> {
    match r {
        Ok(v) => Ok(toks_view(v@)),
        Err(e) => Err(e.deep_view()),
    }
}

/// The diagnostic text of a failure, naming the violated expectation
/// and, for a registry miss, the full list of valid alternatives.
pub open spec fn message_text(e: ErrV) -> Seq<char> {
    match e {
        ErrV::UnrecognizedTransform(n) => "unrecognized transform: `"@ + n
            + "`\navailable transforms are: `case` `ungroup` `flatten` `reverse` `stringify` `unstringify` `concatenate` `append` `prefix` `count`"@,
        ErrV::UnknownCase(n) => "Unknown case: `"@ + n + "`"@,
        ErrV::UnknownMode(n) => "unknown mode: `"@ + n + "`, valid modes are: ident r#ident string"@,
        ErrV::ByteLiteral => "byte literals are not supported in concatenation"@,
        ErrV::Reparse => "rewritten text could not be read back as tokens"@,
        ErrV::ExpectedIdent => "expected identifier"@,
        ErrV::MissingOpenMarker => "expected `<` to open the block"@,
        ErrV::MissingCloseMarker => "expected `>` to close the block"@,
        ErrV::TrailingTokens => "unexpected tokens after the closing `>`"@,
        ErrV::Capacity => "rewritten text exceeds the machine's capacity"@,
    }
}

impl EmbedError {
    /// The diagnostic text of this failure.
    pub fn message(&self) -> (r: Vec<char>)
        ensures
            r@ == message_text(self.deep_view()),
    {
        match self {
            EmbedError::UnrecognizedTransform(n) => {
                let mut out = str_chars("unrecognized transform: `");
                push_all(&mut out, n);
                let tail = str_chars(
                    "`\navailable transforms are: `case` `ungroup` `flatten` `reverse` `stringify` `unstringify` `concatenate` `append` `prefix` `count`",
                );
                push_all(&mut out, &tail);
                out
            },
            EmbedError::UnknownCase(n) => {
                let mut out = str_chars("Unknown case: `");
                push_all(&mut out, n);
                let tail = str_chars("`");
                push_all(&mut out, &tail);
                out
            },
            EmbedError::UnknownMode(n) => {
                let mut out = str_chars("unknown mode: `");
                push_all(&mut out, n);
                let tail = str_chars("`, valid modes are: ident r#ident string");
                push_all(&mut out, &tail);
                out
            },
            EmbedError::ByteLiteral => str_chars("byte literals are not supported in concatenation"),
            EmbedError::Reparse => str_chars("rewritten text could not be read back as tokens"),
            EmbedError::ExpectedIdent => str_chars("expected identifier"),
            EmbedError::MissingOpenMarker => str_chars("expected `<` to open the block"),
            EmbedError::MissingCloseMarker => str_chars("expected `>` to close the block"),
            EmbedError::TrailingTokens => str_chars("unexpected tokens after the closing `>`"),
            EmbedError::Capacity => str_chars("rewritten text exceeds the machine's capacity"),
        }
    }

    /// The diagnostic text of this failure, as a string.
    pub fn message_string(&self) -> (r: String)
        ensures
            r@ == message_text(self.deep_view()),
    {
        let m = self.message();
        chars_string(&m)
    }

    /// An exact copy of this failure.
    pub fn dup(&self) -> (r: EmbedError)
        ensures
            r.deep_view() == self.deep_view(),
    {
        match self {
            EmbedError::UnrecognizedTransform(n) => EmbedError::UnrecognizedTransform(
                crate::token::dup_chars(n),
            ),
            EmbedError::UnknownCase(n) => EmbedError::UnknownCase(crate::token::dup_chars(n)),
            EmbedError::UnknownMode(n) => EmbedError::UnknownMode(crate::token::dup_chars(n)),
            EmbedError::ByteLiteral => EmbedError::ByteLiteral,
            EmbedError::Reparse => EmbedError::Reparse,
            EmbedError::ExpectedIdent => EmbedError::ExpectedIdent,
            EmbedError::MissingOpenMarker => EmbedError::MissingOpenMarker,
            EmbedError::MissingCloseMarker => EmbedError::MissingCloseMarker,
            EmbedError::TrailingTokens => EmbedError::TrailingTokens,
            EmbedError::Capacity => EmbedError::Capacity,
        }
    }
}

} // verus!
