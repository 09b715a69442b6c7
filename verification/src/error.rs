//! The ways in which tokenization can fail.

use vstd::prelude::*;

verus! {

/// Why a text could not be tokenized. A failure ends the whole call: no partial
/// encoding is ever handed out.
#[derive(Clone, Copy, Debug, PartialEq, Eq, Structural)]
pub enum TokenizeError {
    /// The vocabulary listing has no line, lists a token twice, or has more
    /// lines than there are IDs.
    InvalidVocabulary,
    /// One of `[UNK]`, `[SEP]`, `[CLS]` is not in the vocabulary.
    MissingSpecialToken,
    /// The model stage failed, or handed back tokens that do not fit the
    /// vocabulary.
    EncodingFailure,
}

impl TokenizeError {
    /// The text of the message for each kind of failure.
    pub open spec fn spec_message(self) -> Seq<char> {
        match self {
            TokenizeError::InvalidVocabulary =>
                "invalid vocabulary: the listing is empty, too long, or lists a token twice"@,
            TokenizeError::MissingSpecialToken =>
                "missing special token: the vocabulary needs [UNK], [SEP] and [CLS]"@,
            TokenizeError::EncodingFailure => "encoding failure: the text could not be tokenized"@,
        }
    }

    /// A message for the caller that says what went wrong.
    pub fn message(&self) -> (r: String)
        ensures
            r@ == self.spec_message(),
    {
        match self {
            TokenizeError::InvalidVocabulary => {
                "invalid vocabulary: the listing is empty, too long, or lists a token twice".to_owned()
            },
            TokenizeError::MissingSpecialToken => {
                "missing special token: the vocabulary needs [UNK], [SEP] and [CLS]".to_owned()
            },
            TokenizeError::EncodingFailure => {
                "encoding failure: the text could not be tokenized".to_owned()
            },
        }
    }
}

} // verus!
