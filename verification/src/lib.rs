//! A BERT tokenization pipeline whose contracts are proved.
//!
//! A vocabulary listing and a text go in; the token IDs, token strings, offsets,
//! word indices and masks that a BERT-style model expects come out. Normalization,
//! pre-tokenization and WordPiece segmentation are done by the `tokenizers` crate;
//! reading the vocabulary, holding what the model hands back against it, framing
//! the tokens with the special tokens and decoding tokens back to text are
//! verified here.

pub mod chars;
pub mod decoder;
pub mod encoding;
pub mod error;
pub mod model;
pub mod pipeline;
pub mod processor;
pub mod token;
pub mod vocab;

pub use chars::is_whitespace;
pub use decoder::decode;
pub use encoding::JsEncoding;
pub use error::TokenizeError;
pub use model::{ModelOutput, Normalization};
pub use pipeline::{assemble, encode, fits_vocabulary, tokenize, tokenize_with, tokens_of};
pub use processor::process;
pub use token::Token;
pub use vocab::Vocabulary;
