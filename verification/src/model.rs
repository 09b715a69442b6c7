//! The model stage: normalization, pre-tokenization and WordPiece segmentation,
//! all done by the `tokenizers` crate.

use crate::vocab::{pair_views, views};
use ahash::AHashMap;
use tokenizers::models::wordpiece::WordPiece;
use tokenizers::normalizers::bert::BertNormalizer;
use tokenizers::pre_tokenizers::bert::BertPreTokenizer;
use tokenizers::Tokenizer;
use vstd::prelude::*;

verus! {

/// What the normalizer does to a text before the text is cut into words.
#[derive(Clone, Copy, Debug, PartialEq, Eq, Structural)]
pub struct Normalization {
    /// Remove control characters and turn every white space into a plain space.
    pub clean_text: bool,
    /// Put a space on each side of every CJK ideograph, so that it becomes a word
    /// of its own.
    pub handle_chinese_chars: bool,
    /// Decompose accented characters and drop the accents.
    pub strip_accents: bool,
    /// Turn letters into lower case.
    pub lowercase: bool,
}

impl Normalization {
    /// The normalization of an uncased BERT model: every step is taken.
    pub open spec fn full() -> Normalization {
        Normalization {
            clean_text: true,
            handle_chinese_chars: true,
            strip_accents: true,
            lowercase: true,
        }
    }

    /// The normalization of an uncased BERT model: every step is taken.
    pub fn bert() -> (r: Normalization)
        ensures
            r == Normalization::full(),
    {
        Normalization {
            clean_text: true,
            handle_chinese_chars: true,
            strip_accents: true,
            lowercase: true,
        }
    }
}

/// What the model stage hands back: four parallel arrays with one entry per
/// token.
#[derive(Debug)]
pub struct ModelOutput {
    pub ids: Vec<u32>,
    pub tokens: Vec<String>,
    pub offsets: Vec<(usize, usize)>,
    pub words: Vec<Option<u32>>,
}

/// The output of the model stage as contracts see it.
pub struct ModelOutputView {
    pub ids: Seq<u32>,
    pub tokens: Seq<Seq<char>>,
    pub offsets: Seq<(usize, usize)>,
    pub words: Seq<Option<u32>>,
}

impl View for ModelOutput {
    type V = ModelOutputView;

    open spec fn view(&self) -> ModelOutputView {
        ModelOutputView {
            ids: self.ids@,
            tokens: views(self.tokens@),
            offsets: self.offsets@,
            words: self.words@,
        }
    }
}

/// What the `tokenizers` crate makes of a text: the text is normalized by its
/// BERT normalizer with the given switches, cut into words by its BERT
/// pre-tokenizer, and each word is cut into pieces by its WordPiece model over the
/// given vocabulary. Offsets count characters of the text as it was given. None
/// where the crate reports an error.
pub uninterp spec fn bert_wordpiece(
    vocab: Seq<(Seq<char>, u32)>,
    clean_text: bool,
    handle_chinese_chars: bool,
    strip_accents: bool,
    lowercase: bool,
    text: Seq<char>,
) -> Option<ModelOutputView>;

/// Runs the pipeline of the `tokenizers` crate on `text`: a model from
/// `WordPiece::builder()` with `vocab` handed to `vocab` and then `build`, a
/// tokenizer from `Tokenizer::new` with a `BertNormalizer::new` of the four
/// switches given to `with_normalizer` and `BertPreTokenizer` given to
/// `with_pre_tokenizer`, then `encode_char_offsets` without special tokens. The
/// four arrays are what `get_ids`, `get_tokens`, `get_offsets` and `get_word_ids`
/// return of the encoding. The contract claims one thing: that the result depends
/// on the arguments alone. Nothing of what the result holds is taken on trust.
#[verifier::external_body]
pub(crate) fn run_bert_wordpiece(
    vocab: Vec<(String, u32)>,
    options: &Normalization,
    text: &str,
) -> (r: Option<ModelOutput>)
    ensures
        match r {
            Some(output) => bert_wordpiece(
                pair_views(vocab@),
                options.clean_text,
                options.handle_chinese_chars,
                options.strip_accents,
                options.lowercase,
                text@,
            ) == Some(output@),
            None => bert_wordpiece(
                pair_views(vocab@),
                options.clean_text,
                options.handle_chinese_chars,
                options.strip_accents,
                options.lowercase,
                text@,
            ) is None,
        },
{
    let Normalization { clean_text, handle_chinese_chars, strip_accents, lowercase } = *options;
    let vocab: AHashMap<String, u32> = vocab.into_iter().collect();
    let model = WordPiece::builder().vocab(vocab).build().ok()?;
    let mut tokenizer = Tokenizer::new(model);
    let normalizer =
        BertNormalizer::new(clean_text, handle_chinese_chars, Some(strip_accents), lowercase);
    tokenizer.with_normalizer(Some(normalizer)).ok()?;
    tokenizer.with_pre_tokenizer(Some(BertPreTokenizer));
    let encoding = tokenizer.encode_char_offsets(text, false).ok()?;
    let ids = encoding.get_ids().to_vec();
    let tokens = encoding.get_tokens().to_vec();
    let offsets = encoding.get_offsets().to_vec();
    let words = encoding.get_word_ids().to_vec();
    Some(ModelOutput { ids, tokens, offsets, words })
}

} // verus!
