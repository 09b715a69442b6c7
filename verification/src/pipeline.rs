//! The pipeline: from a vocabulary listing and a text to the encoding of the text.

use crate::encoding::{in_order, EncodingView, JsEncoding};
use crate::error::TokenizeError;
use crate::model::{bert_wordpiece, run_bert_wordpiece, ModelOutput, ModelOutputView, Normalization};
use crate::processor::{
    framed, lemma_first_and_last_id, lemma_framed_offsets_in_order, offsets_of, process,
};
use crate::token::{token_views, Token, TokenView};
use crate::vocab::{
    cls_token, has_special_tokens, id_of, listing_entries, numbered, sep_token, valid_entries,
    Vocabulary,
};
use vstd::prelude::*;

verus! {

/// The tokens that the four arrays of the model stage describe, if the arrays
/// have the same length and every entry has a word.
pub open spec fn zipped(output: ModelOutputView) -> Option<Seq<TokenView>> {
    if output.tokens.len() == output.ids.len() && output.offsets.len() == output.ids.len()
        && output.words.len() == output.ids.len() && forall|i: int|
        0 <= i < output.words.len() ==> (#[trigger] output.words[i]) is Some {
        Some(
            Seq::new(
                output.ids.len(),
                |i: int|
                    TokenView {
                        id: output.ids[i],
                        value: output.tokens[i],
                        offsets: output.offsets[i],
                        word: output.words[i]->0,
                    },
            ),
        )
    } else {
        None
    }
}

/// Tokens fit a vocabulary if each has the ID under which the vocabulary lists
/// its string.
pub open spec fn fits(entries: Seq<Seq<char>>, tokens: Seq<TokenView>) -> bool {
    forall|i: int|
        0 <= i < tokens.len() ==> (#[trigger] tokens[i]).id < entries.len()
            && entries[tokens[i].id as int] == tokens[i].value
}

/// What becomes of the output of the model stage, over a vocabulary with the
/// given entries: an encoding, if the vocabulary has the special tokens and the
/// output describes tokens that fit the vocabulary.
pub open spec fn assembled(entries: Seq<Seq<char>>, output: Option<ModelOutputView>) -> Result<
    EncodingView,
    TokenizeError,
> {
    if !has_special_tokens(entries) {
        Err(TokenizeError::MissingSpecialToken)
    } else {
        match output {
            Some(o) => match zipped(o) {
                Some(tokens) => if fits(entries, tokens) {
                    Ok(
                        framed(
                            id_of(entries, cls_token())->0,
                            id_of(entries, sep_token())->0,
                            tokens,
                        ),
                    )
                } else {
                    Err(TokenizeError::EncodingFailure)
                },
                None => Err(TokenizeError::EncodingFailure),
            },
            None => Err(TokenizeError::EncodingFailure),
        }
    }
}

/// The encoding of `text` over a vocabulary with the given entries.
pub open spec fn encoded(entries: Seq<Seq<char>>, options: Normalization, text: Seq<char>) -> Result<
    EncodingView,
    TokenizeError,
> {
    assembled(
        entries,
        bert_wordpiece(
            numbered(entries),
            options.clean_text,
            options.handle_chinese_chars,
            options.strip_accents,
            options.lowercase,
            text,
        ),
    )
}

/// The encoding of `text` over the vocabulary that `listing` lists.
pub open spec fn tokenized(options: Normalization, listing: Seq<char>, text: Seq<char>) -> Result<
    EncodingView,
    TokenizeError,
> {
    if valid_entries(listing_entries(listing)) {
        encoded(listing_entries(listing), options, text)
    } else {
        Err(TokenizeError::InvalidVocabulary)
    }
}

/// The output of the model stage as contracts see it.
pub open spec fn output_view(output: Option<ModelOutput>) -> Option<ModelOutputView> {
    match output {
        Some(o) => Some(o@),
        None => None,
    }
}

/// A result as contracts see it.
pub open spec fn result_view(r: Result<JsEncoding, TokenizeError>) -> Result<
    EncodingView,
    TokenizeError,
> {
    match r {
        Ok(e) => Ok(e@),
        Err(k) => Err(k),
    }
}

/// The tokens that the output of the model stage describes.
pub fn tokens_of(output: &ModelOutput) -> (r: Option<Vec<Token>>)
    ensures
        match r {
            Some(tokens) => zipped(output@) == Some(token_views(tokens@)),
            None => zipped(output@) is None,
        },
{
    let n: usize = output.ids.len();
    if output.tokens.len() != n || output.offsets.len() != n || output.words.len() != n {
        return None;
    }
    let mut tokens: Vec<Token> = Vec::new();
    let mut i: usize = 0;
    while i < n
        invariant
            n == output.ids.len(),
            n == output.tokens.len(),
            n == output.offsets.len(),
            n == output.words.len(),
            i <= n,
            tokens.len() == i,
            forall|j: int| 0 <= j < i ==> (#[trigger] output.words[j]) is Some,
            forall|j: int|
                0 <= j < i ==> (#[trigger] tokens[j])@ == (TokenView {
                    id: output.ids[j],
                    value: output.tokens[j]@,
                    offsets: output.offsets[j],
                    word: output.words[j]->0,
                }),
        decreases n - i,
    {
        match output.words[i] {
            Some(word) => {
                tokens.push(
                    Token {
                        id: output.ids[i],
                        value: output.tokens[i].clone(),
                        offsets: output.offsets[i],
                        word,
                    },
                );
            },
            None => {
                return None;
            },
        }
        i += 1;
    }
    proof {
        assert(zipped(output@)->0 =~= token_views(tokens@));
    }
    Some(tokens)
}

/// Tells whether each token has the ID under which `vocab` lists its string.
pub fn fits_vocabulary(vocab: &Vocabulary, tokens: &Vec<Token>) -> (r: bool)
    ensures
        r == fits(vocab@, token_views(tokens@)),
{
    let n: usize = tokens.len();
    let mut i: usize = 0;
    while i < n
        invariant
            n == tokens.len(),
            i <= n,
            forall|j: int|
                0 <= j < i ==> (#[trigger] token_views(tokens@)[j]).id < vocab@.len()
                    && vocab@[token_views(tokens@)[j].id as int] == token_views(tokens@)[j].value,
        decreases n - i,
    {
        let listed: bool = match vocab.id_to_token(tokens[i].id) {
            Some(entry) => *entry == tokens[i].value,
            None => false,
        };
        if !listed {
            proof {
                let token = token_views(tokens@)[i as int];
                assert(!(token.id < vocab@.len() && vocab@[token.id as int] == token.value));
            }
            return false;
        }
        i += 1;
    }
    true
}

/// Makes the encoding of a text of what the model stage handed back for it.
/// Fails with `MissingSpecialToken` where `vocab` lacks `[UNK]`, `[SEP]` or
/// `[CLS]`. Else fails with `EncodingFailure` where the model stage failed, where
/// its arrays differ in length, where a token has no word, and where a token does
/// not have the ID under which `vocab` lists it. Else the tokens come back framed
/// with `[CLS]` and `[SEP]`.
pub fn assemble(vocab: &Vocabulary, output: Option<ModelOutput>) -> (r: Result<
    JsEncoding,
    TokenizeError,
>)
    ensures
        result_view(r) == assembled(vocab@, output_view(output)),
        r matches Ok(e) ==> e.wf(),
{
    if !vocab.has_special_tokens() {
        return Err(TokenizeError::MissingSpecialToken);
    }
    let output: ModelOutput = match output {
        Some(o) => o,
        None => {
            return Err(TokenizeError::EncodingFailure);
        },
    };
    let tokens: Vec<Token> = match tokens_of(&output) {
        Some(tokens) => tokens,
        None => {
            return Err(TokenizeError::EncodingFailure);
        },
    };
    if !fits_vocabulary(vocab, &tokens) {
        return Err(TokenizeError::EncodingFailure);
    }
    process(vocab, &tokens)
}

/// Encodes `text` over `vocab`: the model stage cuts the text into tokens, and
/// `assemble` makes the encoding of them. Fails as `assemble` does.
pub fn encode(vocab: &Vocabulary, options: &Normalization, text: &str) -> (r: Result<
    JsEncoding,
    TokenizeError,
>)
    ensures
        result_view(r) == encoded(vocab@, *options, text@),
        r matches Ok(e) ==> e.wf(),
{
    if !vocab.has_special_tokens() {
        return Err(TokenizeError::MissingSpecialToken);
    }
    let output = run_bert_wordpiece(vocab.pairs(), options, text);
    assemble(vocab, output)
}

/// Encodes `text` over the vocabulary that `vocab_str` lists, one token per
/// line, with the normalization that `options` asks for. Fails with
/// `InvalidVocabulary` where `Vocabulary::build` does, else as `encode` does.
pub fn tokenize_with(options: &Normalization, vocab_str: &str, text: &str) -> (r: Result<
    JsEncoding,
    TokenizeError,
>)
    ensures
        result_view(r) == tokenized(*options, vocab_str@, text@),
        r matches Ok(e) ==> e.wf(),
{
    match Vocabulary::build(vocab_str) {
        Ok(vocab) => encode(&vocab, options, text),
        Err(k) => Err(k),
    }
}

/// Encodes `text` over the vocabulary that `vocab_str` lists, one token per
/// line, as an uncased BERT model expects it: with every step of the
/// normalization taken. Fails as `tokenize_with` does.
pub fn tokenize(vocab_str: &str, text: &str) -> (r: Result<JsEncoding, TokenizeError>)
    ensures
        result_view(r) == tokenized(Normalization::full(), vocab_str@, text@),
        r matches Ok(e) ==> e.wf(),
{
    tokenize_with(&Normalization::bert(), vocab_str, text)
}

/// For every vocabulary listing and every text, the seven arrays of the encoding
/// have the same length.
pub proof fn lemma_encoding_is_aligned(options: Normalization, listing: Seq<char>, text: Seq<char>)
    ensures
        tokenized(options, listing, text) matches Ok(e) ==> e.aligned(),
{
}

/// Over a vocabulary whose listing has `[SEP]` on its second line and `[CLS]` on
/// its third, the encoding of every text begins with the ID 2 and ends with the
/// ID 1.
pub proof fn lemma_encoding_begins_with_cls_and_ends_with_sep(
    options: Normalization,
    listing: Seq<char>,
    text: Seq<char>,
)
    requires
        listing_entries(listing).len() > 2,
        listing_entries(listing)[1] == sep_token(),
        listing_entries(listing)[2] == cls_token(),
    ensures
        tokenized(options, listing, text) matches Ok(e) ==> e.ids.first() == 2 && e.ids.last()
            == 1,
{
    let entries = listing_entries(listing);
    if tokenized(options, listing, text) is Ok {
        let output = bert_wordpiece(
            numbered(entries),
            options.clean_text,
            options.handle_chinese_chars,
            options.strip_accents,
            options.lowercase,
            text,
        );
        lemma_first_and_last_id(entries, zipped(output->0)->0);
    }
}

/// Where the offsets that the model stage hands back do not overlap and come
/// from left to right, so do the offsets of the real tokens of the encoding.
pub proof fn lemma_offsets_stay_in_order(entries: Seq<Seq<char>>, output: ModelOutputView)
    requires
        in_order(output.offsets),
    ensures
        assembled(entries, Some(output)) matches Ok(e) ==> e.real_offsets_in_order(),
{
    if assembled(entries, Some(output)) is Ok {
        let tokens = zipped(output)->0;
        assert(offsets_of(tokens) =~= output.offsets);
        lemma_framed_offsets_in_order(
            id_of(entries, cls_token())->0,
            id_of(entries, sep_token())->0,
            tokens,
        );
    }
}

/// Every ID in an encoding is the ID under which the vocabulary lists the token
/// that stands beside it.
pub proof fn lemma_ids_name_tokens(entries: Seq<Seq<char>>, output: Option<ModelOutputView>)
    requires
        valid_entries(entries),
    ensures
        assembled(entries, output) matches Ok(e) ==> forall|i: int|
            0 <= i < e.ids.len() ==> (#[trigger] e.ids[i]) < entries.len()
                && entries[e.ids[i] as int] == e.tokens[i],
{
    if assembled(entries, output) is Ok {
        let e = assembled(entries, output)->Ok_0;
        let tokens = zipped(output->0)->0;
        assert(entries.contains(cls_token()));
        assert(entries.contains(sep_token()));
        assert forall|i: int| 0 <= i < e.ids.len() implies (#[trigger] e.ids[i]) < entries.len()
            && entries[e.ids[i] as int] == e.tokens[i] by {
            if 0 < i < e.ids.len() - 1 {
                assert(e.ids[i] == tokens[i - 1].id);
                assert(e.tokens[i] == tokens[i - 1].value);
            }
        }
    }
}

} // verus!
