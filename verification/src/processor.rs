//! The post-processor: frames the tokens of a text with the special tokens and
//! derives the parallel arrays of the encoding.

use crate::encoding::{in_order, EncodingView, JsEncoding};
use crate::error::TokenizeError;
use crate::token::{token_views, Token, TokenView};
use crate::vocab::{cls_token, id_of, sep_token, valid_entries, Vocabulary};
use vstd::prelude::*;

verus! {

/// The IDs of tokens.
pub open spec fn ids_of(tokens: Seq<TokenView>) -> Seq<u32> {
    tokens.map_values(|t: TokenView| t.id)
}

/// The strings of tokens.
pub open spec fn values_of(tokens: Seq<TokenView>) -> Seq<Seq<char>> {
    tokens.map_values(|t: TokenView| t.value)
}

/// The words of tokens.
pub open spec fn words_of(tokens: Seq<TokenView>) -> Seq<Option<u32>> {
    tokens.map_values(|t: TokenView| Some(t.word))
}

/// The offsets of tokens.
pub open spec fn offsets_of(tokens: Seq<TokenView>) -> Seq<(usize, usize)> {
    tokens.map_values(|t: TokenView| t.offsets)
}

/// `n` times the number `x`.
pub open spec fn repeated(x: u32, n: nat) -> Seq<u32> {
    Seq::new(n, |i: int| x)
}

/// The encoding of a single text: `[CLS]` with the ID `cls`, then the tokens,
/// then `[SEP]` with the ID `sep`. The special tokens stand nowhere in the text
/// and belong to no word. Every token is in segment 0 and is attended to.
pub open spec fn framed(cls: u32, sep: u32, tokens: Seq<TokenView>) -> EncodingView {
    EncodingView {
        ids: seq![cls] + ids_of(tokens) + seq![sep],
        type_ids: repeated(0, tokens.len() + 2),
        tokens: seq![cls_token()] + values_of(tokens) + seq![sep_token()],
        words: seq![None] + words_of(tokens) + seq![None],
        offsets: seq![(0usize, 0usize)] + offsets_of(tokens) + seq![(0usize, 0usize)],
        special_tokens_mask: seq![1u32] + repeated(0, tokens.len()) + seq![1u32],
        attention_mask: repeated(1, tokens.len() + 2),
    }
}

/// What the post-processor makes of tokens, over a vocabulary with the given
/// entries: the framed encoding, unless the vocabulary lacks `[CLS]` or `[SEP]`.
pub open spec fn processed(entries: Seq<Seq<char>>, tokens: Seq<TokenView>) -> Result<
    EncodingView,
    TokenizeError,
> {
    match (id_of(entries, cls_token()), id_of(entries, sep_token())) {
        (Some(cls), Some(sep)) => Ok(framed(cls, sep, tokens)),
        _ => Err(TokenizeError::MissingSpecialToken),
    }
}

/// The part of an encoding between its first and its last token: what belongs to
/// the tokens of the text.
pub open spec fn inner<T>(s: Seq<T>) -> Seq<T> {
    s.subrange(1, s.len() - 1)
}

/// Frames `tokens` with `[CLS]` and `[SEP]`, under the IDs that `vocab` has for
/// them.
pub fn process(vocab: &Vocabulary, tokens: &Vec<Token>) -> (r: Result<JsEncoding, TokenizeError>)
    ensures
        match r {
            Ok(e) => e.wf() && processed(vocab@, token_views(tokens@)) == Ok::<
                EncodingView,
                TokenizeError,
            >(e@),
            Err(k) => processed(vocab@, token_views(tokens@)) == Err::<
                EncodingView,
                TokenizeError,
            >(k),
        },
{
    let cls: u32 = match vocab.token_to_id("[CLS]") {
        Some(id) => id,
        None => {
            return Err(TokenizeError::MissingSpecialToken);
        },
    };
    let sep: u32 = match vocab.token_to_id("[SEP]") {
        Some(id) => id,
        None => {
            return Err(TokenizeError::MissingSpecialToken);
        },
    };
    let n: usize = tokens.len();
    let mut ids: Vec<u32> = Vec::new();
    let mut type_ids: Vec<u32> = Vec::new();
    let mut values: Vec<String> = Vec::new();
    let mut words: Vec<Option<u32>> = Vec::new();
    let mut offsets: Vec<(usize, usize)> = Vec::new();
    let mut special_tokens_mask: Vec<u32> = Vec::new();
    let mut attention_mask: Vec<u32> = Vec::new();
    ids.push(cls);
    type_ids.push(0);
    values.push("[CLS]".to_owned());
    words.push(None);
    offsets.push((0, 0));
    special_tokens_mask.push(1);
    attention_mask.push(1);
    let ghost views = token_views(tokens@);
    let mut i: usize = 0;
    while i < n
        invariant
            n == tokens.len(),
            i <= n,
            views == token_views(tokens@),
            ids@ == seq![cls] + ids_of(views.take(i as int)),
            type_ids@ == repeated(0, (i + 1) as nat),
            crate::vocab::views(values@) == seq![cls_token()] + values_of(views.take(i as int)),
            words@ == seq![None] + words_of(views.take(i as int)),
            offsets@ == seq![(0usize, 0usize)] + offsets_of(views.take(i as int)),
            special_tokens_mask@ == seq![1u32] + repeated(0, i as nat),
            attention_mask@ == repeated(1, (i + 1) as nat),
        decreases n - i,
    {
        let token = &tokens[i];
        proof {
            assert(views.take(i + 1) == views.take(i as int).push(token@));
            assert(crate::vocab::views(values@.push(token.value)) == crate::vocab::views(
                values@,
            ).push(token.value@));
        }
        ids.push(token.id);
        type_ids.push(0);
        values.push(token.value.clone());
        words.push(Some(token.word));
        offsets.push(token.offsets);
        special_tokens_mask.push(0);
        attention_mask.push(1);
        i += 1;
    }
    let sep_value: String = "[SEP]".to_owned();
    proof {
        assert(views.take(n as int) == views);
        assert(crate::vocab::views(values@.push(sep_value)) == crate::vocab::views(values@).push(
            sep_token(),
        ));
    }
    ids.push(sep);
    type_ids.push(0);
    values.push(sep_value);
    words.push(None);
    offsets.push((0, 0));
    special_tokens_mask.push(1);
    attention_mask.push(1);
    proof {
        let want = framed(cls, sep, views);
        assert(ids@ =~= want.ids);
        assert(type_ids@ =~= want.type_ids);
        assert(crate::vocab::views(values@) =~= want.tokens);
        assert(words@ =~= want.words);
        assert(offsets@ =~= want.offsets);
        assert(special_tokens_mask@ =~= want.special_tokens_mask);
        assert(attention_mask@ =~= want.attention_mask);
    }
    Ok(JsEncoding::new(ids, type_ids, values, words, offsets, special_tokens_mask, attention_mask))
}

/// A framed encoding has an entry for each token in every one of its arrays.
pub proof fn lemma_framed_is_aligned(cls: u32, sep: u32, tokens: Seq<TokenView>)
    ensures
        framed(cls, sep, tokens).aligned(),
        framed(cls, sep, tokens).len() == tokens.len() + 2,
{
}

/// Framing leaves the tokens of the text as they were: between `[CLS]` and
/// `[SEP]` stand their IDs, strings, words and offsets, none marked as special.
pub proof fn lemma_framed_keeps_tokens(cls: u32, sep: u32, tokens: Seq<TokenView>)
    ensures
        inner(framed(cls, sep, tokens).ids) == ids_of(tokens),
        inner(framed(cls, sep, tokens).tokens) == values_of(tokens),
        inner(framed(cls, sep, tokens).words) == words_of(tokens),
        inner(framed(cls, sep, tokens).offsets) == offsets_of(tokens),
        inner(framed(cls, sep, tokens).special_tokens_mask) == repeated(0, tokens.len()),
{
}

/// The offsets of the real tokens of an encoding do not overlap and come from
/// left to right exactly where those of the tokens that were framed do.
pub proof fn lemma_framed_offsets_in_order(cls: u32, sep: u32, tokens: Seq<TokenView>)
    ensures
        framed(cls, sep, tokens).real_offsets_in_order() <==> in_order(offsets_of(tokens)),
{
    let e = framed(cls, sep, tokens);
    let offsets = offsets_of(tokens);
    if in_order(offsets) {
        assert forall|i: int|
            0 <= i < e.offsets.len() && e.special_tokens_mask[i] == 0 implies (
        #[trigger] e.offsets[i]).0 <= e.offsets[i].1 by {
            assert(e.offsets[i] == offsets[i - 1]);
        }
        assert forall|i: int, j: int|
            0 <= i < j < e.offsets.len() && e.special_tokens_mask[i] == 0
                && e.special_tokens_mask[j] == 0 implies (#[trigger] e.offsets[i]).1 <= (
        #[trigger] e.offsets[j]).0 by {
            assert(e.offsets[i] == offsets[i - 1]);
            assert(e.offsets[j] == offsets[j - 1]);
        }
    }
    if e.real_offsets_in_order() {
        assert forall|i: int| 0 <= i < offsets.len() implies (#[trigger] offsets[i]).0
            <= offsets[i].1 by {
            assert(e.special_tokens_mask[i + 1] == 0);
            assert(e.offsets[i + 1] == offsets[i]);
        }
        assert forall|i: int, j: int| 0 <= i < j < offsets.len() implies (#[trigger] offsets[i]).1
            <= (#[trigger] offsets[j]).0 by {
            assert(e.special_tokens_mask[i + 1] == 0);
            assert(e.special_tokens_mask[j + 1] == 0);
            assert(e.offsets[i + 1] == offsets[i]);
            assert(e.offsets[j + 1] == offsets[j]);
        }
    }
}

/// Over a vocabulary that lists `[SEP]` under 1 and `[CLS]` under 2, every
/// encoding begins with the ID 2 and ends with the ID 1.
pub proof fn lemma_first_and_last_id(entries: Seq<Seq<char>>, tokens: Seq<TokenView>)
    requires
        valid_entries(entries),
        entries.len() > 2,
        entries[1] == sep_token(),
        entries[2] == cls_token(),
    ensures
        processed(entries, tokens) is Ok,
        processed(entries, tokens)->Ok_0.ids.first() == 2,
        processed(entries, tokens)->Ok_0.ids.last() == 1,
{
    assert(entries.contains(sep_token()));
    assert(entries.contains(cls_token()));
    assert(entries.index_of(sep_token()) == 1);
    assert(entries.index_of(cls_token()) == 2);
}

} // verus!
