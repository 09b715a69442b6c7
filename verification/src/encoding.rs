//! The encoding of a text: one entry per token in each of seven parallel arrays.

use crate::vocab::views;
use vstd::prelude::*;

verus! {

/// An encoding as contracts see it.
pub struct EncodingView {
    pub ids: Seq<u32>,
    pub type_ids: Seq<u32>,
    pub tokens: Seq<Seq<char>>,
    pub words: Seq<Option<u32>>,
    pub offsets: Seq<(usize, usize)>,
    pub special_tokens_mask: Seq<u32>,
    pub attention_mask: Seq<u32>,
}

impl EncodingView {
    /// The number of tokens.
    pub open spec fn len(self) -> nat {
        self.ids.len()
    }

    /// The offsets of the real tokens, those that are not marked as special, are
    /// in order: no range ends before it starts, and each ends where the next
    /// one starts, or before.
    pub open spec fn real_offsets_in_order(self) -> bool {
        &&& forall|i: int|
            0 <= i < self.offsets.len() && self.special_tokens_mask[i] == 0 ==> (
            #[trigger] self.offsets[i]).0 <= self.offsets[i].1
        &&& forall|i: int, j: int|
            0 <= i < j < self.offsets.len() && self.special_tokens_mask[i] == 0
                && self.special_tokens_mask[j] == 0 ==> (#[trigger] self.offsets[i]).1 <= (
            #[trigger] self.offsets[j]).0
    }

    /// Every array has one entry for each token.
    pub open spec fn aligned(self) -> bool {
        &&& self.type_ids.len() == self.ids.len()
        &&& self.tokens.len() == self.ids.len()
        &&& self.words.len() == self.ids.len()
        &&& self.offsets.len() == self.ids.len()
        &&& self.special_tokens_mask.len() == self.ids.len()
        &&& self.attention_mask.len() == self.ids.len()
    }
}

/// Offsets are in order if no range ends before it starts and each range ends
/// where the next one starts, or before: the ranges do not overlap and come from
/// left to right.
pub open spec fn in_order(offsets: Seq<(usize, usize)>) -> bool {
    &&& forall|i: int| 0 <= i < offsets.len() ==> (#[trigger] offsets[i]).0 <= offsets[i].1
    &&& forall|i: int, j: int|
        0 <= i < j < offsets.len() ==> (#[trigger] offsets[i]).1 <= (#[trigger] offsets[j]).0
}

/// Seven arrays as an encoding sees them.
pub open spec fn parts_view(
    ids: Seq<u32>,
    type_ids: Seq<u32>,
    tokens: Seq<String>,
    words: Seq<Option<u32>>,
    offsets: Seq<(usize, usize)>,
    special_tokens_mask: Seq<u32>,
    attention_mask: Seq<u32>,
) -> EncodingView {
    EncodingView {
        ids,
        type_ids,
        tokens: views(tokens),
        words,
        offsets,
        special_tokens_mask,
        attention_mask,
    }
}

/// The encoding of one text. It is made once and not changed afterwards.
#[derive(Debug)]
pub struct JsEncoding {
    /// The ID of each token in the vocabulary.
    ids: Vec<u32>,
    /// The segment of each token.
    type_ids: Vec<u32>,
    /// Each token as the vocabulary lists it.
    tokens: Vec<String>,
    /// The word of the text that each token belongs to; none for a special token.
    words: Vec<Option<u32>>,
    /// Where each token stands in the text; an empty range for a special token.
    offsets: Vec<(usize, usize)>,
    /// 1 for each special token, 0 for the others.
    special_tokens_mask: Vec<u32>,
    /// 1 for each token that the model is to attend to.
    attention_mask: Vec<u32>,
}

impl View for JsEncoding {
    type V = EncodingView;

    closed spec fn view(&self) -> EncodingView {
        EncodingView {
            ids: self.ids@,
            type_ids: self.type_ids@,
            tokens: views(self.tokens@),
            words: self.words@,
            offsets: self.offsets@,
            special_tokens_mask: self.special_tokens_mask@,
            attention_mask: self.attention_mask@,
        }
    }
}

impl JsEncoding {
    /// In every encoding the seven arrays have the same length.
    #[verifier::type_invariant]
    pub open spec fn wf(&self) -> bool {
        self@.aligned()
    }

    /// Makes an encoding of seven arrays of the same length.
    pub(crate) fn new(
        ids: Vec<u32>,
        type_ids: Vec<u32>,
        tokens: Vec<String>,
        words: Vec<Option<u32>>,
        offsets: Vec<(usize, usize)>,
        special_tokens_mask: Vec<u32>,
        attention_mask: Vec<u32>,
    ) -> (e: JsEncoding)
        requires
            parts_view(
                ids@,
                type_ids@,
                tokens@,
                words@,
                offsets@,
                special_tokens_mask@,
                attention_mask@,
            ).aligned(),
        ensures
            e.wf(),
            e@ == parts_view(
                ids@,
                type_ids@,
                tokens@,
                words@,
                offsets@,
                special_tokens_mask@,
                attention_mask@,
            ),
    {
        JsEncoding { ids, type_ids, tokens, words, offsets, special_tokens_mask, attention_mask }
    }

    /// Makes an encoding of seven arrays, if they have the same length.
    pub fn from_parts(
        ids: Vec<u32>,
        type_ids: Vec<u32>,
        tokens: Vec<String>,
        words: Vec<Option<u32>>,
        offsets: Vec<(usize, usize)>,
        special_tokens_mask: Vec<u32>,
        attention_mask: Vec<u32>,
    ) -> (r: Option<JsEncoding>)
        ensures
            match r {
                Some(e) => e.wf() && e@ == parts_view(
                    ids@,
                    type_ids@,
                    tokens@,
                    words@,
                    offsets@,
                    special_tokens_mask@,
                    attention_mask@,
                ),
                None => !parts_view(
                    ids@,
                    type_ids@,
                    tokens@,
                    words@,
                    offsets@,
                    special_tokens_mask@,
                    attention_mask@,
                ).aligned(),
            },
    {
        let n: usize = ids.len();
        if type_ids.len() == n && tokens.len() == n && words.len() == n && offsets.len() == n
            && special_tokens_mask.len() == n && attention_mask.len() == n {
            Some(
                JsEncoding::new(
                    ids,
                    type_ids,
                    tokens,
                    words,
                    offsets,
                    special_tokens_mask,
                    attention_mask,
                ),
            )
        } else {
            None
        }
    }

    /// The number of tokens, which is the length of each of the seven arrays.
    pub fn len(&self) -> (n: usize)
        ensures
            self.wf(),
            n == self@.len(),
    {
        proof {
            use_type_invariant(self);
        }
        self.ids.len()
    }

    /// Tells whether the offsets of the real tokens do not overlap and come from
    /// left to right.
    pub fn real_offsets_in_order(&self) -> (r: bool)
        ensures
            r == self@.real_offsets_in_order(),
    {
        proof {
            use_type_invariant(self);
        }
        let n: usize = self.offsets.len();
        let mut reached: usize = 0;
        let mut i: usize = 0;
        while i < n
            invariant
                n == self.offsets.len(),
                n == self.special_tokens_mask.len(),
                i <= n,
                forall|a: int|
                    0 <= a < i && self.special_tokens_mask[a] == 0 ==> (
                    #[trigger] self.offsets[a]).0 <= self.offsets[a].1 <= reached,
                forall|a: int, b: int|
                    0 <= a < b < i && self.special_tokens_mask[a] == 0
                        && self.special_tokens_mask[b] == 0 ==> (#[trigger] self.offsets[a]).1 <= (
                    #[trigger] self.offsets[b]).0,
                reached == 0 || exists|a: int|
                    0 <= a < i && self.special_tokens_mask[a] == 0 && (
                    #[trigger] self.offsets[a]).1 == reached,
            decreases n - i,
        {
            if self.special_tokens_mask[i] == 0 {
                let (start, end) = self.offsets[i];
                if start > end || start < reached {
                    proof {
                        let view = self@;
                        if start <= end {
                            let a = choose|a: int|
                                0 <= a < i && self.special_tokens_mask[a] == 0 && (
                                #[trigger] self.offsets[a]).1 == reached;
                            assert(view.offsets[a].1 > view.offsets[i as int].0);
                        } else {
                            assert(view.offsets[i as int].0 > view.offsets[i as int].1);
                        }
                    }
                    return false;
                }
                reached = end;
            }
            i += 1;
        }
        true
    }

    /// The ID of each token.
    pub fn ids(&self) -> (r: &Vec<u32>)
        ensures
            r@ == self@.ids,
    {
        &self.ids
    }

    /// The segment of each token.
    pub fn type_ids(&self) -> (r: &Vec<u32>)
        ensures
            r@ == self@.type_ids,
    {
        &self.type_ids
    }

    /// Each token as the vocabulary lists it.
    pub fn tokens(&self) -> (r: &Vec<String>)
        ensures
            views(r@) == self@.tokens,
    {
        &self.tokens
    }

    /// The word that each token belongs to.
    pub fn words(&self) -> (r: &Vec<Option<u32>>)
        ensures
            r@ == self@.words,
    {
        &self.words
    }

    /// Where each token stands in the text.
    pub fn offsets(&self) -> (r: &Vec<(usize, usize)>)
        ensures
            r@ == self@.offsets,
    {
        &self.offsets
    }

    /// 1 for each special token, 0 for the others.
    pub fn special_tokens_mask(&self) -> (r: &Vec<u32>)
        ensures
            r@ == self@.special_tokens_mask,
    {
        &self.special_tokens_mask
    }

    /// 1 for each token that the model is to attend to.
    pub fn attention_mask(&self) -> (r: &Vec<u32>)
        ensures
            r@ == self@.attention_mask,
    {
        &self.attention_mask
    }
}

} // verus!
