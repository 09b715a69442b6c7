//! Tokens: the pieces into which the model cuts the words of a text.

use vstd::prelude::*;

verus! {

/// The marked form of a token that continues a word: `##` in front.
pub open spec fn is_continuation(value: Seq<char>) -> bool {
    value.len() >= 2 && value[0] == '#' && value[1] == '#'
}

/// One piece of a word.
#[derive(Debug)]
pub struct Token {
    /// The ID of the piece in the vocabulary.
    pub id: u32,
    /// The piece as the vocabulary lists it, with `##` in front where it
    /// continues a word.
    pub value: String,
    /// Where the piece stands in the text that was tokenized: the positions of its
    /// first character and of the character after its last one.
    pub offsets: (usize, usize),
    /// Which word of the text the piece belongs to, counted from zero.
    pub word: u32,
}

/// A token as contracts see it.
pub struct TokenView {
    pub id: u32,
    pub value: Seq<char>,
    pub offsets: (usize, usize),
    pub word: u32,
}

impl View for Token {
    type V = TokenView;

    open spec fn view(&self) -> TokenView {
        TokenView { id: self.id, value: self.value@, offsets: self.offsets, word: self.word }
    }
}

/// The tokens of a sequence as contracts see them.
pub open spec fn token_views(tokens: Seq<Token>) -> Seq<TokenView> {
    tokens.map_values(|t: Token| t@)
}

impl Token {
    /// Tells whether the token continues the word that the token before it began.
    pub fn is_continuation(&self) -> (r: bool)
        ensures
            r == is_continuation(self.value@),
    {
        let value = self.value.as_str();
        let n: usize = value.unicode_len();
        n >= 2 && value.get_char(0) == '#' && value.get_char(1) == '#'
    }
}

} // verus!
