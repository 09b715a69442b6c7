//! The decoder: from tokens back to text.

use crate::token::is_continuation;
use crate::vocab::views;
use vstd::prelude::*;
use vstd::string::*;

verus! {

/// What a token after the first adds to the text: a token that continues a word
/// adds itself without its marker; any other adds a space and itself.
pub open spec fn piece(token: Seq<char>) -> Seq<char> {
    if is_continuation(token) {
        token.skip(2)
    } else {
        seq![' '] + token
    }
}

/// The text that tokens stand for: the first token as it is, then the piece of
/// each token after it.
pub open spec fn decoded(tokens: Seq<Seq<char>>) -> Seq<char>
    decreases tokens.len(),
{
    if tokens.len() == 0 {
        Seq::empty()
    } else if tokens.len() == 1 {
        tokens[0]
    } else {
        decoded(tokens.drop_last()) + piece(tokens.last())
    }
}

/// Words with one space between each two.
pub open spec fn joined(words: Seq<Seq<char>>) -> Seq<char>
    decreases words.len(),
{
    if words.len() == 0 {
        Seq::empty()
    } else if words.len() == 1 {
        words[0]
    } else {
        joined(words.drop_last()) + seq![' '] + words.last()
    }
}

/// Puts tokens together into text. A token marked with `##` is joined to the
/// token before it, without the marker; before any other token but the first
/// stands one space. White space and case of the text that was tokenized are not
/// brought back.
pub fn decode(tokens: &Vec<String>) -> (r: String)
    ensures
        r@ == decoded(views(tokens@)),
{
    let n: usize = tokens.len();
    let mut out = String::new();
    let mut i: usize = 0;
    while i < n
        invariant
            n == tokens.len(),
            i <= n,
            out@ == decoded(views(tokens@).take(i as int)),
        decreases n - i,
    {
        let token: &str = tokens[i].as_str();
        let len: usize = token.unicode_len();
        proof {
            let done = views(tokens@).take(i as int);
            let next = views(tokens@).take(i + 1);
            assert(next.drop_last() == done);
            assert(next.last() == token@);
        }
        if i == 0 {
            out.append(token);
        } else if len >= 2 && token.get_char(0) == '#' && token.get_char(1) == '#' {
            out.append(token.substring_char(2, len));
        } else {
            out.push(' ');
            out.append(token);
        }
        i += 1;
    }
    proof {
        assert(views(tokens@).take(n as int) == views(tokens@));
    }
    out
}

/// Decoding tokens of which none but perhaps the first is marked with `##`, as
/// are the tokens of a text whose words are all entries of the vocabulary, gives
/// the tokens with one space between each two.
pub proof fn lemma_decode_whole_words(tokens: Seq<Seq<char>>)
    requires
        forall|i: int| 1 <= i < tokens.len() ==> !is_continuation(#[trigger] tokens[i]),
    ensures
        decoded(tokens) == joined(tokens),
    decreases tokens.len(),
{
    if tokens.len() > 1 {
        let before = tokens.drop_last();
        assert forall|i: int| 1 <= i < before.len() implies !is_continuation(
            #[trigger] before[i],
        ) by {
            assert(before[i] == tokens[i]);
        }
        lemma_decode_whole_words(before);
        assert(decoded(before) + (seq![' '] + tokens.last()) == decoded(before) + seq![' ']
            + tokens.last());
    }
}

} // verus!
