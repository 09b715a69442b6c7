//! The vocabulary: tokens in the order of their IDs, read from a listing with one
//! token per line.

use crate::chars::{chars_of, is_space, is_whitespace, string_of};
use crate::error::TokenizeError;
use std::collections::HashMap;
use vstd::prelude::*;

verus! {

/// The position of the first line feed in `s`, or the length of `s` if it has none.
pub open spec fn first_newline(s: Seq<char>) -> nat
    decreases s.len(),
{
    if s.len() == 0 || s[0] == '\n' {
        0
    } else {
        1 + first_newline(s.drop_first())
    }
}

/// `line` without the white space at its end.
pub open spec fn trimmed(line: Seq<char>) -> Seq<char>
    decreases line.len(),
{
    if line.len() > 0 && is_space(line.last()) {
        trimmed(line.drop_last())
    } else {
        line
    }
}

/// The entries of a listing: its lines, each without the white space at its end.
/// Lines end at a line feed; the last line need not have one.
pub open spec fn listing_entries(s: Seq<char>) -> Seq<Seq<char>>
    decreases s.len(),
{
    if s.len() == 0 {
        Seq::empty()
    } else {
        let k = first_newline(s) as int;
        if k < s.len() {
            seq![trimmed(s.take(k))] + listing_entries(s.skip(k + 1))
        } else {
            seq![trimmed(s)]
        }
    }
}

/// What strings hold, one sequence of characters for each.
pub open spec fn views(v: Seq<String>) -> Seq<Seq<char>> {
    v.map_values(|s: String| s@)
}

/// The largest number of entries a vocabulary can have: one for each ID.
pub open spec fn max_entries() -> nat {
    0x1_0000_0000
}

/// Entries make a vocabulary if there is at least one, each can have an ID, and
/// none occurs twice.
pub open spec fn valid_entries(entries: Seq<Seq<char>>) -> bool {
    &&& 0 < entries.len() <= max_entries()
    &&& entries.no_duplicates()
}

/// The ID of `token` among `entries`, if it is one of them.
pub open spec fn id_of(entries: Seq<Seq<char>>, token: Seq<char>) -> Option<u32> {
    if entries.contains(token) {
        Some(entries.index_of(token) as u32)
    } else {
        None
    }
}

/// Tokens with their IDs, as contracts see them.
pub open spec fn pair_views(pairs: Seq<(String, u32)>) -> Seq<(Seq<char>, u32)> {
    pairs.map_values(|p: (String, u32)| (p.0@, p.1))
}

/// Each entry with its ID, which is its position.
pub open spec fn numbered(entries: Seq<Seq<char>>) -> Seq<(Seq<char>, u32)> {
    Seq::new(entries.len(), |i: int| (entries[i], i as u32))
}

/// The token that stands for a word that the vocabulary cannot spell.
pub open spec fn unk_token() -> Seq<char> {
    "[UNK]"@
}

/// The token that closes an encoding.
pub open spec fn sep_token() -> Seq<char> {
    "[SEP]"@
}

/// The token that opens an encoding.
pub open spec fn cls_token() -> Seq<char> {
    "[CLS]"@
}

/// The special tokens that the pipeline needs are all among the entries.
pub open spec fn has_special_tokens(entries: Seq<Seq<char>>) -> bool {
    &&& entries.contains(unk_token())
    &&& entries.contains(sep_token())
    &&& entries.contains(cls_token())
}

/// A scan that met no line feed before `k`, and a line feed or the end at `k`,
/// has found the first line feed.
proof fn lemma_first_newline(s: Seq<char>, k: int)
    requires
        0 <= k <= s.len(),
        forall|j: int| 0 <= j < k ==> s[j] != '\n',
        k == s.len() || s[k] == '\n',
    ensures
        first_newline(s) == k,
    decreases k,
{
    if k > 0 {
        lemma_first_newline(s.drop_first(), k - 1);
    }
}

/// Cutting white space off the end of a line, down to a character that is none,
/// trims the line.
proof fn lemma_trimmed(line: Seq<char>, k: int)
    requires
        0 <= k <= line.len(),
        forall|j: int| k <= j < line.len() ==> is_space(line[j]),
        k == 0 || !is_space(line[k - 1]),
    ensures
        trimmed(line) == line.take(k),
    decreases line.len() - k,
{
    if k < line.len() {
        lemma_trimmed(line.drop_last(), k);
        assert(line.drop_last().take(k) == line.take(k));
    } else {
        assert(line.take(k) == line);
    }
}

/// Where the line that starts at `start` ends: at its line feed, or at the end of
/// the text.
fn line_end(chars: &Vec<char>, start: usize) -> (end: usize)
    requires
        start <= chars.len(),
    ensures
        start <= end <= chars.len(),
        end - start == first_newline(chars@.skip(start as int)),
{
    let mut i: usize = start;
    while i < chars.len() && chars[i] != '\n'
        invariant
            start <= i <= chars.len(),
            forall|j: int| start <= j < i ==> chars@[j] != '\n',
        decreases chars.len() - i,
    {
        i += 1;
    }
    proof {
        lemma_first_newline(chars@.skip(start as int), i - start);
    }
    i
}

/// Where the line `chars[start..end]` ends once the white space at its end is cut.
fn trimmed_end(chars: &Vec<char>, start: usize, end: usize) -> (stop: usize)
    requires
        start <= end <= chars.len(),
    ensures
        start <= stop <= end,
        chars@.subrange(start as int, stop as int) == trimmed(
            chars@.subrange(start as int, end as int),
        ),
{
    let mut k: usize = end;
    while k > start && is_whitespace(chars[k - 1])
        invariant
            start <= k <= end <= chars.len(),
            forall|j: int| k <= j < end ==> is_space(chars@[j]),
        decreases k,
    {
        k -= 1;
    }
    proof {
        let line = chars@.subrange(start as int, end as int);
        lemma_trimmed(line, k - start);
        assert(line.take(k - start) == chars@.subrange(start as int, k as int));
    }
    k
}

/// The entries of the listing `chars`.
fn read_entries(chars: &Vec<char>) -> (out: Vec<String>)
    ensures
        views(out@) == listing_entries(chars@),
{
    let n: usize = chars.len();
    let mut out: Vec<String> = Vec::new();
    let mut start: usize = 0;
    assert(chars@.skip(0) == chars@);
    while start < n
        invariant
            n == chars.len(),
            start <= n,
            views(out@) + listing_entries(chars@.skip(start as int)) == listing_entries(chars@),
        decreases n - start,
    {
        let end: usize = line_end(chars, start);
        let stop: usize = trimmed_end(chars, start, end);
        let entry = string_of(chars, start, stop);
        proof {
            let rest = chars@.skip(start as int);
            assert(rest.take(end - start) == chars@.subrange(start as int, end as int));
            assert(views(out@.push(entry)) == views(out@).push(entry@));
            if end < n {
                assert(rest.skip(end - start + 1) == chars@.skip(end + 1));
            } else {
                assert(rest.take(end - start) == rest);
                assert(listing_entries(chars@.skip(n as int)) == Seq::<Seq<char>>::empty());
            }
        }
        out.push(entry);
        start = if end < n { end + 1 } else { n };
    }
    out
}

/// A number for a token: equal tokens have the same number, and two different
/// tokens seldom do.
spec fn hash_value(token: Seq<char>) -> u64
    decreases token.len(),
{
    if token.len() == 0 {
        0
    } else {
        ((hash_value(token.drop_last()) * 1_000_003 + token.last() as u32)
            % 0x1FFF_FFFF_FFFF_FFFF) as u64
    }
}

/// The number of `token`.
fn hash_of(token: &str) -> (h: u64)
    ensures
        h == hash_value(token@),
{
    let mut h: u64 = 0;
    let ghost mut read: Seq<char> = Seq::empty();
    for c in it: token.chars()
        invariant
            it.seq() == token@,
            read == it.seq().take(it.index() as int),
            h == hash_value(read),
            h < 0x1FFF_FFFF_FFFF_FFFF,
    {
        proof {
            assert(read.push(c).drop_last() == read);
            assert(it.seq().take(it.index() + 1) == read.push(c));
            read = read.push(c);
        }
        h = ((h as u128 * 1_000_003u128 + c as u32 as u128) % 0x1FFF_FFFF_FFFF_FFFFu128) as u64;
    }
    proof {
        assert(read == token@);
    }
    h
}

/// Tells whether the token at `i` occurs before `i` too.
fn occurs_before(tokens: &Vec<String>, i: usize) -> (r: bool)
    requires
        i < tokens.len(),
    ensures
        r == exists|a: int| 0 <= a < i && views(tokens@)[a] == views(tokens@)[i as int],
{
    let mut j: usize = 0;
    while j < i
        invariant
            j <= i < tokens.len(),
            forall|a: int| 0 <= a < j ==> views(tokens@)[a] != views(tokens@)[i as int],
        decreases i - j,
    {
        if tokens[j] == tokens[i] {
            assert(views(tokens@)[j as int] == views(tokens@)[i as int]);
            return true;
        }
        j += 1;
    }
    false
}

/// Tells whether some token occurs twice. Each token is looked up by its number
/// among the tokens before it; only where two different tokens have the same
/// number are all the tokens before it gone through.
fn has_duplicate(tokens: &Vec<String>) -> (r: bool)
    ensures
        r == !views(tokens@).no_duplicates(),
{
    broadcast use vstd::std_specs::hash::group_hash_axioms;

    let n: usize = tokens.len();
    let mut seen: HashMap<u64, usize> = HashMap::new();
    let mut i: usize = 0;
    while i < n
        invariant
            n == tokens.len(),
            i <= n,
            forall|a: int, b: int| 0 <= a < b < i ==> views(tokens@)[a] != views(tokens@)[b],
            forall|k: int|
                0 <= k < i ==> seen@.contains_key(#[trigger] hash_value(views(tokens@)[k])),
            forall|key: u64| seen@.contains_key(key) ==> #[trigger] seen@[key] < i,
        decreases n - i,
    {
        let h: u64 = hash_of(tokens[i].as_str());
        let earlier: Option<usize> = match seen.get(&h) {
            Some(k) => Some(*k),
            None => None,
        };
        match earlier {
            Some(k) => {
                if tokens[k] == tokens[i] {
                    assert(views(tokens@)[k as int] == views(tokens@)[i as int]);
                    return true;
                }
                if occurs_before(tokens, i) {
                    return true;
                }
            },
            None => {
                assert forall|a: int| 0 <= a < i implies views(tokens@)[a] != views(
                    tokens@,
                )[i as int] by {
                    assert(seen@.contains_key(hash_value(views(tokens@)[a])));
                }
                seen.insert(h, i);
            },
        }
        i += 1;
    }
    false
}

/// A vocabulary: the token with ID `i` is the entry at position `i`.
#[derive(Debug)]
pub struct Vocabulary {
    tokens: Vec<String>,
}

impl View for Vocabulary {
    type V = Seq<Seq<char>>;

    /// The tokens, in the order of their IDs.
    closed spec fn view(&self) -> Seq<Seq<char>> {
        views(self.tokens@)
    }
}

impl Vocabulary {
    /// Every vocabulary holds at least one token, has an ID for each, and holds
    /// none twice.
    #[verifier::type_invariant]
    pub open spec fn wf(&self) -> bool {
        valid_entries(self@)
    }

    /// Reads a vocabulary from a listing with one token per line. The ID of a
    /// token is the number of its line, counted from zero; white space at the end
    /// of a line is no part of the token. Fails with `InvalidVocabulary` where
    /// the listing has no line, has more lines than there are IDs, or has the
    /// same token on two lines.
    pub fn build(listing: &str) -> (r: Result<Vocabulary, TokenizeError>)
        ensures
            match r {
                Ok(v) => v.wf() && v@ == listing_entries(listing@),
                Err(e) => e == TokenizeError::InvalidVocabulary && !valid_entries(
                    listing_entries(listing@),
                ),
            },
    {
        let chars = chars_of(listing);
        let tokens = read_entries(&chars);
        let n: usize = tokens.len();
        if n == 0 || (n - 1) as u64 > 0xFFFF_FFFF {
            return Err(TokenizeError::InvalidVocabulary);
        }
        if has_duplicate(&tokens) {
            return Err(TokenizeError::InvalidVocabulary);
        }
        Ok(Vocabulary { tokens })
    }

    /// The number of tokens.
    pub fn len(&self) -> (n: usize)
        ensures
            self.wf(),
            n == self@.len(),
    {
        proof {
            use_type_invariant(self);
        }
        self.tokens.len()
    }

    /// The ID of `token`, if the vocabulary holds it.
    pub fn token_to_id(&self, token: &str) -> (r: Option<u32>)
        ensures
            r == id_of(self@, token@),
            r matches Some(id) ==> id < self@.len() && self@[id as int] == token@,
    {
        proof {
            use_type_invariant(self);
        }
        let wanted: String = token.to_owned();
        let n: usize = self.tokens.len();
        let mut i: usize = 0;
        while i < n
            invariant
                n == self.tokens.len(),
                i <= n,
                self.wf(),
                wanted@ == token@,
                forall|a: int| 0 <= a < i ==> self@[a] != token@,
            decreases n - i,
        {
            if self.tokens[i] == wanted {
                proof {
                    let found = self@.index_of(token@);
                    assert(self@[i as int] == token@);
                    assert(self@.contains(token@));
                    assert(found == i);
                }
                return Some(i as u32);
            }
            i += 1;
        }
        None
    }

    /// Tells whether the vocabulary holds `[UNK]`, `[SEP]` and `[CLS]`.
    pub fn has_special_tokens(&self) -> (r: bool)
        ensures
            r == has_special_tokens(self@),
    {
        self.token_to_id("[UNK]").is_some() && self.token_to_id("[SEP]").is_some()
            && self.token_to_id("[CLS]").is_some()
    }

    /// Every token with its ID, in the order of the IDs.
    pub fn pairs(&self) -> (r: Vec<(String, u32)>)
        ensures
            pair_views(r@) == numbered(self@),
    {
        proof {
            use_type_invariant(self);
        }
        let n: usize = self.tokens.len();
        let mut out: Vec<(String, u32)> = Vec::new();
        let mut i: usize = 0;
        while i < n
            invariant
                n == self.tokens.len(),
                n <= max_entries(),
                i <= n,
                pair_views(out@) == numbered(self@).take(i as int),
            decreases n - i,
        {
            let pair: (String, u32) = (self.tokens[i].clone(), i as u32);
            proof {
                assert(pair_views(out@.push(pair)) == pair_views(out@).push((pair.0@, pair.1)));
                assert(numbered(self@).take(i + 1) == numbered(self@).take(i as int).push(
                    (self@[i as int], i as u32),
                ));
            }
            out.push(pair);
            i += 1;
        }
        proof {
            assert(numbered(self@).take(n as int) == numbered(self@));
        }
        out
    }

    /// The token with the ID `id`, if there is one.
    pub fn id_to_token(&self, id: u32) -> (r: Option<&String>)
        ensures
            match r {
                Some(token) => id < self@.len() && token@ == self@[id as int],
                None => id >= self@.len(),
            },
    {
        if (id as usize) < self.tokens.len() {
            Some(&self.tokens[id as usize])
        } else {
            None
        }
    }
}

} // verus!
