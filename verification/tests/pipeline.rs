use bert_wordpiece::{
    assemble, decode, encode, tokenize, tokenize_with, ModelOutput, Normalization, TokenizeError,
    Vocabulary,
};

const SMALL: &str = "[UNK]\n[SEP]\n[CLS]\nhe\n##llo\nworld";

fn strings(items: &[&str]) -> Vec<String> {
    items.iter().map(|s| s.to_string()).collect()
}

#[test]
fn run() {
    assert_eq!(1, 1)
}

#[test]
fn hello_world_is_cut_into_pieces() {
    let e = tokenize(SMALL, "hello world").unwrap();
    assert_eq!(e.tokens(), &strings(&["[CLS]", "he", "##llo", "world", "[SEP]"]));
    assert_eq!(e.ids(), &vec![2, 3, 4, 5, 1]);
    assert_eq!(e.words(), &vec![None, Some(0), Some(0), Some(1), None]);
    assert_eq!(e.offsets(), &vec![(0, 0), (0, 2), (2, 5), (6, 11), (0, 0)]);
    assert_eq!(e.type_ids(), &vec![0, 0, 0, 0, 0]);
    assert_eq!(e.special_tokens_mask(), &vec![1, 0, 0, 0, 1]);
    assert_eq!(e.attention_mask(), &vec![1, 1, 1, 1, 1]);
    assert_eq!(e.len(), 5);
}

#[test]
fn unknown_word_becomes_unk() {
    let e = tokenize(SMALL, "xyz").unwrap();
    assert_eq!(e.tokens(), &strings(&["[CLS]", "[UNK]", "[SEP]"]));
    assert_eq!(e.ids(), &vec![2, 0, 1]);
    assert_eq!(e.words(), &vec![None, Some(0), None]);
    assert_eq!(e.offsets(), &vec![(0, 0), (0, 3), (0, 0)]);
}

#[test]
fn half_known_word_becomes_one_unk() {
    let e = tokenize(SMALL, "hexyz world").unwrap();
    assert_eq!(e.tokens(), &strings(&["[CLS]", "[UNK]", "world", "[SEP]"]));
    assert_eq!(e.ids(), &vec![2, 0, 5, 1]);
    assert_eq!(e.offsets(), &vec![(0, 0), (0, 5), (6, 11), (0, 0)]);
}

#[test]
fn empty_text_has_only_special_tokens() {
    let e = tokenize(SMALL, "").unwrap();
    assert_eq!(e.tokens(), &strings(&["[CLS]", "[SEP]"]));
    assert_eq!(e.ids(), &vec![2, 1]);
    assert_eq!(e.words(), &vec![None, None]);
    assert_eq!(e.offsets(), &vec![(0, 0), (0, 0)]);
    assert_eq!(e.type_ids(), &vec![0, 0]);
    assert_eq!(e.special_tokens_mask(), &vec![1, 1]);
    assert_eq!(e.attention_mask(), &vec![1, 1]);
}

#[test]
fn blank_text_has_only_special_tokens() {
    let e = tokenize(SMALL, " \t\n ").unwrap();
    assert_eq!(e.ids(), &vec![2, 1]);
}

#[test]
fn every_array_has_the_same_length() {
    for text in ["", "hello", "hello world", "xyz hello, world!", "he he he he he"] {
        let e = tokenize(SMALL, text).unwrap();
        let n = e.len();
        assert_eq!(e.ids().len(), n);
        assert_eq!(e.type_ids().len(), n);
        assert_eq!(e.tokens().len(), n);
        assert_eq!(e.words().len(), n);
        assert_eq!(e.offsets().len(), n);
        assert_eq!(e.special_tokens_mask().len(), n);
        assert_eq!(e.attention_mask().len(), n);
    }
}

#[test]
fn offsets_of_real_tokens_come_in_order() {
    let e = tokenize(SMALL, "  hello   world xyz hello ").unwrap();
    let offsets = e.offsets();
    let real = &offsets[1..offsets.len() - 1];
    assert_eq!(real, &[(2, 4), (4, 7), (10, 15), (16, 19), (20, 22), (22, 25)]);
    for pair in real.windows(2) {
        assert!(pair[0].0 <= pair[0].1);
        assert!(pair[0].1 <= pair[1].0);
    }
}

#[test]
fn encoding_begins_with_cls_and_ends_with_sep() {
    for text in ["", "hello", "xyz", "hello world"] {
        let e = tokenize(SMALL, text).unwrap();
        assert_eq!(e.ids()[0], 2);
        assert_eq!(e.ids()[e.len() - 1], 1);
    }
}

#[test]
fn special_tokens_take_the_ids_of_the_listing() {
    let e = tokenize("he\n[CLS]\n##llo\n[UNK]\nworld\n[SEP]", "hello world").unwrap();
    assert_eq!(e.ids(), &vec![1, 0, 2, 4, 5]);
    assert_eq!(e.tokens(), &strings(&["[CLS]", "he", "##llo", "world", "[SEP]"]));
}

#[test]
fn text_is_lowercased_and_accents_are_dropped() {
    let e = tokenize(SMALL, "H\u{e9}llo WORLD").unwrap();
    assert_eq!(e.tokens(), &strings(&["[CLS]", "he", "##llo", "world", "[SEP]"]));
    assert_eq!(e.offsets(), &vec![(0, 0), (0, 2), (2, 5), (6, 11), (0, 0)]);
}

#[test]
fn normalized_text_is_tokenized_as_it_stands() {
    let plain = tokenize(SMALL, "hello world").unwrap();
    let messy = tokenize(SMALL, "Hello\tWorld").unwrap();
    assert_eq!(plain.ids(), messy.ids());
    assert_eq!(plain.offsets(), messy.offsets());
    assert_eq!(plain.offsets()[1], (0, 2));
    assert_eq!(plain.offsets()[3], (6, 11));
}

#[test]
fn case_is_kept_when_lowercasing_is_off() {
    let options =
        Normalization { clean_text: true, handle_chinese_chars: true, strip_accents: false, lowercase: false };
    let listing = "[UNK]\n[SEP]\n[CLS]\nHello\nhello";
    let e = tokenize_with(&options, listing, "Hello hello HELLO").unwrap();
    assert_eq!(e.ids(), &vec![2, 3, 4, 0, 1]);
    let e = tokenize(listing, "Hello hello HELLO").unwrap();
    assert_eq!(e.ids(), &vec![2, 4, 4, 4, 1]);
}

#[test]
fn ideographs_are_words_of_their_own() {
    let listing = "[UNK]\n[SEP]\n[CLS]\n\u{4e2d}\n\u{6587}";
    let e = tokenize(listing, "\u{4e2d}\u{6587}").unwrap();
    assert_eq!(e.ids(), &vec![2, 3, 4, 1]);
    assert_eq!(e.words(), &vec![None, Some(0), Some(1), None]);
    assert_eq!(e.offsets(), &vec![(0, 0), (0, 1), (1, 2), (0, 0)]);
    let options =
        Normalization { clean_text: true, handle_chinese_chars: false, strip_accents: true, lowercase: true };
    let e = tokenize_with(&options, listing, "\u{4e2d}\u{6587}").unwrap();
    assert_eq!(e.ids(), &vec![2, 0, 1]);
}

#[test]
fn punctuation_is_a_word_of_its_own() {
    let listing = "[UNK]\n[SEP]\n[CLS]\nhe\n##llo\nworld\n,\n!";
    let e = tokenize(listing, "hello, world!").unwrap();
    assert_eq!(e.tokens(), &strings(&["[CLS]", "he", "##llo", ",", "world", "!", "[SEP]"]));
    assert_eq!(e.words(), &vec![None, Some(0), Some(0), Some(1), Some(2), Some(3), None]);
    assert_eq!(e.offsets(), &vec![(0, 0), (0, 2), (2, 5), (5, 6), (7, 12), (12, 13), (0, 0)]);
}

#[test]
fn a_word_of_more_than_a_hundred_characters_is_unknown() {
    let listing = "[UNK]\n[SEP]\n[CLS]\na\n##a";
    let e = tokenize(listing, &"a".repeat(100)).unwrap();
    assert_eq!(e.len(), 102);
    let e = tokenize(listing, &"a".repeat(101)).unwrap();
    assert_eq!(e.ids(), &vec![2, 0, 1]);
    assert_eq!(e.offsets()[1], (0, 101));
}

#[test]
fn empty_listing_is_no_vocabulary() {
    assert_eq!(tokenize("", "hello").unwrap_err(), TokenizeError::InvalidVocabulary);
    assert_eq!(Vocabulary::build("").unwrap_err(), TokenizeError::InvalidVocabulary);
}

#[test]
fn a_token_listed_twice_is_no_vocabulary() {
    let listing = "[UNK]\n[SEP]\n[CLS]\nhe\nhe";
    assert_eq!(tokenize(listing, "he").unwrap_err(), TokenizeError::InvalidVocabulary);
    let listing = "[UNK]\n[SEP]\n[CLS]\nhe\nhe  \n";
    assert_eq!(tokenize(listing, "he").unwrap_err(), TokenizeError::InvalidVocabulary);
}

#[test]
fn a_vocabulary_without_special_tokens_is_refused() {
    assert_eq!(tokenize("[SEP]\n[CLS]\nhe", "he").unwrap_err(), TokenizeError::MissingSpecialToken);
    assert_eq!(tokenize("[UNK]\n[CLS]\nhe", "he").unwrap_err(), TokenizeError::MissingSpecialToken);
    assert_eq!(tokenize("[UNK]\n[SEP]\nhe", "he").unwrap_err(), TokenizeError::MissingSpecialToken);
    assert_eq!(tokenize("he\n##llo", "").unwrap_err(), TokenizeError::MissingSpecialToken);
}

#[test]
fn invalid_vocabulary_comes_before_missing_special_token() {
    assert_eq!(tokenize("he\nhe", "he").unwrap_err(), TokenizeError::InvalidVocabulary);
}

#[test]
fn encode_uses_a_vocabulary_that_was_built_before() {
    let vocab = Vocabulary::build(SMALL).unwrap();
    let options = Normalization::bert();
    let first = encode(&vocab, &options, "hello").unwrap();
    let second = encode(&vocab, &options, "world").unwrap();
    assert_eq!(first.ids(), &vec![2, 3, 4, 1]);
    assert_eq!(second.ids(), &vec![2, 5, 1]);
    let bare = Vocabulary::build("he\n##llo").unwrap();
    assert_eq!(encode(&bare, &options, "hello").unwrap_err(), TokenizeError::MissingSpecialToken);
}

#[test]
fn assemble_frames_what_the_model_hands_back() {
    let vocab = Vocabulary::build(SMALL).unwrap();
    let output = ModelOutput {
        ids: vec![5, 3],
        tokens: strings(&["world", "he"]),
        offsets: vec![(0, 5), (6, 8)],
        words: vec![Some(0), Some(1)],
    };
    let e = assemble(&vocab, Some(output)).unwrap();
    assert_eq!(e.ids(), &vec![2, 5, 3, 1]);
    assert_eq!(e.tokens(), &strings(&["[CLS]", "world", "he", "[SEP]"]));
    assert_eq!(e.words(), &vec![None, Some(0), Some(1), None]);
    assert_eq!(e.offsets(), &vec![(0, 0), (0, 5), (6, 8), (0, 0)]);
    assert_eq!(e.type_ids(), &vec![0, 0, 0, 0]);
    assert_eq!(e.special_tokens_mask(), &vec![1, 0, 0, 1]);
    assert_eq!(e.attention_mask(), &vec![1, 1, 1, 1]);
}

#[test]
fn assemble_fails_where_the_model_failed() {
    let vocab = Vocabulary::build(SMALL).unwrap();
    assert_eq!(assemble(&vocab, None).unwrap_err(), TokenizeError::EncodingFailure);
}

#[test]
fn assemble_refuses_output_that_does_not_fit() {
    let vocab = Vocabulary::build(SMALL).unwrap();
    let short = ModelOutput {
        ids: vec![5, 3],
        tokens: strings(&["world"]),
        offsets: vec![(0, 5), (6, 8)],
        words: vec![Some(0), Some(1)],
    };
    assert_eq!(assemble(&vocab, Some(short)).unwrap_err(), TokenizeError::EncodingFailure);
    let wordless = ModelOutput {
        ids: vec![5],
        tokens: strings(&["world"]),
        offsets: vec![(0, 5)],
        words: vec![None],
    };
    assert_eq!(assemble(&vocab, Some(wordless)).unwrap_err(), TokenizeError::EncodingFailure);
    let wrong_id = ModelOutput {
        ids: vec![4],
        tokens: strings(&["world"]),
        offsets: vec![(0, 5)],
        words: vec![Some(0)],
    };
    assert_eq!(assemble(&vocab, Some(wrong_id)).unwrap_err(), TokenizeError::EncodingFailure);
    let unlisted = ModelOutput {
        ids: vec![6],
        tokens: strings(&["moon"]),
        offsets: vec![(0, 4)],
        words: vec![Some(0)],
    };
    assert_eq!(assemble(&vocab, Some(unlisted)).unwrap_err(), TokenizeError::EncodingFailure);
}

#[test]
fn assemble_asks_for_the_special_tokens_first() {
    let vocab = Vocabulary::build("he\n##llo").unwrap();
    assert_eq!(assemble(&vocab, None).unwrap_err(), TokenizeError::MissingSpecialToken);
}

#[test]
fn decoding_whole_words_gives_them_back() {
    let listing = "[UNK]\n[SEP]\n[CLS]\nthe\nquick\nfox";
    let e = tokenize(listing, "The  quick\nFOX").unwrap();
    let tokens = e.tokens();
    let real = tokens[1..tokens.len() - 1].to_vec();
    assert_eq!(decode(&real), "the quick fox");
}

#[test]
fn decoding_joins_the_pieces_of_a_word() {
    let e = tokenize(SMALL, "hello world hello").unwrap();
    let tokens = e.tokens();
    let real = tokens[1..tokens.len() - 1].to_vec();
    assert_eq!(decode(&real), "hello world hello");
}

#[test]
fn pieces_of_one_decomposed_character_share_its_offsets() {
    let listing = "[UNK]\n[SEP]\n[CLS]\n\u{1112}\n##\u{1161}\n##\u{11ab}";
    let e = tokenize(listing, "\u{d55c}").unwrap();
    assert_eq!(e.ids(), &vec![2, 3, 4, 5, 1]);
    assert_eq!(e.words(), &vec![None, Some(0), Some(0), Some(0), None]);
    assert_eq!(e.offsets(), &vec![(0, 0), (0, 1), (0, 1), (0, 1), (0, 0)]);
    assert!(!e.real_offsets_in_order());
}

#[test]
fn offsets_in_order_are_found_so() {
    assert!(tokenize(SMALL, "").unwrap().real_offsets_in_order());
    assert!(tokenize(SMALL, "hello world xyz").unwrap().real_offsets_in_order());
    let vocab = Vocabulary::build(SMALL).unwrap();
    let backwards = ModelOutput {
        ids: vec![5, 3],
        tokens: strings(&["world", "he"]),
        offsets: vec![(6, 11), (0, 2)],
        words: vec![Some(1), Some(0)],
    };
    assert!(!assemble(&vocab, Some(backwards)).unwrap().real_offsets_in_order());
    let inside_out = ModelOutput {
        ids: vec![5],
        tokens: strings(&["world"]),
        offsets: vec![(5, 0)],
        words: vec![Some(0)],
    };
    assert!(!assemble(&vocab, Some(inside_out)).unwrap().real_offsets_in_order());
    let touching = ModelOutput {
        ids: vec![3, 4],
        tokens: strings(&["he", "##llo"]),
        offsets: vec![(0, 2), (2, 5)],
        words: vec![Some(0), Some(0)],
    };
    assert!(assemble(&vocab, Some(touching)).unwrap().real_offsets_in_order());
}

#[test]
fn a_large_vocabulary_is_read_quickly() {
    let mut listing = String::from("[UNK]\n[SEP]\n[CLS]\n");
    for i in 0..40000 {
        listing.push_str(&format!("w{}\n##p{}\n", i, i));
    }
    let e = tokenize(&listing, "w7 w39999p3 w40000").unwrap();
    assert_eq!(e.ids(), &vec![2, 17, 80001, 10, 0, 1]);
    listing.push_str("w123\n");
    assert_eq!(tokenize(&listing, "w7").unwrap_err(), TokenizeError::InvalidVocabulary);
}
