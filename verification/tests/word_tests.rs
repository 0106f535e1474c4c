use rust_typer::get_words;
use rust_typer::word_generator::word_loader::get_book_content;
use rust_typer::word_generator::word_loader::get_random_indices;
use rust_typer::word_generator::word_loader::get_start_idx;
use rust_typer::word_generator::word_loader::load_words;
use rust_typer::word_generator::word_loader::load_words_random;
use rust_typer::word_generator::word_loader::load_words_sensible;
use rust_typer::word_generator::word_loader::pick_contiguous;
use rust_typer::word_generator::word_loader::pick_indices;
use rust_typer::Config;
use rust_typer::Language;
use rust_typer::TypingError;

const BOOK: &[u8] = b"the\nquick\nbrown\nfox\njumps";

fn corpus() -> Vec<String> {
    vec![
        String::from("the"),
        String::from("quick"),
        String::from("brown"),
        String::from("fox"),
        String::from("jumps"),
    ]
}

#[test]
fn book_content_splits_on_newlines() {
    assert_eq!(get_book_content(BOOK).unwrap(), corpus());
}

#[test]
fn book_content_of_empty_book_is_one_empty_token() {
    assert_eq!(get_book_content(b"").unwrap(), vec![String::new()]);
}

#[test]
fn book_content_keeps_a_trailing_empty_line() {
    assert_eq!(
        get_book_content(b"ab\n").unwrap(),
        vec![String::from("ab"), String::new()]
    );
}

#[test]
fn book_content_decodes_multibyte_text() {
    // A German line with umlauts: the bytes must be decoded, not handed
    // through unchanged.
    let book = "W\u{f6}rter\nstra\u{df}e".as_bytes();
    assert_eq!(book.len(), 15);
    let content = get_book_content(book).unwrap();
    assert_eq!(content, vec![String::from("W\u{f6}rter"), String::from("stra\u{df}e")]);
    assert_eq!(content[0].chars().count(), 6);
}

#[test]
fn book_content_rejects_invalid_bytes() {
    assert_eq!(
        get_book_content(&[0x61, 0xff, 0x61]),
        Err(TypingError::InvalidCorpus)
    );
}

#[test]
fn sensible_sample_is_a_contiguous_span() {
    for _ in 0..20 {
        let words = load_words_sensible(3, BOOK).unwrap();
        assert_eq!(words.len(), 3);
        let c = corpus();
        let start = c.iter().position(|w| *w == words[0]).unwrap();
        assert_eq!(words[1], c[start + 1]);
        assert_eq!(words[2], c[start + 2]);
    }
}

#[test]
fn sensible_sample_of_whole_corpus_starts_at_zero() {
    // The only admissible start index is 0, so the sample is the corpus
    // itself, in order.
    let words = load_words_sensible(5, BOOK).unwrap();
    assert_eq!(words, corpus());
}

#[test]
fn sensible_sample_longer_than_corpus_fails() {
    assert_eq!(load_words_sensible(6, BOOK), Err(TypingError::InsufficientCorpus));
}

#[test]
fn random_sample_draws_from_the_corpus() {
    let words = load_words_random(10, BOOK).unwrap();
    assert_eq!(words.len(), 10);
    let c = corpus();
    for w in &words {
        assert!(c.contains(w));
    }
}

#[test]
fn random_sample_of_zero_words_is_empty() {
    assert_eq!(load_words_random(0, BOOK).unwrap(), Vec::<String>::new());
}

#[test]
fn load_words_dispatches_on_the_flag() {
    let sensible = load_words(2, true, BOOK).unwrap();
    assert_eq!(sensible.len(), 2);
    let random = load_words(2, false, BOOK).unwrap();
    assert_eq!(random.len(), 2);
    assert_eq!(load_words(1, true, b"\xff"), Err(TypingError::InvalidCorpus));
    assert_eq!(load_words(1, false, b"\xff"), Err(TypingError::InvalidCorpus));
}

#[test]
fn start_idx_keeps_the_span_inside() {
    for _ in 0..50 {
        let start = get_start_idx(10, 4);
        assert!(start + 4 <= 10);
    }
    assert_eq!(get_start_idx(7, 7), 0);
}

#[test]
fn random_indices_stay_below_the_bound() {
    let indices = get_random_indices(3, 40);
    assert_eq!(indices.len(), 40);
    for i in indices {
        assert!(i < 3);
    }
}

#[test]
fn pick_contiguous_copies_the_span() {
    let c = corpus();
    assert_eq!(
        pick_contiguous(&c, 1, 3),
        vec![String::from("quick"), String::from("brown"), String::from("fox")]
    );
}

#[test]
fn pick_indices_copies_in_index_order() {
    let c = corpus();
    assert_eq!(
        pick_indices(&c, &vec![4, 0, 4]),
        vec![String::from("jumps"), String::from("the"), String::from("jumps")]
    );
}

#[test]
fn get_words_rejects_a_zero_word_count() {
    let config = Config { language: Language::English, words: 0, sensible: true };
    let books = vec![BOOK.to_vec()];
    assert_eq!(
        get_words(config, &Vec::new(), &books),
        Err(TypingError::InvalidWordCount)
    );
}

#[test]
fn get_words_needs_a_source_text() {
    let config = Config { language: Language::German, words: 3, sensible: true };
    assert_eq!(
        get_words(config, &Vec::new(), &vec![BOOK.to_vec()]),
        Err(TypingError::InsufficientCorpus)
    );
}

#[test]
fn get_words_samples_the_configured_language() {
    let config = Config { language: Language::English, words: 3, sensible: true };
    let english = vec![BOOK.to_vec()];
    let german = vec![b"eins\nzwei\ndrei\nvier".to_vec()];
    let words = get_words(config, &german, &english).unwrap();
    assert_eq!(words.len(), 3);
    let c = corpus();
    for w in &words {
        assert!(c.contains(w));
    }

    let config = Config { language: Language::German, words: 2, sensible: false };
    let words = get_words(config, &german, &english).unwrap();
    assert_eq!(words.len(), 2);
    for w in &words {
        assert!(["eins", "zwei", "drei", "vier"].contains(&w.as_str()));
    }
}

#[test]
fn get_words_picks_among_source_texts() {
    // With two one-line source texts every sampled word names its book;
    // over many sessions both must show up.
    let english = vec![b"alpha".to_vec(), b"beta".to_vec()];
    let mut seen_alpha = false;
    let mut seen_beta = false;
    for _ in 0..200 {
        let config = Config { language: Language::English, words: 1, sensible: true };
        let words = get_words(config, &Vec::new(), &english).unwrap();
        match words[0].as_str() {
            "alpha" => seen_alpha = true,
            "beta" => seen_beta = true,
            other => panic!("word from no source text: {}", other),
        }
    }
    assert!(seen_alpha && seen_beta);
}
