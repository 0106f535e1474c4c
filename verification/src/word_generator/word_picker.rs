//! Choosing the source text for a session and drawing the words from
//! it.  A language may have several source texts; one is chosen
//! uniformly at random per session and stays fixed for the whole
//! session.

use vstd::prelude::*;

use crate::word_generator::word_loader::load_words;
use crate::word_generator::word_loader::load_words_post;
use crate::word_generator::word_loader::random_below;
use crate::Config;
use crate::Language;
use crate::TypingError;

verus! {

/// What [`get_words`] promises, over the source texts of the configured
/// language: a zero word count is rejected, a language without source
/// texts cannot be sampled, and otherwise the words are loaded, per
/// [`load_words_post`], from one of the language's source texts.
pub open spec fn get_words_post(
    config: Config,
    german: Seq<Seq<u8>>,
    english: Seq<Seq<u8>>,
    r: Result<Vec<String>, TypingError>,
) -> bool {
    let books = if config.language is German {
        german
    } else {
        english
    };
    &&& (config.words == 0 ==> r == Err::<Vec<String>, TypingError>(TypingError::InvalidWordCount))
    &&& (config.words > 0 && books.len() == 0 ==> r == Err::<Vec<String>, TypingError>(
        TypingError::InsufficientCorpus,
    ))
    &&& (config.words > 0 && config.language is German && german.len() > 0 ==> exists|i: int|
        0 <= i < german.len() && load_words_post(
            config.words,
            config.sensible,
            #[trigger] german[i],
            r,
        ))
    &&& (config.words > 0 && config.language is English && english.len() > 0 ==> exists|i: int|
        0 <= i < english.len() && load_words_post(
            config.words,
            config.sensible,
            #[trigger] english[i],
            r,
        ))
}

/// One source text out of `books`, chosen uniformly at random.
fn get_book<'a>(books: &'a Vec<Vec<u8>>) -> (r: &'a Vec<u8>)
    requires
        books@.len() >= 1,
    ensures
        exists|i: int| 0 <= i < books@.len() && r@ == #[trigger] books@[i]@,
{
    let random_num = random_below(books.len());
    let book = &books[random_num];
    proof {
        assert(book@ == books@[random_num as int]@);
    }
    book
}

/// Loads the words for a typing test: picks a source text of the
/// configured language at random and samples `config.words` words from
/// it in the configured mode.
pub fn get_words(config: Config, german_books: &Vec<Vec<u8>>, english_books: &Vec<Vec<u8>>) -> (r:
    Result<Vec<String>, TypingError>)
    ensures
        get_words_post(config, german_books.deep_view(), english_books.deep_view(), r),
{
    if config.words == 0 {
        return Err(TypingError::InvalidWordCount);
    }
    let books = match config.language {
        Language::German => german_books,
        Language::English => english_books,
    };
    if books.len() == 0 {
        return Err(TypingError::InsufficientCorpus);
    }
    let book = get_book(books);
    let r = load_words(config.words, config.sensible, book.as_slice());
    proof {
        let i = choose|i: int| 0 <= i < books@.len() && book@ == books@[i]@;
        match config.language {
            Language::German => {
                assert(german_books.deep_view()[i] == book@);
                assert(load_words_post(
                    config.words,
                    config.sensible,
                    german_books.deep_view()[i],
                    r,
                ));
            },
            Language::English => {
                assert(english_books.deep_view()[i] == book@);
                assert(load_words_post(
                    config.words,
                    config.sensible,
                    english_books.deep_view()[i],
                    r,
                ));
            },
        }
    }
    r
}

} // verus!
