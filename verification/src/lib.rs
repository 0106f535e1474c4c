//! Interactive typing-test engine.
//!
//! The library samples a passage of words from a corpus, tracks
//! per-character correctness as key events arrive, translates the logical
//! typing cursor to physical terminal coordinates across wrapped lines,
//! and evaluates the finished session into accuracy and words-per-minute
//! figures.  All terminal input and output stays with the caller: the
//! engine consumes plain key events and returns plain drawing actions.

pub mod result_eval;
pub mod session;
pub mod utils;
pub mod word_generator;

use vstd::prelude::*;
use vstd::string::StrSliceExecFns;

pub use utils::get_ascii_art;
pub use utils::get_start_screen;
pub use utils::get_test_summary;
pub use word_generator::word_picker::get_words;

verus! {

/// A language whose corpora the typing test supports.
#[derive(Clone, Copy, Debug, PartialEq, Eq, Structural)]
pub enum Language {
    English,
    German,
}

/// The failures the engine can report.
#[derive(Clone, Copy, Debug, PartialEq, Eq, Structural)]
pub enum TypingError {
    /// The language code is not one of the supported corpora.
    InvalidLanguage,
    /// The requested word count is zero.
    InvalidWordCount,
    /// The corpus holds fewer tokens than the requested contiguous span.
    InsufficientCorpus,
    /// The corpus bytes do not decode to text.
    InvalidCorpus,
    /// A terminal size or cursor query, or a raw-mode toggle, failed.
    /// Raised by the caller that owns the terminal, never by this
    /// library itself.
    TerminalUnavailable,
    /// The key-event source ended unexpectedly.  Raised by the caller
    /// that owns the event source, never by this library itself.
    EventStreamClosed,
}

impl TypingError {
    /// A human-readable description of the failure.
    pub fn message(&self) -> (r: String)
        ensures
            r@ == match self {
                TypingError::InvalidLanguage => "invalid language"@,
                TypingError::InvalidWordCount => "the word count must be greater than 0"@,
                TypingError::InsufficientCorpus => "the corpus has too few words for the request"@,
                TypingError::InvalidCorpus => "unable to read the corpus text"@,
                TypingError::TerminalUnavailable => "the terminal cannot be queried or switched"@,
                TypingError::EventStreamClosed => "the key event stream ended unexpectedly"@,
            },
    {
        let m: &str = match self {
            TypingError::InvalidLanguage => "invalid language",
            TypingError::InvalidWordCount => "the word count must be greater than 0",
            TypingError::InsufficientCorpus => "the corpus has too few words for the request",
            TypingError::InvalidCorpus => "unable to read the corpus text",
            TypingError::TerminalUnavailable => "the terminal cannot be queried or switched",
            TypingError::EventStreamClosed => "the key event stream ended unexpectedly",
        };
        String::from_str(m)
    }
}

/// A validated session configuration.
#[derive(Clone, Copy, Debug)]
pub struct Config {
    pub language: Language,
    pub words: u32,
    pub sensible: bool,
}

/// The verdict recorded for one character position of the target text.
#[derive(Clone, Copy, Debug, PartialEq, Eq, Structural)]
pub enum Mark {
    /// The position was not judged yet.
    Unset,
    /// The typed character matched the target.
    Correct,
    /// The typed character differed from the target.
    Incorrect,
}

/// The parse of a language code: exactly `"en"` and `"de"` are accepted.
pub open spec fn spec_parse_language(s: Seq<char>) -> Result<Language, TypingError> {
    if s == seq!['e', 'n'] {
        Ok(Language::English)
    } else if s == seq!['d', 'e'] {
        Ok(Language::German)
    } else {
        Err(TypingError::InvalidLanguage)
    }
}

/// Turns a language code given on the command line into a [`Language`],
/// rejecting anything but the supported codes.
pub fn parse_language(language: &str) -> (r: Result<Language, TypingError>)
    ensures
        r == spec_parse_language(language@),
{
    let n = language.unicode_len();
    if n == 2 {
        let c0 = language.get_char(0);
        let c1 = language.get_char(1);
        proof {
            assert(language@ == seq!['e', 'n'] <==> c0 == 'e' && c1 == 'n') by {
                if c0 == 'e' && c1 == 'n' {
                    assert(language@ =~= seq!['e', 'n']);
                }
            }
            assert(language@ == seq!['d', 'e'] <==> c0 == 'd' && c1 == 'e') by {
                if c0 == 'd' && c1 == 'e' {
                    assert(language@ =~= seq!['d', 'e']);
                }
            }
        }
        if c0 == 'e' && c1 == 'n' {
            Ok(Language::English)
        } else if c0 == 'd' && c1 == 'e' {
            Ok(Language::German)
        } else {
            Err(TypingError::InvalidLanguage)
        }
    } else {
        Err(TypingError::InvalidLanguage)
    }
}

/// Whether the character typed at position `count` of `text` is the one
/// the passage asks for; `None` when `count` lies past the end.
pub fn check_char(c: char, count: u32, text: &str) -> (r: Option<bool>)
    ensures
        count < text@.len() ==> r == Some(c == text@[count as int]),
        count >= text@.len() ==> r is None,
{
    let n = text.unicode_len();
    if (count as usize) < n {
        Some(c == text.get_char(count as usize))
    } else {
        None
    }
}

/// The characters of `ws` joined by single spaces, in order.
pub open spec fn join_spec(ws: Seq<Seq<char>>) -> Seq<char>
    decreases ws.len(),
{
    if ws.len() == 0 {
        Seq::empty()
    } else if ws.len() == 1 {
        ws[0]
    } else {
        join_spec(ws.drop_last()) + seq![' '] + ws.last()
    }
}

/// Builds the target text of a session: the sampled words joined by
/// single spaces.
pub fn join_words(words: &Vec<String>) -> (r: String)
    ensures
        r@ == join_spec(words.deep_view()),
{
    let ghost ws = words.deep_view();
    let mut out = String::new();
    let mut i: usize = 0;
    proof {
        assert(ws.take(0) =~= Seq::<Seq<char>>::empty());
    }
    while i < words.len()
        invariant
            0 <= i <= words.len(),
            ws == words.deep_view(),
            ws.len() == words.len(),
            forall|j: int| 0 <= j < words.len() ==> ws[j] == words[j]@,
            out@ == join_spec(ws.take(i as int)),
        decreases words.len() - i,
    {
        if i > 0 {
            out.append(" ");
        }
        out.append(words[i].as_str());
        proof {
            reveal_strlit(" ");
            assert(ws.take(i + 1).drop_last() =~= ws.take(i as int));
            assert(ws.take(i + 1).last() == ws[i as int]);
            if i == 0 {
                assert(ws.take(1) =~= seq![ws[0]]);
                assert(out@ =~= join_spec(ws.take(1)));
            } else {
                assert(out@ =~= join_spec(ws.take(i + 1)));
            }
        }
        i = i + 1;
    }
    proof {
        assert(ws.take(words.len() as int) =~= ws);
    }
    out
}

} // verus!
