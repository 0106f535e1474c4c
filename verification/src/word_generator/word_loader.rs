//! Loading a corpus from the raw bytes of a book and sampling words
//! from it, either as a contiguous (sensible) span or as independent
//! random draws.
//!
//! A corpus is the book's text split at newline bytes, one token per
//! line; the split is computed here and verified against [`lines_of`].

use vstd::prelude::*;
use vstd::slice::slice_to_vec;
use vstd::string::StringSliceAdditionalSpecFns;
use vstd::utf8::decode_utf8;
use vstd::utf8::valid_utf8;

use crate::TypingError;

verus! {

/// The book's bytes split at newline bytes: always at least one chunk,
/// and a trailing newline opens one last empty chunk, as a plain
/// line-by-line split does.
pub open spec fn lines_of(b: Seq<u8>) -> Seq<Seq<u8>>
    decreases b.len(),
{
    if b.len() == 0 {
        seq![Seq::<u8>::empty()]
    } else {
        let prev = lines_of(b.drop_last());
        if b.last() == 10u8 {
            prev.push(Seq::<u8>::empty())
        } else {
            prev.update(prev.len() - 1, prev.last().push(b.last()))
        }
    }
}

/// The corpus a book yields: each line decoded to its characters.
pub open spec fn corpus_of(b: Seq<u8>) -> Seq<Seq<char>> {
    lines_of(b).map_values(|line: Seq<u8>| decode_utf8(line))
}

/// Whether every line of the book is valid text.
pub open spec fn corpus_valid(b: Seq<u8>) -> bool {
    forall|i: int| 0 <= i < lines_of(b).len() ==> valid_utf8(#[trigger] lines_of(b)[i])
}

/// A split has at least one chunk.
pub proof fn lemma_lines_of_len(b: Seq<u8>)
    ensures
        lines_of(b).len() >= 1,
    decreases b.len(),
{
    if b.len() > 0 {
        lemma_lines_of_len(b.drop_last());
    }
}

/// The lines already terminated in a prefix of the book are lines of
/// the whole book, at the same positions.
pub proof fn lemma_lines_of_prefix(b: Seq<u8>, i: int)
    requires
        0 <= i <= b.len(),
    ensures
        lines_of(b.take(i)).len() <= lines_of(b).len(),
        forall|j: int|
            0 <= j < lines_of(b.take(i)).len() - 1 ==> lines_of(b.take(i))[j] == lines_of(b)[j],
    decreases b.len() - i,
{
    if i == b.len() {
        assert(b.take(i) =~= b);
    } else {
        lemma_lines_of_prefix(b, i + 1);
        lemma_lines_of_len(b.take(i));
        let t0 = b.take(i);
        let t1 = b.take(i + 1);
        assert(t1.drop_last() =~= t0);
        assert(t1.last() == b[i]);
    }
}

/// Relies on rand::random_range: a draw from the nonempty range
/// `0 .. n` lies below `n`.
#[verifier::external_body]
pub(crate) fn random_below(n: usize) -> (r: usize)
    requires
        n >= 1,
    ensures
        r < n,
{
    rand::random_range(0..n)
}

/// Relies on std::str::from_utf8: it succeeds exactly on valid UTF-8,
/// and the returned text is the given bytes read as characters.
#[verifier::external_body]
fn bytes_to_str(b: &[u8]) -> (r: Option<&str>)
    ensures
        r is Some <==> valid_utf8(b@),
        r matches Some(s) ==> s.spec_bytes() == b@ && s@ == decode_utf8(b@),
{
    std::str::from_utf8(b).ok()
}

/// Splits the book at newline bytes and decodes each line, producing
/// the corpus the samplers draw from.  Fails exactly when some line is
/// not valid text.
pub fn get_book_content(book: &[u8]) -> (r: Result<Vec<String>, TypingError>)
    ensures
        r matches Ok(c) ==> corpus_valid(book@) && c.deep_view() == corpus_of(book@),
        r matches Err(e) ==> e == TypingError::InvalidCorpus && !corpus_valid(book@),
{
    let ghost b = book@;
    let bytes = slice_to_vec(book);
    let mut chunks: Vec<String> = Vec::new();
    let mut current: Vec<u8> = Vec::new();
    let mut i: usize = 0;
    proof {
        assert(b.take(0) =~= Seq::<u8>::empty());
    }
    while i < bytes.len()
        invariant
            0 <= i <= bytes.len(),
            b == book@,
            bytes@ == b,
            lines_of(b.take(i as int)).len() == chunks.len() + 1,
            forall|k: int|
                0 <= k < chunks.len() ==> valid_utf8(#[trigger] lines_of(b.take(i as int))[k])
                    && chunks.deep_view()[k] == decode_utf8(lines_of(b.take(i as int))[k]),
            current@ == lines_of(b.take(i as int)).last(),
        decreases bytes.len() - i,
    {
        let ghost prev = lines_of(b.take(i as int));
        proof {
            assert(b.take(i + 1).drop_last() =~= b.take(i as int));
            assert(b.take(i + 1).last() == b[i as int]);
        }
        let x = bytes[i];
        if x == 10u8 {
            match bytes_to_str(current.as_slice()) {
                Some(s) => {
                    let ghost dv = chunks.deep_view();
                    let w = s.to_owned();
                    chunks.push(w);
                    proof {
                        assert(chunks.deep_view() =~= dv.push(w@));
                    }
                    current.clear();
                },
                None => {
                    proof {
                        lemma_lines_of_prefix(b, i + 1);
                        let k = chunks.len() as int;
                        assert(lines_of(b.take(i + 1)).len() == k + 2);
                        assert(lines_of(b.take(i + 1))[k] == current@);
                        assert(0 <= k < lines_of(b).len());
                        assert(lines_of(b)[k] == current@);
                        assert(!valid_utf8(lines_of(b)[k]));
                        assert(!corpus_valid(book@));
                    }
                    return Err(TypingError::InvalidCorpus);
                },
            }
        } else {
            current.push(x);
        }
        i = i + 1;
    }
    proof {
        assert(b.take(bytes.len() as int) =~= b);
    }
    match bytes_to_str(current.as_slice()) {
        Some(s) => {
            let ghost dv = chunks.deep_view();
            let w = s.to_owned();
            chunks.push(w);
            proof {
                assert(chunks.deep_view() =~= dv.push(w@));
                assert(chunks.deep_view() =~= corpus_of(b));
            }
            Ok(chunks)
        },
        None => {
            proof {
                let k = chunks.len() as int;
                assert(!valid_utf8(lines_of(b)[k]));
            }
            Err(TypingError::InvalidCorpus)
        },
    }
}

/// A uniformly random start index for a contiguous span of `amount`
/// tokens out of `content_len`: the span never runs past the end.
pub fn get_start_idx(content_len: usize, amount: usize) -> (r: usize)
    requires
        amount <= content_len,
    ensures
        r + amount <= content_len,
{
    let span = content_len - amount;
    if span == usize::MAX {
        // The inclusive upper bound would overflow; the draw below still
        // lands in range.
        random_below(usize::MAX)
    } else {
        random_below(span + 1)
    }
}

/// `amount` independent uniform draws of token indices below
/// `content_len`, in draw order.
pub fn get_random_indices(content_len: usize, amount: usize) -> (r: Vec<usize>)
    requires
        content_len >= 1,
    ensures
        r@.len() == amount,
        forall|i: int| 0 <= i < r@.len() ==> r@[i] < content_len,
{
    let mut vals: Vec<usize> = Vec::new();
    let mut i: usize = 0;
    while i < amount
        invariant
            0 <= i <= amount,
            content_len >= 1,
            vals@.len() == i,
            forall|j: int| 0 <= j < vals@.len() ==> vals@[j] < content_len,
        decreases amount - i,
    {
        vals.push(random_below(content_len));
        i = i + 1;
    }
    vals
}

/// The contiguous span of `amount` tokens of `corpus` beginning at
/// `start`, in original order.
pub fn pick_contiguous(corpus: &Vec<String>, start: usize, amount: usize) -> (r: Vec<String>)
    requires
        start + amount <= corpus@.len(),
    ensures
        r.deep_view() == corpus.deep_view().subrange(start as int, start + amount),
{
    let n = corpus.len();
    let mut out: Vec<String> = Vec::new();
    let mut i: usize = 0;
    while i < amount
        invariant
            0 <= i <= amount,
            n == corpus@.len(),
            start + amount <= n,
            out.deep_view() == corpus.deep_view().subrange(start as int, start + i),
        decreases amount - i,
    {
        let ghost dv = out.deep_view();
        out.push(corpus[start + i].clone());
        proof {
            assert(out.deep_view() =~= dv.push(corpus@[start + i]@));
            assert(out.deep_view() =~= corpus.deep_view().subrange(start as int, start + i + 1));
        }
        i = i + 1;
    }
    out
}

/// The tokens of `corpus` at the given indices, in index order.
pub fn pick_indices(corpus: &Vec<String>, indices: &Vec<usize>) -> (r: Vec<String>)
    requires
        forall|i: int| 0 <= i < indices@.len() ==> indices@[i] < corpus@.len(),
    ensures
        r.deep_view().len() == indices@.len(),
        forall|i: int|
            0 <= i < indices@.len() ==> r.deep_view()[i] == corpus.deep_view()[indices@[i] as int],
{
    let mut out: Vec<String> = Vec::new();
    let mut i: usize = 0;
    while i < indices.len()
        invariant
            0 <= i <= indices@.len(),
            forall|j: int| 0 <= j < indices@.len() ==> indices@[j] < corpus@.len(),
            out.deep_view().len() == i,
            forall|j: int|
                0 <= j < i ==> out.deep_view()[j] == corpus.deep_view()[indices@[j] as int],
        decreases indices.len() - i,
    {
        let ghost dv = out.deep_view();
        let idx = indices[i];
        out.push(corpus[idx].clone());
        proof {
            assert(out.deep_view() =~= dv.push(corpus@[idx as int]@));
        }
        i = i + 1;
    }
    out
}

/// What contiguous (sensible) sampling promises: failure exactly on an
/// unreadable corpus or a span longer than the corpus, and otherwise
/// exactly `amount` tokens that stand contiguously, in original order,
/// within the corpus.
pub open spec fn sensible_words_post(
    amount: u32,
    book: Seq<u8>,
    r: Result<Vec<String>, TypingError>,
) -> bool {
    &&& (!corpus_valid(book) ==> r == Err::<Vec<String>, TypingError>(TypingError::InvalidCorpus))
    &&& (corpus_valid(book) && amount > corpus_of(book).len() ==> r == Err::<
        Vec<String>,
        TypingError,
    >(TypingError::InsufficientCorpus))
    &&& (corpus_valid(book) && amount <= corpus_of(book).len() ==> (r matches Ok(w) && {
        &&& w.deep_view().len() == amount
        &&& exists|s: int|
            0 <= s && s + amount <= corpus_of(book).len() && w.deep_view() == #[trigger] corpus_of(
                book,
            ).subrange(s, s + amount)
    }))
}

/// What random sampling promises: failure exactly on an unreadable
/// corpus, and otherwise exactly `amount` tokens, each a token of the
/// corpus (duplicates allowed).
pub open spec fn random_words_post(
    amount: u32,
    book: Seq<u8>,
    r: Result<Vec<String>, TypingError>,
) -> bool {
    &&& (!corpus_valid(book) ==> r == Err::<Vec<String>, TypingError>(TypingError::InvalidCorpus))
    &&& (corpus_valid(book) ==> (r matches Ok(w) && {
        &&& w.deep_view().len() == amount
        &&& forall|i: int|
            0 <= i < w.deep_view().len() ==> corpus_of(book).contains(#[trigger] w.deep_view()[i])
    }))
}

/// Either sampling mode, by the `sensible` flag.
pub open spec fn load_words_post(
    amount: u32,
    sensible: bool,
    book: Seq<u8>,
    r: Result<Vec<String>, TypingError>,
) -> bool {
    if sensible {
        sensible_words_post(amount, book, r)
    } else {
        random_words_post(amount, book, r)
    }
}

/// Samples a contiguous, coherent span of `amount` tokens from the
/// book, starting at a uniformly random token.
pub fn load_words_sensible(amount: u32, book: &[u8]) -> (r: Result<Vec<String>, TypingError>)
    ensures
        sensible_words_post(amount, book@, r),
{
    let content = match get_book_content(book) {
        Ok(c) => c,
        Err(e) => {
            return Err(e);
        },
    };
    let amount_as_usize = amount as usize;
    if amount_as_usize > content.len() {
        return Err(TypingError::InsufficientCorpus);
    }
    let start_idx = get_start_idx(content.len(), amount_as_usize);
    let words = pick_contiguous(&content, start_idx, amount_as_usize);
    proof {
        let s = start_idx as int;
        assert(0 <= s && s + amount <= corpus_of(book@).len() && words.deep_view() == corpus_of(
            book@,
        ).subrange(s, s + amount));
    }
    Ok(words)
}

/// Samples `amount` independently drawn tokens from the book, with
/// replacement.
pub fn load_words_random(amount: u32, book: &[u8]) -> (r: Result<Vec<String>, TypingError>)
    ensures
        random_words_post(amount, book@, r),
{
    let content = match get_book_content(book) {
        Ok(c) => c,
        Err(e) => {
            return Err(e);
        },
    };
    proof {
        lemma_lines_of_len(book@);
        assert(content.deep_view().len() == corpus_of(book@).len());
        assert(corpus_of(book@).len() == lines_of(book@).len());
        assert(content@.len() >= 1);
    }
    let indices = get_random_indices(content.len(), amount as usize);
    let words = pick_indices(&content, &indices);
    proof {
        assert forall|i: int| 0 <= i < words.deep_view().len() implies corpus_of(book@).contains(
            #[trigger] words.deep_view()[i],
        ) by {
            let idx = indices@[i] as int;
            assert(words.deep_view()[i] == corpus_of(book@)[idx]);
        }
    }
    Ok(words)
}

/// Samples the words for a typing test from the raw bytes of a book:
/// a contiguous span when `sensible` is set, independent draws
/// otherwise.
pub fn load_words(amount: u32, sensible: bool, book: &[u8]) -> (r: Result<
    Vec<String>,
    TypingError,
>)
    ensures
        load_words_post(amount, sensible, book@, r),
{
    match sensible {
        true => load_words_sensible(amount, book),
        false => load_words_random(amount, book),
    }
}

} // verus!
