//! The start screen and the result summary: string templating over the
//! session's configuration and outcome.  The numeric fields are printed
//! from their exact centi-unit values with two decimals.

use vstd::prelude::*;
use vstd::string::StrSliceExecFns;
use vstd::string::StringExecFns;

use crate::result_eval::count_marks;
use crate::result_eval::spec_percentage_centi;
use crate::result_eval::spec_wpm_centi;
use crate::result_eval::TestResult;
use crate::Mark;

verus! {

/// The decimal digit `d` as a character.
pub open spec fn spec_digit_char(d: int) -> char {
    if d == 0 {
        '0'
    } else if d == 1 {
        '1'
    } else if d == 2 {
        '2'
    } else if d == 3 {
        '3'
    } else if d == 4 {
        '4'
    } else if d == 5 {
        '5'
    } else if d == 6 {
        '6'
    } else if d == 7 {
        '7'
    } else if d == 8 {
        '8'
    } else {
        '9'
    }
}

/// The decimal notation of `n`, most significant digit first, without
/// leading zeroes (a single zero for 0).
pub open spec fn spec_dec(n: nat) -> Seq<char>
    decreases n,
{
    if n < 10 {
        seq![spec_digit_char(n as int)]
    } else {
        spec_dec(n / 10).push(spec_digit_char((n % 10) as int))
    }
}

/// A centi-unit value with its two decimals: `1400` prints as `14.00`.
pub open spec fn spec_centi(v: nat) -> Seq<char> {
    spec_dec(v / 100) + seq![
        '.',
        spec_digit_char(((v % 100) / 10) as int),
        spec_digit_char(((v % 100) % 10) as int),
    ]
}

/// `s` padded with spaces on the right to at least `w` characters.
pub open spec fn spec_pad_right(s: Seq<char>, w: nat) -> Seq<char> {
    if s.len() >= w {
        s
    } else {
        s + Seq::new((w - s.len()) as nat, |i: int| ' ')
    }
}

/// The single decimal digit `d` as text.
fn digit_str(d: u64) -> (r: &'static str)
    requires
        d < 10,
    ensures
        r@ == seq![spec_digit_char(d as int)],
{
    let s: &'static str = match d {
        0 => "0",
        1 => "1",
        2 => "2",
        3 => "3",
        4 => "4",
        5 => "5",
        6 => "6",
        7 => "7",
        8 => "8",
        _ => "9",
    };
    proof {
        reveal_strlit("0");
        reveal_strlit("1");
        reveal_strlit("2");
        reveal_strlit("3");
        reveal_strlit("4");
        reveal_strlit("5");
        reveal_strlit("6");
        reveal_strlit("7");
        reveal_strlit("8");
        reveal_strlit("9");
        assert(s@ =~= seq![spec_digit_char(d as int)]);
    }
    s
}

/// `n` written in decimal.
pub fn u64_to_dec_string(n: u64) -> (r: String)
    ensures
        r@ == spec_dec(n as nat),
    decreases n,
{
    if n < 10 {
        String::from_str(digit_str(n))
    } else {
        let mut s = u64_to_dec_string(n / 10);
        s.append(digit_str(n % 10));
        proof {
            assert(s@ =~= spec_dec(n as nat));
        }
        s
    }
}

/// A centi-unit value written with its two decimals.
pub fn format_centi(v: u64) -> (r: String)
    ensures
        r@ == spec_centi(v as nat),
{
    let mut s = u64_to_dec_string(v / 100);
    let frac = v % 100;
    s.append(".");
    s.append(digit_str(frac / 10));
    s.append(digit_str(frac % 10));
    proof {
        reveal_strlit(".");
        assert(s@ =~= spec_centi(v as nat));
    }
    s
}

/// `s` padded with spaces on the right to at least `width` characters.
pub fn pad_right(s: String, width: usize) -> (r: String)
    ensures
        r@ == spec_pad_right(s@, width as nat),
{
    let ghost orig = s@;
    let mut out = s;
    let mut len = out.as_str().unicode_len();
    proof {
        assert(out@ =~= orig + Seq::new((len - orig.len()) as nat, |i: int| ' '));
    }
    while len < width
        invariant
            orig.len() <= len == out@.len(),
            orig.len() >= width ==> len == orig.len(),
            orig.len() < width ==> len <= width,
            out@ == orig + Seq::new((len - orig.len()) as nat, |i: int| ' '),
        decreases width - len,
    {
        out.append(" ");
        len = len + 1;
        proof {
            reveal_strlit(" ");
            assert(out@ =~= orig + Seq::new((len - orig.len()) as nat, |i: int| ' '));
        }
    }
    proof {
        if orig.len() >= width {
            assert(out@ =~= orig);
        }
        assert(out@ =~= spec_pad_right(orig, width as nat));
    }
    out
}

/// The banner shown before a test starts.
pub fn get_ascii_art() -> (r: &'static str)
    ensures
        r@ == (r#"
  *   )                      *   )
` )  /(  (  (      )       ` )  /((            (
 ( )(_))))\ )(    (     ___ ( )(_))\ ) `  )   ))\
(_(_())/((_|()\   )\  '|___(_(_()|()/( /(/(  /((_)
|_   _(_))  ((_)_((_))     |_   _|)(_)|(_)_\(_))
  | | / -_)| '_| '  \()      | | | || | '_ \) -_)
  |_| \___||_| |_|_|_|       |_|  \_, | .__/\___|
                                  |__/|_|
"#)@,
{
    r#"
  *   )                      *   )
` )  /(  (  (      )       ` )  /((            (
 ( )(_))))\ )(    (     ___ ( )(_))\ ) `  )   ))\
(_(_())/((_|()\   )\  '|___(_(_()|()/( /(/(  /((_)
|_   _(_))  ((_)_((_))     |_   _|)(_)|(_)_\(_))
  | | / -_)| '_| '  \()      | | | || | '_ \) -_)
  |_| \___||_| |_|_|_|       |_|  \_, | .__/\___|
                                  |__/|_|
"#
}

/// The start screen: the configured language, word count and mode in a
/// box.
pub open spec fn spec_start_screen(language: Seq<char>, words: u32, sensible: bool) -> Seq<char> {
    "
┌──────────────────────────────────────────────────────────────┐
│                      RUST TYPING TEST                        │
├──────────────────────────────────────────────────────────────┤
│ Sprache            │ "@ + spec_pad_right(language, 39) + " │
│ Wörter             │ "@ + spec_pad_right(spec_dec(words as nat), 39) + " │
│ Sinnvolle Sätze    │ "@ + spec_pad_right(
        if sensible {
            "Yes"@
        } else {
            "No"@
        },
        39,
    ) + " │
│
│
"@
}

/// Renders the start screen for the given configuration.
pub fn get_start_screen(language: &str, words: u32, sensible: bool) -> (r: String)
    ensures
        r@ == spec_start_screen(language@, words, sensible),
{
    let mut out = String::from_str(
        "
┌──────────────────────────────────────────────────────────────┐
│                      RUST TYPING TEST                        │
├──────────────────────────────────────────────────────────────┤
│ Sprache            │ ",
    );
    out.append(pad_right(String::from_str(language), 39).as_str());
    out.append(
        " │
│ Wörter             │ ",
    );
    out.append(pad_right(u64_to_dec_string(words as u64), 39).as_str());
    out.append(
        " │
│ Sinnvolle Sätze    │ ",
    );
    let mode: &str = if sensible {
        "Yes"
    } else {
        "No"
    };
    out.append(pad_right(String::from_str(mode), 39).as_str());
    out.append(
        " │
│
│
",
    );
    out
}

/// The summary box: elapsed seconds, the two counts, the accuracy and
/// the speed, each number with two decimals where it has any.
pub open spec fn spec_test_summary(
    time_millis: u64,
    correct: u32,
    wrong: u32,
    percentage_centi: u32,
    wpm_centi: u64,
) -> Seq<char> {
    "
│
│
│                      TEST RESULTS                            │
├──────────────────────────────────────────────────────────────┤
│ Time              │ "@ + spec_pad_right(spec_centi((time_millis / 10) as nat) + " s"@, 40) + " │
│ Correct Chars     │ "@ + spec_pad_right(spec_dec(correct as nat), 40) + " │
│ Wrong Chars       │ "@ + spec_pad_right(spec_dec(wrong as nat), 40) + " │
│ Percentage        │ "@ + spec_pad_right(spec_centi(percentage_centi as nat) + " %"@, 40) + " │
│ WPM               │ "@ + spec_pad_right(spec_centi(wpm_centi as nat), 40) + " │
└──────────────────────────────────────────────────────────────┘
"@
}

/// Evaluates the finished record held by `test_result` and renders the
/// summary box from the exact figures the evaluation produced.
pub fn get_test_summary(test_result: &mut TestResult) -> (r: String)
    requires
        old(test_result).correct_chars@.len() <= u32::MAX,
    ensures
        final(test_result).correct_chars@ == old(test_result).correct_chars@,
        final(test_result).time_millis == old(test_result).time_millis,
        final(test_result).amount_correct_chars == count_marks(
            old(test_result).correct_chars@,
            Mark::Correct,
        ),
        final(test_result).amount_wrong_chars == count_marks(
            old(test_result).correct_chars@,
            Mark::Incorrect,
        ),
        final(test_result).percentage_centi == spec_percentage_centi(
            count_marks(old(test_result).correct_chars@, Mark::Correct),
            count_marks(old(test_result).correct_chars@, Mark::Incorrect),
        ),
        final(test_result).wpm_centi == spec_wpm_centi(
            count_marks(old(test_result).correct_chars@, Mark::Correct),
            old(test_result).time_millis as nat,
        ),
        r@ == spec_test_summary(
            final(test_result).time_millis,
            final(test_result).amount_correct_chars,
            final(test_result).amount_wrong_chars,
            final(test_result).percentage_centi,
            final(test_result).wpm_centi,
        ),
{
    test_result.eval_correct_chars();

    let mut out = String::from_str(
        "
│
│
│                      TEST RESULTS                            │
├──────────────────────────────────────────────────────────────┤
│ Time              │ ",
    );
    let mut time_text = format_centi(test_result.time_millis / 10);
    time_text.append(" s");
    out.append(pad_right(time_text, 40).as_str());
    out.append(
        " │
│ Correct Chars     │ ",
    );
    out.append(pad_right(u64_to_dec_string(test_result.amount_correct_chars as u64), 40).as_str());
    out.append(
        " │
│ Wrong Chars       │ ",
    );
    out.append(pad_right(u64_to_dec_string(test_result.amount_wrong_chars as u64), 40).as_str());
    out.append(
        " │
│ Percentage        │ ",
    );
    let mut pct_text = format_centi(test_result.percentage_centi as u64);
    pct_text.append(" %");
    out.append(pad_right(pct_text, 40).as_str());
    out.append(
        " │
│ WPM               │ ",
    );
    out.append(pad_right(format_centi(test_result.wpm_centi), 40).as_str());
    out.append(
        " │
└──────────────────────────────────────────────────────────────┘
",
    );
    out
}

} // verus!
