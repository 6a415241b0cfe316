//! What reading and writing text guarantee: numbers read back, trimming,
//! splitting and lines in terms of the characters.
use vstd::prelude::*;
use vstd::string::*;

use crate::text::{
    ascii_lower, decimal_text, digit_text, digits_value, lines_text, number_value, one_line,
    signed_text, split_text, trim_back, trim_front, trimmed, white, without_cr,
};

verus! {

// ---------------------------------------------------------------------
// Numbers
// ---------------------------------------------------------------------

proof fn lemma_digit(d: nat)
    requires
        d < 10,
    ensures
        digit_text(d).len() == 1,
        '0' <= digit_text(d)[0] <= '9',
        digit_text(d)[0] as int == '0' as int + d,
{
    reveal_strlit("0");
    reveal_strlit("1");
    reveal_strlit("2");
    reveal_strlit("3");
    reveal_strlit("4");
    reveal_strlit("5");
    reveal_strlit("6");
    reveal_strlit("7");
    reveal_strlit("8");
    reveal_strlit("9");
}

/// A number that is written is read back as itself, also behind a plus
/// sign. It is written without leading zeros, in digits alone.
pub proof fn a_number_is_read_back(n: nat)
    ensures
        digits_value(decimal_text(n)) == Some(n),
        number_value(decimal_text(n)) == Some(n),
        number_value(seq!['+'] + decimal_text(n)) == Some(n),
        decimal_text(n).len() > 0,
        forall|i: int| 0 <= i < decimal_text(n).len() ==> '0' <= #[trigger] decimal_text(n)[i] <= '9',
        n > 0 ==> decimal_text(n)[0] != '0',
    decreases n,
{
    let t = decimal_text(n);
    if n < 10 {
        lemma_digit(n);
        assert(t.drop_last() =~= Seq::<char>::empty());
        assert(digits_value(t.drop_last()) == Some(0nat));
    } else {
        a_number_is_read_back(n / 10);
        lemma_digit(n % 10);
        assert(t.drop_last() =~= decimal_text(n / 10));
        assert(t.last() == digit_text(n % 10)[0]);
        assert(t[0] == decimal_text(n / 10)[0]);
        assert(n / 10 * 10 + n % 10 == n);
    }
    let plus = seq!['+'] + t;
    assert(plus.drop_first() =~= t);
}

/// A signed number is written as its size, behind a minus sign exactly when
/// it is below zero.
pub proof fn a_sign_is_written_for_negatives(n: nat)
    ensures
        signed_text(n as int) == decimal_text(n),
        n > 0 ==> signed_text(-n) == seq!['-'] + decimal_text(n),
{
    reveal_strlit("-");
    assert("-"@ =~= seq!['-']);
}

proof fn lemma_not_digits(s: Seq<char>, i: int)
    requires
        0 <= i < s.len(),
        !('0' <= s[i] <= '9'),
    ensures
        digits_value(s) is None,
    decreases s.len(),
{
    if i < s.len() - 1 {
        lemma_not_digits(s.drop_last(), i);
    }
}

proof fn lemma_all_digits(s: Seq<char>)
    requires
        forall|i: int| 0 <= i < s.len() ==> '0' <= #[trigger] s[i] <= '9',
    ensures
        digits_value(s) is Some,
    decreases s.len(),
{
    if s.len() > 0 {
        let t = s.drop_last();
        assert forall|i: int| 0 <= i < t.len() implies '0' <= #[trigger] t[i] <= '9' by {
            assert(t[i] == s[i]);
        }
        lemma_all_digits(t);
        assert(s.last() == s[s.len() - 1]);
    }
}

/// The text behind a plus sign at its beginning, if there is one.
pub open spec fn past_plus(s: Seq<char>) -> Seq<char> {
    if s.len() > 0 && s[0] == '+' {
        s.skip(1)
    } else {
        s
    }
}

/// A text is a number exactly when it is one digit or more, behind at most
/// one plus sign. Another digit behind it makes ten times the number plus
/// the digit.
pub proof fn what_is_a_number(s: Seq<char>, c: char)
    ensures
        number_value(s) is Some <==> past_plus(s).len() > 0 && forall|i: int|
            0 <= i < past_plus(s).len() ==> '0' <= #[trigger] past_plus(s)[i] <= '9',
        number_value(s) matches Some(n) ==> '0' <= c <= '9' ==> number_value(s.push(c)) == Some(
            (10 * n + (c as int - '0' as int)) as nat,
        ),
{
    let d = past_plus(s);
    if s.len() > 0 && s[0] == '+' {
        assert(s.drop_first() =~= d);
        assert(s.push(c).drop_first() =~= d.push(c));
    }
    if forall|i: int| 0 <= i < d.len() ==> '0' <= #[trigger] d[i] <= '9' {
        lemma_all_digits(d);
    } else {
        let i = choose|i: int| 0 <= i < d.len() && !('0' <= #[trigger] d[i] <= '9');
        lemma_not_digits(d, i);
    }
    assert(d.push(c).drop_last() =~= d);
    assert(d.push(c).last() == c);
    if s.len() > 0 {
        assert(s.push(c)[0] == s[0]);
    }
}

// ---------------------------------------------------------------------
// White space and case
// ---------------------------------------------------------------------

/// The characters that count as white space, one by one.
pub proof fn which_characters_are_white(c: char)
    ensures
        white(c) <==> {
            let n = c as u32;
            ||| n == 9 || n == 10 || n == 11 || n == 12 || n == 13 || n == 32
            ||| n == 133 || n == 160 || n == 5760
            ||| n == 8192 || n == 8193 || n == 8194 || n == 8195 || n == 8196 || n == 8197
            ||| n == 8198 || n == 8199 || n == 8200 || n == 8201 || n == 8202
            ||| n == 8232 || n == 8233 || n == 8239 || n == 8287 || n == 12288
        },
{
}

/// Lower case: the letters from A to Z become their small forms, 32 places
/// on; nothing else changes, and a second time changes nothing.
pub proof fn lower_case_is_final(c: char)
    ensures
        'A' <= c <= 'Z' ==> ascii_lower(c) as int == c as int + 32,
        !('A' <= c <= 'Z') ==> ascii_lower(c) == c,
        ascii_lower(ascii_lower(c)) == ascii_lower(c),
{
}

proof fn lemma_front(s: Seq<char>) -> (i: int)
    ensures
        0 <= i <= s.len(),
        trim_front(s) == s.skip(i),
        forall|k: int| 0 <= k < i ==> white(#[trigger] s[k]),
        i < s.len() ==> !white(s[i]),
    decreases s.len(),
{
    if s.len() > 0 && white(s[0]) {
        let j = lemma_front(s.drop_first());
        assert(s.drop_first().skip(j) =~= s.skip(j + 1));
        assert forall|k: int| 0 <= k < j + 1 implies white(#[trigger] s[k]) by {
            if k > 0 {
                assert(s.drop_first()[k - 1] == s[k]);
            }
        }
        j + 1
    } else {
        assert(s.skip(0) =~= s);
        0
    }
}

proof fn lemma_back(s: Seq<char>) -> (n: int)
    ensures
        0 <= n <= s.len(),
        trim_back(s) == s.take(n),
        forall|k: int| n <= k < s.len() ==> white(#[trigger] s[k]),
        n > 0 ==> !white(s[n - 1]),
    decreases s.len(),
{
    if s.len() > 0 && white(s.last()) {
        let m = lemma_back(s.drop_last());
        assert(s.drop_last().take(m) =~= s.take(m));
        assert forall|k: int| m <= k < s.len() implies white(#[trigger] s[k]) by {
            if k < s.len() - 1 {
                assert(s.drop_last()[k] == s[k]);
            }
        }
        m
    } else {
        assert(s.take(s.len() as int) =~= s);
        s.len() as int
    }
}

/// Trimming takes a piece of the text: what is before and behind it is
/// white, and it neither begins nor ends white.
pub proof fn trimming_drops_the_white_around(s: Seq<char>)
    ensures
        exists|i: int, j: int| {
            &&& 0 <= i <= j <= s.len()
            &&& trimmed(s) == #[trigger] s.subrange(i, j)
            &&& forall|k: int| 0 <= k < i ==> white(#[trigger] s[k])
            &&& forall|k: int| j <= k < s.len() ==> white(#[trigger] s[k])
            &&& i < j ==> !white(s[i]) && !white(s[j - 1])
        },
{
    let i = lemma_front(s);
    let mid = s.skip(i);
    let n = lemma_back(mid);
    let j = i + n;
    assert(mid.take(n) =~= s.subrange(i, j));
    assert forall|k: int| j <= k < s.len() implies white(#[trigger] s[k]) by {
        assert(mid[k - i] == s[k]);
    }
    if i < j {
        assert(mid[0] == s[i]);
        assert(mid[n - 1] == s[j - 1]);
        assert(i < s.len());
    }
}

/// A text is trimmed to nothing exactly when it is all white.
pub proof fn white_text_is_trimmed_to_nothing(s: Seq<char>)
    ensures
        trimmed(s).len() == 0 <==> forall|k: int| 0 <= k < s.len() ==> white(#[trigger] s[k]),
{
    trimming_drops_the_white_around(s);
    let (i, j) = choose|i: int, j: int| {
        &&& 0 <= i <= j <= s.len()
        &&& trimmed(s) == #[trigger] s.subrange(i, j)
        &&& forall|k: int| 0 <= k < i ==> white(#[trigger] s[k])
        &&& forall|k: int| j <= k < s.len() ==> white(#[trigger] s[k])
        &&& i < j ==> !white(s[i]) && !white(s[j - 1])
    };
    if trimmed(s).len() == 0 {
        assert(i == j);
        assert forall|k: int| 0 <= k < s.len() implies white(#[trigger] s[k]) by {}
    }
}

// ---------------------------------------------------------------------
// Pieces and lines
// ---------------------------------------------------------------------

/// The pieces put together again, with the character between them.
pub open spec fn joined(pieces: Seq<Seq<char>>, c: char) -> Seq<char>
    decreases pieces.len(),
{
    if pieces.len() == 0 {
        Seq::empty()
    } else if pieces.len() == 1 {
        pieces[0]
    } else {
        pieces[0] + seq![c] + joined(pieces.drop_first(), c)
    }
}

/// Splitting loses nothing: the pieces put together give the text back, and
/// none of them holds the character.
pub proof fn splitting_loses_nothing(s: Seq<char>, c: char)
    ensures
        split_text(s, c).len() >= 1,
        joined(split_text(s, c), c) == s,
        forall|i: int|
            0 <= i < split_text(s, c).len() ==> !(#[trigger] split_text(s, c)[i]).contains(c),
    decreases s.len(),
{
    s.index_of_first_ensures(c);
    let all = split_text(s, c);
    match s.index_of_first(c) {
        Some(k) if 0 <= k < s.len() => {
            let rest = s.skip(k + 1);
            splitting_loses_nothing(rest, c);
            assert(all == seq![s.take(k)] + split_text(rest, c));
            assert(all.drop_first() =~= split_text(rest, c));
            assert(all[0] == s.take(k));
            assert(joined(all, c) == all[0] + seq![c] + joined(all.drop_first(), c));
            assert(s.take(k) + seq![c] + rest =~= s);
            assert forall|i: int| 0 <= i < all.len() implies !(#[trigger] all[i]).contains(c) by {
                if i == 0 {
                    if all[0].contains(c) {
                        let j = choose|j: int| 0 <= j < k && s.take(k)[j] == c;
                        assert(s[j] == c);
                    }
                } else {
                    assert(all[i] == split_text(rest, c)[i - 1]);
                }
            }
        },
        _ => {
            assert(all == seq![s]);
            assert(joined(all, c) == s);
            assert forall|i: int| 0 <= i < all.len() implies !(#[trigger] all[i]).contains(c) by {
                assert(all[i] == s);
            }
        },
    }
}

/// A line that is written, with its line feed, is read back as the first
/// line, without a carriage return at its end; the rest of the text gives
/// the lines after it. A text without line feed is one line, and no text is
/// none.
pub proof fn a_line_is_read_back(line: Seq<char>, rest: Seq<char>)
    requires
        !line.contains('\n'),
    ensures
        lines_text(line + seq!['\n'] + rest).len() == 1 + lines_text(rest).len(),
        lines_text(line + seq!['\n'] + rest)[0] == if line.len() > 0 && line.last() == '\r' {
            line.drop_last()
        } else {
            line
        },
        lines_text(line + seq!['\n'] + rest).skip(1) == lines_text(rest),
        line.len() > 0 ==> lines_text(line) == seq![line],
        lines_text(Seq::empty()).len() == 0,
{
    let s = line + seq!['\n'] + rest;
    let n = line.len() as int;
    assert(s[n] == '\n');
    s.index_of_first_ensures('\n');
    assert(s.contains('\n'));
    let f = s.index_of_first('\n')->0;
    assert(f == n) by {
        if f < n {
            assert(s[f] == line[f]);
            assert(line.contains('\n'));
        }
    }
    assert(s.take(n) =~= line);
    assert(s.skip(n + 1) =~= rest);
    assert(lines_text(s) == seq![without_cr(line)] + lines_text(rest));
    assert(lines_text(s).skip(1) =~= lines_text(rest));
    line.index_of_first_ensures('\n');
}

/// On one line, every line break is a space, character by character, and
/// nothing else changes.
pub proof fn one_line_has_no_breaks(s: Seq<char>, i: int)
    requires
        0 <= i < s.len(),
    ensures
        one_line(s).len() == s.len(),
        s[i] == '\n' || s[i] == '\r' ==> one_line(s)[i] == ' ',
        s[i] != '\n' && s[i] != '\r' ==> one_line(s)[i] == s[i],
{
}

} // verus!
