//! Text building and matching on plain strings.
use vstd::prelude::*;
use vstd::string::*;

verus! {

/// How the standard `{:?}` format writes a text: in quotes, with
/// escapes.
pub uninterp spec fn debug_text(s: Seq<char>) -> Seq<char>;

/// Calls the `{:?}` formatting of `str`. The contract gives its output
/// the name [`debug_text`]; which characters are escaped is not stated.
#[verifier::external_body]
pub(crate) fn quoted(s: &str) -> (r: String)
    ensures
        r@ == debug_text(s@),
{
    format!("{:?}", s)
}

/// The texts of a list of strings.
pub open spec fn texts(v: Seq<String>) -> Seq<Seq<char>> {
    v.map_values(|s: String| s@)
}

/// Each string of `v` in the form of [`debug_text`].
pub fn quote_all(v: &Vec<String>) -> (out: Vec<String>)
    ensures
        out@.len() == v@.len(),
        forall|i: int| 0 <= i < v@.len() ==> (#[trigger] out@[i])@ == debug_text(v@[i]@),
{
    let mut out: Vec<String> = Vec::new();
    let mut i: usize = 0;
    while i < v.len()
        invariant
            i <= v@.len(),
            out@.len() == i,
            forall|k: int| 0 <= k < i ==> (#[trigger] out@[k])@ == debug_text(v@[k]@),
        decreases v@.len() - i,
    {
        out.push(quoted(v[i].as_str()));
        i += 1;
    }
    out
}

/// Do two strings hold the same characters?
pub fn same(a: &str, b: &str) -> (r: bool)
    ensures
        r == (a@ == b@),
{
    a.to_owned() == b.to_owned()
}

/// The characters of a string.
pub fn chars_of(s: &str) -> (v: Vec<char>)
    ensures
        v@ == s@,
{
    let mut v: Vec<char> = Vec::new();
    let n: usize = s.unicode_len();
    let mut it = s.chars();
    let mut i: usize = 0;
    while i < n
        invariant
            i <= n,
            n == s@.len(),
            vstd::std_specs::iter::IteratorSpec::remaining(&it) == s@.skip(i as int),
            vstd::std_specs::iter::IteratorSpec::obeys_prophetic_iter_laws(&it),
            v@ == s@.take(i as int),
        decreases n - i,
    {
        match it.next() {
            Some(c) => {
                v.push(c);
            },
            None => {},
        }
        i += 1;
        assert(v@ =~= s@.take(i as int));
        assert(vstd::std_specs::iter::IteratorSpec::remaining(&it) =~= s@.skip(i as int));
    }
    assert(v@ =~= s@);
    v
}

/// Does `s` begin with `prefix`?
pub fn starts_with(s: &str, prefix: &str) -> (r: bool)
    ensures
        r == prefix@.is_prefix_of(s@),
{
    let a: Vec<char> = chars_of(s);
    let b: Vec<char> = chars_of(prefix);
    if b.len() > a.len() {
        return false;
    }
    let mut i: usize = 0;
    while i < b.len()
        invariant
            i <= b@.len() <= a@.len(),
            a@ == s@,
            b@ == prefix@,
            forall|j: int| 0 <= j < i ==> a@[j] == b@[j],
        decreases b@.len() - i,
    {
        if a[i] != b[i] {
            assert(s@.subrange(0, prefix@.len() as int)[i as int] != prefix@[i as int]);
            return false;
        }
        i += 1;
    }
    assert(prefix@ =~= s@.subrange(0, prefix@.len() as int));
    true
}

/// One decimal digit.
pub open spec fn digit_text(d: nat) -> Seq<char> {
    if d == 0 {
        "0"@
    } else if d == 1 {
        "1"@
    } else if d == 2 {
        "2"@
    } else if d == 3 {
        "3"@
    } else if d == 4 {
        "4"@
    } else if d == 5 {
        "5"@
    } else if d == 6 {
        "6"@
    } else if d == 7 {
        "7"@
    } else if d == 8 {
        "8"@
    } else {
        "9"@
    }
}

/// A number in decimal, without leading zeros.
pub open spec fn decimal_text(n: nat) -> Seq<char>
    decreases n,
{
    if n < 10 {
        digit_text(n)
    } else {
        decimal_text(n / 10) + digit_text(n % 10)
    }
}

/// A signed number in decimal.
pub open spec fn signed_text(v: int) -> Seq<char> {
    if v < 0 {
        "-"@ + decimal_text((-v) as nat)
    } else {
        decimal_text(v as nat)
    }
}

fn digit(d: u64) -> (r: &'static str)
    requires
        d < 10,
    ensures
        r@ == digit_text(d as nat),
{
    if d == 0 {
        "0"
    } else if d == 1 {
        "1"
    } else if d == 2 {
        "2"
    } else if d == 3 {
        "3"
    } else if d == 4 {
        "4"
    } else if d == 5 {
        "5"
    } else if d == 6 {
        "6"
    } else if d == 7 {
        "7"
    } else if d == 8 {
        "8"
    } else {
        "9"
    }
}

/// [`decimal_text`] as a string.
pub fn decimal(n: u64) -> (r: String)
    ensures
        r@ == decimal_text(n as nat),
    decreases n,
{
    if n < 10 {
        digit(n).to_owned()
    } else {
        let mut r: String = decimal(n / 10);
        r.append(digit(n % 10));
        r
    }
}

/// [`signed_text`] as a string.
pub fn signed(v: i64) -> (r: String)
    ensures
        r@ == signed_text(v as int),
{
    if v < 0 {
        let mut r: String = "-".to_owned();
        let m: u64 = (-(v as i128)) as u64;
        r.append(decimal(m).as_str());
        r
    } else {
        decimal(v as u64)
    }
}

// ---------------------------------------------------------------------
// Trimming, splitting and replacing
// ---------------------------------------------------------------------

/// The character is white space: it has the Unicode property
/// `White_Space`.
pub open spec fn white(c: char) -> bool {
    ||| 0x9 <= c as u32 <= 0xd
    ||| c as u32 == 0x20
    ||| c as u32 == 0x85
    ||| c as u32 == 0xa0
    ||| c as u32 == 0x1680
    ||| 0x2000 <= c as u32 <= 0x200a
    ||| c as u32 == 0x2028
    ||| c as u32 == 0x2029
    ||| c as u32 == 0x202f
    ||| c as u32 == 0x205f
    ||| c as u32 == 0x3000
}

/// Is the character white space?
pub fn is_white(c: char) -> (r: bool)
    ensures
        r == white(c),
{
    let n: u32 = c as u32;
    (0x9 <= n && n <= 0xd) || n == 0x20 || n == 0x85 || n == 0xa0 || n == 0x1680 || (0x2000 <= n
        && n <= 0x200a) || n == 0x2028 || n == 0x2029 || n == 0x202f || n == 0x205f || n == 0x3000
}

/// The lower case of an ASCII letter; any other character is itself.
pub open spec fn ascii_lower(c: char) -> char {
    if 'A' <= c <= 'Z' {
        ((c as u32) + 32) as char
    } else {
        c
    }
}

proof fn lemma_alphabet()
    ensures
        "abcdefghijklmnopqrstuvwxyz"@.len() == 26,
        forall|k: int|
            0 <= k < 26 ==> #[trigger] "abcdefghijklmnopqrstuvwxyz"@[k] == (0x61 + k) as char,
{
    reveal_strlit("abcdefghijklmnopqrstuvwxyz");
}

/// A text in ASCII lower case: characters other than `A` to `Z` stay.
pub fn lowered(s: &str) -> (r: String)
    ensures
        r@ == s@.map_values(|c: char| ascii_lower(c)),
{
    let v: Vec<char> = chars_of(s);
    let letters: &str = "abcdefghijklmnopqrstuvwxyz";
    let mut out: String = String::new();
    let mut i: usize = 0;
    while i < v.len()
        invariant
            i <= v@.len(),
            v@ == s@,
            letters@ == "abcdefghijklmnopqrstuvwxyz"@,
            out@ == s@.take(i as int).map_values(|c: char| ascii_lower(c)),
        decreases v@.len() - i,
    {
        let ghost before = out@;
        let c: char = v[i];
        if 'A' <= c && c <= 'Z' {
            proof {
                lemma_alphabet();
            }
            let k: usize = (c as u32 - 0x41) as usize;
            out.append(letters.substring_char(k, k + 1));
            assert(letters@[k as int] == ascii_lower(c));
            assert(out@ =~= before.push(ascii_lower(c)));
        } else {
            out.append(s.substring_char(i, i + 1));
            assert(out@ =~= before.push(c));
        }
        i += 1;
        assert(out@ =~= s@.take(i as int).map_values(|c: char| ascii_lower(c)));
    }
    assert(out@ =~= s@.map_values(|c: char| ascii_lower(c)));
    out
}

/// A text without its leading white space.
pub open spec fn trim_front(s: Seq<char>) -> Seq<char>
    decreases s.len(),
{
    if s.len() > 0 && white(s[0]) {
        trim_front(s.drop_first())
    } else {
        s
    }
}

/// A text without its trailing white space.
pub open spec fn trim_back(s: Seq<char>) -> Seq<char>
    decreases s.len(),
{
    if s.len() > 0 && white(s.last()) {
        trim_back(s.drop_last())
    } else {
        s
    }
}

/// A text without the white space around it.
pub open spec fn trimmed(s: Seq<char>) -> Seq<char> {
    trim_back(trim_front(s))
}

/// [`trimmed`] as a string.
pub fn trim(s: &str) -> (r: String)
    ensures
        r@ == trimmed(s@),
{
    let v: Vec<char> = chars_of(s);
    let n: usize = v.len();
    let mut i: usize = 0;
    assert(s@.skip(0) =~= s@);
    while i < n && is_white(v[i])
        invariant
            i <= n,
            n == v@.len(),
            v@ == s@,
            trim_front(s@.skip(i as int)) == trim_front(s@),
        decreases n - i,
    {
        assert(s@.skip(i as int).drop_first() =~= s@.skip(i + 1));
        i += 1;
    }
    assert(trim_front(s@) == s@.skip(i as int));
    let ghost mid = s@.skip(i as int);
    let mut j: usize = n;
    assert(mid =~= s@.subrange(i as int, j as int));
    while j > i && is_white(v[j - 1])
        invariant
            i <= j <= n,
            n == v@.len(),
            v@ == s@,
            trim_back(s@.subrange(i as int, j as int)) == trim_back(mid),
        decreases j,
    {
        assert(s@.subrange(i as int, j as int).drop_last() =~= s@.subrange(i as int, j - 1));
        assert(s@.subrange(i as int, j as int).last() == s@[j - 1]);
        j -= 1;
    }
    proof {
        let t = s@.subrange(i as int, j as int);
        if t.len() > 0 {
            assert(t.last() == s@[j - 1]);
        }
    }
    s.substring_char(i, j).to_owned()
}

/// The pieces of a text between the occurrences of a character.
pub open spec fn split_text(s: Seq<char>, c: char) -> Seq<Seq<char>>
    decreases s.len(),
{
    match s.index_of_first(c) {
        Some(k) if 0 <= k < s.len() => seq![s.take(k)] + split_text(s.skip(k + 1), c),
        _ => seq![s],
    }
}

/// [`split_text`] as strings.
pub fn split(s: &str, c: char) -> (r: Vec<String>)
    ensures
        texts(r@) == split_text(s@, c),
{
    let v: Vec<char> = chars_of(s);
    let n: usize = v.len();
    let mut out: Vec<String> = Vec::new();
    let mut start: usize = 0;
    let mut i: usize = 0;
    proof {
        assert(s@.skip(0) =~= s@);
        assert(texts(out@) + split_text(s@, c) =~= split_text(s@, c));
    }
    while i < n
        invariant
            start <= i <= n,
            n == v@.len(),
            v@ == s@,
            forall|k: int| start <= k < i ==> s@[k] != c,
            texts(out@) + split_text(s@.skip(start as int), c) == split_text(s@, c),
        decreases n - i,
    {
        if v[i] == c {
            let ghost rest = s@.skip(start as int);
            let ghost before = texts(out@);
            proof {
                rest.index_of_first_ensures(c);
                assert(rest[i - start] == c);
                assert(rest.contains(c));
                let f = rest.index_of_first(c)->0;
                assert(f == i - start) by {
                    if f < i - start {
                        assert(rest[f] == s@[start + f]);
                    }
                }
                assert(rest.take(f) =~= s@.subrange(start as int, i as int));
                assert(rest.skip(f + 1) =~= s@.skip(i + 1));
            }
            out.push(s.substring_char(start, i).to_owned());
            proof {
                assert(texts(out@) =~= before.push(s@.subrange(start as int, i as int)));
                assert(texts(out@) + split_text(s@.skip(i + 1), c) =~= before + split_text(
                    rest,
                    c,
                ));
            }
            start = i + 1;
        }
        i += 1;
    }
    let ghost rest = s@.skip(start as int);
    let ghost before = texts(out@);
    proof {
        rest.index_of_first_ensures(c);
        if rest.contains(c) {
            let k = choose|k: int| 0 <= k < rest.len() && rest[k] == c;
            assert(s@[start + k] == c);
        }
        assert(rest =~= s@.subrange(start as int, n as int));
    }
    out.push(s.substring_char(start, n).to_owned());
    assert(texts(out@) =~= before + seq![rest]);
    out
}

/// A line without the carriage return before its line feed.
pub open spec fn without_cr(s: Seq<char>) -> Seq<char> {
    if s.len() > 0 && s.last() == '\r' {
        s.drop_last()
    } else {
        s
    }
}

/// The lines of a text. A line ends at a line feed, together with a
/// carriage return before it; the last one need not end.
pub open spec fn lines_text(s: Seq<char>) -> Seq<Seq<char>>
    decreases s.len(),
{
    if s.len() == 0 {
        Seq::empty()
    } else {
        match s.index_of_first('\n') {
            Some(k) if 0 <= k < s.len() => seq![without_cr(s.take(k))] + lines_text(s.skip(k + 1)),
            _ => seq![s],
        }
    }
}

/// [`lines_text`] as strings.
pub fn lines(s: &str) -> (r: Vec<String>)
    ensures
        texts(r@) == lines_text(s@),
{
    let v: Vec<char> = chars_of(s);
    let n: usize = v.len();
    let mut out: Vec<String> = Vec::new();
    let mut start: usize = 0;
    let mut i: usize = 0;
    proof {
        assert(s@.skip(0) =~= s@);
        assert(texts(out@) + lines_text(s@) =~= lines_text(s@));
    }
    while i < n
        invariant
            start <= i <= n,
            n == v@.len(),
            v@ == s@,
            forall|k: int| start <= k < i ==> s@[k] != '\n',
            texts(out@) + lines_text(s@.skip(start as int)) == lines_text(s@),
        decreases n - i,
    {
        if v[i] == '\n' {
            let ghost rest = s@.skip(start as int);
            let ghost before = texts(out@);
            let end: usize = if i > start && v[i - 1] == '\r' {
                i - 1
            } else {
                i
            };
            proof {
                rest.index_of_first_ensures('\n');
                assert(rest[i - start] == '\n');
                assert(rest.contains('\n'));
                let f = rest.index_of_first('\n')->0;
                assert(f == i - start) by {
                    if f < i - start {
                        assert(rest[f] == s@[start + f]);
                    }
                }
                let line = rest.take(f);
                if i > start {
                    assert(line.last() == s@[i - 1]);
                }
                assert(without_cr(line) =~= s@.subrange(start as int, end as int));
                assert(rest.skip(f + 1) =~= s@.skip(i + 1));
            }
            out.push(s.substring_char(start, end).to_owned());
            proof {
                assert(texts(out@) =~= before.push(s@.subrange(start as int, end as int)));
                assert(texts(out@) + lines_text(s@.skip(i + 1)) =~= before + lines_text(rest));
            }
            start = i + 1;
        }
        i += 1;
    }
    let ghost rest = s@.skip(start as int);
    let ghost before = texts(out@);
    if start < n {
        proof {
            rest.index_of_first_ensures('\n');
            if rest.contains('\n') {
                let k = choose|k: int| 0 <= k < rest.len() && rest[k] == '\n';
                assert(s@[start + k] == '\n');
            }
            assert(rest =~= s@.subrange(start as int, n as int));
        }
        out.push(s.substring_char(start, n).to_owned());
        assert(texts(out@) =~= before + seq![rest]);
    } else {
        assert(before + Seq::<Seq<char>>::empty() =~= before);
    }
    out
}

/// A text on one line: every line feed and carriage return is a space.
pub open spec fn one_line(s: Seq<char>) -> Seq<char> {
    s.map_values(
        |c: char|
            if c == '\n' || c == '\r' {
                ' '
            } else {
                c
            },
    )
}

/// [`one_line`] as a string.
pub fn on_one_line(s: &str) -> (r: String)
    ensures
        r@ == one_line(s@),
{
    let v: Vec<char> = chars_of(s);
    let n: usize = v.len();
    let mut out: String = String::new();
    let mut i: usize = 0;
    proof {
        reveal_strlit(" ");
    }
    while i < n
        invariant
            i <= n,
            n == v@.len(),
            v@ == s@,
            out@ == one_line(s@).take(i as int),
            " "@ == seq![' '],
        decreases n - i,
    {
        let ghost before = out@;
        if v[i] == '\n' || v[i] == '\r' {
            out.append(" ");
            assert(out@ =~= before.push(' '));
        } else {
            out.append(s.substring_char(i, i + 1));
            assert(out@ =~= before.push(s@[i as int]));
        }
        i += 1;
        assert(out@ =~= one_line(s@).take(i as int));
    }
    assert(out@ =~= one_line(s@));
    out
}

/// Does the text hold the character?
pub fn contains_char(s: &str, c: char) -> (r: bool)
    ensures
        r == s@.contains(c),
{
    let v: Vec<char> = chars_of(s);
    let mut i: usize = 0;
    while i < v.len()
        invariant
            i <= v@.len(),
            v@ == s@,
            forall|k: int| 0 <= k < i ==> v@[k] != c,
        decreases v@.len() - i,
    {
        if v[i] == c {
            assert(s@[i as int] == c);
            return true;
        }
        i += 1;
    }
    false
}

/// The number that a run of decimal digits makes, if all are digits.
pub open spec fn digits_value(s: Seq<char>) -> Option<nat>
    decreases s.len(),
{
    if s.len() == 0 {
        Some(0)
    } else {
        match digits_value(s.drop_last()) {
            Some(n) if '0' <= s.last() <= '9' => Some(
                n * 10 + ((s.last() as int - '0' as int) as nat),
            ),
            _ => None,
        }
    }
}

/// The number that a text writes: decimal digits, at least one, after an
/// optional plus sign.
pub open spec fn number_value(s: Seq<char>) -> Option<nat> {
    let d = if s.len() > 0 && s[0] == '+' {
        s.drop_first()
    } else {
        s
    };
    if d.len() == 0 {
        None
    } else {
        digits_value(d)
    }
}

proof fn lemma_digits_prefix(s: Seq<char>, k: int)
    requires
        0 <= k <= s.len(),
        digits_value(s) is Some,
    ensures
        digits_value(s.take(k)) is Some,
        digits_value(s.take(k))->0 <= digits_value(s)->0,
    decreases s.len(),
{
    if k < s.len() {
        lemma_digits_prefix(s.drop_last(), k);
        assert(s.drop_last().take(k) =~= s.take(k));
    } else {
        assert(s.take(k) =~= s);
    }
}

/// Reads a number that fits in 16 bits.
pub fn parse_u16(s: &str) -> (r: Option<u16>)
    ensures
        r == (match number_value(s@) {
            Some(n) if n <= u16::MAX => Some(n as u16),
            _ => None,
        }),
{
    let v: Vec<char> = chars_of(s);
    let n: usize = v.len();
    let start: usize = if n > 0 && v[0] == '+' {
        1
    } else {
        0
    };
    let ghost d = if s@.len() > 0 && s@[0] == '+' {
        s@.drop_first()
    } else {
        s@
    };
    assert(d =~= s@.skip(start as int));
    if start == n {
        return None;
    }
    let mut acc: u32 = 0;
    let mut i: usize = start;
    assert(d.take(0) =~= Seq::<char>::empty());
    while i < n
        invariant
            start <= i <= n,
            n == v@.len(),
            v@ == s@,
            d == s@.skip(start as int),
            d.len() > 0,
            number_value(s@) == digits_value(d),
            digits_value(d.take(i - start)) == Some(acc as nat),
            acc <= u16::MAX,
        decreases n - i,
    {
        let c: char = v[i];
        let ghost next = d.take(i + 1 - start);
        assert(next.drop_last() =~= d.take(i - start));
        assert(next.last() == c);
        if !('0' <= c && c <= '9') {
            proof {
                if digits_value(d) is Some {
                    lemma_digits_prefix(d, i + 1 - start);
                }
            }
            return None;
        }
        let digit: u32 = c as u32 - '0' as u32;
        acc = acc * 10 + digit;
        if acc > u16::MAX as u32 {
            proof {
                if digits_value(d) is Some {
                    lemma_digits_prefix(d, i + 1 - start);
                }
            }
            return None;
        }
        i += 1;
    }
    assert(d.take(i - start) =~= d);
    Some(acc as u16)
}

} // verus!
