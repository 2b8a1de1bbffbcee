//! Small facts and helpers about character sequences.
use vstd::prelude::*;

verus! {

/// True for the characters that `char::is_ascii_whitespace` accepts:
/// space, tab, line feed, form feed and carriage return.
pub open spec fn is_ascii_ws(c: char) -> bool {
    c == ' ' || c == '\t' || c == '\n' || c == '\x0C' || c == '\r'
}

/// Executable form of [`is_ascii_ws`].
pub fn ascii_ws(c: char) -> (b: bool)
    ensures
        b == is_ascii_ws(c),
{
    c == ' ' || c == '\t' || c == '\n' || c == '\x0C' || c == '\r'
}

/// The number of ASCII whitespace characters that `s` starts with.
pub open spec fn leading_ws(s: Seq<char>) -> nat
    decreases s.len(),
{
    if s.len() > 0 && is_ascii_ws(s[0]) {
        1 + leading_ws(s.drop_first())
    } else {
        0
    }
}

proof fn lemma_leading_ws_step(s: Seq<char>, k: int)
    requires
        0 <= k < s.len(),
    ensures
        is_ascii_ws(s[k]) ==> leading_ws(s.skip(k)) == 1 + leading_ws(s.skip(k + 1)),
        !is_ascii_ws(s[k]) ==> leading_ws(s.skip(k)) == 0,
{
    assert(s.skip(k).drop_first() =~= s.skip(k + 1));
}

/// `leading_ws(s) == k + leading_ws(s.skip(k))` when the first `k` characters are whitespace.
proof fn lemma_leading_ws_prefix(s: Seq<char>, k: int)
    requires
        0 <= k <= s.len(),
        forall|j: int| 0 <= j < k ==> is_ascii_ws(#[trigger] s[j]),
    ensures
        leading_ws(s) == k + leading_ws(s.skip(k)),
    decreases k,
{
    if k == 0 {
        assert(s.skip(0) =~= s);
    } else {
        lemma_leading_ws_prefix(s, k - 1);
        lemma_leading_ws_step(s, k - 1);
    }
}

/// The number of ASCII whitespace characters in `s` from character `pos` on,
/// before the first other character.
pub fn count_leading_ws(s: &str, pos: usize) -> (n: usize)
    requires
        pos <= s@.len(),
    ensures
        n == leading_ws(s@.skip(pos as int)),
        pos + n <= s@.len(),
{
    let len = s.unicode_len();
    let mut k: usize = pos;
    while k < len && ascii_ws(s.get_char(k))
        invariant
            pos <= k <= len,
            len == s@.len(),
            forall|j: int| pos <= j < k ==> is_ascii_ws(#[trigger] s@[j]),
        decreases len - k,
    {
        k = k + 1;
    }
    proof {
        let t = s@.skip(pos as int);
        assert forall|j: int| 0 <= j < k - pos implies is_ascii_ws(#[trigger] t[j]) by {
            assert(t[j] == s@[pos + j]);
        }
        lemma_leading_ws_prefix(t, (k - pos) as int);
        assert(t.skip((k - pos) as int) =~= s@.skip(k as int));
        if k < len {
            lemma_leading_ws_step(s@, k as int);
        }
    }
    k - pos
}

/// Whether `s`, from character `pos` on, starts with `prefix`.
pub fn starts_with_at(s: &str, pos: usize, prefix: &str) -> (b: bool)
    requires
        pos <= s@.len(),
    ensures
        b == prefix@.is_prefix_of(s@.skip(pos as int)),
{
    let len = s.unicode_len();
    let plen = prefix.unicode_len();
    if len - pos < plen {
        return false;
    }
    let mut j: usize = 0;
    while j < plen
        invariant
            j <= plen,
            pos + plen <= len,
            len == s@.len(),
            plen == prefix@.len(),
            forall|k: int| 0 <= k < j ==> s@[pos + k] == prefix@[k],
        decreases plen - j,
    {
        if s.get_char(pos + j) != prefix.get_char(j) {
            proof {
                assert(s@.skip(pos as int)[j as int] == s@[pos + j]);
            }
            return false;
        }
        j = j + 1;
    }
    assert(s@.skip(pos as int).subrange(0, plen as int) =~= prefix@);
    true
}

} // verus!

verus! {

/// Calls `std::str::from_utf8`. Claims what its documentation states: it
/// succeeds exactly on valid UTF-8, and then the text is what the bytes encode.
#[verifier::external_body]
pub fn utf8_str(bytes: &[u8]) -> (res: Option<&str>)
    ensures
        res is Some <==> vstd::utf8::valid_utf8(bytes@),
        res matches Some(s) ==> s@ == vstd::utf8::decode_utf8(bytes@),
{
    std::str::from_utf8(bytes).ok()
}

} // verus!

verus! {

/// Whether `c` is an ASCII digit.
pub open spec fn is_digit(c: char) -> bool {
    '0' <= c && c <= '9'
}

/// The value of a string of ASCII digits.
pub open spec fn digits_value(s: Seq<char>) -> int
    decreases s.len(),
{
    if s.len() == 0 {
        0
    } else {
        digits_value(s.drop_last()) * 10 + (s.last() as int - '0' as int)
    }
}

/// Whether every character of `d` is an ASCII digit.
pub open spec fn all_digits(d: Seq<char>) -> bool {
    forall|i: int| 0 <= i < d.len() ==> is_digit(#[trigger] d[i])
}

/// The digits of a number as `usize::from_str` reads them: an optional `+`
/// followed by at least one ASCII digit.
pub open spec fn number_digits(s: Seq<char>) -> Option<Seq<char>> {
    let d = if s.len() > 0 && s[0] == '+' {
        s.drop_first()
    } else {
        s
    };
    if d.len() > 0 && all_digits(d) {
        Some(d)
    } else {
        None
    }
}

/// What `usize::from_str` gives for `s`, as its documentation states: an
/// optional `+` and one or more ASCII digits whose value fits in `usize`.
pub open spec fn spec_parse_usize(s: Seq<char>) -> Option<int> {
    match number_digits(s) {
        Some(d) => if digits_value(d) <= usize::MAX {
            Some(digits_value(d))
        } else {
            None
        },
        None => None,
    }
}

proof fn lemma_digits_value_nonneg(s: Seq<char>)
    requires
        forall|i: int| 0 <= i < s.len() ==> is_digit(#[trigger] s[i]),
    ensures
        digits_value(s) >= 0,
    decreases s.len(),
{
    if s.len() > 0 {
        lemma_digits_value_nonneg(s.drop_last());
    }
}

/// A number read by [`spec_parse_usize`] is never negative.
pub proof fn lemma_parse_usize_nonneg(s: Seq<char>)
    ensures
        spec_parse_usize(s) matches Some(v) ==> 0 <= v,
{
    if let Some(d) = number_digits(s) {
        lemma_digits_value_nonneg(d);
    }
}

/// Reads a decimal number as `usize::from_str` does.
pub fn parse_usize(s: &str) -> (res: Option<usize>)
    ensures
        match spec_parse_usize(s@) {
            Some(v) => 0 <= v && res == Some(v as usize),
            None => res is None,
        },
{
    let len = s.unicode_len();
    let mut start: usize = 0;
    if len > 0 && s.get_char(0) == '+' {
        start = 1;
    }
    let ghost d = if s@.len() > 0 && s@[0] == '+' { s@.drop_first() } else { s@ };
    assert(d =~= s@.skip(start as int));
    if start == len {
        assert(d.len() == 0);
        assert(number_digits(s@) is None);
        return None;
    }
    let mut acc: usize = 0;
    let mut i: usize = start;
    let mut overflow = false;
    while i < len
        invariant
            start <= i <= len,
            len == s@.len(),
            d == s@.skip(start as int),
            d == (if s@.len() > 0 && s@[0] == '+' { s@.drop_first() } else { s@ }),
            forall|j: int| start <= j < i ==> is_digit(#[trigger] s@[j]),
            !overflow ==> acc == digits_value(s@.subrange(start as int, i as int)),
            overflow ==> digits_value(s@.subrange(start as int, i as int)) > usize::MAX,
        decreases len - i,
    {
        let c = s.get_char(i);
        if !('0' <= c && c <= '9') {
            assert(d[i - start] == c);
            assert(!is_digit(d[i - start]));
            assert(!all_digits(d));
            return None;
        }
        let ghost prev = s@.subrange(start as int, i as int);
        let ghost next = s@.subrange(start as int, i as int + 1);
        assert(next.drop_last() =~= prev);
        assert(next.last() == c);
        proof {
            assert forall|j: int| 0 <= j < prev.len() implies is_digit(#[trigger] prev[j]) by {
                assert(prev[j] == s@[start + j]);
            }
            lemma_digits_value_nonneg(prev);
        }
        let digit = (c as u32 - '0' as u32) as usize;
        if !overflow {
            if acc > (usize::MAX - digit) / 10 {
                overflow = true;
                assert(acc * 10 + digit > usize::MAX) by (nonlinear_arith)
                    requires acc > (usize::MAX - digit) / 10, digit <= 9;
            } else {
                assert(acc * 10 + digit <= usize::MAX) by (nonlinear_arith)
                    requires acc <= (usize::MAX - digit) / 10, digit <= 9;
                acc = acc * 10 + digit;
            }
        } else {
            assert(digits_value(next) > usize::MAX) by (nonlinear_arith)
                requires digits_value(next) == digits_value(prev) * 10 + digit,
                    digits_value(prev) > usize::MAX, digit >= 0;
        }
        i = i + 1;
    }
    assert(s@.subrange(start as int, len as int) =~= d);
    assert forall|j: int| 0 <= j < d.len() implies is_digit(#[trigger] d[j]) by {
        assert(d[j] == s@[start + j]);
    }
    proof {
        lemma_digits_value_nonneg(d);
    }
    if overflow {
        None
    } else {
        Some(acc)
    }
}

/// Whether two strings are equal.
pub fn str_eq(a: &str, b: &str) -> (r: bool)
    ensures
        r == (a@ == b@),
{
    if a.unicode_len() != b.unicode_len() {
        return false;
    }
    let r = starts_with_at(a, 0, b);
    assert(a@.skip(0) =~= a@);
    proof {
        if r {
            assert(a@.subrange(0, b@.len() as int) =~= a@);
        }
    }
    r
}

} // verus!

verus! {

/// The decimal digit for `d < 10`.
pub open spec fn digit_char(d: nat) -> char {
    if d == 0 { '0' } else if d == 1 { '1' } else if d == 2 { '2' } else if d == 3 { '3' }
    else if d == 4 { '4' } else if d == 5 { '5' } else if d == 6 { '6' } else if d == 7 { '7' }
    else if d == 8 { '8' } else { '9' }
}

/// The decimal text of `n`, as `Display` for unsigned integers writes it.
pub open spec fn spec_decimal(n: nat) -> Seq<char>
    decreases n,
{
    if n < 10 {
        seq![digit_char(n)]
    } else {
        spec_decimal(n / 10) + seq![digit_char(n % 10)]
    }
}

/// The text of one decimal digit.
fn digit_str(d: u64) -> (s: &'static str)
    requires
        d < 10,
    ensures
        s@ == seq![digit_char(d as nat)],
{
    proof {
        reveal_strlit("0");
        reveal_strlit("1");
        reveal_strlit("2");
        reveal_strlit("3");
        reveal_strlit("4");
        reveal_strlit("5");
        reveal_strlit("6");
        reveal_strlit("7");
        reveal_strlit("8");
        reveal_strlit("9");
    }
    if d == 0 { "0" } else if d == 1 { "1" } else if d == 2 { "2" } else if d == 3 { "3" }
    else if d == 4 { "4" } else if d == 5 { "5" } else if d == 6 { "6" } else if d == 7 { "7" }
    else if d == 8 { "8" } else { "9" }
}

/// The decimal text of `n`.
pub fn decimal(n: u64) -> (s: String)
    ensures
        s@ == spec_decimal(n as nat),
    decreases n,
{
    if n < 10 {
        String::from_str(digit_str(n))
    } else {
        let mut s = decimal(n / 10);
        s.append(digit_str(n % 10));
        s
    }
}

/// The decimal text of a number consists of digits only.
pub proof fn law_decimal_digits(n: nat)
    ensures
        spec_decimal(n).len() >= 1,
        forall|i: int| 0 <= i < spec_decimal(n).len() ==> is_digit(#[trigger] spec_decimal(n)[i]),
    decreases n,
{
    if n >= 10 {
        law_decimal_digits(n / 10);
        assert forall|i: int| 0 <= i < spec_decimal(n).len() implies is_digit(#[trigger] spec_decimal(n)[i]) by {
            if i < spec_decimal(n / 10).len() {
                assert(spec_decimal(n)[i] == spec_decimal(n / 10)[i]);
            }
        }
    }
}

} // verus!

verus! {

/// The position of the first line feed in `s`, if any.
pub open spec fn first_newline(s: Seq<char>) -> Option<int>
    decreases s.len(),
{
    if s.len() == 0 {
        None
    } else if s[0] == '\n' {
        Some(0)
    } else {
        match first_newline(s.drop_first()) {
            Some(i) => Some(i + 1),
            None => None,
        }
    }
}

/// A line without its line ending: a carriage return before the line feed is dropped too.
pub open spec fn strip_cr(line: Seq<char>) -> Seq<char> {
    if line.len() > 0 && line.last() == '\r' {
        line.drop_last()
    } else {
        line
    }
}

/// The lines of `s`, as `str::lines` documents them: split after each line
/// feed, each line without its `\n` or `\r\n`; no empty line after a final line feed.
pub open spec fn spec_lines(s: Seq<char>) -> Seq<Seq<char>>
    decreases s.len(),
{
    if s.len() == 0 {
        Seq::empty()
    } else {
        match first_newline(s) {
            None => seq![s],
            Some(i) => if 0 <= i < s.len() {
                seq![strip_cr(s.take(i))] + spec_lines(s.skip(i + 1))
            } else {
                Seq::empty()
            },
        }
    }
}

proof fn lemma_first_newline(s: Seq<char>, k: int)
    requires
        0 <= k <= s.len(),
        forall|j: int| 0 <= j < k ==> #[trigger] s[j] != '\n',
    ensures
        k < s.len() && s[k] == '\n' ==> first_newline(s) == Some(k),
        k == s.len() ==> first_newline(s) is None,
    decreases k,
{
    if k > 0 {
        let t = s.drop_first();
        assert forall|j: int| 0 <= j < k - 1 implies #[trigger] t[j] != '\n' by {
            assert(t[j] == s[j + 1]);
        }
        lemma_first_newline(t, k - 1);
    } else if s.len() > 0 {
    }
}

/// The lines of `s` (see [`spec_lines`]).
pub fn lines(s: &str) -> (res: Vec<String>)
    ensures
        res@.map_values(|l: String| l@) == spec_lines(s@),
{
    let len = s.unicode_len();
    let mut out: Vec<String> = Vec::new();
    let mut start: usize = 0;
    let mut i: usize = 0;
    assert(s@.skip(0) =~= s@);
    while i < len
        invariant
            start <= i <= len,
            len == s@.len(),
            spec_lines(s@) == out@.map_values(|l: String| l@) + spec_lines(s@.skip(start as int)),
            forall|j: int| start <= j < i ==> #[trigger] s@[j] != '\n',
        decreases len - i,
    {
        if s.get_char(i) == '\n' {
            let ghost t = s@.skip(start as int);
            proof {
                assert forall|j: int| 0 <= j < i - start implies #[trigger] t[j] != '\n' by {
                    assert(t[j] == s@[start + j]);
                }
                lemma_first_newline(t, i - start);
                assert(t.take(i - start) =~= s@.subrange(start as int, i as int));
                assert(t.skip(i - start + 1) =~= s@.skip(i + 1));
            }
            let line = s.substring_char(start, i);
            let n = line.unicode_len();
            let l = if n > 0 && line.get_char(n - 1) == '\r' {
                String::from_str(line.substring_char(0, n - 1))
            } else {
                String::from_str(line)
            };
            let ghost before = out@.map_values(|l: String| l@);
            out.push(l);
            proof {
                assert(l@ =~= strip_cr(t.take(i - start)));
                assert(out@.map_values(|l: String| l@) =~= before.push(l@));
                assert(before + spec_lines(t) =~= before.push(l@) + spec_lines(s@.skip(i + 1)));
            }
            start = i + 1;
        }
        i = i + 1;
    }
    if start < len {
        let ghost t = s@.skip(start as int);
        proof {
            assert forall|j: int| 0 <= j < len - start implies #[trigger] t[j] != '\n' by {
                assert(t[j] == s@[start + j]);
            }
            lemma_first_newline(t, len - start);
        }
        let line = s.substring_char(start, len);
        assert(line@ =~= t);
        let ghost before = out@.map_values(|l: String| l@);
        out.push(String::from_str(line));
        assert(out@.map_values(|l: String| l@) =~= before + spec_lines(t));
    } else {
        assert(s@.skip(start as int) =~= Seq::<char>::empty());
        assert(out@.map_values(|l: String| l@) + Seq::<Seq<char>>::empty() =~= out@.map_values(|l: String| l@));
    }
    out
}

} // verus!
