//! Character-level text operations: conversions between `String` and
//! character vectors, substring search, pattern replacement and the
//! decimal and hexadecimal renderings of small integers.
use vstd::prelude::*;

verus! {

broadcast use vstd::string::group_string_axioms;

/// `String::push`: the string afterwards is the old one followed by `c`.
#[verifier::external_body]
pub(crate) fn push_char(s: &mut String, c: char)
    ensures
        final(s)@ == old(s)@.push(c),
{
    s.push(c)
}

/// The characters of a string, in order.
pub fn chars_of(s: &str) -> (res: Vec<char>)
    ensures
        res@ == s@,
{
    let mut res: Vec<char> = Vec::new();
    for c in it: s.chars()
        invariant
            res@ == it.seq().take(it.index() as int),
            it.seq() == s@,
    {
        res.push(c);
    }
    res
}

/// Builds a string from characters.
pub fn string_of(cs: &[char]) -> (res: String)
    ensures
        res@ == cs@,
{
    let mut res = String::new();
    let mut i: usize = 0;
    while i < cs.len()
        invariant
            i <= cs@.len(),
            res@ == cs@.take(i as int),
        decreases cs@.len() - i,
    {
        push_char(&mut res, cs[i]);
        i = i + 1;
        assert(cs@.take(i as int) == cs@.take(i - 1).push(cs@[i - 1]));
    }
    assert(cs@.take(cs@.len() as int) == cs@);
    res
}

/// Appends `other` to `v`.
pub fn extend_chars(v: &mut Vec<char>, other: &[char])
    ensures
        final(v)@ == old(v)@ + other@,
{
    let mut i: usize = 0;
    while i < other.len()
        invariant
            i <= other@.len(),
            v@ == old(v)@ + other@.take(i as int),
        decreases other@.len() - i,
    {
        v.push(other[i]);
        i = i + 1;
        assert(other@.take(i as int) == other@.take(i - 1).push(other@[i - 1]));
    }
    assert(other@.take(other@.len() as int) == other@);
}

/// `pat` occurs in `s` starting at index `i`.
pub open spec fn occurs_at(s: Seq<char>, pat: Seq<char>, i: int) -> bool {
    0 <= i && i + pat.len() <= s.len() && s.subrange(i, i + pat.len()) == pat
}

/// The first index at or after `from` where `pat` occurs in `s`.
pub open spec fn first_occurrence_from(s: Seq<char>, pat: Seq<char>, from: int) -> Option<int>
    decreases s.len() + 1 - from,
{
    if from < 0 || from + pat.len() > s.len() {
        None
    } else if occurs_at(s, pat, from) {
        Some(from)
    } else {
        first_occurrence_from(s, pat, from + 1)
    }
}

/// The first index where `pat` occurs in `s`, as `str::find` reports it
/// (counted in characters).
pub open spec fn first_occurrence(s: Seq<char>, pat: Seq<char>) -> Option<int> {
    first_occurrence_from(s, pat, 0)
}

/// The first occurrence is an occurrence, and none comes before it.
pub proof fn lemma_first_occurrence(s: Seq<char>, pat: Seq<char>)
    ensures
        first_occurrence(s, pat) matches Some(i) ==> occurs_at(s, pat, i) && forall|j: int|
            0 <= j < i ==> !occurs_at(s, pat, j),
        first_occurrence(s, pat) is None ==> forall|j: int| 0 <= j ==> !occurs_at(s, pat, j),
{
    lemma_first_occurrence_from(s, pat, 0);
}

proof fn lemma_first_occurrence_from(s: Seq<char>, pat: Seq<char>, from: int)
    requires
        0 <= from,
    ensures
        first_occurrence_from(s, pat, from) matches Some(i) ==> from <= i && occurs_at(s, pat, i)
            && forall|j: int| from <= j < i ==> !occurs_at(s, pat, j),
        first_occurrence_from(s, pat, from) is None ==> forall|j: int|
            from <= j ==> !occurs_at(s, pat, j),
    decreases s.len() + 1 - from,
{
    if from + pat.len() > s.len() {
    } else if occurs_at(s, pat, from) {
    } else {
        lemma_first_occurrence_from(s, pat, from + 1);
    }
}

/// The first occurrence of `pat` in `s`, as a character index.
pub fn find(s: &[char], pat: &[char]) -> (res: Option<usize>)
    ensures
        res matches Some(i) ==> first_occurrence(s@, pat@) == Some(i as int),
        res is None ==> first_occurrence(s@, pat@) is None,
{
    let n = s.len();
    if pat.len() > n {
        return None;
    }
    if pat.len() == 0 {
        assert(s@.subrange(0, 0) =~= pat@);
        return Some(0);
    }
    let last = n - pat.len();
    let mut i: usize = 0;
    while i <= last
        invariant
            n == s@.len(),
            pat@.len() > 0,
            last + pat@.len() == s@.len(),
            i <= last + 1,
            first_occurrence_from(s@, pat@, 0) == first_occurrence_from(s@, pat@, i as int),
        decreases last + 1 - i,
    {
        let mut k: usize = 0;
        let mut matched = true;
        while k < pat.len()
            invariant
                n == s@.len(),
                last + pat@.len() == s@.len(),
                i <= last,
                k <= pat@.len(),
                matched <==> forall|j: int| 0 <= j < k ==> s@[i + j] == pat@[j],
            decreases pat@.len() - k,
        {
            if s[i + k] != pat[k] {
                matched = false;
            }
            k = k + 1;
        }
        if matched {
            assert(s@.subrange(i as int, i + pat@.len()) =~= pat@);
            return Some(i);
        }
        assert(!occurs_at(s@, pat@, i as int)) by {
            if occurs_at(s@, pat@, i as int) {
                let j = choose|j: int| 0 <= j < pat@.len() && s@[i + j] != pat@[j];
                assert(s@.subrange(i as int, i + pat@.len())[j] == s@[i + j]);
            }
        }
        i = i + 1;
    }
    None
}

/// What `str::replace` returns: every leftmost, non-overlapping occurrence
/// of `pat` in `s` replaced by `rep`; an empty pattern matches before every
/// character and at the end.
pub open spec fn replace_all(s: Seq<char>, pat: Seq<char>, rep: Seq<char>) -> Seq<char>
    decreases s.len(),
{
    if pat.len() == 0 {
        if s.len() == 0 {
            rep
        } else {
            rep + seq![s[0]] + replace_all(s.drop_first(), pat, rep)
        }
    } else if s.len() < pat.len() {
        s
    } else if s.take(pat.len() as int) == pat {
        rep + replace_all(s.skip(pat.len() as int), pat, rep)
    } else {
        seq![s[0]] + replace_all(s.drop_first(), pat, rep)
    }
}

/// `s` with every occurrence of `pat` replaced by `rep`, as `str::replace`
/// does it.
pub fn replace(s: &[char], pat: &[char], rep: &[char]) -> (res: Vec<char>)
    ensures
        res@ == replace_all(s@, pat@, rep@),
{
    let mut res: Vec<char> = Vec::new();
    let mut i: usize = 0;
    let n = s.len();
    assert(s@.skip(0) =~= s@);
    while i < n
        invariant
            n == s@.len(),
            i <= s@.len(),
            res@ + replace_all(s@.skip(i as int), pat@, rep@) == replace_all(s@, pat@, rep@),
        decreases s@.len() - i,
    {
        let ghost rest = s@.skip(i as int);
        let ghost before = res@;
        if pat.len() == 0 {
            extend_chars(&mut res, rep);
            res.push(s[i]);
            assert(rest.drop_first() =~= s@.skip(i + 1));
            let ghost tail = replace_all(s@.skip(i + 1), pat@, rep@);
            assert(res@ + tail =~= before + (rep@ + seq![s@[i as int]] + tail));
            i = i + 1;
        } else if s.len() - i < pat.len() {
            assert(replace_all(rest, pat@, rep@) == rest);
            let ghost restv = rest;
            let mut j: usize = i;
            while j < s.len()
                invariant
                    i <= j <= s@.len(),
                    res@ == before + s@.subrange(i as int, j as int),
                decreases s@.len() - j,
            {
                res.push(s[j]);
                j = j + 1;
                assert(s@.subrange(i as int, j as int) =~= s@.subrange(i as int, j - 1).push(s@[j - 1]));
            }
            assert(s@.subrange(i as int, s@.len() as int) =~= rest);
            i = s.len();
            assert(s@.skip(i as int) =~= Seq::<char>::empty());
        } else {
            let mut k: usize = 0;
            let mut matched = true;
            while k < pat.len()
                invariant
                    n == s@.len(),
                    i + pat@.len() <= s@.len(),
                    k <= pat@.len(),
                    matched <==> forall|j: int| 0 <= j < k ==> s@[i + j] == pat@[j],
                decreases pat@.len() - k,
            {
                if s[i + k] != pat[k] {
                    matched = false;
                }
                k = k + 1;
            }
            if matched {
                assert(rest.take(pat@.len() as int) =~= pat@);
                assert(rest.skip(pat@.len() as int) =~= s@.skip(i + pat@.len()));
                extend_chars(&mut res, rep);
                let ghost tail = replace_all(s@.skip(i + pat@.len()), pat@, rep@);
                assert(res@ + tail =~= before + (rep@ + tail));
                i = i + pat.len();
            } else {
                assert(rest.take(pat@.len() as int) != pat@) by {
                    let j = choose|j: int| 0 <= j < pat@.len() && s@[i + j] != pat@[j];
                    assert(rest.take(pat@.len() as int)[j] == s@[i + j]);
                }
                assert(rest.drop_first() =~= s@.skip(i + 1));
                res.push(s[i]);
                let ghost tail = replace_all(s@.skip(i + 1), pat@, rep@);
                assert(res@ + tail =~= before + (seq![s@[i as int]] + tail));
                i = i + 1;
            }
        }
    }
    assert(s@.skip(i as int) =~= Seq::<char>::empty());
    if pat.len() == 0 {
        extend_chars(&mut res, rep);
    }
    res
}

/// The ASCII digit for `d` (`0 <= d < 10`).
pub open spec fn digit_char(d: int) -> char {
    (48 + d) as char
}

/// The decimal digits of `n`, most significant first, without leading zeros.
pub open spec fn decimal(n: nat) -> Seq<char>
    decreases n,
{
    if n < 10 {
        seq![digit_char(n as int)]
    } else {
        decimal(n / 10).push(digit_char((n % 10) as int))
    }
}

/// The decimal rendering of a signed integer, as `to_string` gives it.
pub open spec fn signed_decimal(x: int) -> Seq<char> {
    if x < 0 {
        seq!['-'] + decimal((-x) as nat)
    } else {
        decimal(x as nat)
    }
}

/// The lower-case hexadecimal digit for `d` (`0 <= d < 16`).
pub open spec fn hex_digit(d: int) -> char {
    if d < 10 {
        (48 + d) as char
    } else {
        (87 + d) as char
    }
}

/// A byte as exactly two lower-case hexadecimal digits, as `{:02x}` gives it.
pub open spec fn hex_byte(b: u8) -> Seq<char> {
    seq![hex_digit(b as int / 16), hex_digit(b as int % 16)]
}

fn push_decimal(v: &mut Vec<char>, n: u32)
    ensures
        final(v)@ == old(v)@ + decimal(n as nat),
    decreases n,
{
    if n < 10 {
        v.push(((48 + n) as u8) as char);
    } else {
        push_decimal(v, n / 10);
        v.push(((48 + n % 10) as u8) as char);
        assert(old(v)@ + decimal(n as nat) =~= old(v)@ + decimal((n / 10) as nat) + seq![
            digit_char((n % 10) as int),
        ]);
    }
}

/// The decimal rendering of `x` (`i8::to_string`).
pub fn i8_to_decimal(x: i8) -> (res: String)
    ensures
        res@ == signed_decimal(x as int),
{
    let mut v: Vec<char> = Vec::new();
    if x < 0 {
        v.push('-');
        let m: i16 = -(x as i16);
        push_decimal(&mut v, m as u32);
        assert(v@ =~= seq!['-'] + decimal((-x) as nat));
    } else {
        push_decimal(&mut v, x as u32);
        assert(v@ =~= decimal(x as nat));
    }
    string_of(&v)
}

/// The byte `b` as two lower-case hexadecimal digits (`format!("{:02x}", b)`).
pub fn hex_of_byte(b: u8) -> (res: String)
    ensures
        res@ == hex_byte(b),
        res@.len() == 2,
{
    let hi = b / 16;
    let lo = b % 16;
    let c_hi = if hi < 10 { (48 + hi) as char } else { (87 + hi) as char };
    let c_lo = if lo < 10 { (48 + lo) as char } else { (87 + lo) as char };
    let v: Vec<char> = vec![c_hi, c_lo];
    assert(v@ =~= hex_byte(b));
    string_of(&v)
}

/// `c` is an ASCII decimal digit.
pub open spec fn is_digit(c: char) -> bool {
    '0' <= c <= '9'
}

/// The number that a string of decimal digits denotes.
pub open spec fn digits_value(s: Seq<char>) -> nat
    decreases s.len(),
{
    if s.len() == 0 {
        0
    } else {
        digits_value(s.drop_last()) * 10 + ((s.last() as int - 48) as nat)
    }
}

/// What `str::parse::<u16>` accepts: an optional `+` followed by at least
/// one decimal digit, denoting a number that fits in 16 bits.
pub open spec fn parse_u16(s: Seq<char>) -> Option<u16> {
    let d = unsigned_digits(s);
    if d.len() > 0 && all_digits(d) && digits_value(d) <= 65535 {
        Some(digits_value(d) as u16)
    } else {
        None
    }
}

/// The digits of an unsigned number in `s`: `s` without a leading `+`
/// where one stands before at least one more character.
pub open spec fn unsigned_digits(s: Seq<char>) -> Seq<char> {
    if s.len() > 1 && s[0] == '+' {
        s.drop_first()
    } else {
        s
    }
}

/// Every character of `d` is a decimal digit.
pub open spec fn all_digits(d: Seq<char>) -> bool {
    forall|i: int| 0 <= i < d.len() ==> is_digit(#[trigger] d[i])
}

proof fn lemma_digits_value_monotone(s: Seq<char>, k: int)
    requires
        0 <= k <= s.len(),
        all_digits(s),
    ensures
        digits_value(s.take(k)) <= digits_value(s),
    decreases s.len() - k,
{
    if k < s.len() {
        lemma_digits_value_monotone(s, k + 1);
        assert(s.take(k + 1).drop_last() =~= s.take(k));
    } else {
        assert(s.take(k) =~= s);
    }
}

/// Parses a port number the way `str::parse::<u16>` does.
pub fn parse_port(s: &str) -> (res: Option<u16>)
    ensures
        res == parse_u16(s@),
{
    let cs = chars_of(s);
    let n = cs.len();
    let start: usize = if n > 1 && cs[0] == '+' { 1 } else { 0 };
    let ghost d = unsigned_digits(s@);
    assert(d =~= cs@.skip(start as int));
    if start >= n {
        return None;
    }
    let mut value: u32 = 0;
    let mut i: usize = start;
    while i < n
        invariant
            n == cs@.len(),
            start <= i <= n,
            d == cs@.skip(start as int),
            d == unsigned_digits(s@),
            forall|j: int| 0 <= j < i - start ==> is_digit(#[trigger] d[j]),
            value == digits_value(d.take(i - start)),
            value <= 65535,
        decreases n - i,
    {
        let c = cs[i];
        assert(d[i - start] == c);
        if !('0' <= c && c <= '9') {
            assert(!is_digit(d[i - start]));
            assert(!all_digits(d));
            return None;
        }
        let next = value * 10 + ((c as u32) - 48);
        assert(d.take(i + 1 - start).drop_last() =~= d.take(i - start));
        assert(d.take(i + 1 - start).last() == c);
        assert(next == digits_value(d.take(i + 1 - start)));
        if next > 65535 {
            proof {
                if all_digits(d) {
                    lemma_digits_value_monotone(d, i + 1 - start);
                }
            }
            return None;
        }
        value = next;
        i = i + 1;
    }
    assert(d.take(n - start) =~= d);
    Some(value as u16)
}

} // verus!
