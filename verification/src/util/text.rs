use vstd::prelude::*;
use vstd::string::*;

verus! {

/// Whether `s` begins with `p`.
pub open spec fn has_prefix(s: Seq<char>, p: Seq<char>) -> bool {
    p.len() <= s.len() && s.subrange(0, p.len() as int) == p
}

/// `s` with every leading repetition of `p` removed (nothing is removed
/// when `p` is empty).
pub open spec fn trim_prefix_all(s: Seq<char>, p: Seq<char>) -> Seq<char>
    decreases s.len(),
{
    if p.len() > 0 && has_prefix(s, p) {
        trim_prefix_all(s.subrange(p.len() as int, s.len() as int), p)
    } else {
        s
    }
}

/// Whether `s` begins with `p`.
pub fn starts_with(s: &str, p: &str) -> (b: bool)
    ensures
        b == has_prefix(s@, p@),
{
    let n = p.unicode_len();
    let m = s.unicode_len();
    if n > m {
        return false;
    }
    let mut i: usize = 0;
    while i < n
        invariant
            n == p@.len(),
            m == s@.len(),
            n <= m,
            i <= n,
            forall|j: int| 0 <= j < i ==> s@[j] == p@[j],
        decreases n - i,
    {
        if s.get_char(i) != p.get_char(i) {
            proof {
                assert(s@.subrange(0, n as int)[i as int] != p@[i as int]);
            }
            return false;
        }
        i = i + 1;
    }
    proof {
        assert(s@.subrange(0, n as int) =~= p@);
    }
    true
}

/// Whether `t` occurs in `s` as a run of consecutive characters.
pub open spec fn has_infix(s: Seq<char>, t: Seq<char>) -> bool {
    exists|i: int| 0 <= i && i + t.len() <= s.len() && #[trigger] s.subrange(i, i + t.len()) == t
}

/// Whether `t` occurs in `s` (`str::contains` with a string pattern).
pub fn contains_text(s: &str, t: &str) -> (b: bool)
    ensures
        b == has_infix(s@, t@),
{
    let n = t.unicode_len();
    let m = s.unicode_len();
    if n > m {
        proof {
            assert forall|i: int| 0 <= i && i + t@.len() <= s@.len() implies #[trigger] s@.subrange(i, i + t@.len()) != t@ by {}
        }
        return false;
    }
    let mut start: usize = 0;
    while start <= m - n
        invariant
            n == t@.len(),
            m == s@.len(),
            n <= m,
            start <= m - n + 1,
            forall|i: int| 0 <= i < start ==> #[trigger] s@.subrange(i, i + n) != t@,
        decreases m - n + 1 - start,
    {
        let mut k: usize = 0;
        let mut same = true;
        while k < n
            invariant
                n == t@.len(),
                m == s@.len(),
                start + n <= m,
                k <= n,
                same == (forall|j: int| 0 <= j < k ==> s@[start + j] == t@[j]),
            decreases n - k,
        {
            if s.get_char(start + k) != t.get_char(k) {
                same = false;
            }
            k = k + 1;
        }
        if same {
            proof {
                assert(s@.subrange(start as int, start + n) =~= t@);
            }
            return true;
        }
        proof {
            let j = choose|j: int| 0 <= j < n && s@[start + j] != t@[j];
            assert(s@.subrange(start as int, start + n)[j] != t@[j]);
        }
        start = start + 1;
    }
    proof {
        assert forall|i: int| 0 <= i && i + t@.len() <= s@.len() implies #[trigger] s@.subrange(i, i + t@.len()) != t@ by {
            assert(i < start);
        }
    }
    false
}

/// `s` with every leading repetition of `p` removed.
pub fn trim_start_matches<'a>(s: &'a str, p: &str) -> (r: &'a str)
    ensures
        r@ == trim_prefix_all(s@, p@),
{
    let n = p.unicode_len();
    if n == 0 {
        return s;
    }
    let mut rest: &'a str = s;
    while starts_with(rest, p)
        invariant
            n == p@.len(),
            n > 0,
            trim_prefix_all(rest@, p@) == trim_prefix_all(s@, p@),
        decreases rest@.len(),
    {
        let len = rest.unicode_len();
        rest = rest.substring_char(n, len);
    }
    rest
}

/// Whether `c` is an ASCII decimal digit.
pub open spec fn is_digit(c: char) -> bool {
    '0' <= c && c <= '9'
}

/// The value of a sequence of decimal digits.
pub open spec fn digits_value(s: Seq<char>) -> nat
    decreases s.len(),
{
    if s.len() == 0 {
        0
    } else {
        digits_value(s.drop_last()) * 10 + ((s.last() as u32 - '0' as u32) as nat)
    }
}

/// How a decimal `u16` is read: an optional `+`, then one or more ASCII
/// digits whose value fits in 16 bits.
pub open spec fn parse_u16_spec(s: Seq<char>) -> Option<u16> {
    let body = unsigned_body(s);
    if body.len() > 0 && (forall|i: int| 0 <= i < body.len() ==> is_digit(#[trigger] body[i]))
        && digits_value(body) <= 65535 {
        Some(digits_value(body) as u16)
    } else {
        None
    }
}

proof fn lemma_digits_value_prefix(s: Seq<char>, i: int)
    requires
        0 <= i < s.len(),
    ensures
        digits_value(s.subrange(0, i + 1)) == digits_value(s.subrange(0, i)) * 10
            + ((s[i] as u32 - '0' as u32) as nat),
{
    assert(s.subrange(0, i + 1).drop_last() =~= s.subrange(0, i));
}

proof fn lemma_digits_value_monotone(s: Seq<char>, i: int)
    requires
        0 <= i <= s.len(),
        forall|k: int| 0 <= k < s.len() ==> is_digit(#[trigger] s[k]),
    ensures
        digits_value(s.subrange(0, i)) <= digits_value(s),
    decreases s.len() - i,
{
    if i < s.len() {
        lemma_digits_value_monotone(s, i + 1);
        lemma_digits_value_prefix(s, i);
    } else {
        assert(s.subrange(0, i) =~= s);
    }
}

/// The part of `s` after an optional leading `+`.
pub open spec fn unsigned_body(s: Seq<char>) -> Seq<char> {
    if s.len() > 0 && s[0] == '+' { s.subrange(1, s.len() as int) } else { s }
}

/// Reads a decimal `u16` (see `parse_u16_spec`).
pub fn parse_u16(s: &str) -> (r: Option<u16>)
    ensures
        r == parse_u16_spec(s@),
{
    let len = s.unicode_len();
    let body: &str = if len > 0 && s.get_char(0) == '+' { s.substring_char(1, len) } else { s };
    let ghost b = body@;
    assert(b == unsigned_body(s@));
    let n = body.unicode_len();
    if n == 0 {
        return None;
    }
    let mut value: u32 = 0;
    let mut i: usize = 0;
    while i < n
        invariant
            b == body@,
            b == unsigned_body(s@),
            n == b.len(),
            i <= n,
            forall|k: int| 0 <= k < i ==> is_digit(#[trigger] b[k]),
            value as nat == digits_value(b.subrange(0, i as int)),
            value <= 65535,
        decreases n - i,
    {
        let c = body.get_char(i);
        if !('0' <= c && c <= '9') {
            proof {
                assert(!is_digit(b[i as int]));
            }
            return None;
        }
        proof {
            lemma_digits_value_prefix(b, i as int);
        }
        let d = (c as u32) - ('0' as u32);
        let next = value * 10 + d;
        if next > 65535 {
            proof {
                if forall|k: int| 0 <= k < b.len() ==> is_digit(#[trigger] b[k]) {
                    lemma_digits_value_monotone(b, i as int + 1);
                }
            }
            return None;
        }
        value = next;
        i = i + 1;
    }
    proof {
        assert(b.subrange(0, n as int) =~= b);
    }
    Some(value as u16)
}

/// The decimal digits of `n`, most significant first.
pub open spec fn decimal_spec(n: nat) -> Seq<char>
    decreases n,
{
    if n < 10 {
        seq![char_of_digit(n)]
    } else {
        decimal_spec(n / 10).push(char_of_digit(n % 10))
    }
}

/// The ASCII character of a decimal digit.
pub open spec fn char_of_digit(d: nat) -> char {
    if d == 0 { '0' } else if d == 1 { '1' } else if d == 2 { '2' } else if d == 3 { '3' } else if d == 4 { '4' }
    else if d == 5 { '5' } else if d == 6 { '6' } else if d == 7 { '7' } else if d == 8 { '8' } else { '9' }
}

proof fn lemma_decimal_digits(n: nat)
    ensures
        decimal_spec(n).len() > 0,
        forall|i: int| 0 <= i < decimal_spec(n).len() ==> is_digit(#[trigger] decimal_spec(n)[i]),
        digits_value(decimal_spec(n)) == n,
    decreases n,
{
    lemma_char_of_digit(n % 10);
    if n < 10 {
        assert(decimal_spec(n).drop_last() =~= Seq::<char>::empty());
        assert(digits_value(decimal_spec(n).drop_last()) == 0);
        assert(n % 10 == n);
    } else {
        lemma_decimal_digits(n / 10);
        let d = decimal_spec(n);
        assert(d.drop_last() =~= decimal_spec(n / 10));
        assert(d.last() == char_of_digit(n % 10));
        assert(n == (n / 10) * 10 + n % 10);
        assert(digits_value(d) == digits_value(d.drop_last()) * 10 + ((d.last() as u32 - '0' as u32) as nat));
        assert forall|i: int| 0 <= i < d.len() implies is_digit(#[trigger] d[i]) by {
            if i < d.len() - 1 {
                assert(d[i] == decimal_spec(n / 10)[i]);
            }
        }
    }
}

proof fn lemma_char_of_digit(d: nat)
    requires
        d < 10,
    ensures
        is_digit(char_of_digit(d)),
        (char_of_digit(d) as u32 - '0' as u32) as nat == d,
{
}

/// The decimal form of a 16-bit number reads back as that number.
pub proof fn lemma_decimal_parses(m: u16)
    ensures
        parse_u16_spec(decimal_spec(m as nat)) == Some(m),
{
    lemma_decimal_digits(m as nat);
    let d = decimal_spec(m as nat);
    assert(d[0] != '+');
    assert(unsigned_body(d) == d);
}

/// The decimal form of a number does not begin with `Mouse`.
pub proof fn lemma_decimal_not_mouse(n: nat)
    ensures
        !has_prefix(decimal_spec(n), "Mouse"@),
        trim_prefix_all(decimal_spec(n), "Mouse"@) == decimal_spec(n),
{
    reveal_strlit("Mouse");
    lemma_decimal_digits(n);
    let d = decimal_spec(n);
    if has_prefix(d, "Mouse"@) {
        assert(d.subrange(0, 5)[0] == 'M');
        assert(is_digit(d[0]));
    }
}

/// `u16::to_string`: the decimal representation, without sign or leading zeros.
#[verifier::external_body]
pub(crate) fn u16_to_decimal(n: u16) -> (s: String)
    ensures
        s@ == decimal_spec(n as nat),
{
    n.to_string()
}

/// The decimal form of an integer: a minus sign for negative values, then
/// the digits of its magnitude.
pub open spec fn int_decimal(n: int) -> Seq<char> {
    if n < 0 {
        seq!['-'] + decimal_spec((-n) as nat)
    } else {
        decimal_spec(n as nat)
    }
}

/// `i32::to_string`: the decimal form (see `int_decimal`).
#[verifier::external_body]
pub(crate) fn i32_to_decimal(n: i32) -> (s: String)
    ensures
        s@ == int_decimal(n as int),
{
    n.to_string()
}

/// `usize::to_string`: the decimal digits.
#[verifier::external_body]
pub(crate) fn usize_to_decimal(n: usize) -> (s: String)
    ensures
        s@ == decimal_spec(n as nat),
{
    n.to_string()
}

/// The Unicode upper-case mapping of a character, as `char::to_uppercase`
/// yields it (one to three characters).
pub uninterp spec fn char_uppercase(c: char) -> Seq<char>;

/// `char::to_uppercase`, collected into a string.
#[verifier::external_body]
pub(crate) fn to_uppercase_string(c: char) -> (s: String)
    ensures
        s@ == char_uppercase(c),
{
    c.to_uppercase().to_string()
}

/// The Unicode lower-case mapping of a string, as `str::to_lowercase`
/// computes it.
pub uninterp spec fn str_lowercase(s: Seq<char>) -> Seq<char>;

/// `str::to_lowercase`.
#[verifier::external_body]
pub(crate) fn to_lowercase(s: &str) -> (r: String)
    ensures
        r@ == str_lowercase(s@),
{
    s.to_lowercase()
}

/// The words of a string, as `str::split_whitespace` yields them: the
/// maximal runs of characters that are not Unicode white space.
pub uninterp spec fn whitespace_words(s: Seq<char>) -> Seq<Seq<char>>;

/// `str::split_whitespace`, collected.
#[verifier::external_body]
pub(crate) fn split_words(s: &str) -> (r: Vec<String>)
    ensures
        r@.map_values(|w: String| w@) == whitespace_words(s@),
{
    s.split_whitespace().map(|w| w.to_string()).collect()
}

/// ASCII lower-casing of a character (others unchanged).
pub open spec fn ascii_lower(c: char) -> char {
    if 'A' <= c && c <= 'Z' {
        ((c as u32) + 32) as char
    } else {
        c
    }
}

/// `char::to_ascii_lowercase`.
pub fn to_ascii_lowercase(c: char) -> (r: char)
    ensures
        r == ascii_lower(c),
{
    if 'A' <= c && c <= 'Z' {
        let b = (c as u8) + 32;
        proof {
            assert(b as u32 == (c as u32) + 32);
        }
        b as char
    } else {
        c
    }
}

/// ASCII upper-casing of a character (others unchanged).
pub open spec fn ascii_upper(c: char) -> char {
    if 'a' <= c && c <= 'z' {
        ((c as u32) - 32) as char
    } else {
        c
    }
}

/// `char::to_ascii_uppercase`.
pub fn to_ascii_uppercase(c: char) -> (r: char)
    ensures
        r == ascii_upper(c),
{
    if 'a' <= c && c <= 'z' {
        let b = (c as u8) - 32;
        proof {
            assert(b as u32 == (c as u32) - 32);
        }
        b as char
    } else {
        c
    }
}

/// The upper case of a character as `char::to_uppercase` yields it: for an
/// ASCII character its ASCII upper case (the Unicode mapping of `a`..`z`
/// is `A`..`Z`, and other ASCII characters map to themselves); beyond
/// ASCII, the Unicode mapping (`char_uppercase`).
pub open spec fn upper_text(c: char) -> Seq<char> {
    if (c as u32) < 128 {
        seq![ascii_upper(c)]
    } else {
        char_uppercase(c)
    }
}

/// `char::eq_ignore_ascii_case`.
pub fn eq_ignore_ascii_case(a: char, b: char) -> (r: bool)
    ensures
        r == (ascii_lower(a) == ascii_lower(b)),
{
    to_ascii_lowercase(a) == to_ascii_lowercase(b)
}

/// Character-wise equality of two strings.
pub fn str_eq(a: &str, b: &str) -> (r: bool)
    ensures
        r == (a@ == b@),
{
    let n = a.unicode_len();
    if n != b.unicode_len() {
        return false;
    }
    let mut i: usize = 0;
    while i < n
        invariant
            n == a@.len(),
            n == b@.len(),
            i <= n,
            forall|j: int| 0 <= j < i ==> a@[j] == b@[j],
        decreases n - i,
    {
        if a.get_char(i) != b.get_char(i) {
            return false;
        }
        i = i + 1;
    }
    proof {
        assert(a@ =~= b@);
    }
    true
}

/// A new string holding `s`.
pub fn owned(s: &str) -> (r: String)
    ensures
        r@ == s@,
{
    s.to_owned()
}

/// The concatenation of two strings.
pub fn join(a: &str, b: &str) -> (r: String)
    ensures
        r@ == a@ + b@,
{
    let s = a.to_owned();
    s.concat(b)
}

} // verus!
