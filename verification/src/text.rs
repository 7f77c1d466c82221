//! Character-level helpers over `str` and `String`.
use vstd::prelude::*;
use vstd::utf8::*;

verus! {

pub open spec fn is_ascii_letter(c: char) -> bool {
    ('a' <= c && c <= 'z') || ('A' <= c && c <= 'Z')
}

pub open spec fn is_ascii_digit(c: char) -> bool {
    '0' <= c && c <= '9'
}

pub open spec fn is_ascii_alphanumeric(c: char) -> bool {
    is_ascii_letter(c) || is_ascii_digit(c)
}

pub(crate) fn ascii_letter(c: char) -> (r: bool)
    ensures
        r == is_ascii_letter(c),
{
    ('a' <= c && c <= 'z') || ('A' <= c && c <= 'Z')
}

pub(crate) fn ascii_alphanumeric(c: char) -> (r: bool)
    ensures
        r == is_ascii_alphanumeric(c),
{
    ascii_letter(c) || ('0' <= c && c <= '9')
}

/// `String::push` appends one character to the end of the string.
pub assume_specification[ String::push ](s: &mut String, c: char)
    ensures
        final(s)@ == old(s)@.push(c),
;

/// The characters of `s`, in order.
pub(crate) fn chars_of(s: &str) -> (r: Vec<char>)
    ensures
        r@ == s@,
{
    let mut r: Vec<char> = Vec::new();
    for c in it: s.chars()
        invariant
            r@ == it.seq().take(it.index()),
            it.seq() == s@,
    {
        r.push(c);
        assert(it.seq().take(it.index() + 1) =~= it.seq().take(it.index()).push(c));
    }
    assert(s@.take(s@.len() as int) =~= s@);
    r
}

/// Whether two strings have the same characters.
pub(crate) fn same_text(a: &str, b: &str) -> (r: bool)
    ensures
        r == (a@ == b@),
{
    let x = a.as_bytes();
    let y = b.as_bytes();
    proof {
        encode_utf8_decode_utf8(a@);
        encode_utf8_decode_utf8(b@);
    }
    if x.len() != y.len() {
        return false;
    }
    for i in 0..x.len()
        invariant
            x@ == encode_utf8(a@),
            y@ == encode_utf8(b@),
            x@.len() == y@.len(),
            forall|j: int| 0 <= j < i ==> x@[j] == y@[j],
    {
        if x[i] != y[i] {
            return false;
        }
    }
    assert(x@ =~= y@);
    true
}

/// Whether `s` begins with `prefix`.
pub(crate) fn starts_with(s: &str, prefix: &str) -> (r: bool)
    ensures
        r == prefix@.is_prefix_of(s@),
{
    let x = chars_of(s);
    let p = chars_of(prefix);
    if p.len() > x.len() {
        return false;
    }
    for i in 0..p.len()
        invariant
            x@ == s@,
            p@ == prefix@,
            p@.len() <= x@.len(),
            forall|j: int| 0 <= j < i ==> x@[j] == p@[j],
    {
        if x[i] != p[i] {
            return false;
        }
    }
    assert(p@ =~= x@.subrange(0, p@.len() as int));
    true
}

/// `needle` stands in `s` at position `at`.
pub open spec fn occurs_at(s: Seq<char>, needle: Seq<char>, at: int) -> bool {
    0 <= at && at + needle.len() <= s.len() && s.subrange(at, at + needle.len()) == needle
}

/// `needle` stands somewhere in `s`.
pub open spec fn contains_text(s: Seq<char>, needle: Seq<char>) -> bool {
    exists|at: int| #[trigger] occurs_at(s, needle, at)
}

/// Whether `needle` stands somewhere in `s`.
pub(crate) fn contains(s: &str, needle: &str) -> (r: bool)
    ensures
        r == contains_text(s@, needle@),
{
    let x = chars_of(s);
    let n = chars_of(needle);
    if n.len() == 0 {
        assert(s@.subrange(0, 0) =~= needle@);
        assert(occurs_at(s@, needle@, 0));
        return true;
    }
    if n.len() > x.len() {
        return false;
    }
    for at in 0..x.len() - n.len() + 1
        invariant
            x@ == s@,
            n@ == needle@,
            0 < n@.len() <= x@.len() <= usize::MAX,
            forall|a: int| 0 <= a < at ==> !#[trigger] occurs_at(s@, needle@, a),
    {
        let mut k: usize = 0;
        while k < n.len() && x[at + k] == n[k]
            invariant
                x@ == s@,
                n@ == needle@,
                k <= n@.len(),
                at + n@.len() <= x@.len() <= usize::MAX,
                forall|j: int| 0 <= j < k ==> x@[at + j] == n@[j],
            ensures
                k == n@.len() || x@[at + k] != n@[k as int],
                k <= n@.len(),
                forall|j: int| 0 <= j < k ==> x@[at + j] == n@[j],
            decreases n@.len() - k,
        {
            k = k + 1;
        }
        if k == n.len() {
            assert(s@.subrange(at as int, at + needle@.len()) =~= needle@);
            assert(occurs_at(s@, needle@, at as int));
            return true;
        }
        assert(s@.subrange(at as int, at + needle@.len())[k as int] != needle@[k as int]);
    }
    false
}

/// The Unicode property White_Space.
pub open spec fn is_white_space(c: char) -> bool {
    let v = c as u32;
    ||| 0x09 <= v <= 0x0D
    ||| v == 0x20
    ||| v == 0x85
    ||| v == 0xA0
    ||| v == 0x1680
    ||| 0x2000 <= v <= 0x200A
    ||| v == 0x2028
    ||| v == 0x2029
    ||| v == 0x202F
    ||| v == 0x205F
    ||| v == 0x3000
}

fn white_space(c: char) -> (r: bool)
    ensures
        r == is_white_space(c),
{
    let v = c as u32;
    (0x09 <= v && v <= 0x0D) || v == 0x20 || v == 0x85 || v == 0xA0 || v == 0x1680 || (0x2000 <= v
        && v <= 0x200A) || v == 0x2028 || v == 0x2029 || v == 0x202F || v == 0x205F || v == 0x3000
}

/// `s` without the white space at its front.
pub open spec fn trim_front(s: Seq<char>) -> Seq<char>
    decreases s.len(),
{
    if s.len() > 0 && is_white_space(s[0]) {
        trim_front(s.drop_first())
    } else {
        s
    }
}

/// `s` without the white space at its back.
pub open spec fn trim_back(s: Seq<char>) -> Seq<char>
    decreases s.len(),
{
    if s.len() > 0 && is_white_space(s.last()) {
        trim_back(s.drop_last())
    } else {
        s
    }
}

/// `s` without the white space at its two ends.
pub open spec fn trimmed(s: Seq<char>) -> Seq<char> {
    trim_back(trim_front(s))
}

/// `s` without the white space at its two ends.
pub(crate) fn trim(s: &str) -> (r: String)
    ensures
        r@ == trimmed(s@),
{
    let x = chars_of(s);
    let mut lo: usize = 0;
    assert(x@.skip(0) =~= x@);
    while lo < x.len() && white_space(x[lo])
        invariant
            x@ == s@,
            lo <= x@.len(),
            trim_front(s@) == trim_front(x@.skip(lo as int)),
        ensures
            lo <= x@.len(),
            lo < x@.len() ==> !is_white_space(x@[lo as int]),
            trim_front(s@) == trim_front(x@.skip(lo as int)),
        decreases x@.len() - lo,
    {
        assert(x@.skip(lo as int).drop_first() =~= x@.skip(lo + 1));
        lo = lo + 1;
    }
    let ghost front = x@.skip(lo as int);
    assert(trim_front(s@) == front);
    let mut hi: usize = x.len();
    assert(x@.subrange(lo as int, hi as int) =~= front);
    while lo < hi && white_space(x[hi - 1])
        invariant
            x@ == s@,
            lo <= hi <= x@.len(),
            trim_back(front) == trim_back(x@.subrange(lo as int, hi as int)),
        ensures
            lo <= hi <= x@.len(),
            lo < hi ==> !is_white_space(x@[hi - 1]),
            trim_back(front) == trim_back(x@.subrange(lo as int, hi as int)),
        decreases hi,
    {
        assert(x@.subrange(lo as int, hi as int).drop_last() =~= x@.subrange(
            lo as int,
            hi - 1,
        ));
        hi = hi - 1;
    }
    let mut r = String::new();
    for i in lo..hi
        invariant
            lo <= hi <= x@.len(),
            r@ == x@.subrange(lo as int, i as int),
    {
        r.push(x[i]);
        assert(x@.subrange(lo as int, i + 1) =~= x@.subrange(lo as int, i as int).push(
            x@[i as int],
        ));
    }
    r
}

/// The digit for `d`.
pub open spec fn digit_char(d: nat) -> char {
    if d == 0 { '0' } else if d == 1 { '1' } else if d == 2 { '2' } else if d == 3 { '3' }
    else if d == 4 { '4' } else if d == 5 { '5' } else if d == 6 { '6' } else if d == 7 { '7' }
    else if d == 8 { '8' } else { '9' }
}

/// `n` in decimal, without leading zeros.
pub open spec fn decimal_text(n: nat) -> Seq<char>
    decreases n,
{
    if n < 10 {
        seq![digit_char(n)]
    } else {
        decimal_text(n / 10).push(digit_char(n % 10))
    }
}

/// `n` in decimal, without leading zeros.
pub(crate) fn decimal(n: u64) -> (r: String)
    ensures
        r@ == decimal_text(n as nat),
    decreases n,
{
    let d = n % 10;
    let c = if d == 0 { '0' } else if d == 1 { '1' } else if d == 2 { '2' } else if d == 3 { '3' }
        else if d == 4 { '4' } else if d == 5 { '5' } else if d == 6 { '6' } else if d == 7 { '7' }
        else if d == 8 { '8' } else { '9' };
    let mut r = if n < 10 { String::new() } else { decimal(n / 10) };
    r.push(c);
    assert(Seq::<char>::empty().push(c) =~= seq![c]);
    r
}

/// `n` in decimal, with a minus sign where it is negative.
pub open spec fn signed_text(n: int) -> Seq<char> {
    if n < 0 {
        seq!['-'] + decimal_text((-n) as nat)
    } else {
        decimal_text(n as nat)
    }
}

/// `n` in decimal, with a minus sign where it is negative.
pub(crate) fn signed_decimal(n: i64) -> (r: String)
    ensures
        r@ == signed_text(n as int),
{
    if n < 0 {
        let digits = decimal((-(n + 1)) as u64 + 1);
        proof {
            reveal_strlit("-");
            assert("-"@ =~= seq!['-']);
        }
        concat("-", digits.as_str())
    } else {
        decimal(n as u64)
    }
}

/// Decimal text holds digits only, and at least one.
pub proof fn lemma_decimal_digits(n: nat)
    ensures
        decimal_text(n).len() > 0,
        forall|i: int| 0 <= i < decimal_text(n).len() ==> is_ascii_digit(#[trigger] decimal_text(n)[i]),
    decreases n,
{
    if n >= 10 {
        lemma_decimal_digits(n / 10);
    }
}

/// The texts in `parts`, one after the other, with `sep` between neighbours.
pub open spec fn joined(parts: Seq<Seq<char>>, sep: Seq<char>) -> Seq<char>
    decreases parts.len(),
{
    if parts.len() == 0 {
        Seq::empty()
    } else if parts.len() == 1 {
        parts[0]
    } else {
        joined(parts.drop_last(), sep) + sep + parts.last()
    }
}

/// The first `n` characters of `s`, or all of them where there are fewer.
pub(crate) fn prefix(s: &str, n: usize) -> (r: String)
    ensures
        r@ == (if s@.len() <= n { s@ } else { s@.take(n as int) }),
{
    let chars = chars_of(s);
    let m = if chars.len() <= n { chars.len() } else { n };
    let mut r = String::new();
    for i in 0..m
        invariant
            chars@ == s@,
            m <= chars@.len(),
            r@ == s@.take(i as int),
    {
        r.push(chars[i]);
        assert(s@.take(i + 1) =~= s@.take(i as int).push(s@[i as int]));
    }
    assert(s@.take(s@.len() as int) =~= s@);
    r
}

/// `a` followed by `b`.
pub(crate) fn concat(a: &str, b: &str) -> (r: String)
    ensures
        r@ == a@ + b@,
{
    let mut r = a.to_owned();
    r.append(b);
    r
}

/// `a`, then `b`, then `c`.
pub(crate) fn concat3(a: &str, b: &str, c: &str) -> (r: String)
    ensures
        r@ == a@ + b@ + c@,
{
    let mut r = a.to_owned();
    r.append(b);
    r.append(c);
    r
}

/// Every character of `s` is white space.
pub open spec fn all_white(s: Seq<char>) -> bool {
    forall|i: int| 0 <= i < s.len() ==> is_white_space(#[trigger] s[i])
}

proof fn lemma_trim_front(s: Seq<char>) -> (n: int)
    ensures
        0 <= n <= s.len(),
        all_white(s.take(n)),
        trim_front(s) == s.skip(n),
        n < s.len() ==> !is_white_space(s[n]),
    decreases s.len(),
{
    if s.len() > 0 && is_white_space(s[0]) {
        let rest = s.drop_first();
        let n = lemma_trim_front(rest);
        assert(rest.skip(n) =~= s.skip(n + 1));
        assert forall|i: int| 0 <= i < n + 1 implies is_white_space(#[trigger] s.take(n + 1)[i]) by {
            if i > 0 {
                assert(rest.take(n)[i - 1] == s[i]);
            }
        }
        if n < rest.len() {
            assert(rest[n] == s[n + 1]);
        }
        n + 1
    } else {
        assert(s.skip(0) =~= s);
        0
    }
}

proof fn lemma_trim_back(s: Seq<char>) -> (n: int)
    ensures
        0 <= n <= s.len(),
        all_white(s.skip(n)),
        trim_back(s) == s.take(n),
        n > 0 ==> !is_white_space(s[n - 1]),
    decreases s.len(),
{
    if s.len() > 0 && is_white_space(s.last()) {
        let rest = s.drop_last();
        let n = lemma_trim_back(rest);
        assert(rest.take(n) =~= s.take(n));
        assert forall|i: int| 0 <= i < s.skip(n).len() implies is_white_space(
            #[trigger] s.skip(n)[i],
        ) by {
            if n + i < rest.len() {
                assert(rest.skip(n)[i] == s[n + i]);
            }
        }
        n
    } else {
        assert(s.take(s.len() as int) =~= s);
        s.len() as int
    }
}

/// Trimming takes nothing but white space, and takes all of it at both ends.
pub proof fn trimming_takes_white_space_only(s: Seq<char>)
    ensures
        exists|front: int, back: int|
            0 <= front <= back <= s.len() && all_white(s.take(front)) && all_white(s.skip(back))
                && trimmed(s) == #[trigger] s.subrange(front, back),
        trimmed(s).len() > 0 ==> !is_white_space(trimmed(s)[0]) && !is_white_space(
            trimmed(s).last(),
        ),
{
    let front = lemma_trim_front(s);
    let rest = s.skip(front);
    let n = lemma_trim_back(rest);
    let back = front + n;
    assert(rest.take(n) =~= s.subrange(front, back));
    assert(rest.skip(n) =~= s.skip(back));
}

/// The number that a text of decimal digits is read as.
pub open spec fn number_in(text: Seq<char>) -> int
    decreases text.len(),
{
    if text.len() == 0 {
        0
    } else {
        number_in(text.drop_last()) * 10 + (text.last() as int - '0' as int)
    }
}

/// Decimal text reads back as the number that was written.
pub proof fn decimal_reads_back(n: nat)
    ensures
        number_in(decimal_text(n)) == n,
    decreases n,
{
    if n < 10 {
        reveal_with_fuel(number_in, 2);
    } else {
        decimal_reads_back(n / 10);
        assert(decimal_text(n).drop_last() =~= decimal_text(n / 10));
    }
}

} // verus!
