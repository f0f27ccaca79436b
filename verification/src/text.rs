use vstd::prelude::*;
use vstd::string::*;
use vstd::utf8::encode_utf8;

verus! {

broadcast use vstd::slice::group_slice_axioms;

// ---------------------------------------------------------------------------
// Characters and their classes
// ---------------------------------------------------------------------------

/// The characters with the Unicode `White_Space` property, which is what
/// `char::is_whitespace` (and so `str::trim`) tests.
pub open spec fn is_white_space(c: char) -> bool {
    let u = c as u32;
    ||| 0x09 <= u <= 0x0d
    ||| u == 0x20
    ||| u == 0x85
    ||| u == 0xa0
    ||| u == 0x1680
    ||| 0x2000 <= u <= 0x200a
    ||| u == 0x2028
    ||| u == 0x2029
    ||| u == 0x202f
    ||| u == 0x205f
    ||| u == 0x3000
}

/// Whether `c` is white space, as `char::is_whitespace` answers.
pub fn char_is_white_space(c: char) -> (b: bool)
    ensures
        b == is_white_space(c),
{
    let u = c as u32;
    (0x09 <= u && u <= 0x0d) || u == 0x20 || u == 0x85 || u == 0xa0 || u == 0x1680 || (0x2000
        <= u && u <= 0x200a) || u == 0x2028 || u == 0x2029 || u == 0x202f || u == 0x205f || u
        == 0x3000
}

/// The number of bytes of the UTF-8 encoding of `c`.
pub open spec fn char_width(c: char) -> nat {
    let u = c as u32;
    if u <= 0x7f {
        1
    } else if u <= 0x7ff {
        2
    } else if u <= 0xffff {
        3
    } else {
        4
    }
}

/// The number of bytes of the UTF-8 encoding of `s`, which is what
/// `str::len` and `String::len` return.
pub open spec fn utf8_len(s: Seq<char>) -> nat
    decreases s.len(),
{
    if s.len() == 0 {
        0
    } else {
        char_width(s[0]) + utf8_len(s.drop_first())
    }
}

/// `utf8_len` counts the bytes of vstd's UTF-8 encoding.
pub proof fn lemma_utf8_len_encode(s: Seq<char>)
    ensures
        encode_utf8(s).len() == utf8_len(s),
    decreases s.len(),
{
    if s.len() > 0 {
        lemma_utf8_len_encode(s.drop_first());
        vstd::utf8::char_is_scalar(s[0]);
    }
}

/// `utf8_len` adds up over concatenation.
pub proof fn lemma_utf8_len_concat(a: Seq<char>, b: Seq<char>)
    ensures
        utf8_len(a + b) == utf8_len(a) + utf8_len(b),
    decreases a.len(),
{
    if a.len() > 0 {
        assert((a + b).drop_first() =~= a.drop_first() + b);
        lemma_utf8_len_concat(a.drop_first(), b);
    } else {
        assert(a + b =~= b);
    }
}

/// The number of bytes of the UTF-8 encoding of `s`.
pub fn byte_len(s: &str) -> (n: usize)
    ensures
        n == utf8_len(s@),
{
    proof {
        lemma_utf8_len_encode(s@);
    }
    let bytes = s.as_bytes();
    bytes.len()
}

// ---------------------------------------------------------------------------
// Building strings
// ---------------------------------------------------------------------------

/// Appends `c` to `s` by `String::push`, which std documents as appending the
/// given char to the end of the string.
#[verifier::external_body]
pub(crate) fn push_char(s: &mut String, c: char)
    ensures
        final(s)@ == old(s)@.push(c),
{
    s.push(c);
}

/// Appends the characters of `v` to `s`.
pub fn push_chars(s: &mut String, v: &Vec<char>)
    ensures
        final(s)@ == old(s)@ + v@,
{
    let mut i: usize = 0;
    while i < v.len()
        invariant
            i <= v.len(),
            s@ == old(s)@ + v@.take(i as int),
        decreases v.len() - i,
    {
        push_char(s, v[i]);
        i = i + 1;
        assert(v@.take(i as int) =~= v@.take(i - 1).push(v@[i - 1]));
    }
    assert(v@.take(v.len() as int) =~= v@);
}

/// The string of the characters of `v`.
pub fn string_from_chars(v: &Vec<char>) -> (s: String)
    ensures
        s@ == v@,
{
    let mut s = String::new();
    push_chars(&mut s, v);
    assert(s@ =~= v@);
    s
}

/// The characters of `s`, in order.
pub fn chars_of(s: &str) -> (v: Vec<char>)
    ensures
        v@ == s@,
{
    let n = s.unicode_len();
    let mut v: Vec<char> = Vec::new();
    let mut i: usize = 0;
    while i < n
        invariant
            n == s@.len(),
            i <= n,
            v@ == s@.take(i as int),
        decreases n - i,
    {
        let c = s.get_char(i);
        v.push(c);
        i = i + 1;
        assert(v@ =~= s@.take(i as int));
    }
    assert(s@.take(n as int) =~= s@);
    v
}

/// Appends the characters of `t` to `s`.
pub fn push_str(s: &mut String, t: &str)
    ensures
        final(s)@ == old(s)@ + t@,
{
    let v = chars_of(t);
    push_chars(s, &v);
}

/// A new string holding the characters of `t`.
pub fn owned(t: &str) -> (s: String)
    ensures
        s@ == t@,
{
    let mut s = String::new();
    push_str(&mut s, t);
    assert(s@ =~= t@);
    s
}

// ---------------------------------------------------------------------------
// Decimal numbers
// ---------------------------------------------------------------------------

/// The ASCII digit for `d < 10`.
pub open spec fn digit_char(d: nat) -> char {
    if d == 0 {
        '0'
    } else if d == 1 {
        '1'
    } else if d == 2 {
        '2'
    } else if d == 3 {
        '3'
    } else if d == 4 {
        '4'
    } else if d == 5 {
        '5'
    } else if d == 6 {
        '6'
    } else if d == 7 {
        '7'
    } else if d == 8 {
        '8'
    } else {
        '9'
    }
}

/// The decimal digits of `n`, without leading zeros, as `{}` prints it.
pub open spec fn decimal_nat(n: nat) -> Seq<char>
    decreases n,
{
    if n < 10 {
        seq![digit_char(n)]
    } else {
        decimal_nat(n / 10).push(digit_char(n % 10))
    }
}

/// The decimal text of an integer, as `{}` prints it: a minus sign before the
/// digits of a negative number.
pub open spec fn decimal_int(i: int) -> Seq<char> {
    if i < 0 {
        seq!['-'] + decimal_nat((-i) as nat)
    } else {
        decimal_nat(i as nat)
    }
}

fn digit(d: u64) -> (c: char)
    requires
        d < 10,
    ensures
        c == digit_char(d as nat),
{
    if d == 0 {
        '0'
    } else if d == 1 {
        '1'
    } else if d == 2 {
        '2'
    } else if d == 3 {
        '3'
    } else if d == 4 {
        '4'
    } else if d == 5 {
        '5'
    } else if d == 6 {
        '6'
    } else if d == 7 {
        '7'
    } else if d == 8 {
        '8'
    } else {
        '9'
    }
}

/// Appends the decimal digits of `n` to `s`.
pub fn push_decimal_u64(s: &mut String, n: u64)
    ensures
        final(s)@ == old(s)@ + decimal_nat(n as nat),
    decreases n,
{
    if n >= 10 {
        push_decimal_u64(s, n / 10);
    }
    push_char(s, digit(n % 10));
    assert(s@ =~= old(s)@ + decimal_nat(n as nat));
}

/// Appends the decimal text of `i` to `s`.
pub fn push_decimal_i32(s: &mut String, i: i32)
    ensures
        final(s)@ == old(s)@ + decimal_int(i as int),
{
    if i < 0 {
        push_char(s, '-');
        let m: i64 = -(i as i64);
        push_decimal_u64(s, m as u64);
        assert(s@ =~= old(s)@ + decimal_int(i as int));
    } else {
        push_decimal_u64(s, i as u64);
    }
}

/// The decimal text of `i`, as `i.to_string()` gives it.
pub fn i32_to_string(i: i32) -> (s: String)
    ensures
        s@ == decimal_int(i as int),
{
    let mut s = String::new();
    push_decimal_i32(&mut s, i);
    assert(s@ =~= decimal_int(i as int));
    s
}

// ---------------------------------------------------------------------------
// Trimming, searching, filtering
// ---------------------------------------------------------------------------

/// `s` without its leading white space.
pub open spec fn trim_start(s: Seq<char>) -> Seq<char>
    decreases s.len(),
{
    if s.len() > 0 && is_white_space(s[0]) {
        trim_start(s.drop_first())
    } else {
        s
    }
}

/// `s` without its trailing white space.
pub open spec fn trim_end(s: Seq<char>) -> Seq<char>
    decreases s.len(),
{
    if s.len() > 0 && is_white_space(s.last()) {
        trim_end(s.drop_last())
    } else {
        s
    }
}

/// `s` without leading and trailing white space, as `str::trim` gives it.
pub open spec fn trim(s: Seq<char>) -> Seq<char> {
    trim_end(trim_start(s))
}

/// The characters of `v` without leading and trailing white space.
pub fn trim_chars(v: &Vec<char>) -> (r: Vec<char>)
    ensures
        r@ == trim(v@),
{
    let n = v.len();
    let mut i: usize = 0;
    assert(v@.subrange(0, n as int) =~= v@);
    while i < n && char_is_white_space(v[i])
        invariant
            n == v@.len(),
            i <= n,
            trim_start(v@) == trim_start(v@.subrange(i as int, n as int)),
        decreases n - i,
    {
        assert(v@.subrange(i as int, n as int).drop_first() =~= v@.subrange(i + 1, n as int));
        i = i + 1;
    }
    assert(trim_start(v@) == v@.subrange(i as int, n as int));
    let mut j: usize = n;
    while j > i && char_is_white_space(v[j - 1])
        invariant
            n == v@.len(),
            i <= j <= n,
            trim_end(v@.subrange(i as int, n as int)) == trim_end(v@.subrange(i as int, j as int)),
        decreases j - i,
    {
        assert(v@.subrange(i as int, j as int).drop_last() =~= v@.subrange(i as int, j - 1));
        j = j - 1;
    }
    let mut r: Vec<char> = Vec::new();
    let mut k: usize = i;
    while k < j
        invariant
            i <= k <= j <= n,
            n == v@.len(),
            r@ == v@.subrange(i as int, k as int),
        decreases j - k,
    {
        r.push(v[k]);
        k = k + 1;
        assert(r@ =~= v@.subrange(i as int, k as int));
    }
    r
}

/// The text of `s` without leading and trailing white space.
pub fn trim_string(s: &str) -> (r: String)
    ensures
        r@ == trim(s@),
{
    let v = chars_of(s);
    let t = trim_chars(&v);
    string_from_chars(&t)
}

/// Whether `s` begins with `p`.
pub open spec fn has_prefix(s: Seq<char>, p: Seq<char>) -> bool {
    p.len() <= s.len() && s.subrange(0, p.len() as int) == p
}

/// Whether `p` occurs in `s` at position `i`.
pub open spec fn occurs_at(s: Seq<char>, p: Seq<char>, i: int) -> bool {
    0 <= i && i + p.len() <= s.len() && s.subrange(i, i + p.len()) == p
}

/// Whether `p` occurs anywhere in `s`, as `str::contains` answers.
pub open spec fn contains_text(s: Seq<char>, p: Seq<char>) -> bool {
    exists|i: int| occurs_at(s, p, i)
}

/// Whether `p` occurs in `s` at position `i`.
pub fn matches_at(s: &Vec<char>, p: &Vec<char>, i: usize) -> (b: bool)
    ensures
        b == occurs_at(s@, p@, i as int),
{
    if i > s.len() || p.len() > s.len() - i {
        return false;
    }
    let mut k: usize = 0;
    while k < p.len()
        invariant
            i + p.len() <= s.len(),
            k <= p@.len(),
            forall|m: int| 0 <= m < k ==> s@[i + m] == p@[m],
        decreases p.len() - k,
    {
        if s[i + k] != p[k] {
            assert(s@.subrange(i as int, i + p@.len())[k as int] != p@[k as int]);
            return false;
        }
        k = k + 1;
    }
    assert(s@.subrange(i as int, i + p@.len()) =~= p@);
    true
}

/// Whether `s` begins with `p`.
pub fn starts_with_chars(s: &Vec<char>, p: &Vec<char>) -> (b: bool)
    ensures
        b == has_prefix(s@, p@),
{
    matches_at(s, p, 0)
}

/// Whether `p` occurs anywhere in `s`.
pub fn contains_chars(s: &Vec<char>, p: &Vec<char>) -> (b: bool)
    ensures
        b == contains_text(s@, p@),
{
    if p.len() > s.len() {
        return false;
    }
    if p.len() == 0 {
        assert(s@.subrange(0, 0) =~= p@);
        assert(occurs_at(s@, p@, 0));
        return true;
    }
    let last = s.len() - p.len();
    let mut i: usize = 0;
    while i <= last
        invariant
            last == s@.len() - p@.len(),
            last < usize::MAX,
            p@.len() >= 1,
            i <= last + 1,
            forall|m: int| 0 <= m < i ==> !occurs_at(s@, p@, m),
        decreases last + 1 - i,
    {
        if matches_at(s, p, i) {
            return true;
        }
        i = i + 1;
    }
    false
}

/// `s` with every `c` removed, as `str::replace(c, "")` gives it.
pub open spec fn without_char(s: Seq<char>, c: char) -> Seq<char>
    decreases s.len(),
{
    if s.len() == 0 {
        seq![]
    } else if s.last() == c {
        without_char(s.drop_last(), c)
    } else {
        without_char(s.drop_last(), c).push(s.last())
    }
}

/// The characters of `v` with every `c` removed.
pub fn remove_char(v: &Vec<char>, c: char) -> (r: Vec<char>)
    ensures
        r@ == without_char(v@, c),
{
    let mut r: Vec<char> = Vec::new();
    let mut i: usize = 0;
    while i < v.len()
        invariant
            i <= v@.len(),
            r@ == without_char(v@.take(i as int), c),
        decreases v.len() - i,
    {
        assert(v@.take(i + 1).drop_last() =~= v@.take(i as int));
        if v[i] != c {
            r.push(v[i]);
        }
        i = i + 1;
    }
    assert(v@.take(v.len() as int) =~= v@);
    r
}

// ---------------------------------------------------------------------------
// Byte positions
// ---------------------------------------------------------------------------

/// Whether byte position `n` of the UTF-8 encoding of `s` starts a character
/// (or is its end), as `str::is_char_boundary` answers.
pub open spec fn is_boundary(s: Seq<char>, n: int) -> bool
    decreases s.len(),
{
    if n == 0 {
        true
    } else if n < 0 || s.len() == 0 {
        false
    } else {
        is_boundary(s.drop_first(), n - char_width(s[0]))
    }
}

/// The characters of `s` whose encoding lies within its first `n` bytes.
pub open spec fn byte_prefix(s: Seq<char>, n: int) -> Seq<char>
    decreases s.len(),
{
    if n <= 0 || s.len() == 0 {
        seq![]
    } else {
        seq![s[0]] + byte_prefix(s.drop_first(), n - char_width(s[0]))
    }
}

/// `s` cut to its first `n` bytes, as `String::truncate(n)` leaves it.
pub open spec fn truncate_bytes(s: Seq<char>, n: int) -> Seq<char> {
    if utf8_len(s) <= n {
        s
    } else {
        byte_prefix(s, n)
    }
}

/// The number of bytes of the UTF-8 encoding of `c`.
pub fn char_len_utf8(c: char) -> (w: usize)
    ensures
        w == char_width(c),
{
    let u = c as u32;
    if u <= 0x7f {
        1
    } else if u <= 0x7ff {
        2
    } else if u <= 0xffff {
        3
    } else {
        4
    }
}

proof fn lemma_byte_prefix_step(s: Seq<char>, i: int, n: int)
    requires
        0 <= i < s.len(),
        n > 0,
    ensures
        byte_prefix(s.subrange(i, s.len() as int), n) == seq![s[i]] + byte_prefix(
            s.subrange(i + 1, s.len() as int),
            n - char_width(s[i]),
        ),
        is_boundary(s.subrange(i, s.len() as int), n) == is_boundary(
            s.subrange(i + 1, s.len() as int),
            n - char_width(s[i]),
        ),
{
    assert(s.subrange(i, s.len() as int).drop_first() =~= s.subrange(i + 1, s.len() as int));
}

/// The characters of `v` within its first `n` bytes; `n` must fall on a
/// character boundary, as `String::truncate` demands.
pub fn byte_prefix_chars(v: &Vec<char>, n: usize) -> (r: Vec<char>)
    requires
        is_boundary(v@, n as int),
    ensures
        r@ == byte_prefix(v@, n as int),
{
    let len = v.len();
    let mut r: Vec<char> = Vec::new();
    let mut i: usize = 0;
    let mut acc: usize = 0;
    assert(v@.subrange(0, len as int) =~= v@);
    while acc < n
        invariant
            len == v@.len(),
            i <= len,
            acc <= n,
            r@ == v@.take(i as int),
            byte_prefix(v@, n as int) == r@ + byte_prefix(
                v@.subrange(i as int, len as int),
                n - acc,
            ),
            is_boundary(v@.subrange(i as int, len as int), n - acc),
        decreases len - i,
    {
        proof {
            lemma_byte_prefix_step(v@, i as int, n - acc);
        }
        let w = char_len_utf8(v[i]);
        r.push(v[i]);
        acc = acc + w;
        i = i + 1;
        assert(r@ =~= v@.take(i as int));
        assert(r@ =~= v@.take(i - 1) + seq![v@[i - 1]]);
    }
    assert(byte_prefix(v@.subrange(i as int, len as int), n - acc) =~= Seq::<char>::empty());
    assert(byte_prefix(v@, n as int) =~= r@);
    r
}

// ---------------------------------------------------------------------------
// Debug text of integer lists
// ---------------------------------------------------------------------------

/// The items of `s` in decimal, separated by `", "`.
pub open spec fn list_body(s: Seq<i32>) -> Seq<char>
    decreases s.len(),
{
    if s.len() == 0 {
        seq![]
    } else if s.len() == 1 {
        decimal_int(s[0] as int)
    } else {
        list_body(s.drop_last()) + seq![',', ' '] + decimal_int(s.last() as int)
    }
}

/// The text `{:?}` prints for a list of `i32`, such as `[1, -2, 3]`.
pub open spec fn debug_i32_list(s: Seq<i32>) -> Seq<char> {
    seq!['['] + list_body(s) + seq![']']
}

/// Appends the `{:?}` text of `v` to `s`.
pub fn push_debug_i32_list(s: &mut String, v: &Vec<i32>)
    ensures
        final(s)@ == old(s)@ + debug_i32_list(v@),
{
    push_char(s, '[');
    let mut i: usize = 0;
    while i < v.len()
        invariant
            i <= v@.len(),
            s@ == old(s)@ + seq!['['] + list_body(v@.take(i as int)),
        decreases v.len() - i,
    {
        let ghost before = s@;
        if i > 0 {
            push_char(s, ',');
            push_char(s, ' ');
        }
        push_decimal_i32(s, v[i]);
        assert(v@.take(i + 1).drop_last() =~= v@.take(i as int));
        i = i + 1;
        assert(s@ =~= old(s)@ + seq!['['] + list_body(v@.take(i as int)));
    }
    push_char(s, ']');
    assert(v@.take(v.len() as int) =~= v@);
    assert(s@ =~= old(s)@ + debug_i32_list(v@));
}

/// Whether two strings hold the same text.
pub fn same_text(a: &str, b: &str) -> (r: bool)
    ensures
        r == (a@ == b@),
{
    let x = chars_of(a);
    let y = chars_of(b);
    if x.len() != y.len() {
        return false;
    }
    let mut i: usize = 0;
    while i < x.len()
        invariant
            x@ == a@,
            y@ == b@,
            x@.len() == y@.len(),
            i <= x@.len(),
            forall|j: int| 0 <= j < i ==> x@[j] == y@[j],
        decreases x.len() - i,
    {
        if x[i] != y[i] {
            return false;
        }
        i = i + 1;
    }
    assert(x@ =~= y@);
    true
}

/// Adding a character adds its width to the byte length.
pub proof fn lemma_utf8_len_push(s: Seq<char>, c: char)
    ensures
        utf8_len(s.push(c)) == utf8_len(s) + char_width(c),
{
    lemma_utf8_len_concat(s, seq![c]);
    assert(s + seq![c] =~= s.push(c));
    assert(seq![c].drop_first() =~= Seq::<char>::empty());
    assert(utf8_len(seq![c]) == char_width(c) + utf8_len(seq![c].drop_first()));
}

/// A text of ASCII characters has as many bytes as characters.
pub proof fn lemma_utf8_len_ascii(s: Seq<char>)
    requires
        forall|i: int| 0 <= i < s.len() ==> (#[trigger] s[i] as u32) <= 0x7f,
    ensures
        utf8_len(s) == s.len(),
    decreases s.len(),
{
    if s.len() > 0 {
        assert forall|i: int| 0 <= i < s.drop_first().len() implies (#[trigger] s.drop_first()[i] as u32)
            <= 0x7f by {
            assert(s.drop_first()[i] == s[i + 1]);
        }
        assert((s[0] as u32) <= 0x7f);
        lemma_utf8_len_ascii(s.drop_first());
    }
}

/// Cutting a text at a character boundary `n` leaves exactly `n` bytes.
pub proof fn lemma_byte_prefix_len(s: Seq<char>, n: int)
    requires
        n >= 0,
        is_boundary(s, n),
    ensures
        utf8_len(byte_prefix(s, n)) == n,
    decreases s.len(),
{
    if n > 0 {
        assert(s.len() > 0);
        assert(is_boundary(s.drop_first(), n - char_width(s[0])));
        assert(n - char_width(s[0]) >= 0);
        lemma_byte_prefix_len(s.drop_first(), n - char_width(s[0]));
        let rest = byte_prefix(s.drop_first(), n - char_width(s[0]));
        assert((seq![s[0]] + rest).drop_first() =~= rest);
    }
}

} // verus!
