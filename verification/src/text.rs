//! Character sequences: the view of every string in this crate is a
//! `Seq<char>`, and the scanners work on `Vec<char>`.
use vstd::prelude::*;

verus! {

/// Index of the first `c` in `s` at or after `from`, or `s.len()` if there is none.
pub open spec fn find_from(s: Seq<char>, c: char, from: int) -> int
    decreases s.len() - from,
{
    if from < 0 || from >= s.len() {
        s.len() as int
    } else if s[from] == c {
        from
    } else {
        find_from(s, c, from + 1)
    }
}

/// Index of the last `c` among the first `upto` characters of `s`, or `-1`.
pub open spec fn find_last(s: Seq<char>, c: char, upto: int) -> int
    decreases upto,
{
    if upto <= 0 || upto > s.len() {
        -1
    } else if s[upto - 1] == c {
        upto - 1
    } else {
        find_last(s, c, upto - 1)
    }
}

/// `pat` stands in `s` at index `i`.
pub open spec fn has_at(s: Seq<char>, i: int, pat: Seq<char>) -> bool {
    0 <= i && i + pat.len() <= s.len() && s.subrange(i, i + pat.len()) == pat
}

/// The lower-case form of an ASCII capital; any other character is itself.
pub open spec fn ascii_lower_char(c: char) -> char {
    if 'A' <= c && c <= 'Z' {
        ((c as u8) + 32) as char
    } else {
        c
    }
}

/// `s` with each ASCII capital replaced by its lower-case form.
pub open spec fn ascii_lowered(s: Seq<char>) -> Seq<char> {
    Seq::new(s.len(), |i: int| ascii_lower_char(s[i]))
}

/// The decimal digit for `d`, where `d < 10`.
pub open spec fn digit(d: nat) -> char {
    ((d + 48) as u8) as char
}

/// The decimal numeral of `n`, without leading zeros.
pub open spec fn decimal(n: nat) -> Seq<char>
    decreases n,
{
    if n < 10 {
        seq![digit(n)]
    } else {
        decimal(n / 10).push(digit(n % 10))
    }
}

/// The number that a numeral stands for: the inverse of `decimal`.
pub open spec fn numeral_value(s: Seq<char>) -> nat
    decreases s.len(),
{
    if s.len() == 0 {
        0
    } else {
        numeral_value(s.drop_last()) * 10 + ((s.last() as nat) - 48) as nat
    }
}

/// A numeral is never empty.
pub proof fn decimal_is_not_empty(n: nat)
    ensures
        decimal(n).len() >= 1,
    decreases n,
{
    if n >= 10 {
        decimal_is_not_empty(n / 10);
    }
}

/// Reading a numeral gives the number back.
pub proof fn decimal_round_trip(n: nat)
    ensures
        numeral_value(decimal(n)) == n,
    decreases n,
{
    if n < 10 {
        assert(decimal(n).drop_last() =~= Seq::<char>::empty());
        assert(numeral_value(Seq::<char>::empty()) == 0);
    } else {
        decimal_round_trip(n / 10);
        let d = decimal(n / 10).push(digit(n % 10));
        assert(d.drop_last() =~= decimal(n / 10));
    }
}

/// Distinct numbers have distinct numerals.
pub proof fn decimal_is_injective(a: nat, b: nat)
    requires
        decimal(a) == decimal(b),
    ensures
        a == b,
{
    decimal_round_trip(a);
    decimal_round_trip(b);
}

/// `find_from` returns an index in range at which `c` stands, with no `c`
/// between `from` and it; or the length, and then no `c` follows `from`.
pub proof fn find_from_is_first(s: Seq<char>, c: char, from: int)
    requires
        0 <= from <= s.len(),
    ensures
        from <= find_from(s, c, from) <= s.len(),
        find_from(s, c, from) < s.len() ==> s[find_from(s, c, from)] == c,
        forall|j: int| from <= j < find_from(s, c, from) ==> s[j] != c,
    decreases s.len() - from,
{
    if from < s.len() && s[from] != c {
        find_from_is_first(s, c, from + 1);
    }
}

/// `find_last` returns an index below `upto` at which `c` stands, with no
/// `c` between it and `upto`; or `-1`, and then no `c` stands below `upto`.
pub proof fn find_last_is_last(s: Seq<char>, c: char, upto: int)
    requires
        0 <= upto <= s.len(),
    ensures
        -1 <= find_last(s, c, upto) < upto,
        find_last(s, c, upto) >= 0 ==> s[find_last(s, c, upto)] == c,
        forall|j: int| find_last(s, c, upto) < j < upto ==> s[j] != c,
    decreases upto,
{
    if upto > 0 && s[upto - 1] != c {
        find_last_is_last(s, c, upto - 1);
    }
}

/// Appends one character to a string.
///
/// Trusted: stands for `String::push`, which adds the character at the end
/// and leaves what was there as it is.
#[verifier::external_body]
pub(crate) fn push_char(s: &mut String, c: char)
    ensures
        final(s)@ == old(s)@.push(c),
{
    s.push(c)
}

/// The result of `String::from_utf8_lossy` on bytes that are not UTF-8.
pub uninterp spec fn repaired_text(bytes: Seq<u8>) -> Seq<char>;

/// The text that bytes stand for: what they encode where they are UTF-8.
pub open spec fn text_of(bytes: Seq<u8>) -> Seq<char> {
    if vstd::utf8::valid_utf8(bytes) {
        vstd::utf8::decode_utf8(bytes)
    } else {
        repaired_text(bytes)
    }
}

/// Reads bytes as text.
///
/// Trusted: calls `String::from_utf8_lossy`, which returns the text that
/// valid UTF-8 encodes; for other bytes nothing is claimed but that the
/// result is that function's.
#[verifier::external_body]
pub(crate) fn text_of_bytes(bytes: &[u8]) -> (r: String)
    ensures
        r@ == if vstd::utf8::valid_utf8(bytes@) {
            vstd::utf8::decode_utf8(bytes@)
        } else {
            repaired_text(bytes@)
        },
{
    String::from_utf8_lossy(bytes).into_owned()
}

/// The characters of `s`, in order.
pub fn chars_of(s: &str) -> (r: Vec<char>)
    ensures
        r@ == s@,
{
    let mut out: Vec<char> = Vec::new();
    for c in it: s.chars()
        invariant
            out@ == it.seq().take(it.index() as int),
            it.seq() == s@,
    {
        out.push(c);
    }
    out
}

/// The string that holds the characters `v[from..to]`.
pub fn string_of_range(v: &Vec<char>, from: usize, to: usize) -> (r: String)
    requires
        from <= to <= v.len(),
    ensures
        r@ == v@.subrange(from as int, to as int),
{
    let mut out = String::new();
    let mut i: usize = from;
    while i < to
        invariant
            from <= i <= to <= v.len(),
            out@ == v@.subrange(from as int, i as int),
        decreases to - i,
    {
        push_char(&mut out, v[i]);
        i += 1;
    }
    out
}

/// The string that holds the characters of `v`, in order.
pub fn string_of(v: &Vec<char>) -> (r: String)
    ensures
        r@ == v@,
{
    let r = string_of_range(v, 0, v.len());
    r
}

/// Appends the characters `src[from..to]` to `out`.
pub fn append_range(out: &mut Vec<char>, src: &Vec<char>, from: usize, to: usize)
    requires
        from <= to <= src.len(),
    ensures
        final(out)@ == old(out)@ + src@.subrange(from as int, to as int),
{
    let mut i: usize = from;
    while i < to
        invariant
            from <= i <= to <= src.len(),
            out@ == old(out)@ + src@.subrange(from as int, i as int),
        decreases to - i,
    {
        out.push(src[i]);
        i += 1;
    }
}

/// Appends the characters of `s` to `out`.
pub fn append_str(out: &mut Vec<char>, s: &str)
    ensures
        final(out)@ == old(out)@ + s@,
{
    for c in it: s.chars()
        invariant
            out@ == old(out)@ + it.seq().take(it.index() as int),
            it.seq() == s@,
    {
        out.push(c);
    }
}

/// Whether `pat` stands in `v` at index `i`.
pub fn matches_at(v: &Vec<char>, i: usize, pat: &str) -> (r: bool)
    ensures
        r == has_at(v@, i as int, pat@),
{
    let p = chars_of(pat);
    if i > v.len() || p.len() > v.len() - i {
        return false;
    }
    let mut k: usize = 0;
    while k < p.len()
        invariant
            k <= p.len(),
            i + p.len() <= v.len(),
            p@ == pat@,
            v@.subrange(i as int, i + k) == p@.take(k as int),
        decreases p.len() - k,
    {
        if v[i + k] != p[k] {
            return false;
        }
        k += 1;
    }
    assert(p@.take(p.len() as int) =~= p@);
    true
}

/// Index of the first `c` in `v` at or after `from`, or `v.len()`.
pub fn find_char_from(v: &Vec<char>, c: char, from: usize) -> (r: usize)
    requires
        from <= v.len(),
    ensures
        r == find_from(v@, c, from as int),
        from <= r <= v.len(),
{
    let mut i: usize = from;
    while i < v.len() && v[i] != c
        invariant
            from <= i <= v.len(),
            find_from(v@, c, i as int) == find_from(v@, c, from as int),
        decreases v.len() - i,
    {
        i += 1;
    }
    i
}

/// Index of the last `c` among the first `upto` characters of `v`.
pub fn find_last_char(v: &Vec<char>, c: char, upto: usize) -> (r: Option<usize>)
    requires
        upto <= v.len(),
    ensures
        match r {
            Some(i) => i == find_last(v@, c, upto as int) && i < upto,
            None => find_last(v@, c, upto as int) == -1,
        },
{
    let mut i: usize = upto;
    while i > 0
        invariant
            i <= upto <= v.len(),
            find_last(v@, c, i as int) == find_last(v@, c, upto as int),
        decreases i,
    {
        if v[i - 1] == c {
            return Some(i - 1);
        }
        i -= 1;
    }
    None
}

/// Whether `v[from..to]` holds the characters of `word`.
pub fn range_is(v: &Vec<char>, from: usize, to: usize, word: &str) -> (r: bool)
    requires
        from <= to <= v.len(),
    ensures
        r == (v@.subrange(from as int, to as int) == word@),
{
    let w = chars_of(word);
    if w.len() != to - from {
        return false;
    }
    let hit = matches_at(v, from, word);
    hit
}

/// Whether `v[from..to]` holds `word` up to the case of ASCII letters.
/// `word` is expected in lower case.
pub fn range_is_ignoring_case(v: &Vec<char>, from: usize, to: usize, word: &str) -> (r: bool)
    requires
        from <= to <= v.len(),
    ensures
        r == (ascii_lowered(v@.subrange(from as int, to as int)) == word@),
{
    let w = chars_of(word);
    if w.len() != to - from {
        return false;
    }
    let ghost part = v@.subrange(from as int, to as int);
    let mut k: usize = 0;
    while k < w.len()
        invariant
            k <= w.len(),
            w.len() == to - from,
            from <= to <= v.len(),
            w@ == word@,
            part == v@.subrange(from as int, to as int),
            forall|j: int| 0 <= j < k ==> ascii_lowered(part)[j] == w@[j],
        decreases w.len() - k,
    {
        let c = lower_ascii(v[from + k]);
        if c != w[k] {
            return false;
        }
        k += 1;
    }
    assert(ascii_lowered(part) =~= w@);
    true
}

/// The lower-case form of an ASCII capital; any other character is itself.
pub fn lower_ascii(c: char) -> (r: char)
    ensures
        r == ascii_lower_char(c),
{
    if 'A' <= c && c <= 'Z' {
        ((c as u8) + 32) as char
    } else {
        c
    }
}

/// The decimal numeral of `n`.
pub fn decimal_chars(n: u128) -> (r: Vec<char>)
    ensures
        r@ == decimal(n as nat),
    decreases n,
{
    if n < 10 {
        let mut out: Vec<char> = Vec::new();
        out.push(digit_of((n % 10) as u8));
        out
    } else {
        let mut out = decimal_chars(n / 10);
        out.push(digit_of((n % 10) as u8));
        out
    }
}

/// The decimal digit for `d`.
pub fn digit_of(d: u8) -> (r: char)
    requires
        d < 10,
    ensures
        r == digit(d as nat),
{
    (d + 48) as char
}

} // verus!
