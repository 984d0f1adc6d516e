//! Strings as sequences of characters: searching, replacing, padding and
//! printing numbers.

use vstd::prelude::*;

verus! {

/// `String::push` appends one character to the end of the string.
pub assume_specification[ String::push ](s: &mut String, ch: char)
    ensures
        final(s)@ == old(s)@.push(ch),
;

/// `String::pop` removes the last character of the string and gives it; it gives
/// none where the string is empty.
pub assume_specification[ String::pop ](s: &mut String) -> (r: Option<char>)
    ensures
        old(s)@.len() == 0 ==> r is None && final(s)@ == old(s)@,
        old(s)@.len() > 0 ==> r == Some(old(s)@.last()) && final(s)@ == old(s)@.drop_last(),
;

/// Whether `needle` stands in `hay` at index `at`.
pub open spec fn occurs_at(hay: Seq<char>, at: int, needle: Seq<char>) -> bool {
    &&& 0 <= at
    &&& at + needle.len() <= hay.len()
    &&& hay.subrange(at, at + needle.len()) == needle
}

/// Whether `needle` stands anywhere in `hay`.
pub open spec fn contains_text(hay: Seq<char>, needle: Seq<char>) -> bool {
    exists|at: int| occurs_at(hay, at, needle)
}

/// `hay` with every occurrence of `from`, found from the left without overlap,
/// replaced by `to`.
pub open spec fn replaced(hay: Seq<char>, from: Seq<char>, to: Seq<char>) -> Seq<char>
    decreases hay.len(),
{
    if from.len() == 0 || hay.len() < from.len() {
        hay
    } else if occurs_at(hay, 0, from) {
        to + replaced(hay.skip(from.len() as int), from, to)
    } else {
        seq![hay[0]] + replaced(hay.skip(1), from, to)
    }
}

/// The character of a decimal digit.
pub open spec fn digit(d: nat) -> char {
    (48 + d) as char
}

/// The shortest decimal form of a number.
pub open spec fn decimal(n: nat) -> Seq<char>
    decreases n,
{
    if n < 10 {
        seq![digit(n)]
    } else {
        decimal(n / 10).push(digit(n % 10))
    }
}

/// The decimal form of a number below one hundred, with a leading zero where it
/// has one digit only.
pub open spec fn two_digits(n: nat) -> Seq<char> {
    seq![digit(n / 10), digit(n % 10)]
}

/// `count` times the character `ch`.
pub open spec fn repeated(ch: char, count: nat) -> Seq<char> {
    Seq::new(count, |i: int| ch)
}

/// How many characters are missing for `len` to reach `width`.
pub open spec fn missing(len: nat, width: nat) -> nat {
    if len < width {
        (width - len) as nat
    } else {
        0
    }
}

/// The characters that Unicode gives the property `White_Space`.
pub open spec fn white_space(ch: char) -> bool {
    let code = ch as u32;
    ||| 0x09 <= code <= 0x0d
    ||| code == 0x20
    ||| code == 0x85
    ||| code == 0xa0
    ||| code == 0x1680
    ||| 0x2000 <= code <= 0x200a
    ||| code == 0x2028
    ||| code == 0x2029
    ||| code == 0x202f
    ||| code == 0x205f
    ||| code == 0x3000
}

/// `s` without the white space at its start.
pub open spec fn trimmed_start(s: Seq<char>) -> Seq<char>
    decreases s.len(),
{
    if s.len() > 0 && white_space(s[0]) {
        trimmed_start(s.skip(1))
    } else {
        s
    }
}

/// `s` without the white space at its end.
pub open spec fn trimmed_end(s: Seq<char>) -> Seq<char>
    decreases s.len(),
{
    if s.len() > 0 && white_space(s.last()) {
        trimmed_end(s.drop_last())
    } else {
        s
    }
}

/// `s` without the white space at its start and at its end.
pub open spec fn trimmed(s: Seq<char>) -> Seq<char> {
    trimmed_end(trimmed_start(s))
}

/// The characters of a string.
pub fn chars_of(s: &str) -> (v: Vec<char>)
    ensures
        v@ == s@,
{
    let mut v: Vec<char> = Vec::new();
    for ch in it: s.chars()
        invariant
            v@ == it.seq().take(it.index()),
            it.seq() == s@,
    {
        v.push(ch);
        assert(it.seq().take(it.index() + 1) == it.seq().take(it.index()).push(ch));
    }
    assert(v@ == s@);
    v
}

/// The string of `chars[from..to]`.
pub fn string_of(chars: &Vec<char>, from: usize, to: usize) -> (s: String)
    requires
        from <= to <= chars.len(),
    ensures
        s@ == chars@.subrange(from as int, to as int),
{
    let mut s = String::new();
    let mut i: usize = from;
    while i < to
        invariant
            from <= i <= to <= chars.len(),
            s@ == chars@.subrange(from as int, i as int),
        decreases to - i,
    {
        s.push(chars[i]);
        i += 1;
        assert(chars@.subrange(from as int, i as int) == chars@.subrange(from as int, i - 1).push(
            chars@[i - 1],
        ));
    }
    s
}

/// Whether two strings hold the same characters.
pub fn same_text(a: &str, b: &str) -> (r: bool)
    ensures
        r == (a@ == b@),
{
    a.to_string() == b.to_string()
}

/// `a` followed by `b`.
pub fn joined(a: &str, b: &str) -> (r: String)
    ensures
        r@ == a@ + b@,
{
    let mut s = a.to_string();
    s.append(b);
    s
}

/// Whether `needle` stands in `hay` at index `at`.
pub fn stands_at(hay: &Vec<char>, at: usize, needle: &Vec<char>) -> (r: bool)
    ensures
        r == occurs_at(hay@, at as int, needle@),
{
    if at > hay.len() || hay.len() - at < needle.len() {
        return false;
    }
    let mut i: usize = 0;
    while i < needle.len()
        invariant
            at + needle.len() <= hay.len(),
            i <= needle.len(),
            forall|j: int| 0 <= j < i ==> hay@[at + j] == needle@[j],
        decreases needle.len() - i,
    {
        if hay[at + i] != needle[i] {
            proof {
                let sub = hay@.subrange(at as int, at + needle@.len());
                assert(sub[i as int] == hay@[at + i]);
            }
            return false;
        }
        i += 1;
    }
    proof {
        assert(hay@.subrange(at as int, at + needle@.len()) =~= needle@);
    }
    true
}

/// Whether `needle` stands anywhere in `hay`.
pub fn contains(hay: &str, needle: &str) -> (r: bool)
    ensures
        r == contains_text(hay@, needle@),
{
    let h = chars_of(hay);
    let n = chars_of(needle);
    let mut at: usize = 0;
    while at <= h.len() && n.len() <= h.len() - at
        invariant
            h@ == hay@,
            n@ == needle@,
            at <= h.len() + 1,
            forall|p: int| 0 <= p < at ==> !occurs_at(hay@, p, needle@),
        decreases h.len() + 1 - at,
    {
        if stands_at(&h, at, &n) {
            return true;
        }
        if at == h.len() {
            return false;
        }
        at += 1;
    }
    false
}

/// Whether `s` starts with `prefix`.
pub fn starts_with(s: &str, prefix: &str) -> (r: bool)
    ensures
        r == prefix@.is_prefix_of(s@),
{
    let h = chars_of(s);
    let n = chars_of(prefix);
    stands_at(&h, 0, &n)
}

/// `hay` with every occurrence of `from`, found from the left without overlap,
/// replaced by `to`.
pub fn replace_all(hay: &str, from: &str, to: &str) -> (r: String)
    requires
        from@.len() > 0,
    ensures
        r@ == replaced(hay@, from@, to@),
{
    let h = chars_of(hay);
    let f = chars_of(from);
    let mut out = String::new();
    let mut at: usize = 0;
    proof {
        assert(h@.skip(0) == h@);
        assert(out@ + replaced(h@, f@, to@) == replaced(h@, f@, to@));
    }
    while at < h.len()
        invariant
            h@ == hay@,
            f@ == from@,
            f.len() > 0,
            at <= h.len(),
            out@ + replaced(h@.skip(at as int), f@, to@) == replaced(h@, f@, to@),
        decreases h.len() - at,
    {
        let ghost rest = h@.skip(at as int);
        let found = stands_at(&h, at, &f);
        proof {
            assert(found == occurs_at(rest, 0, f@)) by {
                if at + f.len() <= h.len() {
                    assert(rest.subrange(0, f@.len() as int) == h@.subrange(
                        at as int,
                        at + f@.len(),
                    ));
                }
            }
        }
        if found {
            out.append(to);
            at += f.len();
            proof {
                assert(rest.skip(f@.len() as int) == h@.skip(at as int));
            }
        } else {
            out.push(h[at]);
            at += 1;
            proof {
                assert(rest.skip(1) == h@.skip(at as int));
                if rest.len() < f@.len() {
                    assert(replaced(rest.skip(1), f@, to@) == rest.skip(1));
                    assert(rest == seq![rest[0]] + rest.skip(1));
                }
            }
        }
        proof {
            assert(out@ + replaced(h@.skip(at as int), f@, to@) == replaced(h@, f@, to@));
        }
    }
    assert(replaced(h@.skip(at as int), f@, to@) == Seq::<char>::empty());
    out
}

/// The character of a decimal digit.
fn digit_char(d: u8) -> (ch: char)
    requires
        d < 10,
    ensures
        ch == digit(d as nat),
{
    (48u8 + d) as char
}

/// The shortest decimal form of a number.
pub fn decimal_string(n: u128) -> (s: String)
    ensures
        s@ == decimal(n as nat),
    decreases n,
{
    let mut s = if n < 10 {
        String::new()
    } else {
        decimal_string(n / 10)
    };
    s.push(digit_char((n % 10) as u8));
    s
}

/// The decimal form of a number below one hundred, with a leading zero where it
/// has one digit only.
pub fn two_digit_string(n: u64) -> (s: String)
    requires
        n < 100,
    ensures
        s@ == two_digits(n as nat),
{
    let mut s = String::new();
    s.push(digit_char((n / 10) as u8));
    s.push(digit_char((n % 10) as u8));
    s
}

/// `s` with spaces before it, so that it is at least `width` characters long.
pub fn pad_before(s: &str, width: usize) -> (r: String)
    ensures
        r@ == repeated(' ', missing(s@.len(), width as nat)) + s@,
{
    let len: usize = s.unicode_len();
    let mut r = String::new();
    let mut i: usize = len;
    while i < width
        invariant
            len == s@.len(),
            len <= i,
            len < width ==> i <= width,
            len >= width ==> i == len,
            r@ == repeated(' ', (i - len) as nat),
        decreases width - i,
    {
        r.push(' ');
        i += 1;
        assert(repeated(' ', (i - len) as nat) == repeated(' ', (i - 1 - len) as nat).push(' '));
    }
    r.append(s);
    r
}

/// Whether a character has the Unicode property `White_Space`.
fn is_white_space(ch: char) -> (r: bool)
    ensures
        r == white_space(ch),
{
    let code: u32 = ch as u32;
    (0x09 <= code && code <= 0x0d) || code == 0x20 || code == 0x85 || code == 0xa0 || code == 0x1680
        || (0x2000 <= code && code <= 0x200a) || code == 0x2028 || code == 0x2029 || code == 0x202f
        || code == 0x205f || code == 0x3000
}

/// `s` without the white space at its start and at its end.
pub fn trim(s: &str) -> (r: String)
    ensures
        r@ == trimmed(s@),
{
    let v = chars_of(s);
    let mut from: usize = 0;
    assert(v@.skip(0) == v@);
    while from < v.len() && is_white_space(v[from])
        invariant
            v@ == s@,
            from <= v.len(),
            trimmed_start(v@.skip(from as int)) == trimmed_start(s@),
        decreases v.len() - from,
    {
        assert(v@.skip(from as int).skip(1) == v@.skip(from + 1));
        from += 1;
    }
    assert(trimmed_start(s@) == v@.skip(from as int));
    let mut to: usize = v.len();
    assert(v@.skip(from as int) == v@.subrange(from as int, to as int));
    while to > from && is_white_space(v[to - 1])
        invariant
            v@ == s@,
            from <= to <= v.len(),
            trimmed_end(v@.subrange(from as int, to as int)) == trimmed(s@),
        decreases to,
    {
        assert(v@.subrange(from as int, to as int).drop_last() == v@.subrange(
            from as int,
            to - 1,
        ));
        to -= 1;
    }
    string_of(&v, from, to)
}

} // verus!
