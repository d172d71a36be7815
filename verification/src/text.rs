//! Strings as sequences of characters.
//!
//! Names drive most decisions in this crate, so the handful of string
//! operations they need are written here over the characters of a string, each
//! with the sequence it produces as its contract.

use vstd::prelude::*;

verus! {

/// `String::push` appends the character to the end of the string.
pub assume_specification[ String::push ](s: &mut String, c: char)
    ensures
        final(s)@ == old(s)@.push(c),
;

/// The characters with the White_Space property of Unicode.
pub open spec fn is_white_space(c: char) -> bool {
    let n = c as u32;
    0x9 <= n <= 0xd || n == 0x20 || n == 0x85 || n == 0xa0 || n == 0x1680 || 0x2000 <= n <= 0x200a
        || n == 0x2028 || n == 0x2029 || n == 0x202f || n == 0x205f || n == 0x3000
}

/// `char::is_whitespace` tells the characters with the White_Space property.
pub assume_specification[ char::is_whitespace ](c: char) -> (r: bool)
    ensures
        r == is_white_space(c),
;

/// What `str::to_lowercase` returns: the Unicode lowercase of a string.
pub uninterp spec fn unicode_lower(s: Seq<char>) -> Seq<char>;

/// `str::to_lowercase` depends on the characters of the string alone.
pub assume_specification[ str::to_lowercase ](s: &str) -> (r: String)
    ensures
        r@ == unicode_lower(s@),
;

/// What `str::to_uppercase` returns: the Unicode uppercase of a string.
pub uninterp spec fn unicode_upper(s: Seq<char>) -> Seq<char>;

/// `str::to_uppercase` depends on the characters of the string alone.
pub assume_specification[ str::to_uppercase ](s: &str) -> (r: String)
    ensures
        r@ == unicode_upper(s@),
;

/// The ASCII lowercase of one character.
pub open spec fn lower_char(c: char) -> char {
    if 'A' <= c && c <= 'Z' {
        ((c as u8) + 32) as u8 as char
    } else {
        c
    }
}

/// The ASCII lowercase of a string.
pub open spec fn lower(s: Seq<char>) -> Seq<char> {
    s.map_values(|c: char| lower_char(c))
}

/// Equality up to ASCII case.
pub open spec fn same_ignoring_case(a: Seq<char>, b: Seq<char>) -> bool {
    lower(a) == lower(b)
}

pub open spec fn is_digit(c: char) -> bool {
    '0' <= c && c <= '9'
}

pub open spec fn is_hex_digit(c: char) -> bool {
    is_digit(c) || ('a' <= c && c <= 'f') || ('A' <= c && c <= 'F')
}

pub open spec fn is_letter(c: char) -> bool {
    ('a' <= c && c <= 'z') || ('A' <= c && c <= 'Z')
}

pub open spec fn all_digits(s: Seq<char>) -> bool {
    forall|i: int| 0 <= i < s.len() ==> is_digit(#[trigger] s[i])
}

pub open spec fn all_hex_digits(s: Seq<char>) -> bool {
    forall|i: int| 0 <= i < s.len() ==> is_hex_digit(#[trigger] s[i])
}

/// Does `s` begin with `p`?
pub open spec fn has_prefix(s: Seq<char>, p: Seq<char>) -> bool {
    p.len() <= s.len() && s.take(p.len() as int) == p
}

/// Does `s` end with `p`?
pub open spec fn has_suffix(s: Seq<char>, p: Seq<char>) -> bool {
    p.len() <= s.len() && s.skip(s.len() - p.len()) == p
}

/// Does `p` occur in `s`?
pub open spec fn has_infix(s: Seq<char>, p: Seq<char>) -> bool {
    exists|i: int| 0 <= i <= s.len() && has_prefix(#[trigger] s.skip(i), p)
}

/// What is left of `s` behind the prefix `p`.
pub open spec fn strip(s: Seq<char>, p: Seq<char>) -> Option<Seq<char>> {
    if has_prefix(s, p) {
        Some(s.skip(p.len() as int))
    } else {
        None
    }
}

/// What is left of `s` before the suffix `p`.
pub open spec fn strip_end(s: Seq<char>, p: Seq<char>) -> Option<Seq<char>> {
    if has_suffix(s, p) {
        Some(s.take(s.len() - p.len()))
    } else {
        None
    }
}

/// The first position of `c` in `s` at or behind `i`; the length where there is none.
pub open spec fn pos_from(s: Seq<char>, c: char, i: int) -> int
    decreases s.len() - i,
{
    if i < 0 || i >= s.len() {
        s.len() as int
    } else if s[i] == c {
        i
    } else {
        pos_from(s, c, i + 1)
    }
}

/// The last position of `c` in `s` before `n`; -1 where there is none.
pub open spec fn last_pos_before(s: Seq<char>, c: char, n: int) -> int
    decreases n,
{
    if n <= 0 || n > s.len() {
        -1
    } else if s[n - 1] == c {
        n - 1
    } else {
        last_pos_before(s, c, n - 1)
    }
}

/// The part of `s` before the first `c`, or all of it.
pub open spec fn before_first(s: Seq<char>, c: char) -> Seq<char> {
    s.take(pos_from(s, c, 0))
}

/// The parts of `s` before and behind the first `c`.
pub open spec fn split_first(s: Seq<char>, c: char) -> Option<(Seq<char>, Seq<char>)> {
    let p = pos_from(s, c, 0);
    if p < s.len() {
        Some((s.take(p), s.skip(p + 1)))
    } else {
        None
    }
}

/// The parts of `s` before and behind the last `c`.
pub open spec fn split_last(s: Seq<char>, c: char) -> Option<(Seq<char>, Seq<char>)> {
    let p = last_pos_before(s, c, s.len() as int);
    if p >= 0 {
        Some((s.take(p), s.skip(p + 1)))
    } else {
        None
    }
}

/// `s` without its leading `c`s.
pub open spec fn without_leading(s: Seq<char>, c: char) -> Seq<char>
    decreases s.len(),
{
    if s.len() > 0 && s[0] == c {
        without_leading(s.skip(1), c)
    } else {
        s
    }
}

/// `s` without the white space at its start.
pub open spec fn trimmed_start(s: Seq<char>) -> Seq<char>
    decreases s.len(),
{
    if s.len() > 0 && is_white_space(s[0]) {
        trimmed_start(s.skip(1))
    } else {
        s
    }
}

/// `s` without the white space at its end.
pub open spec fn trimmed_end(s: Seq<char>) -> Seq<char>
    decreases s.len(),
{
    if s.len() > 0 && is_white_space(s.last()) {
        trimmed_end(s.drop_last())
    } else {
        s
    }
}

/// `s` without the white space at both ends.
pub open spec fn trimmed(s: Seq<char>) -> Seq<char> {
    trimmed_end(trimmed_start(s))
}

/// `s` without its trailing `c`s.
pub open spec fn without_trailing(s: Seq<char>, c: char) -> Seq<char>
    decreases s.len(),
{
    if s.len() > 0 && s.last() == c {
        without_trailing(s.drop_last(), c)
    } else {
        s
    }
}

/// The first position of the string `p` in `s` at or behind `i`; the length
/// where there is none.
pub open spec fn text_pos_from(s: Seq<char>, p: Seq<char>, i: int) -> int
    decreases s.len() - i,
{
    if i < 0 || i >= s.len() {
        s.len() as int
    } else if has_prefix(s.skip(i), p) {
        i
    } else {
        text_pos_from(s, p, i + 1)
    }
}

/// The words of `s[i..]`: its longest runs of characters that are not white
/// space. `word` is the run that ends just before `i`.
pub open spec fn words_from(s: Seq<char>, i: int, word: Seq<char>) -> Seq<Seq<char>>
    decreases s.len() - i,
{
    if i < 0 || i >= s.len() {
        if word.len() == 0 {
            Seq::empty()
        } else {
            seq![word]
        }
    } else if is_white_space(s[i]) {
        if word.len() == 0 {
            words_from(s, i + 1, Seq::empty())
        } else {
            seq![word] + words_from(s, i + 1, Seq::empty())
        }
    } else {
        words_from(s, i + 1, word.push(s[i]))
    }
}

/// The words of `s`.
pub open spec fn words(s: Seq<char>) -> Seq<Seq<char>> {
    words_from(s, 0, Seq::empty())
}

/// The value of a digit in a radix of at most sixteen.
pub open spec fn digit_value(c: char, radix: nat) -> Option<nat> {
    let v: nat = if is_digit(c) {
        (c as u32 - '0' as u32) as nat
    } else if 'a' <= c && c <= 'f' {
        (c as u32 - 'a' as u32 + 10) as nat
    } else if 'A' <= c && c <= 'F' {
        (c as u32 - 'A' as u32 + 10) as nat
    } else {
        16
    };
    if v < radix {
        Some(v)
    } else {
        None
    }
}

/// The number that a string of digits writes; `None` where a character is no digit.
pub open spec fn digits_value(s: Seq<char>, radix: nat) -> Option<nat>
    decreases s.len(),
{
    if s.len() == 0 {
        Some(0)
    } else {
        match (digits_value(s.drop_last(), radix), digit_value(s.last(), radix)) {
            (Some(v), Some(d)) => Some(v * radix + d),
            _ => None,
        }
    }
}

/// An unsigned number: an optional `+`, then at least one digit.
pub open spec fn unsigned_value(s: Seq<char>, radix: nat) -> Option<nat> {
    let digits = if s.len() > 0 && s[0] == '+' {
        s.skip(1)
    } else {
        s
    };
    if digits.len() == 0 {
        None
    } else {
        digits_value(digits, radix)
    }
}

/// A signed number: an optional sign, then at least one digit.
pub open spec fn signed_value(s: Seq<char>, radix: nat) -> Option<int> {
    if s.len() > 0 && s[0] == '-' {
        if s.len() == 1 {
            None
        } else {
            match digits_value(s.skip(1), radix) {
                Some(v) => Some(-(v as int)),
                None => None,
            }
        }
    } else {
        match unsigned_value(s, radix) {
            Some(v) => Some(v as int),
            None => None,
        }
    }
}

/// What parsing as `u64` gives.
pub open spec fn u64_value(s: Seq<char>, radix: nat) -> Option<u64> {
    match unsigned_value(s, radix) {
        Some(v) => if v <= u64::MAX {
            Some(v as u64)
        } else {
            None
        },
        None => None,
    }
}

/// What parsing as `u32` gives.
pub open spec fn u32_value(s: Seq<char>, radix: nat) -> Option<u32> {
    match unsigned_value(s, radix) {
        Some(v) => if v <= u32::MAX {
            Some(v as u32)
        } else {
            None
        },
        None => None,
    }
}

/// What parsing as `i64` gives.
pub open spec fn i64_value(s: Seq<char>, radix: nat) -> Option<i64> {
    match signed_value(s, radix) {
        Some(v) => if i64::MIN <= v <= i64::MAX {
            Some(v as i64)
        } else {
            None
        },
        None => None,
    }
}

/// The digit that writes `d`, in lower case.
pub open spec fn digit_char(d: nat) -> char {
    if d < 10 {
        ('0' as u8 + d) as u8 as char
    } else {
        ('a' as u8 + (d - 10)) as u8 as char
    }
}

/// The digits of `n`, most significant first.
pub open spec fn digits(n: nat, radix: nat) -> Seq<char>
    decreases n,
{
    if radix < 2 || n < radix {
        seq![digit_char(n)]
    } else {
        proof {
            assert(n / radix < n) by (nonlinear_arith)
                requires
                    radix >= 2,
                    n >= radix,
            ;
        }
        digits(n / radix, radix).push(digit_char(n % radix))
    }
}

/// The characters of a string.
pub fn chars_of(s: &str) -> (r: Vec<char>)
    ensures
        r@ == s@,
{
    let mut v: Vec<char> = Vec::new();
    for c in it: s.chars()
        invariant
            v@ == it.seq().take(it.index() as int),
            it.seq() == s@,
    {
        v.push(c);
    }
    assert(v@ =~= s@);
    v
}

/// The string of `chars[from..to]`.
pub fn string_of(chars: &Vec<char>, from: usize, to: usize) -> (r: String)
    requires
        from <= to <= chars@.len(),
    ensures
        r@ == chars@.subrange(from as int, to as int),
{
    let mut s = String::new();
    let mut i: usize = from;
    while i < to
        invariant
            from <= i <= to <= chars@.len(),
            s@ == chars@.subrange(from as int, i as int),
        decreases to - i,
    {
        s.push(chars[i]);
        i = i + 1;
        assert(s@ =~= chars@.subrange(from as int, i as int));
    }
    s
}

/// The ASCII lowercase of a character.
pub fn char_lower(c: char) -> (r: char)
    ensures
        r == lower_char(c),
{
    if 'A' <= c && c <= 'Z' {
        ((c as u8) + 32) as char
    } else {
        c
    }
}

/// The ASCII lowercase of a string.
pub fn to_lower(s: &str) -> (r: String)
    ensures
        r@ == lower(s@),
{
    let mut out = String::new();
    for c in it: s.chars()
        invariant
            out@ == lower(it.seq().take(it.index() as int)),
            it.seq() == s@,
    {
        out.push(char_lower(c));
        assert(it.seq().take(it.index() + 1) =~= it.seq().take(it.index() as int).push(c));
        assert(out@ =~= lower(it.seq().take(it.index() + 1)));
    }
    assert(s@.take(s@.len() as int) =~= s@);
    out
}

/// A copy of a string.
pub fn copy_of(s: &str) -> (r: String)
    ensures
        r@ == s@,
{
    s.to_owned()
}

/// Do two strings hold the same characters?
pub fn same(a: &str, b: &str) -> (r: bool)
    ensures
        r == (a@ == b@),
{
    let x = chars_of(a);
    let y = chars_of(b);
    same_chars(&x, &y)
}

fn same_chars(x: &Vec<char>, y: &Vec<char>) -> (r: bool)
    ensures
        r == (x@ == y@),
{
    if x.len() != y.len() {
        return false;
    }
    let mut i: usize = 0;
    while i < x.len()
        invariant
            i <= x@.len(),
            x@.len() == y@.len(),
            forall|j: int| 0 <= j < i ==> x@[j] == y@[j],
        decreases x@.len() - i,
    {
        if x[i] != y[i] {
            return false;
        }
        i = i + 1;
    }
    assert(x@ =~= y@);
    true
}

/// Are two strings equal up to ASCII case?
pub fn same_lower(a: &str, b: &str) -> (r: bool)
    ensures
        r == same_ignoring_case(a@, b@),
{
    let x = to_lower(a);
    let y = to_lower(b);
    same(&x, &y)
}

/// Does `s` begin with `p`?
pub fn starts_with(s: &str, p: &str) -> (r: bool)
    ensures
        r == has_prefix(s@, p@),
{
    let x = chars_of(s);
    let y = chars_of(p);
    assert(x@.skip(0) =~= x@);
    occurs_at(&x, &y, 0)
}

/// Does `p` stand in `x` at position `at`?
fn occurs_at(x: &Vec<char>, p: &Vec<char>, at: usize) -> (r: bool)
    requires
        at <= x@.len(),
    ensures
        r == has_prefix(x@.skip(at as int), p@),
{
    if p.len() > x.len() - at {
        return false;
    }
    let mut i: usize = 0;
    while i < p.len()
        invariant
            i <= p@.len(),
            at + p@.len() <= x.len(),
            forall|j: int| 0 <= j < i ==> x@[at + j] == p@[j],
        decreases p@.len() - i,
    {
        if x[at + i] != p[i] {
            assert(x@.skip(at as int).take(p@.len() as int)[i as int] != p@[i as int]);
            return false;
        }
        i = i + 1;
    }
    assert(x@.skip(at as int).take(p@.len() as int) =~= p@);
    true
}

/// Does `s` end with `p`?
pub fn ends_with(s: &str, p: &str) -> (r: bool)
    ensures
        r == has_suffix(s@, p@),
{
    let x = chars_of(s);
    let y = chars_of(p);
    if y.len() > x.len() {
        return false;
    }
    let at: usize = x.len() - y.len();
    assert(x@.skip(at as int).take(y@.len() as int) =~= x@.skip(at as int));
    occurs_at(&x, &y, at)
}

/// Does `p` occur in `s`?
pub fn contains(s: &str, p: &str) -> (r: bool)
    ensures
        r == has_infix(s@, p@),
{
    let x = chars_of(s);
    let y = chars_of(p);
    let mut i: usize = 0;
    loop
        invariant
            i <= x@.len(),
            x@ == s@,
            y@ == p@,
            forall|j: int| 0 <= j < i ==> !has_prefix(#[trigger] s@.skip(j), p@),
        decreases x@.len() + 1 - i,
    {
        if occurs_at(&x, &y, i) {
            return true;
        }
        if i == x.len() {
            return false;
        }
        i = i + 1;
    }
}

/// What is left of `s` behind the prefix `p`.
pub fn strip_prefix(s: &str, p: &str) -> (r: Option<String>)
    ensures
        r is Some == (strip(s@, p@) is Some),
        r matches Some(rest) ==> rest@ == strip(s@, p@)->0,
{
    let x = chars_of(s);
    let y = chars_of(p);
    assert(x@.skip(0) =~= x@);
    if occurs_at(&x, &y, 0) {
        let rest = string_of(&x, y.len(), x.len());
        assert(rest@ =~= s@.skip(p@.len() as int));
        Some(rest)
    } else {
        None
    }
}

/// What is left of `s` before the suffix `p`.
pub fn strip_suffix(s: &str, p: &str) -> (r: Option<String>)
    ensures
        r is Some == (strip_end(s@, p@) is Some),
        r matches Some(rest) ==> rest@ == strip_end(s@, p@)->0,
{
    if ends_with(s, p) {
        let x = chars_of(s);
        let y = chars_of(p);
        let rest = string_of(&x, 0, x.len() - y.len());
        assert(rest@ =~= s@.take(s@.len() - p@.len()));
        Some(rest)
    } else {
        None
    }
}

fn position(x: &Vec<char>, c: char) -> (r: usize)
    ensures
        r == pos_from(x@, c, 0),
        r <= x@.len(),
{
    let mut i: usize = 0;
    while i < x.len()
        invariant
            i <= x@.len(),
            pos_from(x@, c, 0) == pos_from(x@, c, i as int),
        decreases x@.len() - i,
    {
        if x[i] == c {
            return i;
        }
        i = i + 1;
    }
    i
}

fn last_position(x: &Vec<char>, c: char) -> (r: Option<usize>)
    ensures
        match r {
            Some(p) => p < x@.len() && p == last_pos_before(x@, c, x@.len() as int),
            None => last_pos_before(x@, c, x@.len() as int) == -1,
        },
{
    let mut n: usize = x.len();
    while n > 0
        invariant
            n <= x@.len(),
            last_pos_before(x@, c, x@.len() as int) == last_pos_before(x@, c, n as int),
        decreases n,
    {
        if x[n - 1] == c {
            return Some(n - 1);
        }
        n = n - 1;
    }
    None
}

/// The part of `s` before the first `c`, or all of it.
pub fn head(s: &str, c: char) -> (r: String)
    ensures
        r@ == before_first(s@, c),
{
    let x = chars_of(s);
    let p = position(&x, c);
    let out = string_of(&x, 0, p);
    assert(out@ =~= before_first(s@, c));
    out
}

/// The parts of `s` before and behind the first `c`.
pub fn split_once(s: &str, c: char) -> (r: Option<(String, String)>)
    ensures
        r is Some == (split_first(s@, c) is Some),
        r matches Some(parts) ==> (parts.0@, parts.1@) == split_first(s@, c)->0,
{
    let x = chars_of(s);
    let p = position(&x, c);
    if p < x.len() {
        let a = string_of(&x, 0, p);
        let b = string_of(&x, p + 1, x.len());
        assert(a@ =~= s@.take(p as int));
        assert(b@ =~= s@.skip(p + 1));
        Some((a, b))
    } else {
        None
    }
}

/// The parts of `s` before and behind the last `c`.
pub fn rsplit_once(s: &str, c: char) -> (r: Option<(String, String)>)
    ensures
        r is Some == (split_last(s@, c) is Some),
        r matches Some(parts) ==> (parts.0@, parts.1@) == split_last(s@, c)->0,
{
    let x = chars_of(s);
    let n: usize = x.len();
    match last_position(&x, c) {
        Some(p) => {
            let a = string_of(&x, 0, p);
            let b = string_of(&x, p + 1, n);
            assert(a@ =~= s@.take(p as int));
            assert(b@ =~= s@.skip(p + 1));
            Some((a, b))
        },
        None => None,
    }
}

/// `s` without its leading `c`s.
pub fn trim_leading(s: &str, c: char) -> (r: String)
    ensures
        r@ == without_leading(s@, c),
{
    let x = chars_of(s);
    let mut i: usize = 0;
    assert(x@.skip(0) =~= x@);
    while i < x.len() && x[i] == c
        invariant
            i <= x@.len(),
            without_leading(x@, c) == without_leading(x@.skip(i as int), c),
        decreases x@.len() - i,
    {
        assert(x@.skip(i as int).skip(1) =~= x@.skip(i + 1));
        i = i + 1;
    }
    let out = string_of(&x, i, x.len());
    assert(out@ =~= x@.skip(i as int));
    out
}

/// `s` without the white space at both ends.
pub fn trim(s: &str) -> (r: String)
    ensures
        r@ == trimmed(s@),
{
    let x = chars_of(s);
    let mut i: usize = 0;
    assert(x@.skip(0) =~= x@);
    while i < x.len() && x[i].is_whitespace()
        invariant
            i <= x@.len(),
            trimmed_start(x@) == trimmed_start(x@.skip(i as int)),
        decreases x@.len() - i,
    {
        assert(x@.skip(i as int).skip(1) =~= x@.skip(i + 1));
        i = i + 1;
    }
    let ghost rest = x@.skip(i as int);
    let mut n: usize = x.len();
    assert(x@.subrange(i as int, n as int) =~= rest);
    while n > i && x[n - 1].is_whitespace()
        invariant
            i <= n <= x@.len(),
            trimmed_end(rest) == trimmed_end(x@.subrange(i as int, n as int)),
        decreases n,
    {
        assert(x@.subrange(i as int, n as int).drop_last() =~= x@.subrange(i as int, n - 1));
        n = n - 1;
    }
    string_of(&x, i, n)
}

/// `s` without the white space at its start.
pub fn trim_start(s: &str) -> (r: String)
    ensures
        r@ == trimmed_start(s@),
{
    let x = chars_of(s);
    let mut i: usize = 0;
    assert(x@.skip(0) =~= x@);
    while i < x.len() && x[i].is_whitespace()
        invariant
            i <= x@.len(),
            trimmed_start(x@) == trimmed_start(x@.skip(i as int)),
        decreases x@.len() - i,
    {
        assert(x@.skip(i as int).skip(1) =~= x@.skip(i + 1));
        i = i + 1;
    }
    let out = string_of(&x, i, x.len());
    assert(out@ =~= x@.skip(i as int));
    out
}

/// `s` without its trailing `c`s.
pub fn trim_trailing(s: &str, c: char) -> (r: String)
    ensures
        r@ == without_trailing(s@, c),
{
    let x = chars_of(s);
    let mut n: usize = x.len();
    assert(x@.take(n as int) =~= x@);
    while n > 0 && x[n - 1] == c
        invariant
            n <= x@.len(),
            without_trailing(x@, c) == without_trailing(x@.take(n as int), c),
        decreases n,
    {
        assert(x@.take(n as int).drop_last() =~= x@.take(n - 1));
        n = n - 1;
    }
    let out = string_of(&x, 0, n);
    assert(out@ =~= x@.take(n as int));
    out
}

/// The part of `s` before the first occurrence of `p`, or all of it.
pub fn head_text(s: &str, p: &str) -> (r: String)
    ensures
        r@ == s@.take(text_pos_from(s@, p@, 0)),
{
    let x = chars_of(s);
    let y = chars_of(p);
    let mut i: usize = 0;
    while i < x.len()
        invariant
            i <= x@.len(),
            x@ == s@,
            y@ == p@,
            text_pos_from(s@, p@, 0) == text_pos_from(s@, p@, i as int),
        decreases x@.len() - i,
    {
        if occurs_at(&x, &y, i) {
            let out = string_of(&x, 0, i);
            assert(out@ =~= s@.take(i as int));
            return out;
        }
        i = i + 1;
    }
    let out = string_of(&x, 0, i);
    assert(out@ =~= s@.take(i as int));
    out
}

/// The characters of each string.
pub open spec fn texts(list: Seq<String>) -> Seq<Seq<char>> {
    list.map_values(|s: String| s@)
}

/// The words of `s`.
pub fn split_words(s: &str) -> (r: Vec<String>)
    ensures
        texts(r@) == words(s@),
{
    let x = chars_of(s);
    let mut out: Vec<String> = Vec::new();
    let mut word = String::new();
    let mut i: usize = 0;
    assert(texts(out@) + words_from(s@, 0, word@) =~= words(s@));
    while i < x.len()
        invariant
            i <= x@.len(),
            x@ == s@,
            texts(out@) + words_from(s@, i as int, word@) == words(s@),
        decreases x@.len() - i,
    {
        let c: char = x[i];
        if c.is_whitespace() {
            if word.as_str().unicode_len() > 0 {
                let ghost done = word@;
                let ghost had = texts(out@);
                out.push(word);
                assert(texts(out@) =~= had.push(done));
                assert(had + (seq![done] + words_from(s@, i + 1, Seq::empty())) =~= had.push(done)
                    + words_from(s@, i + 1, Seq::empty()));
            }
            word = String::new();
            assert(word@ =~= Seq::<char>::empty());
        } else {
            word.push(c);
        }
        i = i + 1;
    }
    if word.as_str().unicode_len() > 0 {
        let ghost done = word@;
        let ghost had = texts(out@);
        out.push(word);
        assert(texts(out@) =~= had.push(done));
        assert(had + seq![done] =~= had.push(done));
    } else {
        assert(texts(out@) =~= texts(out@) + Seq::<Seq<char>>::empty());
    }
    out
}

/// Are all characters of `s` decimal digits?
pub fn only_digits(s: &str) -> (r: bool)
    ensures
        r == all_digits(s@),
{
    let x = chars_of(s);
    let mut i: usize = 0;
    while i < x.len()
        invariant
            i <= x@.len(),
            x@ == s@,
            forall|j: int| 0 <= j < i ==> is_digit(#[trigger] x@[j]),
        decreases x@.len() - i,
    {
        if !('0' <= x[i] && x[i] <= '9') {
            assert(!is_digit(x@[i as int]));
            return false;
        }
        i = i + 1;
    }
    true
}

/// Are all characters of `s` hexadecimal digits?
pub fn only_hex_digits(s: &str) -> (r: bool)
    ensures
        r == all_hex_digits(s@),
{
    let x = chars_of(s);
    let mut i: usize = 0;
    while i < x.len()
        invariant
            i <= x@.len(),
            x@ == s@,
            forall|j: int| 0 <= j < i ==> is_hex_digit(#[trigger] x@[j]),
        decreases x@.len() - i,
    {
        if digit_of(x[i], 16).is_none() {
            assert(!is_hex_digit(x@[i as int]));
            return false;
        }
        i = i + 1;
    }
    true
}

fn digit_of(c: char, radix: u32) -> (r: Option<u32>)
    requires
        radix == 10 || radix == 16,
    ensures
        match r {
            Some(d) => digit_value(c, radix as nat) == Some(d as nat) && d < radix,
            None => digit_value(c, radix as nat) is None,
        },
{
    let v: u32 = if '0' <= c && c <= '9' {
        c as u32 - 48
    } else if 'a' <= c && c <= 'f' {
        c as u32 - 87
    } else if 'A' <= c && c <= 'F' {
        c as u32 - 55
    } else {
        16
    };
    if v < radix {
        Some(v)
    } else {
        None
    }
}

proof fn lemma_digits_value_grows(s: Seq<char>, n: int, radix: nat)
    requires
        radix >= 1,
        0 <= n <= s.len(),
        digits_value(s, radix) is Some,
    ensures
        digits_value(s.take(n), radix) is Some,
        digits_value(s.take(n), radix)->0 <= digits_value(s, radix)->0,
    decreases s.len() - n,
{
    if n == s.len() {
        assert(s.take(n) =~= s);
    } else {
        let t = s.drop_last();
        assert(t.take(n) =~= s.take(n));
        lemma_digits_value_grows(t, n, radix);
        let v = digits_value(t, radix)->0;
        assert(v * radix >= v) by (nonlinear_arith)
            requires
                radix >= 1,
                v >= 0,
        ;
    }
}

/// The number that `x[from..]` writes, where it fits `u64`.
fn digits_to_u64(x: &Vec<char>, from: usize, radix: u32) -> (r: Option<u64>)
    requires
        from <= x@.len(),
        radix == 10 || radix == 16,
    ensures
        match r {
            Some(v) => digits_value(x@.skip(from as int), radix as nat) == Some(v as nat),
            None => match digits_value(x@.skip(from as int), radix as nat) {
                Some(v) => v > u64::MAX,
                None => true,
            },
        },
{
    let ghost s = x@.skip(from as int);
    let mut v: u64 = 0;
    let mut i: usize = from;
    assert(s.take(0) =~= Seq::<char>::empty());
    while i < x.len()
        invariant
            from <= i <= x@.len(),
            s == x@.skip(from as int),
            radix == 10 || radix == 16,
            digits_value(s.take(i - from), radix as nat) == Some(v as nat),
        decreases x@.len() - i,
    {
        let ghost t = s.take(i - from + 1);
        assert(t.drop_last() =~= s.take(i - from));
        assert(t.last() == x@[i as int]);
        match digit_of(x[i], radix) {
            None => {
                proof {
                    if digits_value(s, radix as nat) is Some {
                        lemma_digits_value_grows(s, i - from + 1, radix as nat);
                    }
                }
                return None;
            },
            Some(d) => {
                assert(v as u128 * radix as u128 <= u64::MAX as u128 * 16) by (nonlinear_arith)
                    requires
                        v <= u64::MAX,
                        radix <= 16,
                ;
                let wide: u128 = v as u128 * radix as u128 + d as u128;
                if wide > u64::MAX as u128 {
                    proof {
                        if digits_value(s, radix as nat) is Some {
                            lemma_digits_value_grows(s, i - from + 1, radix as nat);
                        }
                    }
                    return None;
                }
                v = wide as u64;
            },
        }
        i = i + 1;
    }
    assert(s.take(x@.len() - from) =~= s);
    Some(v)
}

/// Parses an unsigned 64-bit number.
pub fn parse_u64(s: &str, radix: u32) -> (r: Option<u64>)
    requires
        radix == 10 || radix == 16,
    ensures
        r == u64_value(s@, radix as nat),
{
    let x = chars_of(s);
    let from: usize = if x.len() > 0 && x[0] == '+' {
        1
    } else {
        0
    };
    assert(x@.skip(0) =~= x@);
    if from == x.len() {
        return None;
    }
    digits_to_u64(&x, from, radix)
}

/// Parses an unsigned 32-bit number.
pub fn parse_u32(s: &str) -> (r: Option<u32>)
    ensures
        r == u32_value(s@, 10),
{
    match parse_u64(s, 10) {
        Some(v) => if v <= u32::MAX as u64 {
            Some(v as u32)
        } else {
            None
        },
        None => None,
    }
}

/// Parses a signed 64-bit number.
pub fn parse_i64(s: &str, radix: u32) -> (r: Option<i64>)
    requires
        radix == 10 || radix == 16,
    ensures
        r == i64_value(s@, radix as nat),
{
    let x = chars_of(s);
    if x.len() > 0 && x[0] == '-' {
        if x.len() == 1 {
            return None;
        }
        match digits_to_u64(&x, 1, radix) {
            Some(v) => if v <= 0x7fff_ffff_ffff_ffff {
                Some(-(v as i64))
            } else if v == 0x8000_0000_0000_0000 {
                Some(i64::MIN)
            } else {
                None
            },
            None => None,
        }
    } else {
        match parse_u64(s, radix) {
            Some(v) => if v <= 0x7fff_ffff_ffff_ffff {
                Some(v as i64)
            } else {
                None
            },
            None => None,
        }
    }
}

fn digit_to_char(d: u64) -> (r: char)
    requires
        d < 16,
    ensures
        r == digit_char(d as nat),
{
    if d < 10 {
        (48u8 + d as u8) as char
    } else {
        (87u8 + d as u8) as char
    }
}

/// Appends the digits of `n` to `out`.
pub fn push_digits(out: &mut String, n: u64, radix: u64)
    requires
        radix == 10 || radix == 16,
    ensures
        final(out)@ == old(out)@ + digits(n as nat, radix as nat),
    decreases n,
{
    if n < radix {
        out.push(digit_to_char(n));
        assert(out@ =~= old(out)@ + digits(n as nat, radix as nat));
    } else {
        push_digits(out, n / radix, radix);
        out.push(digit_to_char(n % radix));
        assert(out@ =~= old(out)@ + digits(n as nat, radix as nat));
    }
}

/// Appends `s` to `out`.
pub fn push_text(out: &mut String, s: &str)
    ensures
        final(out)@ == old(out)@ + s@,
{
    out.append(s);
}

/// Two strings, one behind the other.
pub fn join(a: &str, b: &str) -> (r: String)
    ensures
        r@ == a@ + b@,
{
    let mut out = copy_of(a);
    push_text(&mut out, b);
    out
}

/// The decimal form of an unsigned number.
pub fn decimal(n: u64) -> (r: String)
    ensures
        r@ == digits(n as nat, 10),
{
    let mut out = String::new();
    push_digits(&mut out, n, 10);
    assert(out@ =~= digits(n as nat, 10));
    out
}

/// Does `a` come before `b`, character by character from place `i` on?
pub open spec fn text_before(a: Seq<char>, b: Seq<char>, i: int) -> bool
    decreases a.len() - i,
{
    if i < 0 || i >= b.len() {
        false
    } else if i >= a.len() {
        true
    } else if a[i] != b[i] {
        a[i] < b[i]
    } else {
        text_before(a, b, i + 1)
    }
}

/// Does `a` come before `b` in character order?
pub fn comes_before(a: &str, b: &str) -> (r: bool)
    ensures
        r == text_before(a@, b@, 0),
{
    let x = chars_of(a);
    let y = chars_of(b);
    let mut i: usize = 0;
    while i < x.len()
        invariant
            i <= x@.len(),
            x@ == a@,
            y@ == b@,
            text_before(a@, b@, 0) == text_before(a@, b@, i as int),
        decreases x@.len() - i,
    {
        if i >= y.len() {
            return false;
        }
        if x[i] != y[i] {
            return x[i] < y[i];
        }
        i = i + 1;
    }
    i < y.len()
}

/// Is `s` one of the strings in `list`?
pub open spec fn listed(list: Seq<String>, s: Seq<char>) -> bool {
    exists|i: int| 0 <= i < list.len() && (#[trigger] list[i])@ == s
}

/// Is `s` one of the strings in `list`?
pub fn in_list(list: &Vec<String>, s: &str) -> (r: bool)
    ensures
        r == listed(list@, s@),
{
    let mut i: usize = 0;
    while i < list.len()
        invariant
            i <= list@.len(),
            forall|j: int| 0 <= j < i ==> (#[trigger] list@[j])@ != s@,
        decreases list@.len() - i,
    {
        if same(&list[i], s) {
            return true;
        }
        i = i + 1;
    }
    false
}

/// Equality up to case is symmetric and transitive, and contains equality.
pub proof fn ignoring_case_is_an_equivalence(a: Seq<char>, b: Seq<char>, c: Seq<char>)
    ensures
        same_ignoring_case(a, a),
        same_ignoring_case(a, b) == same_ignoring_case(b, a),
        same_ignoring_case(a, b) && same_ignoring_case(b, c) ==> same_ignoring_case(a, c),
{
}

/// Lowercasing twice is lowercasing once.
pub proof fn lower_is_idempotent(s: Seq<char>)
    ensures
        lower(lower(s)) == lower(s),
{
    assert(lower(lower(s)) =~= lower(s));
}

} // verus!
