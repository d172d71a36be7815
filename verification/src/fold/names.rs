//! What a name says about the value behind it.

use crate::fold::tables::{entry, find};
use crate::text::{
    all_digits, all_hex_digits, before_first, chars_of, copy_of, digits, ends_with, has_prefix,
    has_suffix, head, is_hex_digit, is_letter, lower, only_digits, only_hex_digits, parse_u32,
    parse_u64, push_digits, rsplit_once, same, split_first, split_last, split_once, starts_with,
    strip, strip_prefix, strip_suffix, to_lower, trim, trim_leading, trimmed, u32_value, u64_value,
    without_leading,
};
use vstd::prelude::*;

verus! {

/// `arg` followed by a number: a parameter known by its position alone.
pub open spec fn generic_arg(name: Seq<char>) -> bool {
    match strip(lower(name), "arg"@) {
        Some(suffix) => suffix.len() > 0 && all_digits(suffix),
        None => false,
    }
}

/// `arg` followed by a number: a parameter known by its position alone.
pub fn is_generic_arg_name(name: &str) -> (r: bool)
    ensures
        r == generic_arg(name@),
{
    match strip_prefix(&to_lower(name), "arg") {
        Some(suffix) => suffix.as_str().unicode_len() > 0 && only_digits(&suffix),
        None => false,
    }
}

/// A stand-in for a stack location that nobody has named.
pub open spec fn stack_placeholder(name: Seq<char>) -> bool {
    let bare = without_leading(name, '&');
    bare == "stack"@ || has_prefix(bare, "stack_"@) || bare == "saved_fp"@
}

/// A stand-in for a stack location that nobody has named.
pub fn is_generic_stack_placeholder_alias(existing: &str) -> (r: bool)
    ensures
        r == stack_placeholder(existing@),
{
    let bare = trim_leading(existing, '&');
    same(&bare, "stack") || starts_with(&bare, "stack_") || same(&bare, "saved_fp")
}

/// A stack name that a preserved alias may replace.
pub open spec fn replaceable_stack_name(name: Seq<char>) -> bool {
    let bare = without_leading(name, '&');
    bare == "stack"@ || has_prefix(bare, "local_"@) || has_prefix(bare, "stack_"@) || bare
        == "saved_fp"@
}

/// A stack name that a preserved alias may replace.
pub fn should_replace_preserved_stack_alias(existing: &str) -> (r: bool)
    ensures
        r == replaceable_stack_name(existing@),
{
    let bare = trim_leading(existing, '&');
    same(&bare, "stack") || starts_with(&bare, "local_") || starts_with(&bare, "stack_") || same(
        &bare,
        "saved_fp",
    )
}

/// A letter, hexadecimal digits, and optionally an underscore and digits.
pub open spec fn temp_family(name: Seq<char>, letter: char) -> bool {
    name.len() > 0 && name[0] == letter && {
        let rest = name.skip(1);
        match split_first(rest, '_') {
            Some((stem, tail)) => all_hex_digits(stem) && all_digits(tail),
            None => all_hex_digits(rest),
        }
    }
}

fn is_temp_family(name: &str, letter: char) -> (r: bool)
    ensures
        r == temp_family(name@, letter),
{
    let x = chars_of(name);
    if x.len() == 0 || x[0] != letter {
        return false;
    }
    let rest = crate::text::string_of(&x, 1, x.len());
    assert(rest@ =~= name@.skip(1));
    match split_once(&rest, '_') {
        Some((stem, tail)) => only_hex_digits(&stem) && only_digits(&tail),
        None => only_hex_digits(&rest),
    }
}

/// A name that tells a reader nothing: a temporary, a constant, a bare address.
pub open spec fn low_signal(name: Seq<char>) -> bool {
    let l = lower(name);
    has_prefix(l, "tmp:"@) || has_prefix(l, "tmp"@) || has_prefix(l, "const:"@) || has_prefix(
        l,
        "ram:"@,
    ) || temp_family(l, 't') || temp_family(l, 'v')
}

/// A name that tells a reader nothing.
pub fn is_low_signal_visible_name(name: &str) -> (r: bool)
    ensures
        r == low_signal(name@),
{
    let l = to_lower(name);
    starts_with(&l, "tmp:") || starts_with(&l, "tmp") || starts_with(&l, "const:") || starts_with(
        &l,
        "ram:",
    ) || is_temp_family(&l, 't') || is_temp_family(&l, 'v')
}

/// A name that says only where a value is stored.
pub open spec fn low_quality_arg(name: Seq<char>) -> bool {
    let l = lower(name);
    has_prefix(l, "var_"@) || has_prefix(l, "local_"@) || has_prefix(l, "arg_"@) || l
        == "saved_fp"@ || has_prefix(l, "stack_"@) || has_suffix(l, "_home"@)
}

/// A name that says only where a value is stored.
pub fn is_low_quality_imported_call_arg_name(name: &str) -> (r: bool)
    ensures
        r == low_quality_arg(name@),
{
    let l = to_lower(name);
    starts_with(&l, "var_") || starts_with(&l, "local_") || starts_with(&l, "arg_") || same(
        &l,
        "saved_fp",
    ) || starts_with(&l, "stack_") || ends_with(&l, "_home")
}

/// A hexadecimal digit, or the `h` that may close a hexadecimal number.
pub open spec fn hexish(c: char) -> bool {
    is_hex_digit(c) || c == 'h'
}

pub open spec fn hexish_suffix(name: Seq<char>, prefix: Seq<char>) -> bool {
    match strip(name, prefix) {
        Some(suffix) => suffix.len() > 0 && forall|i: int|
            0 <= i < suffix.len() ==> hexish(#[trigger] suffix[i]),
        None => false,
    }
}

fn has_hexish_suffix(name: &str, prefix: &str) -> (r: bool)
    ensures
        r == hexish_suffix(name@, prefix@),
{
    match strip_prefix(name, prefix) {
        Some(suffix) => {
            let x = chars_of(&suffix);
            if x.len() == 0 {
                return false;
            }
            let mut i: usize = 0;
            while i < x.len()
                invariant
                    i <= x@.len(),
                    x@ == suffix@,
                    strip(name@, prefix@) == Some(suffix@),
                    forall|j: int| 0 <= j < i ==> hexish(#[trigger] x@[j]),
                decreases x@.len() - i,
            {
                let c: char = x[i];
                let hex = ('0' <= c && c <= '9') || ('a' <= c && c <= 'f') || ('A' <= c && c
                    <= 'F');
                if !hex && c != 'h' {
                    assert(!hexish(suffix@[i as int]));
                    return false;
                }
                i = i + 1;
            }
            true
        },
        None => false,
    }
}

/// A name that was made up for a stack location.
pub open spec fn stack_home(name: Seq<char>) -> bool {
    let l = lower(name);
    l == "saved_fp"@ || has_prefix(l, "stack_"@) || hexish_suffix(l, "local_"@) || hexish_suffix(
        l,
        "var_"@,
    )
}

/// A name that was made up for a stack location.
pub fn is_autogenerated_stack_home_name(name: &str) -> (r: bool)
    ensures
        r == stack_home(name@),
{
    let l = to_lower(name);
    same(&l, "saved_fp") || starts_with(&l, "stack_") || has_hexish_suffix(&l, "local_")
        || has_hexish_suffix(&l, "var_")
}

/// A program counter or link register: where a return goes, not what it returns.
pub open spec fn control_register(name: Seq<char>) -> bool {
    let l = lower(name);
    l == "pc"@ || l == "lr"@ || l == "ra"@ || l == "x30"@ || has_prefix(l, "pc_"@) || has_prefix(
        l,
        "lr_"@,
    ) || has_prefix(l, "ra_"@) || has_prefix(l, "x30_"@) || l == "rip"@ || l == "eip"@
        || has_prefix(l, "rip_"@) || has_prefix(l, "eip_"@)
}

/// A program counter or link register.
pub fn is_control_register_name(name: &str) -> (r: bool)
    ensures
        r == control_register(name@),
{
    let l = to_lower(name);
    same(&l, "pc") || same(&l, "lr") || same(&l, "ra") || same(&l, "x30") || starts_with(&l, "pc_")
        || starts_with(&l, "lr_") || starts_with(&l, "ra_") || starts_with(&l, "x30_") || same(
        &l,
        "rip",
    ) || same(&l, "eip") || starts_with(&l, "rip_") || starts_with(&l, "eip_")
}

/// The base and version that a variable's name is made of; version zero where
/// it has none, or one that no version fits.
pub open spec fn name_parts(name: Seq<char>) -> (Seq<char>, u32) {
    match split_last(name, '_') {
        Some((base, version)) => if all_digits(version) {
            (
                base,
                match u32_value(version, 10) {
                    Some(v) => v,
                    None => 0,
                },
            )
        } else {
            (name, 0)
        },
        None => (name, 0),
    }
}

/// The base and version that a variable's name is made of.
pub fn ssa_name_parts(name: &str) -> (r: (String, u32))
    ensures
        (r.0@, r.1) == name_parts(name@),
{
    match rsplit_once(name, '_') {
        Some((base, version)) => if only_digits(&version) {
            match parse_u32(&version) {
                Some(v) => (base, v),
                None => (base, 0),
            }
        } else {
            (copy_of(name), 0)
        },
        None => (copy_of(name), 0),
    }
}

/// What a lowered temporary's alias refers to: whether it is a temporary, its
/// base, and its version.
pub open spec fn temp_alias(name: Seq<char>) -> Option<(bool, Seq<char>, u32)> {
    if name.len() > 0 && name[0] == 't' {
        let rest = name.skip(1);
        match split_last(rest, '_') {
            Some((base, version)) => match u32_value(version, 10) {
                Some(v) => Some((true, base, v)),
                None => None,
            },
            None => if all_digits(rest) {
                match u32_value(rest, 10) {
                    Some(v) => Some((true, Seq::empty(), v)),
                    None => None,
                }
            } else {
                None
            },
        }
    } else if name.len() > 1 && name[0] == 'v' && all_digits(name.skip(1)) {
        match u32_value(name.skip(1), 10) {
            Some(v) => Some((false, Seq::empty(), v)),
            None => None,
        }
    } else {
        None
    }
}

/// What a lowered temporary's alias refers to.
pub fn parse_lowered_temp_alias(name: &str) -> (r: Option<(bool, String, u32)>)
    ensures
        match r {
            Some(found) => temp_alias(name@) == Some((found.0, found.1@, found.2)),
            None => temp_alias(name@) is None,
        },
{
    let x = chars_of(name);
    if x.len() == 0 {
        return None;
    }
    let rest = crate::text::string_of(&x, 1, x.len());
    assert(rest@ =~= name@.skip(1));
    if x[0] == 't' {
        return match rsplit_once(&rest, '_') {
            Some((base, version)) => match parse_u32(&version) {
                Some(v) => Some((true, base, v)),
                None => None,
            },
            None => if only_digits(&rest) {
                match parse_u32(&rest) {
                    Some(v) => {
                        let none = String::new();
                        assert(none@ =~= Seq::<char>::empty());
                        Some((true, none, v))
                    },
                    None => None,
                }
            } else {
                None
            },
        };
    }
    if x.len() > 1 && x[0] == 'v' && only_digits(&rest) {
        match parse_u32(&rest) {
            Some(v) => {
                let none = String::new();
                assert(none@ =~= Seq::<char>::empty());
                Some((false, none, v))
            },
            None => None,
        }
    } else {
        None
    }
}

/// The number that a constant's payload writes. `0x` is hexadecimal, `0d`
/// decimal. Without either, letters make it hexadecimal, and so does a length
/// of more than four digits.
pub open spec fn const_payload(text: Seq<char>) -> Option<u64> {
    if has_prefix(text, "0x"@) || has_prefix(text, "0X"@) {
        u64_value(text.skip(2), 16)
    } else if has_prefix(text, "0d"@) || has_prefix(text, "0D"@) {
        u64_value(text.skip(2), 10)
    } else if all_hex_digits(text) && (text.len() > 4 || exists|i: int|
        0 <= i < text.len() && is_letter(#[trigger] text[i])) {
        u64_value(text, 16)
    } else {
        u64_value(text, 10)
    }
}

/// The value of a name such as `const:0x42` or `const:42_0`.
pub open spec fn const_value(name: Seq<char>) -> Option<u64> {
    match strip(name, "const:"@) {
        Some(rest) => const_payload(before_first(rest, '_')),
        None => None,
    }
}

fn has_letter(s: &str) -> (r: bool)
    ensures
        r == exists|i: int| 0 <= i < s@.len() && is_letter(#[trigger] s@[i]),
{
    let x = chars_of(s);
    let mut i: usize = 0;
    while i < x.len()
        invariant
            i <= x@.len(),
            x@ == s@,
            forall|j: int| 0 <= j < i ==> !is_letter(#[trigger] x@[j]),
        decreases x@.len() - i,
    {
        let c: char = x[i];
        if ('a' <= c && c <= 'z') || ('A' <= c && c <= 'Z') {
            assert(is_letter(s@[i as int]));
            return true;
        }
        i = i + 1;
    }
    false
}

/// The value of a name such as `const:0x42` or `const:42_0`.
pub fn parse_const_value(name: &str) -> (r: Option<u64>)
    ensures
        r == const_value(name@),
{
    proof {
        reveal_strlit("0x");
        reveal_strlit("0X");
        reveal_strlit("0d");
        reveal_strlit("0D");
    }
    let text = match strip_prefix(name, "const:") {
        Some(rest) => head(&rest, '_'),
        None => {
            return None;
        },
    };
    if let Some(hex) = strip_prefix(&text, "0x") {
        return parse_u64(&hex, 16);
    }
    if let Some(hex) = strip_prefix(&text, "0X") {
        return parse_u64(&hex, 16);
    }
    if let Some(dec) = strip_prefix(&text, "0d") {
        return parse_u64(&dec, 10);
    }
    if let Some(dec) = strip_prefix(&text, "0D") {
        return parse_u64(&dec, 10);
    }
    if only_hex_digits(&text) && (text.as_str().unicode_len() > 4 || has_letter(&text)) {
        parse_u64(&text, 16)
    } else {
        parse_u64(&text, 10)
    }
}

/// The address in a call target's name, such as `ram:401110_0` or
/// `const:401110`. A plain payload is hexadecimal.
pub open spec fn call_address(name: Seq<char>) -> Option<u64> {
    match strip(name, "ram:"@) {
        Some(rest) => u64_value(before_first(rest, '_'), 16),
        None => match strip(name, "const:"@) {
            Some(rest) => {
                let text = before_first(rest, '_');
                if has_prefix(text, "0d"@) || has_prefix(text, "0D"@) {
                    u64_value(text.skip(2), 10)
                } else if has_prefix(text, "0x"@) || has_prefix(text, "0X"@) {
                    u64_value(text.skip(2), 16)
                } else {
                    u64_value(text, 16)
                }
            },
            None => None,
        },
    }
}

/// The address in a call target's name.
pub fn extract_call_address(name: &str) -> (r: Option<u64>)
    ensures
        r == call_address(name@),
{
    proof {
        reveal_strlit("0x");
        reveal_strlit("0X");
        reveal_strlit("0d");
        reveal_strlit("0D");
    }
    if let Some(rest) = strip_prefix(name, "ram:") {
        return parse_u64(&head(&rest, '_'), 16);
    }
    if let Some(rest) = strip_prefix(name, "const:") {
        let text = head(&rest, '_');
        if let Some(dec) = strip_prefix(&text, "0d") {
            return parse_u64(&dec, 10);
        }
        if let Some(dec) = strip_prefix(&text, "0D") {
            return parse_u64(&dec, 10);
        }
        if let Some(hex) = strip_prefix(&text, "0x") {
            return parse_u64(&hex, 16);
        }
        if let Some(hex) = strip_prefix(&text, "0X") {
            return parse_u64(&hex, 16);
        }
        return parse_u64(&text, 16);
    }
    None
}

/// Does a name look like a hexadecimal number?
pub fn is_hex_name(value: &str) -> (r: bool)
    ensures
        r == (value@.len() > 0 && all_hex_digits(value@)),
{
    value.unicode_len() > 0 && only_hex_digits(value)
}

/// `s` without any number of copies of `p` in front.
pub open spec fn stripped_of(s: Seq<char>, p: Seq<char>) -> Seq<char>
    decreases s.len(),
{
    if p.len() > 0 && has_prefix(s, p) {
        stripped_of(s.skip(p.len() as int), p)
    } else {
        s
    }
}

/// `s` without any number of copies of `p` behind.
pub open spec fn stripped_of_end(s: Seq<char>, p: Seq<char>) -> Seq<char>
    decreases s.len(),
{
    if p.len() > 0 && has_suffix(s, p) {
        stripped_of_end(s.take(s.len() - p.len()), p)
    } else {
        s
    }
}

/// `s` without any number of copies of `p` in front.
pub fn strip_all(s: String, p: &str) -> (r: String)
    requires
        p@.len() > 0,
    ensures
        r@ == stripped_of(s@, p@),
    decreases s@.len(),
{
    match strip_prefix(&s, p) {
        Some(rest) => strip_all(rest, p),
        None => s,
    }
}

/// `s` without any number of copies of `p` behind.
pub fn strip_all_end(s: String, p: &str) -> (r: String)
    requires
        p@.len() > 0,
    ensures
        r@ == stripped_of_end(s@, p@),
    decreases s@.len(),
{
    match strip_suffix(&s, p) {
        Some(rest) => strip_all_end(rest, p),
        None => s,
    }
}

/// A callee's name without import, symbol and stub decoration, and without a
/// version behind it.
pub open spec fn plain_callee(name: Seq<char>) -> Seq<char> {
    let a = lower(trimmed(name));
    let b = stripped_of(a, "sym.imp."@);
    let c = stripped_of(b, "sym."@);
    let d = stripped_of(c, "imp."@);
    let e = stripped_of(d, "dbg."@);
    let f = stripped_of(e, "fcn."@);
    let g = stripped_of_end(f, "@plt"@);
    let h = stripped_of_end(g, ".plt"@);
    match split_last(h, '_') {
        Some((base, suffix)) => if base.len() > 0 && suffix.len() > 0 && all_digits(suffix) {
            base
        } else {
            h
        },
        None => h,
    }
}

/// The address that a `sub_` name holds.
pub open spec fn sub_address(name: Seq<char>) -> Option<u64> {
    match strip(lower(trimmed(name)), "sub_"@) {
        Some(rest) => u64_value(before_first(rest, '_'), 16),
        None => None,
    }
}

/// One name for one callee: its address where the name holds one, else the
/// name without decoration. `addresses` lists the names that hold an address.
pub open spec fn callee_key(addresses: Seq<(String, u64)>, name: Seq<char>) -> Seq<char> {
    match entry(addresses, trimmed(name)) {
        Some(addr) => "addr:"@ + digits(addr as nat, 16),
        None => match sub_address(name) {
            Some(addr) => "addr:"@ + digits(addr as nat, 16),
            None => plain_callee(name),
        },
    }
}

fn address_key(addr: u64) -> (r: String)
    ensures
        r@ == "addr:"@ + digits(addr as nat, 16),
{
    let mut out = copy_of("addr:");
    push_digits(&mut out, addr, 16);
    out
}

/// One name for one callee.
pub fn normalize_callee_name(addresses: &Vec<(String, u64)>, name: &str) -> (r: String)
    ensures
        r@ == callee_key(addresses@, name@),
{
    proof {
        reveal_strlit("sym.imp.");
        reveal_strlit("sym.");
        reveal_strlit("imp.");
        reveal_strlit("dbg.");
        reveal_strlit("fcn.");
        reveal_strlit("@plt");
        reveal_strlit(".plt");
    }
    let raw = trim(name);
    if let Some(addr) = find(addresses, &raw) {
        return address_key(*addr);
    }
    let low = to_lower(&raw);
    if let Some(rest) = strip_prefix(&low, "sub_") {
        if let Some(addr) = parse_u64(&head(&rest, '_'), 16) {
            return address_key(addr);
        }
    }
    let b = strip_all(low, "sym.imp.");
    let c = strip_all(b, "sym.");
    let d = strip_all(c, "imp.");
    let e = strip_all(d, "dbg.");
    let f = strip_all(e, "fcn.");
    let g = strip_all_end(f, "@plt");
    let h = strip_all_end(g, ".plt");
    match rsplit_once(&h, '_') {
        Some((base, suffix)) => if base.as_str().unicode_len() > 0 && suffix.as_str().unicode_len()
            > 0 && only_digits(&suffix) {
            base
        } else {
            h
        },
        None => h,
    }
}

/// A placeholder may always be replaced.
pub proof fn placeholders_are_replaceable(name: Seq<char>)
    ensures
        stack_placeholder(name) ==> replaceable_stack_name(name),
{
}

/// Case is no part of what a name says of its origin.
pub proof fn name_kinds_ignore_case(a: Seq<char>, b: Seq<char>)
    requires
        lower(a) == lower(b),
    ensures
        generic_arg(a) == generic_arg(b),
        low_signal(a) == low_signal(b),
        low_quality_arg(a) == low_quality_arg(b),
        stack_home(a) == stack_home(b),
        control_register(a) == control_register(b),
{
}

/// Every decoration that can be taken off a callee's name is taken off: the
/// plain name has none of the stub endings.
pub proof fn stripping_leaves_no_prefix(s: Seq<char>, p: Seq<char>)
    requires
        p.len() > 0,
    ensures
        !has_prefix(stripped_of(s, p), p),
        !has_suffix(stripped_of_end(s, p), p),
    decreases s.len(),
{
    if has_prefix(s, p) {
        stripping_leaves_no_prefix(s.skip(p.len() as int), p);
    }
    if has_suffix(s, p) {
        stripping_leaves_no_prefix(s.take(s.len() - p.len()), p);
    }
}

} // verus!
