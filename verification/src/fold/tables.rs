//! Association lists.
//!
//! Facts are kept as lists of key and value; the first entry with a key counts.

use crate::ast::expr::{CExpr, Expr};
use crate::text::{same, same_ignoring_case, same_lower};
use vstd::prelude::*;

verus! {

/// The value under a name, from entry `i` on.
pub open spec fn entry_from<V>(t: Seq<(String, V)>, key: Seq<char>, i: int) -> Option<V>
    decreases t.len() - i,
{
    if i < 0 || i >= t.len() {
        None
    } else if t[i].0@ == key {
        Some(t[i].1)
    } else {
        entry_from(t, key, i + 1)
    }
}

/// The value under a name.
pub open spec fn entry<V>(t: Seq<(String, V)>, key: Seq<char>) -> Option<V> {
    entry_from(t, key, 0)
}

/// The value under a name.
pub fn find<'a, V>(t: &'a Vec<(String, V)>, key: &str) -> (r: Option<&'a V>)
    ensures
        match r {
            Some(v) => entry(t@, key@) == Some(*v),
            None => entry(t@, key@) is None,
        },
{
    let mut i: usize = 0;
    while i < t.len()
        invariant
            i <= t@.len(),
            entry(t@, key@) == entry_from(t@, key@, i as int),
        decreases t@.len() - i,
    {
        if same(&t[i].0, key) {
            return Some(&t[i].1);
        }
        i = i + 1;
    }
    None
}

/// The value under an offset, from entry `i` on.
pub open spec fn offset_entry_from<V>(t: Seq<(i64, V)>, key: i64, i: int) -> Option<V>
    decreases t.len() - i,
{
    if i < 0 || i >= t.len() {
        None
    } else if t[i].0 == key {
        Some(t[i].1)
    } else {
        offset_entry_from(t, key, i + 1)
    }
}

/// The value under an offset.
pub open spec fn offset_entry<V>(t: Seq<(i64, V)>, key: i64) -> Option<V> {
    offset_entry_from(t, key, 0)
}

/// The value under an offset.
pub fn find_offset<'a, V>(t: &'a Vec<(i64, V)>, key: i64) -> (r: Option<&'a V>)
    ensures
        match r {
            Some(v) => offset_entry(t@, key) == Some(*v),
            None => offset_entry(t@, key) is None,
        },
{
    let mut i: usize = 0;
    while i < t.len()
        invariant
            i <= t@.len(),
            offset_entry(t@, key) == offset_entry_from(t@, key, i as int),
        decreases t@.len() - i,
    {
        if t[i].0 == key {
            return Some(&t[i].1);
        }
        i = i + 1;
    }
    None
}

/// The value under a number, from entry `i` on.
pub open spec fn number_entry_from<V>(t: Seq<(u32, V)>, key: u32, i: int) -> Option<V>
    decreases t.len() - i,
{
    if i < 0 || i >= t.len() {
        None
    } else if t[i].0 == key {
        Some(t[i].1)
    } else {
        number_entry_from(t, key, i + 1)
    }
}

/// The value under a number.
pub open spec fn number_entry<V>(t: Seq<(u32, V)>, key: u32) -> Option<V> {
    number_entry_from(t, key, 0)
}

/// The value under a number.
pub fn find_number<'a, V>(t: &'a Vec<(u32, V)>, key: u32) -> (r: Option<&'a V>)
    ensures
        match r {
            Some(v) => number_entry(t@, key) == Some(*v),
            None => number_entry(t@, key) is None,
        },
{
    let mut i: usize = 0;
    while i < t.len()
        invariant
            i <= t@.len(),
            number_entry(t@, key) == number_entry_from(t@, key, i as int),
        decreases t@.len() - i,
    {
        if t[i].0 == key {
            return Some(&t[i].1);
        }
        i = i + 1;
    }
    None
}

/// The place of an operation: its block's address and its index in the block.
pub type Site = (u64, usize);

/// The value at a place, from entry `i` on.
pub open spec fn site_entry_from<V>(t: Seq<(Site, V)>, key: Site, i: int) -> Option<V>
    decreases t.len() - i,
{
    if i < 0 || i >= t.len() {
        None
    } else if t[i].0 == key {
        Some(t[i].1)
    } else {
        site_entry_from(t, key, i + 1)
    }
}

/// The value at a place.
pub open spec fn site_entry<V>(t: Seq<(Site, V)>, key: Site) -> Option<V> {
    site_entry_from(t, key, 0)
}

/// The value at a place.
pub fn find_site<'a, V>(t: &'a Vec<(Site, V)>, key: Site) -> (r: Option<&'a V>)
    ensures
        match r {
            Some(v) => site_entry(t@, key) == Some(*v),
            None => site_entry(t@, key) is None,
        },
{
    let mut i: usize = 0;
    while i < t.len()
        invariant
            i <= t@.len(),
            site_entry(t@, key) == site_entry_from(t@, key, i as int),
        decreases t@.len() - i,
    {
        if t[i].0.0 == key.0 && t[i].0.1 == key.1 {
            return Some(&t[i].1);
        }
        i = i + 1;
    }
    None
}

/// The value under an expression, from entry `i` on.
pub open spec fn expr_entry_from<V>(t: Seq<(CExpr, V)>, key: Expr, i: int) -> Option<V>
    decreases t.len() - i,
{
    if i < 0 || i >= t.len() {
        None
    } else if t[i].0@ == key {
        Some(t[i].1)
    } else {
        expr_entry_from(t, key, i + 1)
    }
}

/// The value under an expression.
pub open spec fn expr_entry<V>(t: Seq<(CExpr, V)>, key: Expr) -> Option<V> {
    expr_entry_from(t, key, 0)
}

/// The value under an expression.
pub fn find_expr<'a, V>(t: &'a Vec<(CExpr, V)>, key: &CExpr) -> (r: Option<&'a V>)
    ensures
        match r {
            Some(v) => expr_entry(t@, key@) == Some(*v),
            None => expr_entry(t@, key@) is None,
        },
{
    let mut i: usize = 0;
    while i < t.len()
        invariant
            i <= t@.len(),
            expr_entry(t@, key@) == expr_entry_from(t@, key@, i as int),
        decreases t@.len() - i,
    {
        if t[i].0.same(key) {
            return Some(&t[i].1);
        }
        i = i + 1;
    }
    None
}

/// What a table of rewrites makes of an expression: itself where it has no entry.
pub open spec fn rewritten(t: Seq<(CExpr, CExpr)>, e: Expr) -> Expr {
    match expr_entry(t, e) {
        Some(to) => to@,
        None => e,
    }
}

/// What a table of rewrites makes of an expression.
pub fn rewrite(t: &Vec<(CExpr, CExpr)>, e: &CExpr) -> (r: CExpr)
    ensures
        r@ == rewritten(t@, e@),
{
    match find_expr(t, e) {
        Some(to) => to.dup(),
        None => e.dup(),
    }
}

/// The expression that a table holds under a name.
pub open spec fn named_expr(t: Seq<(String, CExpr)>, name: Seq<char>) -> Option<Expr> {
    match entry(t, name) {
        Some(e) => Some(e@),
        None => None,
    }
}

/// The expression that a table holds under a name.
pub fn find_named_expr(t: &Vec<(String, CExpr)>, name: &str) -> (r: Option<CExpr>)
    ensures
        crate::ast::expr::view_opt(r) == named_expr(t@, name@),
{
    match find(t, name) {
        Some(e) => Some(e.dup()),
        None => None,
    }
}

/// The name that a table holds under a name.
pub open spec fn named_name(t: Seq<(String, String)>, name: Seq<char>) -> Option<Seq<char>> {
    match entry(t, name) {
        Some(s) => Some(s@),
        None => None,
    }
}

/// The twin of an optional string.
pub open spec fn view_opt_text(s: Option<String>) -> Option<Seq<char>> {
    match s {
        Some(s) => Some(s@),
        None => None,
    }
}

/// The name that a table holds under a name.
pub fn find_named_name(t: &Vec<(String, String)>, name: &str) -> (r: Option<String>)
    ensures
        view_opt_text(r) == named_name(t@, name@),
{
    match find(t, name) {
        Some(s) => Some(crate::text::copy_of(s)),
        None => None,
    }
}

/// The name that a table holds under an offset.
pub open spec fn offset_name(t: Seq<(i64, String)>, offset: i64) -> Option<Seq<char>> {
    match offset_entry(t, offset) {
        Some(s) => Some(s@),
        None => None,
    }
}

/// The name that a table holds under an offset.
pub fn find_offset_name(t: &Vec<(i64, String)>, offset: i64) -> (r: Option<String>)
    ensures
        view_opt_text(r) == offset_name(t@, offset),
{
    match find_offset(t, offset) {
        Some(s) => Some(crate::text::copy_of(s)),
        None => None,
    }
}

/// Is an expression in a list?
pub open spec fn expr_listed(list: Seq<CExpr>, e: Expr) -> bool {
    exists|i: int| 0 <= i < list.len() && (#[trigger] list[i])@ == e
}

/// Is an expression in a list?
pub fn expr_in_list(list: &Vec<CExpr>, e: &CExpr) -> (r: bool)
    ensures
        r == expr_listed(list@, e@),
{
    let mut i: usize = 0;
    while i < list.len()
        invariant
            i <= list@.len(),
            forall|j: int| 0 <= j < i ==> (#[trigger] list@[j])@ != e@,
        decreases list@.len() - i,
    {
        if list[i].same(e) {
            return true;
        }
        i = i + 1;
    }
    false
}

/// Is a pair of names in a list?
pub open spec fn pair_listed(list: Seq<(String, String)>, a: Seq<char>, b: Seq<char>) -> bool {
    exists|i: int| 0 <= i < list.len() && (#[trigger] list[i]).0@ == a && list[i].1@ == b
}

/// Is a pair of names in a list?
pub fn pair_in_list(list: &Vec<(String, String)>, a: &str, b: &str) -> (r: bool)
    ensures
        r == pair_listed(list@, a@, b@),
{
    let mut i: usize = 0;
    while i < list.len()
        invariant
            i <= list@.len(),
            forall|j: int|
                0 <= j < i ==> !((#[trigger] list@[j]).0@ == a@ && list@[j].1@ == b@),
        decreases list@.len() - i,
    {
        if same(&list[i].0, a) && same(&list[i].1, b) {
            return true;
        }
        i = i + 1;
    }
    false
}

/// Is one of the values a name, up to case?
pub open spec fn value_named(list: Seq<(String, String)>, name: Seq<char>) -> bool {
    exists|i: int| 0 <= i < list.len() && same_ignoring_case((#[trigger] list[i]).1@, name)
}

/// Is one of the values a name, up to case?
pub fn has_value_named(list: &Vec<(String, String)>, name: &str) -> (r: bool)
    ensures
        r == value_named(list@, name@),
{
    let mut i: usize = 0;
    while i < list.len()
        invariant
            i <= list@.len(),
            forall|j: int|
                0 <= j < i ==> !same_ignoring_case((#[trigger] list@[j]).1@, name@),
        decreases list@.len() - i,
    {
        if same_lower(&list[i].1, name) {
            return true;
        }
        i = i + 1;
    }
    false
}

/// The first key whose value is a name, up to case, from entry `i` on.
pub open spec fn key_of_value_from(list: Seq<(String, String)>, name: Seq<char>, i: int) -> Option<
    Seq<char>,
>
    decreases list.len() - i,
{
    if i < 0 || i >= list.len() {
        None
    } else if same_ignoring_case(list[i].1@, name) {
        Some(list[i].0@)
    } else {
        key_of_value_from(list, name, i + 1)
    }
}

/// The first key whose value is a name, up to case.
pub fn find_key_of_value(list: &Vec<(String, String)>, name: &str) -> (r: Option<String>)
    ensures
        view_opt_text(r) == key_of_value_from(list@, name@, 0),
{
    let mut i: usize = 0;
    while i < list.len()
        invariant
            i <= list@.len(),
            key_of_value_from(list@, name@, 0) == key_of_value_from(list@, name@, i as int),
        decreases list@.len() - i,
    {
        if same_lower(&list[i].1, name) {
            return Some(crate::text::copy_of(&list[i].0));
        }
        i = i + 1;
    }
    None
}

/// The first offset whose name is a name, up to case, from entry `i` on.
pub open spec fn offset_named_from(list: Seq<(i64, String)>, name: Seq<char>, i: int) -> Option<i64>
    decreases list.len() - i,
{
    if i < 0 || i >= list.len() {
        None
    } else if same_ignoring_case(list[i].1@, name) {
        Some(list[i].0)
    } else {
        offset_named_from(list, name, i + 1)
    }
}

/// The first offset whose name is a name, up to case.
pub fn find_offset_named(list: &Vec<(i64, String)>, name: &str) -> (r: Option<i64>)
    ensures
        r == offset_named_from(list@, name@, 0),
{
    let mut i: usize = 0;
    while i < list.len()
        invariant
            i <= list@.len(),
            offset_named_from(list@, name@, 0) == offset_named_from(list@, name@, i as int),
        decreases list@.len() - i,
    {
        if same_lower(&list[i].1, name) {
            return Some(list[i].0);
        }
        i = i + 1;
    }
    None
}

/// Is a number in a list?
pub fn in_offsets(list: &Vec<i64>, x: i64) -> (r: bool)
    ensures
        r == list@.contains(x),
{
    let mut i: usize = 0;
    while i < list.len()
        invariant
            i <= list@.len(),
            forall|j: int| 0 <= j < i ==> list@[j] != x,
        decreases list@.len() - i,
    {
        if list[i] == x {
            assert(list@[i as int] == x);
            return true;
        }
        i = i + 1;
    }
    false
}

/// Is an address in a list?
pub fn in_addresses(list: &Vec<u64>, x: u64) -> (r: bool)
    ensures
        r == list@.contains(x),
{
    let mut i: usize = 0;
    while i < list.len()
        invariant
            i <= list@.len(),
            forall|j: int| 0 <= j < i ==> list@[j] != x,
        decreases list@.len() - i,
    {
        if list[i] == x {
            assert(list@[i as int] == x);
            return true;
        }
        i = i + 1;
    }
    false
}

/// Is a place in a list?
pub fn in_sites(list: &Vec<Site>, x: Site) -> (r: bool)
    ensures
        r == list@.contains(x),
{
    let mut i: usize = 0;
    while i < list.len()
        invariant
            i <= list@.len(),
            forall|j: int| 0 <= j < i ==> list@[j] != x,
        decreases list@.len() - i,
    {
        if list[i].0 == x.0 && list[i].1 == x.1 {
            assert(list@[i as int] == x);
            return true;
        }
        i = i + 1;
    }
    false
}

} // verus!
