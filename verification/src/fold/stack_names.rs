//! Names of stack slots: external names, names kept from an earlier analysis,
//! and definitions that spell a slot's place.

use crate::ast::expr::{CExpr, Expr};
use crate::fold::facts::{
    is_visible_external_stack_name_role, shows_name, ExternalStackBase, ExternalStackVar,
};
use crate::fold::levels::{Folder, Reading};
use crate::fold::names::{
    generic_arg, is_generic_arg_name, replaceable_stack_name, should_replace_preserved_stack_alias,
};
use crate::fold::tables::{
    entry_from, find_named_expr, find_offset_name, offset_entry_from, view_opt_text,
};
use crate::fold::visible::{hex_behind, negate, negated, parse_hex_behind};
use crate::text::{copy_of, has_prefix, in_list, listed, same, starts_with};
use vstd::prelude::*;

verus! {

/// What analysis of the stack found.
pub struct StackInfo {
    pub stack_vars: Vec<(i64, String)>,
    pub stack_arg_aliases: Vec<(i64, String)>,
    /// Variables that are defined as a stack slot.
    pub definition_overrides: Vec<(String, CExpr)>,
}

/// What analysis of the stack found, as maps.
pub struct StackNames {
    pub vars: Map<i64, Seq<char>>,
    pub aliases: Map<i64, Seq<char>>,
    pub overrides: Map<Seq<char>, Expr>,
}

/// A table of names by offset, as a map.
pub open spec fn name_map(t: Seq<(i64, String)>) -> Map<i64, Seq<char>>
    decreases t.len(),
{
    if t.len() == 0 {
        Map::empty()
    } else {
        name_map(t.skip(1)).insert(t[0].0, t[0].1@)
    }
}

/// A table of expressions by name, as a map.
pub open spec fn expr_map(t: Seq<(String, CExpr)>) -> Map<Seq<char>, Expr>
    decreases t.len(),
{
    if t.len() == 0 {
        Map::empty()
    } else {
        expr_map(t.skip(1)).insert(t[0].0@, t[0].1@)
    }
}

impl StackInfo {
    pub open spec fn view(&self) -> StackNames {
        StackNames {
            vars: name_map(self.stack_vars@),
            aliases: name_map(self.stack_arg_aliases@),
            overrides: expr_map(self.definition_overrides@),
        }
    }
}

proof fn lookup_is_map(t: Seq<(i64, String)>, key: i64, i: int)
    requires
        0 <= i <= t.len(),
    ensures
        offset_entry_from(t, key, i) is Some <==> name_map(t.skip(i)).contains_key(key),
        offset_entry_from(t, key, i) matches Some(s) ==> name_map(t.skip(i))[key] == s@,
    decreases t.len() - i,
{
    if i < t.len() {
        lookup_is_map(t, key, i + 1);
        assert(t.skip(i).skip(1) =~= t.skip(i + 1));
    }
}

proof fn named_lookup_is_map(t: Seq<(String, CExpr)>, key: Seq<char>, i: int)
    requires
        0 <= i <= t.len(),
    ensures
        entry_from(t, key, i) is Some <==> expr_map(t.skip(i)).contains_key(key),
        entry_from(t, key, i) matches Some(e) ==> expr_map(t.skip(i))[key] == e@,
    decreases t.len() - i,
{
    if i < t.len() {
        named_lookup_is_map(t, key, i + 1);
        assert(t.skip(i).skip(1) =~= t.skip(i + 1));
    }
}

/// The value under a key, where there is one.
pub open spec fn under<K, V>(m: Map<K, V>, key: K) -> Option<V> {
    if m.contains_key(key) {
        Some(m[key])
    } else {
        None
    }
}

fn name_under(t: &Vec<(i64, String)>, key: i64) -> (r: Option<String>)
    ensures
        view_opt_text(r) == under(name_map(t@), key),
{
    proof {
        lookup_is_map(t@, key, 0);
        assert(t@.skip(0) =~= t@);
    }
    find_offset_name(t, key)
}

fn expr_under(t: &Vec<(String, CExpr)>, key: &str) -> (r: Option<CExpr>)
    ensures
        crate::ast::expr::view_opt(r) == under(expr_map(t@), key@),
{
    proof {
        named_lookup_is_map(t@, key@, 0);
        assert(t@.skip(0) =~= t@);
    }
    find_named_expr(t, key)
}

fn put_name(t: &mut Vec<(i64, String)>, key: i64, name: &str)
    ensures
        name_map(final(t)@) == name_map(old(t)@).insert(key, name@),
{
    t.insert(0, (key, copy_of(name)));
    assert(t@.skip(1) =~= old(t)@);
}

fn put_expr(t: &mut Vec<(String, CExpr)>, key: &str, e: CExpr)
    ensures
        expr_map(final(t)@) == expr_map(old(t)@).insert(key@, e@),
{
    t.insert(0, (copy_of(key), e));
    assert(t@.skip(1) =~= old(t)@);
}

/// Does an external name replace the one that a slot has? It replaces made-up
/// names and names of parameters.
pub open spec fn gives_way(name: Option<Seq<char>>) -> bool {
    match name {
        Some(name) => has_prefix(name, "local_"@) || has_prefix(name, "stack_"@) || has_prefix(
            name,
            "arg_"@,
        ) || name == "saved_fp"@ || generic_arg(name),
        None => true,
    }
}

fn is_giving_way(name: &Option<String>) -> (r: bool)
    ensures
        r == gives_way(view_opt_text(*name)),
{
    match name {
        Some(name) => starts_with(name, "local_") || starts_with(name, "stack_") || starts_with(
            name,
            "arg_",
        ) || same(name, "saved_fp") || is_generic_arg_name(name),
        None => true,
    }
}

/// The names with an external one at an offset, where it replaces what is there.
pub open spec fn named_at(vars: Map<i64, Seq<char>>, offset: i64, name: Seq<char>) -> Map<
    i64,
    Seq<char>,
> {
    if gives_way(under(vars, offset)) {
        vars.insert(offset, name)
    } else {
        vars
    }
}

fn name_at(vars: &mut Vec<(i64, String)>, offset: i64, name: &str)
    ensures
        name_map(final(vars)@) == named_at(name_map(old(vars)@), offset, name@),
{
    let own = name_under(vars, offset);
    if is_giving_way(&own) {
        put_name(vars, offset, name);
    }
}

/// Does a kept definition replace the one that a new analysis found? It does
/// where the new one is a made-up stack name and the kept one is not.
pub open spec fn keeps_over(found: Expr, kept: Expr) -> bool {
    match (found, kept) {
        (Expr::Var(a), Expr::Var(b)) => replaceable_stack_name(a) && !replaceable_stack_name(b),
        _ => false,
    }
}

/// Does a kept definition replace the one that a new analysis found?
pub fn should_replace_preserved_stack_expr(existing: &CExpr, preserved: &CExpr) -> (r: bool)
    ensures
        r == keeps_over(existing@, preserved@),
{
    match (existing, preserved) {
        (CExpr::Var(a), CExpr::Var(b)) => should_replace_preserved_stack_alias(a)
            && !should_replace_preserved_stack_alias(b),
        _ => false,
    }
}

/// The offset that the name of a local or stack slot spells.
pub open spec fn offset_spelled(name: Seq<char>) -> Option<i64> {
    if has_prefix(name, "local_"@) {
        match hex_behind(name, "local_"@) {
            Some(offset) => Some(negated(offset)),
            None => None,
        }
    } else {
        hex_behind(name, "stack_"@)
    }
}

fn parse_offset_spelled(name: &str) -> (r: Option<i64>)
    ensures
        r == offset_spelled(name@),
{
    if starts_with(name, "local_") {
        match parse_hex_behind(name, "local_") {
            Some(offset) => Some(negate(offset)),
            None => None,
        }
    } else {
        parse_hex_behind(name, "stack_")
    }
}

/// The better name of the slot that a definition spells.
pub open spec fn better_slot_name(vars: Map<i64, Seq<char>>, e: Expr) -> Option<Seq<char>> {
    match e {
        Expr::Var(name) => match offset_spelled(name) {
            Some(offset) => match under(vars, offset) {
                Some(better) => if replaceable_stack_name(name) && !replaceable_stack_name(
                    better,
                ) {
                    Some(better)
                } else {
                    None
                },
                None => None,
            },
            None => None,
        },
        _ => None,
    }
}

fn find_better_slot_name(vars: &Vec<(i64, String)>, e: &CExpr) -> (r: Option<String>)
    ensures
        view_opt_text(r) == better_slot_name(name_map(vars@), e@),
{
    match e {
        CExpr::Var(name) => match parse_offset_spelled(name) {
            Some(offset) => match name_under(vars, offset) {
                Some(better) => if should_replace_preserved_stack_alias(name)
                    && !should_replace_preserved_stack_alias(&better) {
                    Some(better)
                } else {
                    None
                },
                None => None,
            },
            None => None,
        },
        _ => None,
    }
}

/// The definitions with better names for the slots they spell.
pub open spec fn respelled(overrides: Map<Seq<char>, Expr>, vars: Map<i64, Seq<char>>) -> Map<
    Seq<char>,
    Expr,
> {
    overrides.map_values(
        |e: Expr|
            match better_slot_name(vars, e) {
                Some(name) => Expr::Var(name),
                None => e,
            },
    )
}

/// Gives each definition that spells a slot the slot's better name.
pub fn normalize_stack_definition_overrides(info: &mut StackInfo)
    ensures
        final(info)@ == (StackNames {
            overrides: respelled(old(info)@.overrides, old(info)@.vars),
            ..old(info)@
        }),
{
    let mut out: Vec<(String, CExpr)> = Vec::new();
    let t = &info.definition_overrides;
    let ghost vars = name_map(info.stack_vars@);
    let mut i: usize = t.len();
    assert(t@.skip(t@.len() as int) =~= Seq::empty());
    assert(expr_map(out@) =~= respelled(expr_map(t@.skip(i as int)), vars));
    while i > 0
        invariant
            i <= t@.len(),
            vars == name_map(info.stack_vars@),
            t@ == info.definition_overrides@,
            expr_map(out@) == respelled(expr_map(t@.skip(i as int)), vars),
        decreases i,
    {
        i = i - 1;
        let e = match find_better_slot_name(&info.stack_vars, &t[i].1) {
            Some(name) => CExpr::Var(name),
            None => t[i].1.dup(),
        };
        put_expr(&mut out, &t[i].0, e);
        proof {
            assert(t@.skip(i as int).skip(1) =~= t@.skip(i + 1));
            assert(t@.skip(i as int)[0] == t@[i as int]);
            assert(expr_map(out@) =~= respelled(expr_map(t@.skip(i as int)), vars));
        }
    }
    assert(t@.skip(0) =~= t@);
    info.definition_overrides = out;
}

/// The entries that the first `n` of a table add to it as preserved names.
pub open spec fn aliases_kept(
    aliases: Map<i64, Seq<char>>,
    initial: Seq<(i64, String)>,
    n: int,
) -> Map<i64, Seq<char>>
    decreases n,
{
    if n <= 0 {
        aliases
    } else {
        aliases_kept(aliases, initial, n - 1).insert(initial[n - 1].0, initial[n - 1].1@)
    }
}

/// The definitions with the first `n` of an earlier analysis that are better.
pub open spec fn overrides_kept(
    overrides: Map<Seq<char>, Expr>,
    initial: Seq<(String, CExpr)>,
    n: int,
) -> Map<Seq<char>, Expr>
    decreases n,
{
    if n <= 0 {
        overrides
    } else {
        let before = overrides_kept(overrides, initial, n - 1);
        let key = initial[n - 1].0@;
        let kept = initial[n - 1].1@;
        if !before.contains_key(key) || keeps_over(before[key], kept) {
            before.insert(key, kept)
        } else {
            before
        }
    }
}

fn keep_overrides(overrides: &mut Vec<(String, CExpr)>, initial: &Vec<(String, CExpr)>)
    ensures
        expr_map(final(overrides)@) == overrides_kept(
            expr_map(old(overrides)@),
            initial@,
            initial@.len() as int,
        ),
{
    let ghost start = expr_map(overrides@);
    let mut i: usize = 0;
    while i < initial.len()
        invariant
            i <= initial@.len(),
            expr_map(overrides@) == overrides_kept(start, initial@, i as int),
        decreases initial@.len() - i,
    {
        let key = &initial[i].0;
        let replaced = match expr_under(overrides, key) {
            Some(found) => should_replace_preserved_stack_expr(&found, &initial[i].1),
            None => true,
        };
        if replaced {
            put_expr(overrides, key, initial[i].1.dup());
        }
        i = i + 1;
    }
}

impl Reading {
    /// Does an external slot give its name to the stack?
    pub open spec fn external_name(&self, slot: ExternalStackVar) -> bool {
        slot.name@.len() > 0 && shows_name(slot.role) && !listed(
            self.ctx.answers.reserved_aliases@,
            slot.name@,
        )
    }

    /// The names of stack slots with those of the first `n` external ones. An
    /// offset from the frame pointer is taken with either sign.
    pub open spec fn with_external_names(&self, vars: Map<i64, Seq<char>>, n: int) -> Map<
        i64,
        Seq<char>,
    >
        decreases n,
    {
        if n <= 0 {
            vars
        } else {
            let before = self.with_external_names(vars, n - 1);
            let (key, slot) = self.ctx.inputs.stack_slots@[n - 1];
            if !self.external_name(slot) {
                before
            } else {
                let own = named_at(before, key.offset, slot.name@);
                if key.base == ExternalStackBase::FramePointer || negated(key.offset)
                    == key.offset {
                    named_at(own, negated(key.offset), slot.name@)
                } else {
                    own
                }
            }
        }
    }

    /// The names of stack slots with those of the first `n` arguments that an
    /// earlier analysis found, where they say more.
    pub open spec fn with_kept_names(
        &self,
        vars: Map<i64, Seq<char>>,
        initial: Seq<(i64, String)>,
        n: int,
    ) -> Map<i64, Seq<char>>
        decreases n,
    {
        if n <= 0 {
            vars
        } else {
            let before = self.with_kept_names(vars, initial, n - 1);
            let offset = initial[n - 1].0;
            let alias = initial[n - 1].1@;
            if (!before.contains_key(offset) || replaceable_stack_name(before[offset]))
                && !listed(self.ctx.answers.reserved_aliases@, alias) {
                before.insert(offset, alias)
            } else {
                before
            }
        }
    }

    /// What is known of the stack in the end. Where the first analysis defines
    /// nothing by stack slots, its own result with the external names; else the
    /// result of the second, with what the first knew better and the external
    /// names.
    pub open spec fn settled_stack(&self, initial: StackInfo, again: StackInfo) -> StackNames {
        let slots = self.ctx.inputs.stack_slots@.len() as int;
        if initial.definition_overrides@.len() == 0 {
            StackNames { vars: self.with_external_names(initial@.vars, slots), ..initial@ }
        } else {
            let first = initial.stack_arg_aliases@;
            let vars = self.with_kept_names(again@.vars, first, first.len() as int);
            StackNames {
                vars: self.with_external_names(vars, slots),
                aliases: aliases_kept(again@.aliases, first, first.len() as int),
                overrides: respelled(
                    overrides_kept(
                        again@.overrides,
                        initial.definition_overrides@,
                        initial.definition_overrides@.len() as int,
                    ),
                    vars,
                ),
            }
        }
    }
}

impl<'a> Folder<'a> {
    fn is_external_name(&self, slot: &ExternalStackVar) -> (r: bool)
        ensures
            r == self@.external_name(*slot),
    {
        slot.name.as_str().unicode_len() > 0 && is_visible_external_stack_name_role(slot.role)
            && !in_list(&self.ctx.answers.reserved_aliases, &slot.name)
    }

    fn add_external_names(&self, vars: &mut Vec<(i64, String)>)
        ensures
            name_map(final(vars)@) == self@.with_external_names(
                name_map(old(vars)@),
                self.ctx.inputs.stack_slots@.len() as int,
            ),
    {
        let ghost start = name_map(vars@);
        let t = &self.ctx.inputs.stack_slots;
        let mut i: usize = 0;
        while i < t.len()
            invariant
                i <= t@.len(),
                t@ == self.ctx.inputs.stack_slots@,
                name_map(vars@) == self@.with_external_names(start, i as int),
            decreases t@.len() - i,
        {
            let key = &t[i].0;
            let slot = &t[i].1;
            if self.is_external_name(slot) {
                name_at(vars, key.offset, &slot.name);
                let other: i64 = negate(key.offset);
                if key.base == ExternalStackBase::FramePointer || other == key.offset {
                    name_at(vars, other, &slot.name);
                }
            }
            i = i + 1;
        }
    }

    fn keep_names(&self, info: &mut StackInfo, initial: &Vec<(i64, String)>)
        ensures
            final(info)@ == (StackNames {
                vars: self@.with_kept_names(old(info)@.vars, initial@, initial@.len() as int),
                aliases: aliases_kept(old(info)@.aliases, initial@, initial@.len() as int),
                ..old(info)@
            }),
    {
        let ghost start = info@;
        let mut i: usize = 0;
        while i < initial.len()
            invariant
                i <= initial@.len(),
                info@ == (StackNames {
                    vars: self@.with_kept_names(start.vars, initial@, i as int),
                    aliases: aliases_kept(start.aliases, initial@, i as int),
                    ..start
                }),
            decreases initial@.len() - i,
        {
            let offset: i64 = initial[i].0;
            let alias = &initial[i].1;
            put_name(&mut info.stack_arg_aliases, offset, alias);
            let replaced = match name_under(&info.stack_vars, offset) {
                Some(own) => should_replace_preserved_stack_alias(&own),
                None => true,
            };
            if replaced && !in_list(&self.ctx.answers.reserved_aliases, alias) {
                put_name(&mut info.stack_vars, offset, alias);
            }
            i = i + 1;
        }
    }

    /// What is known of the stack in the end, from the first analysis and from
    /// the one made again with its definitions.
    pub fn settle_stack_info(&self, initial: StackInfo, again: StackInfo) -> (r: StackInfo)
        ensures
            r@ == self@.settled_stack(initial, again),
    {
        if initial.definition_overrides.len() == 0 {
            let mut out = initial;
            self.add_external_names(&mut out.stack_vars);
            return out;
        }
        let mut out = again;
        self.keep_names(&mut out, &initial.stack_arg_aliases);
        keep_overrides(&mut out.definition_overrides, &initial.definition_overrides);
        normalize_stack_definition_overrides(&mut out);
        self.add_external_names(&mut out.stack_vars);
        out
    }
}

} // verus!
