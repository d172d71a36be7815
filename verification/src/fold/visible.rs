//! What a shown name stands for in the function being folded.

use crate::ast::expr::{CExpr, Expr};
use crate::ast::types::{CType, Type};
use crate::fold::context::FieldLayout;
use crate::fold::facts::{
    Base, BaseRef, ExternalStackBase, ExternalStackVar, Meaning, ScalarValue, SemanticValue,
    StackSlotKey, VisibleBinding,
};
use crate::fold::levels::{Folder, Reading};
use crate::fold::names::{
    const_value, generic_arg, is_autogenerated_stack_home_name, is_generic_arg_name,
    is_generic_stack_placeholder_alias, is_hex_name, is_low_quality_imported_call_arg_name,
    is_low_signal_visible_name, low_quality_arg, low_signal, parse_const_value, stack_home,
    stack_placeholder,
};
use crate::fold::tables::{
    entry, find, find_key_of_value, find_named_name, find_offset_named, key_of_value_from,
    named_name, offset_named_from, view_opt_text,
};
use crate::ssa::{view_opt_var, SSAVar, Var};
use crate::text::{
    all_digits, all_hex_digits, before_first, chars_of, copy_of, digits, has_prefix, head,
    i64_value, in_list, join, listed, lower, only_digits, parse_i64, parse_u32, parse_u64,
    push_digits, rsplit_once, same, same_ignoring_case, same_lower, split_last, starts_with,
    string_of, strip, strip_prefix, to_lower, trim, trimmed, u32_value, u64_value,
};
use vstd::prelude::*;

verus! {

/// The negative of a number, in two's complement.
pub open spec fn negated(x: i64) -> i64 {
    if x == i64::MIN {
        x
    } else {
        (-x) as i64
    }
}

/// The negative of a number, in two's complement.
pub fn negate(x: i64) -> (r: i64)
    ensures
        r == negated(x),
{
    if x == i64::MIN {
        x
    } else {
        -x
    }
}

/// The offset that a made-up stack name writes.
pub open spec fn spelled_offset(name: Seq<char>) -> Option<i64> {
    let l = lower(name);
    if l == "stack"@ || l == "saved_fp"@ {
        Some(0)
    } else {
        match hex_behind(l, "stack_"@) {
            Some(offset) => Some(offset),
            None => match hex_behind(l, "local_"@) {
                Some(offset) => Some(negated(offset)),
                None => match hex_behind(l, "arg_"@) {
                    Some(offset) => Some(negated(offset)),
                    None => None,
                },
            },
        }
    }
}

/// The hexadecimal number behind a prefix.
pub open spec fn hex_behind(s: Seq<char>, prefix: Seq<char>) -> Option<i64> {
    match strip(s, prefix) {
        Some(rest) => i64_value(rest, 16),
        None => None,
    }
}

/// The hexadecimal number behind a prefix.
pub fn parse_hex_behind(s: &str, prefix: &str) -> (r: Option<i64>)
    ensures
        r == hex_behind(s@, prefix@),
{
    match strip_prefix(s, prefix) {
        Some(rest) => parse_i64(&rest, 16),
        None => None,
    }
}

/// The offset that a made-up stack name writes.
pub fn parse_spelled_offset(name: &str) -> (r: Option<i64>)
    ensures
        r == spelled_offset(name@),
{
    let l = to_lower(name);
    if same(&l, "stack") || same(&l, "saved_fp") {
        return Some(0);
    }
    if let Some(offset) = parse_hex_behind(&l, "stack_") {
        return Some(offset);
    }
    if let Some(offset) = parse_hex_behind(&l, "local_") {
        return Some(negate(offset));
    }
    if let Some(offset) = parse_hex_behind(&l, "arg_") {
        return Some(negate(offset));
    }
    None
}

/// The slot of the first binding with a name, up to case, from entry `i` on.
pub open spec fn bound_slot_from(
    bindings: Seq<VisibleBinding>,
    name: Seq<char>,
    i: int,
) -> Option<StackSlotKey>
    decreases bindings.len() - i,
{
    if i < 0 || i >= bindings.len() {
        None
    } else if same_ignoring_case(bindings[i].name@, name) {
        bindings[i].stack_slot
    } else {
        bound_slot_from(bindings, name, i + 1)
    }
}

/// The offset of the first external slot with a name, up to case, from entry `i` on.
pub open spec fn external_offset_from(
    slots: Seq<(StackSlotKey, ExternalStackVar)>,
    name: Seq<char>,
    i: int,
) -> Option<i64>
    decreases slots.len() - i,
{
    if i < 0 || i >= slots.len() {
        None
    } else if same_ignoring_case(slots[i].1.name@, name) {
        Some(slots[i].0.offset)
    } else {
        external_offset_from(slots, name, i + 1)
    }
}

/// The number of copies whose source is not among the names followed yet.
pub open spec fn unfollowed(t: Seq<(String, String)>, seen: Seq<Seq<char>>) -> nat
    decreases t.len(),
{
    if t.len() == 0 {
        0
    } else {
        unfollowed(t.drop_last(), seen) + if seen.contains(t.last().0@) {
            0nat
        } else {
            1nat
        }
    }
}

/// Following one more copy leaves fewer to follow.
pub proof fn following_leaves_fewer(t: Seq<(String, String)>, seen: Seq<Seq<char>>, name: Seq<char>)
    requires
        !seen.contains(name),
    ensures
        unfollowed(t, seen.push(name)) <= unfollowed(t, seen),
        entry(t, name) is Some ==> unfollowed(t, seen.push(name)) < unfollowed(t, seen),
    decreases t.len(),
{
    let more = seen.push(name);
    if t.len() > 0 {
        let rest = t.drop_last();
        following_leaves_fewer(rest, seen, name);
        let key = t.last().0@;
        assert(seen.contains(key) ==> more.contains(key)) by {
            if seen.contains(key) {
                let i = choose|i: int| 0 <= i < seen.len() && seen[i] == key;
                assert(more[i] == key);
            }
        }
        if key == name {
            assert(more[seen.len() as int] == key);
        }
        if entry(t, name) is Some && key != name {
            lemma_entry_in_front(t, name, 0);
        }
        if more.contains(key) && key != name {
            let i = choose|i: int| 0 <= i < more.len() && more[i] == key;
            assert(i < seen.len());
            assert(seen[i] == key);
        }
    }
}

proof fn lemma_entry_in_front(t: Seq<(String, String)>, name: Seq<char>, i: int)
    requires
        t.len() > 0,
        t.last().0@ != name,
        0 <= i <= t.len(),
    ensures
        crate::fold::tables::entry_from(t, name, i) is Some ==> crate::fold::tables::entry_from(
            t.drop_last(),
            name,
            i,
        ) is Some,
    decreases t.len() - i,
{
    if i < t.len() {
        lemma_entry_in_front(t, name, i + 1);
    }
}

/// The name at the end of a chain of copies; where the chain bites its own
/// tail, the name at which it does.
pub open spec fn copy_root(t: Seq<(String, String)>, seen: Seq<Seq<char>>, name: Seq<char>) -> Seq<
    char,
>
    decreases unfollowed(t, seen),
{
    if seen.contains(name) {
        name
    } else {
        match named_name(t, name) {
            None => name,
            Some(next) => {
                proof {
                    following_leaves_fewer(t, seen, name);
                }
                copy_root(t, seen.push(name), next)
            },
        }
    }
}

fn follow_copies(
    t: &Vec<(String, String)>,
    mut seen: Vec<String>,
    name: String,
) -> (r: String)
    ensures
        r@ == copy_root(t@, crate::text::texts(seen@), name@),
    decreases unfollowed(t@, crate::text::texts(seen@)),
{
    let ghost before = crate::text::texts(seen@);
    if in_list(&seen, &name) {
        assert(before.contains(name@)) by {
            let i = choose|i: int| 0 <= i < seen@.len() && (#[trigger] seen@[i])@ == name@;
            assert(before[i] == name@);
        }
        return name;
    }
    assert(!before.contains(name@)) by {
        if before.contains(name@) {
            let i = choose|i: int| 0 <= i < before.len() && before[i] == name@;
            assert(seen@[i]@ == name@);
        }
    }
    match find_named_name(t, &name) {
        None => name,
        Some(next) => {
            proof {
                following_leaves_fewer(t@, before, name@);
            }
            seen.push(copy_of(&name));
            assert(crate::text::texts(seen@) =~= before.push(name@));
            follow_copies(t, seen, next)
        },
    }
}

/// The name of a field at an offset, from entry `i` on.
pub open spec fn field_from(fields: Seq<FieldLayout>, offset: u64, i: int) -> Option<Seq<char>>
    decreases fields.len() - i,
{
    if i < 0 || i >= fields.len() {
        None
    } else if fields[i].offset == offset {
        Some(fields[i].name@)
    } else {
        field_from(fields, offset, i + 1)
    }
}

fn find_field(fields: &Vec<FieldLayout>, offset: u64) -> (r: Option<String>)
    ensures
        view_opt_text(r) == field_from(fields@, offset, 0),
{
    let mut i: usize = 0;
    while i < fields.len()
        invariant
            i <= fields@.len(),
            field_from(fields@, offset, 0) == field_from(fields@, offset, i as int),
        decreases fields@.len() - i,
    {
        if fields[i].offset == offset {
            return Some(copy_of(&fields[i].name));
        }
        i = i + 1;
    }
    None
}

/// The variable that a meaning is rooted in, where it is nothing more than
/// that variable or a load through it.
pub open spec fn meaning_root(m: Meaning) -> Option<Var> {
    match m {
        Meaning::Root(root) => Some(root.var),
        Meaning::Address(addr) => match addr.base {
            Base::Value(root) => if addr.index is None && addr.scale == 0 && addr.offset == 0 {
                Some(root.var)
            } else {
                None
            },
            _ => None,
        },
        Meaning::Load { addr, size } => match addr.base {
            Base::Value(root) => Some(root.var),
            _ => None,
        },
        _ => None,
    }
}

fn root_of_meaning(m: &SemanticValue) -> (r: Option<SSAVar>)
    ensures
        view_opt_var(r) == meaning_root(m@),
{
    match m {
        SemanticValue::Scalar(ScalarValue::Root(root)) => Some(root.var.dup()),
        SemanticValue::Address(addr) => match &addr.base {
            BaseRef::Value(root) => if addr.index.is_none() && addr.scale_bytes == 0
                && addr.offset_bytes == 0 {
                Some(root.var.dup())
            } else {
                None
            },
            _ => None,
        },
        SemanticValue::Load { addr, size } => match &addr.base {
            BaseRef::Value(root) => Some(root.var.dup()),
            _ => None,
        },
        _ => None,
    }
}

/// Bytes that hold so many bits, rounded up.
pub open spec fn bytes_for(bits: u32) -> u32 {
    ((bits + 7) / 8) as u32
}

/// Bytes that hold so many bits, rounded up.
pub fn bits_to_bytes(bits: u32) -> (r: u32)
    ensures
        r == bytes_for(bits),
{
    ((bits as u64 + 7) / 8) as u32
}

impl Reading {
    /// A register or flag under its own name, with nothing a reader would know it by.
    pub open spec fn transient(&self, name: Seq<char>) -> bool {
        let l = lower(name);
        !low_signal(name) && (listed(self.ctx.arch.cpu_flags@, l) || {
            let base = before_first(l, '_');
            listed(self.ctx.arch.register_bases@, base) && !listed(
                self.ctx.answers.semantic_bindings@,
                base,
            ) && named_name(self.ctx.answers.arg_aliases@, name) is None
        })
    }

    /// A name that a reader can make sense of.
    pub open spec fn telling(&self, name: Seq<char>) -> bool {
        !stack_placeholder(name) && !low_signal(name) && !self.transient(name)
    }

    /// A name behind which an argument must be looked for.
    pub open spec fn forced(&self, name: Seq<char>) -> bool {
        self.transient(name) || low_signal(name) || low_quality_arg(name)
    }

    /// An ampersand in front of a name that a reader can make sense of.
    pub open spec fn telling_address(&self, name: Seq<char>) -> bool {
        match strip(name, "&"@) {
            Some(rest) => rest.len() > 0 && self.telling(rest),
            None => false,
        }
    }

    /// The stack offset that a name stands for.
    pub open spec fn storage_offset(&self, name: Seq<char>) -> Option<i64> {
        match spelled_offset(name) {
            Some(offset) => Some(offset),
            None => match offset_named_from(self.ctx.facts.stack_vars@, name, 0) {
                Some(offset) => Some(offset),
                None => match bound_slot_from(self.ctx.inputs.visible_bindings@, name, 0) {
                    Some(slot) => Some(
                        if slot.base == ExternalStackBase::FramePointer {
                            negated(slot.offset)
                        } else {
                            slot.offset
                        },
                    ),
                    None => external_offset_from(self.ctx.inputs.stack_slots@, name, 0),
                },
            },
        }
    }

    /// Does a name stand for a slot below the frame base?
    pub open spec fn below_frame(&self, name: Seq<char>) -> bool {
        self.storage_offset(name) matches Some(offset) && offset < 0
    }

    /// A local variable that somebody named.
    pub open spec fn named_local(&self, name: Seq<char>) -> bool {
        (self.slot_of(name) is Some || self.below_frame(name)) && !stack_home(name) && !low_signal(
            name,
        ) && !self.transient(name)
    }

    /// A local variable that can own a call's result.
    pub open spec fn owning_local(&self, name: Seq<char>) -> bool {
        let l = lower(name);
        ((self.slot_of(name) matches Some(slot) && slot.offset < 0) || self.below_frame(name))
            && !self.transient(name) && !stack_placeholder(name) && l != "saved_fp"@
            && !has_prefix(l, "stack_"@)
    }

    /// The name at the end of a chain of copies.
    pub open spec fn root_name(&self, name: Seq<char>) -> Seq<char> {
        copy_root(self.ctx.facts.copy_sources@, Seq::empty(), name)
    }

    /// The register family that a variable belongs to, by its own name or by
    /// the name it was copied from.
    pub open spec fn family(&self, var: Var) -> Option<Seq<char>> {
        match named_name(self.ctx.answers.register_families@, var.name) {
            Some(family) => Some(family),
            None => {
                let root = self.root_name(var.display());
                if root != var.display() {
                    named_name(self.ctx.answers.register_families@, root)
                } else {
                    None
                }
            },
        }
    }

    /// The name that a variable's alias is shown under.
    pub open spec fn shown_alias(&self, ssa: Seq<char>) -> Seq<char> {
        match named_name(self.ctx.facts.var_aliases@, ssa) {
            Some(alias) => match named_name(self.ctx.answers.canonical_stack_names@, alias) {
                Some(canonical) => canonical,
                None => alias,
            },
            None => match named_name(self.ctx.answers.canonical_stack_names@, ssa) {
                Some(canonical) => canonical,
                None => ssa,
            },
        }
    }

    /// What a variable without a better rendering is shown as.
    pub open spec fn fallback(&self, ssa: Seq<char>) -> Expr {
        if const_value(ssa) is Some {
            Expr::Var(ssa)
        } else {
            match named_name(self.ctx.facts.var_aliases@, ssa) {
                Some(alias) => Expr::Var(alias),
                None => Expr::Var(ssa),
            }
        }
    }

    /// The variable that a name of the form `base_version` spells.
    pub open spec fn spelled_var(&self, name: Seq<char>) -> Option<Var> {
        if self.storage_offset(name) is Some {
            None
        } else {
            match split_last(name, '_') {
                Some((base, version)) => match u32_value(version, 10) {
                    Some(v) => {
                        let hinted = match self.hint(name) {
                            Some(ty) => match ty.width() {
                                Some(bits) => if bytes_for(bits) > 0 {
                                    Some(bytes_for(bits))
                                } else {
                                    None
                                },
                                None => None,
                            },
                            None => None,
                        };
                        Some(
                            Var {
                                name: lower(base),
                                version: v,
                                size: match hinted {
                                    Some(bytes) => bytes,
                                    None => self.ctx.arch.ptr_size,
                                },
                            },
                        )
                    },
                    None => None,
                },
                None => None,
            }
        }
    }

    /// Is a name shown for its own sake, rather than for the slot it lives in?
    pub open spec fn direct_root(&self, name: Seq<char>) -> bool {
        listed(self.ctx.answers.semantic_bindings@, name) || named_name(
            self.ctx.answers.arg_aliases@,
            name,
        ) is Some || self.hint(name) is Some
    }

    /// The size of the register that a parameter arrives in.
    pub open spec fn param_size(&self, name: Seq<char>, reg: Seq<char>) -> u32 {
        let l = lower(reg);
        let hinted = match self.hint(name) {
            Some(ty) => ty.width(),
            None => None,
        };
        match hinted {
            Some(bits) => if bytes_for(bits) < 1 {
                1
            } else {
                bytes_for(bits)
            },
            None => if l == "eax"@ || l == "ebx"@ || l == "ecx"@ || l == "edx"@ || l == "esi"@ || l
                == "edi"@ || l == "ebp"@ || l == "esp"@ || l == "eip"@ || (l.len() > 0 && l[0]
                == 'w' && all_digits(l.skip(1))) {
                4
            } else {
                self.ctx.arch.ptr_size
            },
        }
    }

    /// The register that an `argN` name counts to.
    pub open spec fn positional_reg(&self, name: Seq<char>) -> Option<Seq<char>> {
        match strip(name, "arg"@) {
            Some(rest) => match u64_value(rest, 10) {
                Some(idx) => if 0 < idx <= self.ctx.arch.arg_regs@.len() {
                    Some(self.ctx.arch.arg_regs@[idx - 1]@)
                } else {
                    None
                },
                None => None,
            },
            None => None,
        }
    }

    /// The variable behind the meaning or origin of a name.
    pub open spec fn meaning_var(&self, name: Seq<char>) -> Option<Var> {
        match self.meaning_of(name) {
            Some(m) => meaning_root(m),
            None => None,
        }
    }

    pub open spec fn origin_var(&self, name: Seq<char>) -> Option<Var> {
        match self.origin_of(name) {
            Some(origin) => origin.var,
            None => None,
        }
    }

    /// The variable that a shown name stands for: a parameter's register, the
    /// root of its meaning, the origin of its value, or the variable it spells.
    pub open spec fn visible_var(&self, name: Seq<char>) -> Option<Var> {
        if !self.direct_root(name) && self.storage_offset(name) is Some {
            None
        } else {
            match key_of_value_from(self.ctx.inputs.param_register_aliases@, name, 0) {
                Some(reg) => Some(Var { name: reg, version: 0, size: self.param_size(name, reg) }),
                None => match self.positional_reg(name) {
                    Some(reg) => Some(
                        Var { name: reg, version: 0, size: self.param_size(name, reg) },
                    ),
                    None => match self.meaning_var(name) {
                        Some(var) => Some(var),
                        None => match self.alias_var(name) {
                            Some(var) => Some(var),
                            None => match self.origin_var(name) {
                                Some(var) => Some(var),
                                None => self.spelled_var(name),
                            },
                        },
                    },
                },
            }
        }
    }

    /// The variable found by way of the variable behind a shown name.
    pub open spec fn alias_var(&self, name: Seq<char>) -> Option<Var> {
        match self.ssa_of(name) {
            Some(ssa) => match self.meaning_var(ssa) {
                Some(var) => Some(var),
                None => match self.origin_var(ssa) {
                    Some(var) => Some(var),
                    None => self.spelled_var(ssa),
                },
            },
            None => None,
        }
    }

    /// The name of a field of a structure or union.
    pub open spec fn external_field(&self, tag: Seq<char>, offset: u64) -> Option<Seq<char>> {
        let key = lower(trimmed(tag));
        let in_struct = match entry(self.ctx.inputs.structs@, key) {
            Some(fields) => field_from(fields@, offset, 0),
            None => None,
        };
        match in_struct {
            Some(name) => Some(name),
            None => match entry(self.ctx.inputs.unions@, key) {
                Some(fields) => field_from(fields@, offset, 0),
                None => None,
            },
        }
    }

    /// The name of a field, by the type that a value is, points to or holds.
    pub open spec fn hinted_field(&self, ty: Type, offset: u64) -> Option<Seq<char>>
        decreases ty,
    {
        match ty {
            Type::Pointer(inner) => self.hinted_field(*inner, offset),
            Type::Array(inner, _) => self.hinted_field(*inner, offset),
            Type::Struct(name) => self.external_field(name, offset),
            Type::Union(name) => self.external_field(name, offset),
            _ => None,
        }
    }

    /// The name of a field of what a variable is hinted to hold.
    pub open spec fn var_field(&self, var: Var, offset: u64) -> Option<Seq<char>> {
        match self.var_hint(var) {
            Some(ty) => self.hinted_field(ty, offset),
            None => None,
        }
    }

    /// The stem under which a later version of a parameter's storage is shown.
    pub open spec fn storage_stem(&self, var: Var) -> Seq<char> {
        if has_prefix(var.name, "reg:"@) {
            let reg = crate::fold::names::stripped_of(var.name, "reg:"@);
            if reg.len() > 0 && all_hex_digits(reg) {
                "r"@ + reg
            } else {
                lower(reg)
            }
        } else if has_prefix(var.name, "tmp:"@) || has_prefix(var.name, "unique:"@) {
            "t"@
        } else {
            without_punctuation(lower(var.name))
        }
    }

    /// The left side of an assignment to a variable. A later version of a
    /// parameter is no longer the parameter: it is shown by its alias or its register.
    pub open spec fn lhs(&self, dst: Var) -> Expr {
        let rendered = self.shown(dst);
        if dst.version > 0 && generic_arg(rendered) {
            match named_name(self.ctx.facts.var_aliases@, dst.display()) {
                Some(alias) => if !generic_arg(alias) {
                    match named_name(self.ctx.answers.canonical_stack_names@, alias) {
                        Some(canonical) => Expr::Var(canonical),
                        None => Expr::Var(alias),
                    }
                } else {
                    Expr::Var(versioned(self.storage_stem(dst), dst.version))
                },
                None => Expr::Var(versioned(self.storage_stem(dst), dst.version)),
            }
        } else {
            Expr::Var(rendered)
        }
    }
}

impl<'a> Folder<'a> {
    /// A register or flag under its own name.
    pub fn is_transient_visible_name(&self, name: &str) -> (r: bool)
        ensures
            r == self@.transient(name@),
    {
        if is_low_signal_visible_name(name) {
            return false;
        }
        let l = to_lower(name);
        if self.ctx.arch.is_cpu_flag(&l) {
            return true;
        }
        let base = head(&l, '_');
        self.ctx.arch.is_register_like_base_name(&base) && !in_list(
            &self.ctx.answers.semantic_bindings,
            &base,
        ) && self.arg_alias_for_rendered_name(name).is_none()
    }

    /// A name that a reader can make sense of.
    pub fn is_telling_name(&self, name: &str) -> (r: bool)
        ensures
            r == self@.telling(name@),
    {
        !is_generic_stack_placeholder_alias(name) && !is_low_signal_visible_name(name)
            && !self.is_transient_visible_name(name)
    }

    /// A name behind which an argument must be looked for.
    pub fn should_force_imported_call_resolution_name(&self, name: &str) -> (r: bool)
        ensures
            r == self@.forced(name@),
    {
        self.is_transient_visible_name(name) || is_low_signal_visible_name(name)
            || is_low_quality_imported_call_arg_name(name)
    }

    /// An ampersand in front of a name that a reader can make sense of.
    pub fn should_preserve_address_like_visible_name(&self, name: &str) -> (r: bool)
        ensures
            r == self@.telling_address(name@),
    {
        match strip_prefix(name, "&") {
            Some(rest) => rest.as_str().unicode_len() > 0 && self.is_telling_name(&rest),
            None => false,
        }
    }

    /// The stack offset that a name stands for.
    pub fn stack_offset_for_visible_storage_name(&self, name: &str) -> (r: Option<i64>)
        ensures
            r == self@.storage_offset(name@),
    {
        if let Some(offset) = parse_spelled_offset(name) {
            return Some(offset);
        }
        if let Some(offset) = find_offset_named(&self.ctx.facts.stack_vars, name) {
            return Some(offset);
        }
        let bindings = &self.ctx.inputs.visible_bindings;
        let mut i: usize = 0;
        while i < bindings.len()
            invariant_except_break
                i <= bindings@.len(),
                bindings == &self.ctx.inputs.visible_bindings,
                bound_slot_from(bindings@, name@, 0) == bound_slot_from(bindings@, name@, i as int),
                spelled_offset(name@) is None,
                offset_named_from(self.ctx.facts.stack_vars@, name@, 0) is None,
            ensures
                bound_slot_from(bindings@, name@, 0) is None,
            decreases bindings@.len() - i,
        {
            if same_lower(&bindings[i].name, name) {
                match &bindings[i].stack_slot {
                    Some(slot) => {
                        return Some(
                            match slot.base {
                                ExternalStackBase::FramePointer => negate(slot.offset),
                                _ => slot.offset,
                            },
                        );
                    },
                    None => {
                        break;
                    },
                }
            }
            i = i + 1;
        }
        let slots = &self.ctx.inputs.stack_slots;
        let mut k: usize = 0;
        while k < slots.len()
            invariant
                k <= slots@.len(),
                slots == &self.ctx.inputs.stack_slots,
                external_offset_from(slots@, name@, 0) == external_offset_from(
                    slots@,
                    name@,
                    k as int,
                ),
                spelled_offset(name@) is None,
                offset_named_from(self.ctx.facts.stack_vars@, name@, 0) is None,
                bound_slot_from(self.ctx.inputs.visible_bindings@, name@, 0) is None,
            decreases slots@.len() - k,
        {
            if same_lower(&slots[k].1.name, name) {
                return Some(slots[k].0.offset);
            }
            k = k + 1;
        }
        None
    }

    /// Does a name stand for a slot below the frame base?
    pub fn is_below_frame(&self, name: &str) -> (r: bool)
        ensures
            r == self@.below_frame(name@),
    {
        match self.stack_offset_for_visible_storage_name(name) {
            Some(offset) => offset < 0,
            None => false,
        }
    }

    /// A local variable that somebody named.
    pub fn is_named_scalar_local(&self, name: &str) -> (r: bool)
        ensures
            r == self@.named_local(name@),
        decreases self.left, 2int,
    {
        (self.stack_slot_provenance_for_name(name).is_some() || self.is_below_frame(name))
            && !is_autogenerated_stack_home_name(name) && !is_low_signal_visible_name(name)
            && !self.is_transient_visible_name(name)
    }

    /// A local variable that can own a call's result.
    pub fn is_generic_stack_local_owner_name(&self, name: &str) -> (r: bool)
        ensures
            r == self@.owning_local(name@),
        decreases self.left, 2int,
    {
        let l = to_lower(name);
        let slot_below = match self.stack_slot_provenance_for_name(name) {
            Some(slot) => slot.offset < 0,
            None => false,
        };
        (slot_below || self.is_below_frame(name)) && !self.is_transient_visible_name(name)
            && !is_generic_stack_placeholder_alias(name) && !same(&l, "saved_fp") && !starts_with(
            &l,
            "stack_",
        )
    }

    /// Do two names stand for the same stack slot?
    pub fn visible_names_share_stack_slot(&self, lhs: &str, rhs: &str) -> (r: bool)
        ensures
            r == (self@.storage_offset(lhs@) is Some && self@.storage_offset(lhs@)
                == self@.storage_offset(rhs@)),
    {
        match (
            self.stack_offset_for_visible_storage_name(lhs),
            self.stack_offset_for_visible_storage_name(rhs),
        ) {
            (Some(a), Some(b)) => a == b,
            _ => false,
        }
    }

    /// The name at the end of a chain of copies.
    pub fn resolve_copy_root_name_in_fold(&self, name: &str) -> (r: String)
        ensures
            r@ == self@.root_name(name@),
    {
        let seen: Vec<String> = Vec::new();
        assert(crate::text::texts(seen@) =~= Seq::<Seq<char>>::empty());
        follow_copies(&self.ctx.facts.copy_sources, seen, copy_of(name))
    }

    /// The register family that a variable belongs to.
    pub fn register_family_name_for_ssa(&self, var: &SSAVar) -> (r: Option<String>)
        ensures
            view_opt_text(r) == self@.family(var@),
    {
        if let Some(family) = find_named_name(&self.ctx.answers.register_families, &var.name) {
            return Some(family);
        }
        let display = var.display_name();
        let root = self.resolve_copy_root_name_in_fold(&display);
        if !same(&root, &display) {
            find_named_name(&self.ctx.answers.register_families, &root)
        } else {
            None
        }
    }

    /// The name that a variable's alias is shown under.
    pub fn rendered_visible_name_for_ssa_name(&self, ssa_name: &str) -> (r: String)
        ensures
            r@ == self@.shown_alias(ssa_name@),
    {
        match find_named_name(&self.ctx.facts.var_aliases, ssa_name) {
            Some(alias) => match find_named_name(&self.ctx.answers.canonical_stack_names, &alias) {
                Some(canonical) => canonical,
                None => alias,
            },
            None => match find_named_name(&self.ctx.answers.canonical_stack_names, ssa_name) {
                Some(canonical) => canonical,
                None => copy_of(ssa_name),
            },
        }
    }

    /// What a variable without a better rendering is shown as.
    pub fn expr_for_ssa_fallback_name(&self, ssa_name: &str) -> (r: CExpr)
        ensures
            r@ == self@.fallback(ssa_name@),
    {
        if parse_const_value(ssa_name).is_some() {
            return CExpr::var(ssa_name);
        }
        match find_named_name(&self.ctx.facts.var_aliases, ssa_name) {
            Some(alias) => CExpr::Var(alias),
            None => CExpr::var(ssa_name),
        }
    }

    /// The variable that a name of the form `base_version` spells.
    pub fn guess_ssa_var_from_name(&self, name: &str) -> (r: Option<SSAVar>)
        ensures
            view_opt_var(r) == self@.spelled_var(name@),
    {
        if self.stack_offset_for_visible_storage_name(name).is_some() {
            return None;
        }
        match rsplit_once(name, '_') {
            Some((base, version)) => match parse_u32(&version) {
                Some(v) => {
                    let mut size: u32 = self.ctx.arch.ptr_size;
                    if let Some(ty) = self.lookup_type_hint(name) {
                        if let Some(bits) = ty.bits() {
                            let bytes = bits_to_bytes(bits);
                            if bytes > 0 {
                                size = bytes;
                            }
                        }
                    }
                    Some(SSAVar { name: to_lower(&base), version: v, size })
                },
                None => None,
            },
            None => None,
        }
    }

    pub fn prefers_direct_root(&self, name: &str) -> (r: bool)
        ensures
            r == self@.direct_root(name@),
    {
        in_list(&self.ctx.answers.semantic_bindings, name) || self.arg_alias_for_rendered_name(
            name,
        ).is_some() || self.lookup_type_hint(name).is_some()
    }

    fn infer_reg_size(&self, name: &str, reg_name: &str) -> (r: u32)
        ensures
            r == self@.param_size(name@, reg_name@),
    {
        if let Some(ty) = self.lookup_type_hint(name) {
            if let Some(bits) = ty.bits() {
                let bytes = bits_to_bytes(bits);
                return if bytes < 1 {
                    1
                } else {
                    bytes
                };
            }
        }
        let l = to_lower(reg_name);
        let x = chars_of(&l);
        let mut numbered = false;
        if x.len() > 0 && x[0] == 'w' {
            let rest = string_of(&x, 1, x.len());
            assert(rest@ =~= l@.skip(1));
            numbered = only_digits(&rest);
        }
        if numbered || same(&l, "eax") || same(&l, "ebx") || same(&l, "ecx") || same(&l, "edx")
            || same(&l, "esi") || same(&l, "edi") || same(&l, "ebp") || same(&l, "esp") || same(
            &l,
            "eip",
        ) {
            4
        } else {
            self.ctx.arch.ptr_size
        }
    }

    fn find_positional_reg(&self, name: &str) -> (r: Option<String>)
        ensures
            view_opt_text(r) == self@.positional_reg(name@),
    {
        match strip_prefix(name, "arg") {
            Some(rest) => match parse_u64(&rest, 10) {
                Some(idx) => {
                    let n: usize = self.ctx.arch.arg_regs.len();
                    if 0 < idx && idx <= n as u64 {
                        Some(copy_of(&self.ctx.arch.arg_regs[(idx - 1) as usize]))
                    } else {
                        None
                    }
                },
                None => None,
            },
            None => None,
        }
    }

    fn find_meaning_var(&self, name: &str) -> (r: Option<SSAVar>)
        ensures
            view_opt_var(r) == self@.meaning_var(name@),
    {
        match self.lookup_semantic_value(name) {
            Some(m) => root_of_meaning(m),
            None => None,
        }
    }

    fn find_origin_var(&self, name: &str) -> (r: Option<SSAVar>)
        ensures
            view_opt_var(r) == self@.origin_var(name@),
    {
        match self.forwarded_value_for_name(name) {
            Some(prov) => match &prov.source_var {
                Some(var) => Some(var.dup()),
                None => None,
            },
            None => None,
        }
    }

    /// The variable that a shown name stands for.
    pub fn ssa_var_for_visible_name(&self, name: &str) -> (r: Option<SSAVar>)
        ensures
            view_opt_var(r) == self@.visible_var(name@),
        decreases self.left, 1int,
    {
        if !self.prefers_direct_root(name) && self.stack_offset_for_visible_storage_name(
            name,
        ).is_some() {
            return None;
        }
        if let Some(reg) = find_key_of_value(&self.ctx.inputs.param_register_aliases, name) {
            let size = self.infer_reg_size(name, &reg);
            return Some(SSAVar { name: reg, version: 0, size });
        }
        if let Some(reg) = self.find_positional_reg(name) {
            let size = self.infer_reg_size(name, &reg);
            return Some(SSAVar { name: reg, version: 0, size });
        }
        if let Some(var) = self.find_meaning_var(name) {
            return Some(var);
        }
        if let Some(ssa) = self.find_ssa_name_for_rendered_alias(name) {
            if let Some(var) = self.find_meaning_var(&ssa) {
                return Some(var);
            }
            if let Some(var) = self.find_origin_var(&ssa) {
                return Some(var);
            }
            if let Some(var) = self.guess_ssa_var_from_name(&ssa) {
                return Some(var);
            }
        }
        if let Some(var) = self.find_origin_var(name) {
            return Some(var);
        }
        self.guess_ssa_var_from_name(name)
    }

    /// The name of a field of a structure or union.
    pub fn lookup_external_field_name(&self, tag: &str, offset: u64) -> (r: Option<String>)
        ensures
            view_opt_text(r) == self@.external_field(tag@, offset),
    {
        let key = to_lower(&trim(tag));
        if let Some(fields) = find(&self.ctx.inputs.structs, &key) {
            if let Some(name) = find_field(fields, offset) {
                return Some(name);
            }
        }
        match find(&self.ctx.inputs.unions, &key) {
            Some(fields) => find_field(fields, offset),
            None => None,
        }
    }

    /// The name of a field, by the type that a value is, points to or holds.
    pub fn field_name_from_type_hint(&self, ty: &CType, offset: u64) -> (r: Option<String>)
        ensures
            view_opt_text(r) == self@.hinted_field(ty@, offset),
        decreases ty,
    {
        match ty {
            CType::Pointer(inner) => self.field_name_from_type_hint(inner, offset),
            CType::Array(inner, _) => self.field_name_from_type_hint(inner, offset),
            CType::Struct(name) => self.lookup_external_field_name(name, offset),
            CType::Union(name) => self.lookup_external_field_name(name, offset),
            _ => None,
        }
    }

    /// The name of a field of what a variable is hinted to hold.
    pub fn field_name_from_type_hint_for_var(&self, var: &SSAVar, offset: u64) -> (r: Option<
        String,
    >)
        ensures
            view_opt_text(r) == self@.var_field(var@, offset),
    {
        match self.type_hint_for_var(var) {
            Some(ty) => self.field_name_from_type_hint(&ty, offset),
            None => None,
        }
    }

    /// The left side of an assignment to a variable.
    pub fn assignment_lhs_expr(&self, dst: &SSAVar) -> (r: CExpr)
        ensures
            r@ == self@.lhs(dst@),
    {
        let rendered = self.var_name(dst);
        if !(dst.version > 0 && is_generic_arg_name(&rendered)) {
            return CExpr::Var(rendered);
        }
        if let Some(alias) = find_named_name(&self.ctx.facts.var_aliases, &dst.display_name()) {
            if !is_generic_arg_name(&alias) {
                return match find_named_name(&self.ctx.answers.canonical_stack_names, &alias) {
                    Some(canonical) => CExpr::Var(canonical),
                    None => CExpr::Var(alias),
                };
            }
        }
        proof {
            reveal_strlit("reg:");
        }
        let stem = if starts_with(&dst.name, "reg:") {
            let reg = crate::fold::names::strip_all(copy_of(&dst.name), "reg:");
            if is_hex_name(&reg) {
                join("r", &reg)
            } else {
                to_lower(&reg)
            }
        } else if starts_with(&dst.name, "tmp:") || starts_with(&dst.name, "unique:") {
            copy_of("t")
        } else {
            replace_punctuation(&to_lower(&dst.name))
        };
        let mut out = if same(&stem, "t") {
            stem
        } else {
            join(&stem, "_")
        };
        push_digits(&mut out, dst.version as u64, 10);
        CExpr::Var(out)
    }
}

fn replace_punctuation(s: &str) -> (r: String)
    ensures
        r@ == without_punctuation(s@),
{
    let x = chars_of(s);
    let mut out = String::new();
    let mut i: usize = 0;
    while i < x.len()
        invariant
            i <= x@.len(),
            out@ =~= without_punctuation(x@.take(i as int)),
        decreases x@.len() - i,
    {
        let c: char = x[i];
        assert(x@.take(i + 1) =~= x@.take(i as int).push(c));
        if c == ':' || c == '.' {
            out.push('_');
        } else {
            out.push(c);
        }
        i = i + 1;
    }
    assert(x@.take(x@.len() as int) =~= x@);
    out
}

/// A base with a version; the base `t` is followed by the version at once.
pub open spec fn versioned(base: Seq<char>, version: u32) -> Seq<char> {
    if base == "t"@ {
        "t"@ + digits(version as nat, 10)
    } else {
        base + "_"@ + digits(version as nat, 10)
    }
}

/// Underscores in place of colons and periods.
pub open spec fn without_punctuation(s: Seq<char>) -> Seq<char> {
    s.map_values(
        |c: char|
            if c == ':' || c == '.' {
                '_'
            } else {
                c
            },
    )
}

} // verus!
