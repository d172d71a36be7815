//! Who owns the result of a call.

use crate::ast::expr::{call, kid_is_smaller, kids, view_opt, views, with_kids, CExpr, Expr};
use crate::fold::address::first;
use crate::fold::context::CallOwnerKind;
use crate::fold::facts::{Addr, Base, BaseRef, Meaning, NormalizedAddr, SemanticValue};
use crate::fold::levels::{Folder, Reading};
use crate::fold::names::{callee_key, normalize_callee_name, stack_home, is_autogenerated_stack_home_name};
use crate::fold::quality::VisibleExprContext;
use crate::fold::shape::{root_name, root_visible_name_in_expr};
use crate::fold::tables::{
    entry, find, find_named_name, find_site, has_value_named, named_name, offset_name, site_entry,
    value_named, view_opt_text, Site,
};
use crate::ssa::{SSABlock, SSAOp, SSAVar, Var};
use crate::text::{
    before_first, copy_of, head, in_list, listed, lower, same, same_ignoring_case, same_lower,
    to_lower,
};
use vstd::prelude::*;

verus! {

broadcast use kid_is_smaller;

/// How many copies a call's result is followed through within a block.
pub const MAX_LOCAL_COPIES: u32 = 16;

/// The last of the first `n` operations that defines a name, up to case; -1
/// where none does.
pub open spec fn producer(ops: Seq<SSAOp>, name: Seq<char>, n: int) -> int
    decreases n,
{
    if n <= 0 {
        -1
    } else if ops[n - 1].defines() matches Some(dst) && same_ignoring_case(dst.display(), name) {
        n - 1
    } else {
        producer(ops, name, n - 1)
    }
}

fn find_producer(ops: &Vec<SSAOp>, name: &str) -> (r: Option<usize>)
    ensures
        match r {
            Some(i) => i < ops@.len() && i == producer(ops@, name@, ops@.len() as int),
            None => producer(ops@, name@, ops@.len() as int) == -1,
        },
{
    let mut n: usize = ops.len();
    while n > 0
        invariant
            n <= ops@.len(),
            producer(ops@, name@, ops@.len() as int) == producer(ops@, name@, n as int),
        decreases n,
    {
        if let Some(dst) = ops[n - 1].dst() {
            if same_lower(&dst.display_name(), name) {
                return Some(n - 1);
            }
        }
        n = n - 1;
    }
    None
}

/// A call, direct or not.
pub open spec fn calls(op: SSAOp) -> bool {
    op is Call || op is CallInd
}

/// A call, direct or not.
pub fn is_call_op(op: &SSAOp) -> (r: bool)
    ensures
        r == calls(*op),
{
    matches!(op, SSAOp::Call { .. } | SSAOp::CallInd { .. })
}

/// The last call among the first `n` operations; -1 where there is none.
pub open spec fn last_call(ops: Seq<SSAOp>, n: int) -> int
    decreases n,
{
    if n <= 0 {
        -1
    } else if calls(ops[n - 1]) {
        n - 1
    } else {
        last_call(ops, n - 1)
    }
}

fn find_last_call(ops: &Vec<SSAOp>, before: usize) -> (r: Option<usize>)
    requires
        before <= ops@.len(),
    ensures
        match r {
            Some(i) => i == last_call(ops@, before as int),
            None => last_call(ops@, before as int) == -1,
        },
{
    let mut n: usize = before;
    while n > 0
        invariant
            n <= before <= ops@.len(),
            last_call(ops@, before as int) == last_call(ops@, n as int),
        decreases n,
    {
        if is_call_op(&ops[n - 1]) {
            return Some(n - 1);
        }
        n = n - 1;
    }
    None
}

/// The source of an operation that only carries a value on.
pub open spec fn carried(op: SSAOp) -> Option<Var> {
    match op {
        SSAOp::Copy { src, .. } => Some(src@),
        SSAOp::Cast { src, .. } => Some(src@),
        SSAOp::IntZExt { src, .. } => Some(src@),
        SSAOp::IntSExt { src, .. } => Some(src@),
        SSAOp::Trunc { src, .. } => Some(src@),
        _ => None,
    }
}

/// The source of an operation that only carries a value on.
pub fn carried_source(op: &SSAOp) -> (r: Option<&SSAVar>)
    ensures
        crate::ssa::view_opt_var_ref(r) == carried(*op),
{
    match op {
        SSAOp::Copy { src, .. } => Some(src),
        SSAOp::Cast { src, .. } => Some(src),
        SSAOp::IntZExt { src, .. } => Some(src),
        SSAOp::IntSExt { src, .. } => Some(src),
        SSAOp::Trunc { src, .. } => Some(src),
        _ => None,
    }
}

/// A value under a name, as written or in lower case.
pub open spec fn entry_any_case<V>(t: Seq<(String, V)>, name: Seq<char>) -> Option<V> {
    first(entry(t, name), entry(t, lower(name)))
}

/// A value under a name, as written or in lower case.
pub fn find_any_case<'a, V>(t: &'a Vec<(String, V)>, name: &str) -> (r: Option<&'a V>)
    ensures
        match r {
            Some(v) => entry_any_case(t@, name@) == Some(*v),
            None => entry_any_case(t@, name@) is None,
        },
{
    match find(t, name) {
        Some(v) => Some(v),
        None => find(t, &to_lower(name)),
    }
}

impl Reading {
    /// A call in its normal form: direct callees under their one name. Equal
    /// forms mean the same call.
    pub open spec fn call_form(&self, e: Expr) -> Expr
        decreases e, 1int,
    {
        match e {
            Expr::Call { func, args } => {
                let ks = self.call_form_kids(e);
                call(
                    match *func {
                        Expr::Var(name) => Expr::Var(callee_key(self.ctx.answers.addresses@, name)),
                        _ => ks[0],
                    },
                    ks.skip(1),
                )
            },
            _ => with_kids(e, self.call_form_kids(e)),
        }
    }

    pub open spec fn call_form_kids(&self, e: Expr) -> Seq<Expr>
        decreases e, 0int,
    {
        Seq::new(
            kids(e).len(),
            |i: int|
                if 0 <= i < kids(e).len() {
                    self.call_form(kids(e)[i])
                } else {
                    arbitrary()
                },
        )
    }

    /// The call whose result a name holds. Aliases are followed, `fuel` of them
    /// at most.
    pub open spec fn call_source(&self, name: Seq<char>, fuel: nat) -> Option<Site>
        decreases fuel,
    {
        let prepared = match self.ctx.inputs.prepared {
            Some(prepared) => entry(prepared.call_result_sources@, name),
            None => None,
        };
        let by_alias = match self.ssa_of(name) {
            Some(ssa) => if ssa != name && fuel > 0 {
                self.call_source(ssa, (fuel - 1) as nat)
            } else {
                None
            },
            None => None,
        };
        first(
            entry_any_case(self.ctx.alias_sources(), name),
            first(entry(self.ctx.facts.call_result_sources@, name), first(prepared, by_alias)),
        )
    }

    /// How many aliases a chain can pass before it leads back to itself.
    pub open spec fn alias_bound(&self) -> nat {
        self.ctx.facts.var_aliases@.len() + self.ctx.facts.named_values@.len()
            + self.ctx.facts.renderable_names@.len()
    }

    /// The call whose result a name holds.
    pub open spec fn source_of(&self, name: Seq<char>) -> Option<Site> {
        self.call_source(name, self.alias_bound())
    }

    /// The call whose result was last stored in a slot, among the first `n`
    /// operations of a block.
    pub open spec fn stored_source(&self, block: SSABlock, offset: i64, n: int, depth: int) -> Option<Site>
        decreases MAX_LOCAL_COPIES + 2 - depth, 1int, n,
    {
        if n <= 0 || depth > MAX_LOCAL_COPIES {
            None
        } else {
            let here = match block.ops@[n - 1] {
                SSAOp::Store { addr, val, .. } => if entry(
                    self.ctx.answers.var_stack_offsets@,
                    addr@.display(),
                ) == Some(offset) {
                    first(
                        self.source_of(val@.display()),
                        self.local_source(block, val@.display(), depth + 1),
                    )
                } else {
                    None
                },
                _ => None,
            };
            first(here, self.stored_source(block, offset, n - 1, depth))
        }
    }

    /// The call in a block whose result a name holds at its end: through
    /// copies, through a slot that it was stored in, or directly.
    pub open spec fn local_source(&self, block: SSABlock, name: Seq<char>, depth: int) -> Option<Site>
        decreases MAX_LOCAL_COPIES + 2 - depth, 2int, 0int,
    {
        let at = producer(block.ops@, name, block.ops@.len() as int);
        if depth > MAX_LOCAL_COPIES || at < 0 {
            None
        } else {
            let op = block.ops@[at];
            match carried(op) {
                Some(src) => self.local_source(block, src.display(), depth + 1),
                None => match op {
                    SSAOp::Load { addr, .. } => match entry(
                        self.ctx.answers.var_stack_offsets@,
                        addr@.display(),
                    ) {
                        Some(offset) => self.stored_source(block, offset, at, depth),
                        None => None,
                    },
                    SSAOp::CallDefine { .. } => {
                        let call_at = last_call(block.ops@, at);
                        if call_at >= 0 {
                            Some((block.addr, call_at as usize))
                        } else {
                            None
                        }
                    },
                    _ => None,
                },
            }
        }
    }

    /// The block being folded, of the function that preparation kept.
    pub open spec fn current_block(&self) -> Option<SSABlock> {
        match (self.ctx.state.current_block_addr, self.ctx.inputs.function) {
            (Some(addr), Some(func)) => func.block_at(addr),
            _ => None,
        }
    }

    /// The call in the block being folded whose result a name holds.
    pub open spec fn source_here(&self, name: Seq<char>) -> Option<Site> {
        match self.current_block() {
            Some(block) => self.local_source(block, name, 0),
            None => None,
        }
    }

    /// The call whose result a name holds, in general or in the block being folded.
    pub open spec fn any_source(&self, name: Seq<char>) -> Option<Site> {
        first(self.source_of(name), self.source_here(name))
    }

    /// Is a stored value the result of a call?
    pub open spec fn stores_result(&self, block: SSABlock, val: Seq<char>, source: Site, aliases: Seq<String>) -> bool {
        ||| listed(aliases, val)
        ||| entry(self.ctx.facts.call_result_sources@, val) == Some(source)
        ||| entry(self.ctx.facts.call_result_sources@, lower(val)) == Some(source)
        ||| self.local_source(block, val, 0) == Some(source)
    }

    /// The local that the result of a call is stored to, from operation `i` on
    /// and before the next call.
    pub open spec fn stored_local_from(&self, block: SSABlock, source: Site, aliases: Seq<String>, i: int) -> Option<
        Seq<char>,
    >
        decreases block.ops@.len() - i,
    {
        if i < 0 || i >= block.ops@.len() || calls(block.ops@[i]) {
            None
        } else {
            let here = match block.ops@[i] {
                SSAOp::Store { addr, val, .. } => match self.slot_offset(addr@) {
                    Some(offset) => if offset < 0 && self.stores_result(
                        block,
                        val@.display(),
                        source,
                        aliases,
                    ) {
                        offset_name(self.ctx.answers.stack_names@, offset)
                    } else {
                        None
                    },
                    None => None,
                },
                _ => None,
            };
            first(here, self.stored_local_from(block, source, aliases, i + 1))
        }
    }

    /// The local that the result of a call is stored to.
    pub open spec fn stored_local(&self, source: Site, aliases: Seq<String>) -> Option<Seq<char>> {
        match self.ctx.inputs.function {
            Some(func) => match func.block_at(source.0) {
                Some(block) => self.stored_local_from(block, source, aliases, source.1 + 1),
                None => None,
            },
            None => None,
        }
    }

    /// What kind of variable owns a call's result.
    pub open spec fn owner_kind(&self, name: Seq<char>) -> CallOwnerKind {
        if self.owning_local(name) || self.below_frame(name) {
            CallOwnerKind::StableStackLocal
        } else if value_named(self.ctx.inputs.param_register_aliases@, name) || exists|i: int|
            0 <= i < self.ctx.facts.stack_arg_aliases@.len() && same_ignoring_case(
                (#[trigger] self.ctx.facts.stack_arg_aliases@[i]).1@,
                name,
            ) {
            CallOwnerKind::Parameter
        } else {
            CallOwnerKind::StableLocal
        }
    }

    /// The slot that an address without index and offset names.
    pub open spec fn bare_slot_name(&self, addr: Addr) -> Option<Seq<char>> {
        match addr.base {
            Base::StackSlot(offset) => if addr.index is None && addr.scale == 0 && addr.offset
                == 0 {
                offset_name(self.ctx.answers.stack_names@, offset)
            } else {
                None
            },
            _ => None,
        }
    }

    /// The slot that a name's meaning names.
    pub open spec fn meant_slot(&self, name: Seq<char>) -> Option<Seq<char>> {
        match self.meaning_of(name) {
            Some(Meaning::Load { addr, size }) => self.bare_slot_name(addr),
            Some(Meaning::Address(addr)) => self.bare_slot_name(addr),
            _ => None,
        }
    }

    /// The slot that a name was forwarded from.
    pub open spec fn origin_slot(&self, name: Seq<char>) -> Option<i64> {
        match self.origin_of(name) {
            Some(origin) => origin.slot,
            None => None,
        }
    }

    /// A name that can own a call's result for all to see.
    pub open spec fn stable_owner(&self, name: Seq<char>) -> bool {
        name.len() > 0 && self.telling(name) && (!stack_home(name) || self.named_local(name))
    }

    /// The first name of a list that can own a call's result for all to see,
    /// from place `i` on.
    pub open spec fn first_stable(&self, list: Seq<Option<Seq<char>>>, i: int) -> Option<Seq<char>>
        decreases list.len() - i,
    {
        if i < 0 || i >= list.len() {
            None
        } else if list[i] matches Some(name) && self.stable_owner(name) {
            list[i]
        } else {
            self.first_stable(list, i + 1)
        }
    }

    /// The first name of a list that is a local, from place `i` on.
    pub open spec fn first_local(&self, list: Seq<Option<Seq<char>>>, i: int) -> Option<Seq<char>>
        decreases list.len() - i,
    {
        if i < 0 || i >= list.len() {
            None
        } else if list[i] matches Some(name) && name.len() > 0 && self.owning_local(name) {
            list[i]
        } else {
            self.first_local(list, i + 1)
        }
    }

    /// The names under which a call's result might be owned, by one of its aliases.
    pub open spec fn owner_candidates(&self, alias: Seq<char>) -> Seq<Option<Seq<char>>> {
        let register = listed(self.ctx.arch.register_bases@, lower(before_first(alias, '_')));
        let by_slot = match self.slot_of(alias) {
            Some(slot) => offset_name(self.ctx.answers.stack_names@, slot.offset),
            None => None,
        };
        let by_origin = match self.origin_slot(alias) {
            Some(offset) => offset_name(self.ctx.answers.stack_names@, offset),
            None => None,
        };
        seq![
            if register {
                None
            } else {
                named_name(self.ctx.facts.var_aliases@, alias)
            },
            if register {
                None
            } else {
                Some(self.shown_alias(alias))
            },
            by_slot,
            by_origin,
            self.meant_slot(alias),
        ]
    }

    /// The name under which a call's result is owned, by one of its aliases.
    pub open spec fn owner_by_alias(&self, alias: Seq<char>) -> Option<Seq<char>> {
        let list = self.owner_candidates(alias);
        first(self.first_stable(list, 0), self.first_local(list, 0))
    }

    /// The better of two names to own a call's result.
    pub open spec fn better_name(&self, current: Option<Seq<char>>, candidate: Option<Seq<char>>) -> Option<
        Seq<char>,
    > {
        match (current, candidate) {
            (None, other) => other,
            (Some(a), None) => Some(a),
            (Some(a), Some(b)) => if self.prefers(
                Expr::Var(a),
                Expr::Var(b),
                VisibleExprContext::Generic,
            ) {
                Some(b)
            } else {
                Some(a)
            },
        }
    }

    /// The best name that the first `n` aliases of a call's result give.
    pub open spec fn owner_by_aliases(&self, aliases: Seq<String>, n: int) -> Option<Seq<char>>
        decreases n,
    {
        if n <= 0 {
            None
        } else {
            self.better_name(
                self.owner_by_aliases(aliases, n - 1),
                self.owner_by_alias(aliases[n - 1]@),
            )
        }
    }

    /// The owner that preparation found for a call's result.
    pub open spec fn prepared_owner(&self, source: Site) -> Option<Expr> {
        match self.ctx.inputs.prepared {
            Some(prepared) => match site_entry(prepared.call_owners@, source) {
                Some(e) => Some(e@),
                None => None,
            },
            None => None,
        }
    }

    /// The name under which the result of a call is owned: as recorded, as
    /// preparation found it, or the local it is stored to; the best of them.
    pub open spec fn owner_name(&self, source: Site) -> Option<Seq<char>> {
        let recorded = match site_entry(self.ctx.owned_calls(), source) {
            Some(fact) => match fact.owner {
                Some(owner) => Some(owner.visible_name@),
                None => None,
            },
            None => None,
        };
        let prepared = match self.prepared_owner(source) {
            Some(e) => root_name(e),
            None => None,
        };
        let stored = match site_entry(self.ctx.facts.call_result_aliases@, source) {
            Some(aliases) => self.stored_local(source, aliases@),
            None => None,
        };
        self.better_name(self.better_name(recorded, prepared), stored)
    }

    /// What the result of a call is shown as.
    pub open spec fn owner_expr(&self, source: Site) -> Option<Expr> {
        self.chosen(
            self.prepared_owner(source),
            match self.owner_name(source) {
                Some(name) => Some(Expr::Var(name)),
                None => None,
            },
            VisibleExprContext::Generic,
        )
    }

    /// Does a name hold a call's result by way of the stack?
    pub open spec fn stack_provenance(&self, name: Seq<char>) -> bool {
        self.slot_of(name) is Some || self.meant_slot(name) is Some || self.origin_slot(
            name,
        ) is Some
    }

    /// What the call result that a name holds is shown as, where that is
    /// something else than the name.
    pub open spec fn owner_for(&self, name: Seq<char>, direct_too: bool) -> Option<Expr> {
        let behind = match self.ssa_of(name) {
            Some(ssa) => ssa,
            None => name,
        };
        let source = first(
            self.any_source(name),
            if same_ignoring_case(behind, name) {
                None
            } else {
                self.any_source(behind)
            },
        );
        let direct = listed(self.ctx.facts.direct_call_results@, name) || listed(
            self.ctx.facts.direct_call_results@,
            behind,
        );
        match source {
            Some(site) => match self.owner_expr(site) {
                Some(Expr::Var(owner)) => if (direct || self.stack_provenance(name)
                    || self.stack_provenance(behind)) && !same_ignoring_case(owner, name)
                    && !same_ignoring_case(owner, behind) && (direct_too || !direct) {
                    Some(Expr::Var(owner))
                } else {
                    None
                },
                other => other,
            },
            None => None,
        }
    }

    /// Is an assignment to a variable nothing but a shadow of a call whose
    /// result is shown elsewhere?
    pub open spec fn shadow_assignment(&self, dst: Var) -> bool {
        let shown = self.shown(dst);
        let faint = crate::fold::names::low_signal(shown) || self.transient(shown);
        match self.source_of(dst.display()) {
            None => false,
            Some(site) => match self.owner_name(site) {
                Some(owner) => owner != shown && faint,
                None => listed(self.ctx.facts.direct_call_results@, dst.display()) && site_entry(
                    self.ctx.facts.call_result_exprs@,
                    site,
                ) is Some && faint,
            },
        }
    }
}

impl<'a> Folder<'a> {
    /// A call in its normal form.
    pub fn call_expr_cache_key(&self, e: &CExpr) -> (r: CExpr)
        ensures
            r@ == self@.call_form(e@),
        decreases e,
    {
        let n = e.arity();
        let mut parts: Vec<CExpr> = Vec::new();
        let mut i: u128 = 0;
        while i < n
            invariant
                i <= n == kids(e@).len(),
                parts@.len() == i,
                forall|j: int|
                    0 <= j < i ==> (#[trigger] parts@[j])@ == self@.call_form(kids(e@)[j]),
            decreases n - i,
        {
            let part = self.call_expr_cache_key(e.kid(i));
            parts.push(part);
            i = i + 1;
        }
        assert(views(parts@) =~= self@.call_form_kids(e@));
        match e {
            CExpr::Call { func, .. } => {
                let ghost whole = parts@;
                let first_part = parts.remove(0);
                assert(views(parts@) =~= views(whole).skip(1));
                assert(views(whole)[0] == first_part@);
                let callee = match crate::fold::shape::text_of_var(func) {
                    Some(name) => CExpr::Var(
                        normalize_callee_name(&self.ctx.answers.addresses, &name),
                    ),
                    None => first_part,
                };
                CExpr::call(callee, parts)
            },
            _ => e.rebuild(parts),
        }
    }

    fn follow_call_source(&self, name: &str, fuel: u128) -> (r: Option<Site>)
        ensures
            r == self@.call_source(name@, fuel as nat),
        decreases self.left, 1int, fuel,
    {
        if let Some(o) = &self.ctx.ownership {
            if let Some(site) = find_any_case(&o.alias_sources, name) {
                return Some(*site);
            }
        }
        if let Some(site) = find(&self.ctx.facts.call_result_sources, name) {
            return Some(*site);
        }
        if let Some(prepared) = &self.ctx.inputs.prepared {
            if let Some(site) = find(&prepared.call_result_sources, name) {
                return Some(*site);
            }
        }
        match self.find_ssa_name_for_rendered_alias(name) {
            Some(ssa) => if !same(&ssa, name) && fuel > 0 {
                self.follow_call_source(&ssa, fuel - 1)
            } else {
                None
            },
            None => None,
        }
    }

    /// The call whose result a name holds.
    pub fn call_result_source_for_ssa_name(&self, ssa_name: &str) -> (r: Option<Site>)
        ensures
            r == self@.source_of(ssa_name@),
        decreases self.left, 2int,
    {
        let bound: u128 = self.ctx.facts.var_aliases.len() as u128
            + self.ctx.facts.named_values.len() as u128
            + self.ctx.facts.renderable_names.len() as u128;
        self.follow_call_source(ssa_name, bound)
    }

    fn find_stored_source(&self, block: &SSABlock, offset: i64, before: usize, depth: u32) -> (r: Option<
        Site,
    >)
        requires
            before <= block.ops@.len(),
            depth <= MAX_LOCAL_COPIES,
        ensures
            r == self@.stored_source(*block, offset, before as int, depth as int),
        decreases self.left, 3int, MAX_LOCAL_COPIES + 2 - depth, 1int,
    {
        let mut n: usize = before;
        while n > 0
            invariant
                n <= before <= block.ops@.len(),
                depth <= MAX_LOCAL_COPIES,
                self@.stored_source(*block, offset, before as int, depth as int)
                    == self@.stored_source(*block, offset, n as int, depth as int),
            decreases n,
        {
            if let SSAOp::Store { addr, val, .. } = &block.ops[n - 1] {
                let same_slot = match find(
                    &self.ctx.answers.var_stack_offsets,
                    &addr.display_name(),
                ) {
                    Some(found) => *found == offset,
                    None => false,
                };
                if same_slot {
                    let name = val.display_name();
                    if let Some(site) = self.call_result_source_for_ssa_name(&name) {
                        return Some(site);
                    }
                    if let Some(site) = self.local_post_call_source_for_ssa_name_in_block(
                        block,
                        &name,
                        depth + 1,
                    ) {
                        return Some(site);
                    }
                }
            }
            n = n - 1;
        }
        None
    }

    /// The call in a block whose result a name holds at its end.
    pub fn local_post_call_source_for_ssa_name_in_block(
        &self,
        block: &SSABlock,
        ssa_name: &str,
        depth: u32,
    ) -> (r: Option<Site>)
        ensures
            r == self@.local_source(*block, ssa_name@, depth as int),
        decreases self.left, 3int, MAX_LOCAL_COPIES + 2 - depth, 2int,
    {
        if depth > MAX_LOCAL_COPIES {
            return None;
        }
        let at = match find_producer(&block.ops, ssa_name) {
            Some(at) => at,
            None => {
                return None;
            },
        };
        let op = &block.ops[at];
        if let Some(src) = carried_source(op) {
            return self.local_post_call_source_for_ssa_name_in_block(
                block,
                &src.display_name(),
                depth + 1,
            );
        }
        match op {
            SSAOp::Load { addr, .. } => match find(
                &self.ctx.answers.var_stack_offsets,
                &addr.display_name(),
            ) {
                Some(offset) => self.find_stored_source(block, *offset, at, depth),
                None => None,
            },
            SSAOp::CallDefine { .. } => match find_last_call(&block.ops, at) {
                Some(i) => Some((block.addr, i)),
                None => None,
            },
            _ => None,
        }
    }

    /// The call in the block being folded whose result a name holds.
    pub fn local_post_call_source_for_ssa_name(&self, ssa_name: &str) -> (r: Option<Site>)
        ensures
            r == self@.source_here(ssa_name@),
        decreases self.left, 4int,
    {
        match (self.ctx.state.current_block_addr, &self.ctx.inputs.function) {
            (Some(addr), Some(func)) => match func.get_block(addr) {
                Some(block) => self.local_post_call_source_for_ssa_name_in_block(
                    block,
                    ssa_name,
                    0,
                ),
                None => None,
            },
            _ => None,
        }
    }

    /// The call whose result a name holds, in general or in the block being folded.
    pub fn any_call_source(&self, name: &str) -> (r: Option<Site>)
        ensures
            r == self@.any_source(name@),
        decreases self.left, 5int,
    {
        match self.call_result_source_for_ssa_name(name) {
            Some(site) => Some(site),
            None => self.local_post_call_source_for_ssa_name(name),
        }
    }

    fn is_stored_result(&self, block: &SSABlock, val: &str, source: Site, aliases: &Vec<String>) -> (r: bool)
        ensures
            r == self@.stores_result(*block, val@, source, aliases@),
        decreases self.left, 4int,
    {
        if in_list(aliases, val) {
            return true;
        }
        if let Some(site) = find(&self.ctx.facts.call_result_sources, val) {
            if site.0 == source.0 && site.1 == source.1 {
                return true;
            }
        }
        if let Some(site) = find(&self.ctx.facts.call_result_sources, &to_lower(val)) {
            if site.0 == source.0 && site.1 == source.1 {
                return true;
            }
        }
        match self.local_post_call_source_for_ssa_name_in_block(block, val, 0) {
            Some(site) => site.0 == source.0 && site.1 == source.1,
            None => false,
        }
    }

    /// The local that the result of a call is stored to.
    pub fn fallback_owned_call_result_stack_local_name_for_source(
        &self,
        source_call: Site,
        aliases: &Vec<String>,
    ) -> (r: Option<String>)
        ensures
            view_opt_text(r) == self@.stored_local(source_call, aliases@),
        decreases self.left, 5int,
    {
        let func = match &self.ctx.inputs.function {
            Some(func) => func,
            None => {
                return None;
            },
        };
        let block = match func.get_block(source_call.0) {
            Some(block) => block,
            None => {
                return None;
            },
        };
        if source_call.1 >= block.ops.len() {
            return None;
        }
        let mut i: usize = source_call.1 + 1;
        let ghost start = i as int;
        while i < block.ops.len()
            invariant
                start <= i <= block.ops@.len(),
                start == source_call.1 + 1,
                self.ctx.inputs.function is Some,
                self.ctx.inputs.function->0.block_at(source_call.0) == Some(*block),
                self@.stored_local_from(*block, source_call, aliases@, start)
                    == self@.stored_local_from(*block, source_call, aliases@, i as int),
            decreases block.ops@.len() - i,
        {
            let op = &block.ops[i];
            if is_call_op(op) {
                return None;
            }
            if let SSAOp::Store { addr, val, .. } = op {
                if let Some(offset) = self.stack_slot_offset_for_var(addr) {
                    if offset < 0 && self.is_stored_result(
                        block,
                        &val.display_name(),
                        source_call,
                        aliases,
                    ) {
                        if let Some(name) = self.resolve_stack_var(offset) {
                            return Some(name);
                        }
                    }
                }
            }
            i = i + 1;
        }
        None
    }

    /// What kind of variable owns a call's result.
    pub fn classify_call_owner_kind(&self, name: &str) -> (r: CallOwnerKind)
        ensures
            r == self@.owner_kind(name@),
    {
        if self.is_generic_stack_local_owner_name(name) || self.is_below_frame(name) {
            return CallOwnerKind::StableStackLocal;
        }
        if has_value_named(&self.ctx.inputs.param_register_aliases, name) {
            return CallOwnerKind::Parameter;
        }
        let t = &self.ctx.facts.stack_arg_aliases;
        let mut i: usize = 0;
        while i < t.len()
            invariant
                i <= t@.len(),
                t@ == self.ctx.facts.stack_arg_aliases@,
                !(self@.owning_local(name@) || self@.below_frame(name@)),
                !value_named(self.ctx.inputs.param_register_aliases@, name@),
                forall|j: int| 0 <= j < i ==> !same_ignoring_case((#[trigger] t@[j]).1@, name@),
            decreases t@.len() - i,
        {
            if same_lower(&t[i].1, name) {
                return CallOwnerKind::Parameter;
            }
            i = i + 1;
        }
        CallOwnerKind::StableLocal
    }

    /// The slot that an address without index and offset names.
    pub fn stack_owner_name_for_addr(&self, addr: &NormalizedAddr) -> (r: Option<String>)
        ensures
            view_opt_text(r) == self@.bare_slot_name(addr@),
    {
        match &addr.base {
            BaseRef::StackSlot(offset) => if addr.index.is_none() && addr.scale_bytes == 0
                && addr.offset_bytes == 0 {
                self.resolve_stack_var(*offset)
            } else {
                None
            },
            _ => None,
        }
    }

    /// The slot that a name's meaning names.
    pub fn semantic_stack_owner_name_for_alias(&self, alias: &str) -> (r: Option<String>)
        ensures
            view_opt_text(r) == self@.meant_slot(alias@),
    {
        match self.lookup_semantic_value(alias) {
            Some(SemanticValue::Load { addr, size }) => self.stack_owner_name_for_addr(addr),
            Some(SemanticValue::Address(addr)) => self.stack_owner_name_for_addr(addr),
            _ => None,
        }
    }

    /// The slot that a name was forwarded from.
    pub fn forwarded_slot(&self, name: &str) -> (r: Option<i64>)
        ensures
            r == self@.origin_slot(name@),
    {
        match self.forwarded_value_for_name(name) {
            Some(prov) => prov.stack_slot,
            None => None,
        }
    }

    fn is_stable_owner(&self, name: &str) -> (r: bool)
        ensures
            r == self@.stable_owner(name@),
    {
        name.unicode_len() > 0 && self.is_telling_name(name) && (!is_autogenerated_stack_home_name(
            name,
        ) || self.is_named_scalar_local(name))
    }

    /// The name under which a call's result is owned, by one of its aliases.
    pub fn derive_stable_owned_call_result_name_for_alias(&self, alias: &str) -> (r: Option<String>)
        ensures
            view_opt_text(r) == self@.owner_by_alias(alias@),
    {
        let register = self.ctx.arch.is_register_like_base_name(&to_lower(&head(alias, '_')));
        let mut list: Vec<Option<String>> = Vec::new();
        list.push(
            if register {
                None
            } else {
                find_named_name(&self.ctx.facts.var_aliases, alias)
            },
        );
        list.push(
            if register {
                None
            } else {
                Some(self.rendered_visible_name_for_ssa_name(alias))
            },
        );
        list.push(
            match self.stack_slot_provenance_for_name(alias) {
                Some(slot) => self.resolve_stack_var(slot.offset),
                None => None,
            },
        );
        list.push(
            match self.forwarded_slot(alias) {
                Some(offset) => self.resolve_stack_var(offset),
                None => None,
            },
        );
        list.push(self.semantic_stack_owner_name_for_alias(alias));
        let ghost all = self@.owner_candidates(alias@);
        assert(forall|j: int|
            0 <= j < 5 ==> view_opt_text(#[trigger] list@[j]) == all[j]);
        let mut i: usize = 0;
        while i < list.len()
            invariant
                i <= list@.len() == 5,
                all == self@.owner_candidates(alias@),
                forall|j: int| 0 <= j < 5 ==> view_opt_text(#[trigger] list@[j]) == all[j],
                self@.first_stable(all, 0) == self@.first_stable(all, i as int),
            decreases list@.len() - i,
        {
            assert(view_opt_text(list@[i as int]) == all[i as int]);
            if let Some(name) = &list[i] {
                if self.is_stable_owner(name) {
                    return Some(copy_of(name));
                }
            }
            i = i + 1;
        }
        let mut k: usize = 0;
        while k < list.len()
            invariant
                k <= list@.len() == 5,
                all == self@.owner_candidates(alias@),
                forall|j: int| 0 <= j < 5 ==> view_opt_text(#[trigger] list@[j]) == all[j],
                self@.first_stable(all, 0) is None,
                self@.first_local(all, 0) == self@.first_local(all, k as int),
            decreases list@.len() - k,
        {
            assert(view_opt_text(list@[k as int]) == all[k as int]);
            if let Some(name) = &list[k] {
                if name.as_str().unicode_len() > 0 && self.is_generic_stack_local_owner_name(name) {
                    return Some(copy_of(name));
                }
            }
            k = k + 1;
        }
        None
    }

    fn choose_name(&self, current: Option<String>, candidate: Option<String>) -> (r: Option<String>)
        ensures
            view_opt_text(r) == self@.better_name(view_opt_text(current), view_opt_text(candidate)),
        decreases self.left, 9int,
    {
        match (current, candidate) {
            (None, other) => other,
            (Some(a), None) => Some(a),
            (Some(a), Some(b)) => if self.prefers_visible_expr(&CExpr::var(&a), &CExpr::var(&b)) {
                Some(b)
            } else {
                Some(a)
            },
        }
    }

    /// The best name that the aliases of a call's result give.
    pub fn derive_stable_owned_call_result_name_for_source(&self, aliases: &Vec<String>) -> (r: Option<
        String,
    >)
        ensures
            view_opt_text(r) == self@.owner_by_aliases(aliases@, aliases@.len() as int),
    {
        let mut best: Option<String> = None;
        let mut i: usize = 0;
        while i < aliases.len()
            invariant
                i <= aliases@.len(),
                view_opt_text(best) == self@.owner_by_aliases(aliases@, i as int),
            decreases aliases@.len() - i,
        {
            let candidate = self.derive_stable_owned_call_result_name_for_alias(&aliases[i]);
            best = self.choose_name(best, candidate);
            i = i + 1;
        }
        best
    }

    fn find_prepared_owner(&self, source: Site) -> (r: Option<CExpr>)
        ensures
            view_opt(r) == self@.prepared_owner(source),
    {
        match &self.ctx.inputs.prepared {
            Some(prepared) => match find_site(&prepared.call_owners, source) {
                Some(e) => Some(e.dup()),
                None => None,
            },
            None => None,
        }
    }

    /// The name under which the result of a call is owned.
    pub fn stable_owned_call_result_name_for_source(&self, source: Site) -> (r: Option<String>)
        ensures
            view_opt_text(r) == self@.owner_name(source),
        decreases self.left, 10int,
    {
        let recorded = match &self.ctx.ownership {
            Some(o) => match find_site(&o.call_ownership, source) {
                Some(fact) => match &fact.owner {
                    Some(owner) => Some(copy_of(&owner.visible_name)),
                    None => None,
                },
                None => None,
            },
            None => None,
        };
        let prepared = match self.find_prepared_owner(source) {
            Some(e) => root_visible_name_in_expr(&e),
            None => None,
        };
        let stored = match find_site(&self.ctx.facts.call_result_aliases, source) {
            Some(aliases) => self.fallback_owned_call_result_stack_local_name_for_source(
                source,
                aliases,
            ),
            None => None,
        };
        let best = self.choose_name(recorded, prepared);
        self.choose_name(best, stored)
    }

    /// What the result of a call is shown as.
    pub fn stable_owned_call_result_expr_for_source(&self, source: Site) -> (r: Option<CExpr>)
        ensures
            view_opt(r) == self@.owner_expr(source),
        decreases self.left, 11int,
    {
        let owned = match self.stable_owned_call_result_name_for_source(source) {
            Some(name) => Some(CExpr::Var(name)),
            None => None,
        };
        self.choose_preferred_visible_expr(self.find_prepared_owner(source), owned)
    }

    fn has_stack_provenance(&self, name: &str) -> (r: bool)
        ensures
            r == self@.stack_provenance(name@),
        decreases self.left, 2int,
    {
        self.stack_slot_provenance_for_name(name).is_some()
            || self.semantic_stack_owner_name_for_alias(name).is_some() || self.forwarded_slot(
            name,
        ).is_some()
    }

    /// What the call result that a name holds is shown as.
    pub fn stable_owned_call_result_expr_for_name(&self, name: &str, include_direct_aliases: bool) -> (r: Option<
        CExpr,
    >)
        ensures
            view_opt(r) == self@.owner_for(name@, include_direct_aliases),
        decreases self.left, 12int,
    {
        let behind = match self.find_ssa_name_for_rendered_alias(name) {
            Some(ssa) => ssa,
            None => copy_of(name),
        };
        let mut source = self.any_call_source(name);
        if source.is_none() && !same_lower(&behind, name) {
            source = self.any_call_source(&behind);
        }
        let site = match source {
            Some(site) => site,
            None => {
                return None;
            },
        };
        match self.stable_owned_call_result_expr_for_source(site) {
            Some(CExpr::Var(owner)) => {
                let direct = in_list(&self.ctx.facts.direct_call_results, name) || in_list(
                    &self.ctx.facts.direct_call_results,
                    &behind,
                );
                if !direct && !self.has_stack_provenance(name) && !self.has_stack_provenance(
                    &behind,
                ) {
                    return None;
                }
                if same_lower(&owner, name) || same_lower(&owner, &behind) {
                    return None;
                }
                if !include_direct_aliases && direct {
                    return None;
                }
                Some(CExpr::Var(owner))
            },
            other => other,
        }
    }

    /// Is an assignment to a variable nothing but a shadow of a call whose
    /// result is shown elsewhere?
    pub fn should_suppress_shadow_call_result_assignment(&self, dst: &SSAVar) -> (r: bool)
        ensures
            r == self@.shadow_assignment(dst@),
    {
        let display = dst.display_name();
        let site = match self.call_result_source_for_ssa_name(&display) {
            Some(site) => site,
            None => {
                return false;
            },
        };
        let shown = self.var_name(dst);
        let faint = crate::fold::names::is_low_signal_visible_name(&shown)
            || self.is_transient_visible_name(&shown);
        match self.stable_owned_call_result_name_for_source(site) {
            Some(owner) => !same(&owner, &shown) && faint,
            None => in_list(&self.ctx.facts.direct_call_results, &display) && find_site(
                &self.ctx.facts.call_result_exprs,
                site,
            ).is_some() && faint,
        }
    }
}

} // verus!
