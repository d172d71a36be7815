//! How well an expression reads, and which of two reads better.

use crate::ast::expr::{kid_is_smaller, kids, view_opt, BinaryOp, CExpr, Expr};
use crate::fold::levels::{Folder, Reading};
use crate::fold::literal::{literal, literal_to_i64};
use crate::fold::names::{
    generic_arg, is_autogenerated_stack_home_name, is_generic_arg_name, is_generic_stack_placeholder_alias,
    is_low_signal_visible_name, low_signal, stack_home, stack_placeholder,
};
use crate::fold::tables::{expr_in_list, expr_listed, named_name};
use crate::text::{in_list, listed};
use vstd::prelude::*;

verus! {

broadcast use kid_is_smaller;

/// What an expression is wanted for.
#[derive(Debug, Clone, Copy, PartialEq, Eq, Structural)]
pub enum VisibleExprContext {
    Generic,
    ScalarPredicate,
    ScalarReturn,
}

impl VisibleExprContext {
    /// Is a number wanted, rather than a place?
    pub open spec fn scalar(self) -> bool {
        self != VisibleExprContext::Generic
    }

    pub fn is_scalar(self) -> (r: bool)
        ensures
            r == self.scalar(),
    {
        self != VisibleExprContext::Generic
    }
}

/// How well an expression reads. Qualities compare field by field, the first
/// difference deciding; penalties are negative. The counters are 32 bits wide
/// and wrap.
#[derive(Debug, Clone, Copy, PartialEq, Eq, Structural)]
pub struct VisibleExprQuality {
    pub scalar_signal: i32,
    pub predicate_signal: i32,
    pub semantic_shapes: i32,
    pub semantic_names: i32,
    pub stable_pointer_shapes: i32,
    pub generic_stack_penalty: i32,
    pub transient_reg_penalty: i32,
    pub temp_penalty: i32,
    pub zero_offset_penalty: i32,
    pub address_shape_penalty: i32,
    pub stack_home_penalty: i32,
    pub node_penalty: i32,
}

impl Default for VisibleExprQuality {
    /// Nothing counted yet.
    fn default() -> (r: Self)
        ensures
            r == VisibleExprQuality::none(),
    {
        VisibleExprQuality {
            scalar_signal: 0,
            predicate_signal: 0,
            semantic_shapes: 0,
            semantic_names: 0,
            stable_pointer_shapes: 0,
            generic_stack_penalty: 0,
            transient_reg_penalty: 0,
            temp_penalty: 0,
            zero_offset_penalty: 0,
            address_shape_penalty: 0,
            stack_home_penalty: 0,
            node_penalty: 0,
        }
    }
}

/// A 32-bit sum, wrapped around.
pub open spec fn wrapped(a: i32, b: i32) -> i32 {
    vstd::wrapping::i32_specs::wrapping_add(a, b)
}

impl VisibleExprQuality {
    /// Nothing counted yet.
    pub open spec fn none() -> Self {
        VisibleExprQuality {
            scalar_signal: 0,
            predicate_signal: 0,
            semantic_shapes: 0,
            semantic_names: 0,
            stable_pointer_shapes: 0,
            generic_stack_penalty: 0,
            transient_reg_penalty: 0,
            temp_penalty: 0,
            zero_offset_penalty: 0,
            address_shape_penalty: 0,
            stack_home_penalty: 0,
            node_penalty: 0,
        }
    }

    /// Both counts together.
    pub open spec fn sum(self, more: Self) -> Self {
        VisibleExprQuality {
            scalar_signal: wrapped(self.scalar_signal, more.scalar_signal),
            predicate_signal: wrapped(self.predicate_signal, more.predicate_signal),
            semantic_shapes: wrapped(self.semantic_shapes, more.semantic_shapes),
            semantic_names: wrapped(self.semantic_names, more.semantic_names),
            stable_pointer_shapes: wrapped(self.stable_pointer_shapes, more.stable_pointer_shapes),
            generic_stack_penalty: wrapped(self.generic_stack_penalty, more.generic_stack_penalty),
            transient_reg_penalty: wrapped(self.transient_reg_penalty, more.transient_reg_penalty),
            temp_penalty: wrapped(self.temp_penalty, more.temp_penalty),
            zero_offset_penalty: wrapped(self.zero_offset_penalty, more.zero_offset_penalty),
            address_shape_penalty: wrapped(self.address_shape_penalty, more.address_shape_penalty),
            stack_home_penalty: wrapped(self.stack_home_penalty, more.stack_home_penalty),
            node_penalty: wrapped(self.node_penalty, more.node_penalty),
        }
    }

    fn plus(self, more: Self) -> (r: Self)
        ensures
            r == self.sum(more),
    {
        VisibleExprQuality {
            scalar_signal: self.scalar_signal.wrapping_add(more.scalar_signal),
            predicate_signal: self.predicate_signal.wrapping_add(more.predicate_signal),
            semantic_shapes: self.semantic_shapes.wrapping_add(more.semantic_shapes),
            semantic_names: self.semantic_names.wrapping_add(more.semantic_names),
            stable_pointer_shapes: self.stable_pointer_shapes.wrapping_add(
                more.stable_pointer_shapes,
            ),
            generic_stack_penalty: self.generic_stack_penalty.wrapping_add(
                more.generic_stack_penalty,
            ),
            transient_reg_penalty: self.transient_reg_penalty.wrapping_add(
                more.transient_reg_penalty,
            ),
            temp_penalty: self.temp_penalty.wrapping_add(more.temp_penalty),
            zero_offset_penalty: self.zero_offset_penalty.wrapping_add(more.zero_offset_penalty),
            address_shape_penalty: self.address_shape_penalty.wrapping_add(
                more.address_shape_penalty,
            ),
            stack_home_penalty: self.stack_home_penalty.wrapping_add(more.stack_home_penalty),
            node_penalty: self.node_penalty.wrapping_add(more.node_penalty),
        }
    }

    /// The fields in the order in which they decide.
    pub open spec fn ranks(self) -> Seq<int> {
        seq![
            self.scalar_signal as int,
            self.predicate_signal as int,
            self.semantic_shapes as int,
            self.semantic_names as int,
            self.stable_pointer_shapes as int,
            self.generic_stack_penalty as int,
            self.transient_reg_penalty as int,
            self.temp_penalty as int,
            self.zero_offset_penalty as int,
            self.address_shape_penalty as int,
            self.stack_home_penalty as int,
            self.node_penalty as int,
        ]
    }

    /// Is this quality greater than another?
    pub open spec fn beats(self, other: Self) -> bool {
        lex_greater(self.ranks(), other.ranks(), 0)
    }

    /// Is this quality greater than another?
    pub fn better_than(self, other: Self) -> (r: bool)
        ensures
            r == self.beats(other),
    {
        proof {
            reveal_with_fuel(lex_greater, 13);
        }
        if self.scalar_signal != other.scalar_signal {
            self.scalar_signal > other.scalar_signal
        } else if self.predicate_signal != other.predicate_signal {
            self.predicate_signal > other.predicate_signal
        } else if self.semantic_shapes != other.semantic_shapes {
            self.semantic_shapes > other.semantic_shapes
        } else if self.semantic_names != other.semantic_names {
            self.semantic_names > other.semantic_names
        } else if self.stable_pointer_shapes != other.stable_pointer_shapes {
            self.stable_pointer_shapes > other.stable_pointer_shapes
        } else if self.generic_stack_penalty != other.generic_stack_penalty {
            self.generic_stack_penalty > other.generic_stack_penalty
        } else if self.transient_reg_penalty != other.transient_reg_penalty {
            self.transient_reg_penalty > other.transient_reg_penalty
        } else if self.temp_penalty != other.temp_penalty {
            self.temp_penalty > other.temp_penalty
        } else if self.zero_offset_penalty != other.zero_offset_penalty {
            self.zero_offset_penalty > other.zero_offset_penalty
        } else if self.address_shape_penalty != other.address_shape_penalty {
            self.address_shape_penalty > other.address_shape_penalty
        } else if self.stack_home_penalty != other.stack_home_penalty {
            self.stack_home_penalty > other.stack_home_penalty
        } else {
            self.node_penalty > other.node_penalty
        }
    }
}

/// Is `a` greater than `b`, the first difference from place `i` on deciding?
pub open spec fn lex_greater(a: Seq<int>, b: Seq<int>, i: int) -> bool
    decreases a.len() - i,
{
    if i < 0 || i >= a.len() || i >= b.len() {
        false
    } else if a[i] != b[i] {
        a[i] > b[i]
    } else {
        lex_greater(a, b, i + 1)
    }
}

/// `amount` where the condition holds.
pub open spec fn when(cond: bool, amount: i32) -> i32 {
    if cond {
        amount
    } else {
        0
    }
}

/// A penalty where the condition holds.
pub open spec fn cost(cond: bool, amount: u8) -> i32 {
    if cond {
        (-(amount as int)) as i32
    } else {
        0
    }
}

fn amount_if(cond: bool, amount: i32) -> (r: i32)
    ensures
        r == when(cond, amount),
{
    if cond {
        amount
    } else {
        0
    }
}

impl Reading {
    /// Is a name that of a condition?
    pub open spec fn predicate_name(&self, name: Seq<char>) -> bool {
        listed(self.ctx.answers.predicates@, name) || listed(self.ctx.facts.condition_vars@, name)
    }

    /// What a variable's name counts for.
    pub open spec fn name_quality(&self, name: Seq<char>, context: VisibleExprContext) -> VisibleExprQuality {
        let scalar = context.scalar();
        let param = named_name(self.ctx.answers.arg_aliases@, name) is Some || generic_arg(name);
        let predicate = self.predicate_name(name);
        let local = self.named_local(name);
        let owner = self.owning_local(name);
        let carrier = self.carrier(name);
        VisibleExprQuality {
            scalar_signal: (when(scalar && param, 12) + when(scalar && predicate, 4) + when(
                scalar && local,
                6,
            ) + when(scalar && carrier && local, 4)) as i32,
            predicate_signal: when(scalar && predicate, 8),
            semantic_shapes: 0,
            semantic_names: when(self.telling(name), 3),
            stable_pointer_shapes: 0,
            generic_stack_penalty: (cost(stack_placeholder(name), 8) + cost(scalar && owner, 8)
                + cost(scalar && carrier && !local, 4)) as i32,
            transient_reg_penalty: cost(!stack_placeholder(name) && self.transient(name), 6),
            temp_penalty: cost(
                !stack_placeholder(name) && !self.transient(name) && low_signal(name), 4),
            zero_offset_penalty: 0,
            address_shape_penalty: cost(
                scalar && self.pointer_shaped(Expr::Var(name)) && !carrier, 20),
            stack_home_penalty: cost(
                scalar && stack_home(name) && self.slot_of(name) is Some && !owner, 18),
            node_penalty: cost(true, 1),
        }
    }

    /// What an expression counts for by itself, without its subexpressions.
    pub open spec fn own_quality(&self, e: Expr, context: VisibleExprContext) -> VisibleExprQuality {
        let scalar = context.scalar();
        let node = VisibleExprQuality { node_penalty: cost(true, 1), ..VisibleExprQuality::none() };
        match e {
            Expr::Var(name) => self.name_quality(name, context),
            Expr::Subscript { base, index } => VisibleExprQuality {
                semantic_shapes: 6,
                stable_pointer_shapes: 2,
                transient_reg_penalty: cost(self.pointer_shaped(*index), 10),
                scalar_signal: when(scalar, 8),
                ..node
            },
            Expr::Member { .. } => VisibleExprQuality {
                semantic_shapes: 7,
                stable_pointer_shapes: 2,
                scalar_signal: when(scalar, 8),
                ..node
            },
            Expr::PtrMember { .. } => VisibleExprQuality {
                semantic_shapes: 7,
                stable_pointer_shapes: 2,
                scalar_signal: when(scalar, 8),
                ..node
            },
            Expr::Deref(_) => VisibleExprQuality {
                stable_pointer_shapes: 1,
                scalar_signal: when(scalar, 4),
                ..node
            },
            Expr::AddrOf(_) => VisibleExprQuality {
                stable_pointer_shapes: 1,
                address_shape_penalty: cost(scalar, 30),
                ..node
            },
            Expr::Cast { ty, expr } => VisibleExprQuality {
                address_shape_penalty: cost(scalar && ty is Pointer, 24),
                ..node
            },
            Expr::Binary { op, left, right } => VisibleExprQuality {
                zero_offset_penalty: cost(
                    (op == BinaryOp::Add || op == BinaryOp::Sub) && (literal(*left) == Some(0i64)
                        || literal(*right) == Some(0i64)), 10),
                address_shape_penalty: cost(scalar && self.stack_arithmetic(e), 18),
                ..node
            },
            _ => node,
        }
    }

    /// `q` with everything counted that an expression holds, down to a depth.
    pub open spec fn counted(
        &self,
        e: Expr,
        q: VisibleExprQuality,
        depth: int,
        context: VisibleExprContext,
    ) -> VisibleExprQuality
        decreases self.ctx.limits.simple_expr + 1 - depth, 0int,
    {
        if depth > self.ctx.limits.simple_expr {
            q
        } else {
            self.counted_first(
                kids(e),
                kids(e).len() as int,
                q.sum(self.own_quality(e, context)),
                depth + 1,
                context,
            )
        }
    }

    /// `q` with the first `n` of a list of expressions counted.
    pub open spec fn counted_first(
        &self,
        list: Seq<Expr>,
        n: int,
        q: VisibleExprQuality,
        depth: int,
        context: VisibleExprContext,
    ) -> VisibleExprQuality
        decreases self.ctx.limits.simple_expr + 1 - depth, n,
    {
        if n <= 0 || depth > self.ctx.limits.simple_expr {
            q
        } else {
            self.counted(
                list[n - 1],
                self.counted_first(list, n - 1, q, depth, context),
                depth,
                context,
            )
        }
    }

    /// How well an expression reads in a context.
    pub open spec fn quality(&self, e: Expr, context: VisibleExprContext) -> VisibleExprQuality {
        let condition = context == VisibleExprContext::ScalarPredicate && expr_listed(
            self.ctx.answers.predicate_like@,
            e,
        );
        self.counted(e, VisibleExprQuality::none(), 0, context).sum(
            VisibleExprQuality {
                predicate_signal: when(condition, 12),
                scalar_signal: when(condition, 4),
                address_shape_penalty: cost(context.scalar() && self.stack_arithmetic(e), 24),
                ..VisibleExprQuality::none()
            },
        )
    }

    /// Does the candidate read better than the current expression?
    pub open spec fn prefers(&self, current: Expr, candidate: Expr, context: VisibleExprContext) -> bool {
        self.quality(candidate, context).beats(self.quality(current, context))
    }

    /// The expression that reads better; the current one where neither does.
    pub open spec fn chosen(
        &self,
        current: Option<Expr>,
        candidate: Option<Expr>,
        context: VisibleExprContext,
    ) -> Option<Expr> {
        match (current, candidate) {
            (None, other) => other,
            (Some(a), None) => Some(a),
            (Some(a), Some(b)) => if self.prefers(a, b, context) {
                Some(b)
            } else {
                Some(a)
            },
        }
    }
}

impl<'a> Folder<'a> {
    fn quality_of_name(&self, name: &str, context: VisibleExprContext) -> (r: VisibleExprQuality)
        ensures
            r == self@.name_quality(name@, context),
        decreases self.left, 3int,
    {
        let scalar = context.is_scalar();
        let placeholder = is_generic_stack_placeholder_alias(name);
        let transient = self.is_transient_visible_name(name);
        let low = is_low_signal_visible_name(name);
        let mut q = VisibleExprQuality::default();
        q.node_penalty = -1;
        if placeholder {
            q.generic_stack_penalty = -8;
        } else if transient {
            q.transient_reg_penalty = -6;
        } else if low {
            q.temp_penalty = -4;
        } else {
            q.semantic_names = 3;
        }
        if scalar {
            let param = self.arg_alias_for_rendered_name(name).is_some() || is_generic_arg_name(
                name,
            );
            let predicate = in_list(&self.ctx.answers.predicates, name) || in_list(
                &self.ctx.facts.condition_vars,
                name,
            );
            let local = self.is_named_scalar_local(name);
            let owner = self.is_generic_stack_local_owner_name(name);
            let carrier = self.is_scalar_carrier(name);
            q.scalar_signal = amount_if(param, 12) + amount_if(predicate, 4) + amount_if(local, 6)
                + amount_if(carrier && local, 4);
            q.predicate_signal = amount_if(predicate, 8);
            q.generic_stack_penalty = q.generic_stack_penalty + amount_if(owner, -8) + amount_if(
                carrier && !local,
                -4,
            );
            q.stack_home_penalty = amount_if(
                is_autogenerated_stack_home_name(name) && self.stack_slot_provenance_for_name(
                    name,
                ).is_some() && !owner,
                -18,
            );
            let var = CExpr::var(name);
            q.address_shape_penalty = amount_if(
                self.is_non_index_pointer_expr(&var) && !carrier,
                -20,
            );
        }
        q
    }

    fn quality_of_node(&self, e: &CExpr, context: VisibleExprContext) -> (r: VisibleExprQuality)
        ensures
            r == self@.own_quality(e@, context),
        decreases self.left, 4int,
    {
        let scalar = context.is_scalar();
        let mut q = VisibleExprQuality::default();
        q.node_penalty = -1;
        match e {
            CExpr::Var(name) => {
                return self.quality_of_name(name, context);
            },
            CExpr::Subscript { base, index } => {
                q.semantic_shapes = 6;
                q.stable_pointer_shapes = 2;
                q.transient_reg_penalty = amount_if(self.is_non_index_pointer_expr(index), -10);
                q.scalar_signal = amount_if(scalar, 8);
            },
            CExpr::Member { .. } | CExpr::PtrMember { .. } => {
                q.semantic_shapes = 7;
                q.stable_pointer_shapes = 2;
                q.scalar_signal = amount_if(scalar, 8);
            },
            CExpr::Deref(_) => {
                q.stable_pointer_shapes = 1;
                q.scalar_signal = amount_if(scalar, 4);
            },
            CExpr::AddrOf(_) => {
                q.stable_pointer_shapes = 1;
                q.address_shape_penalty = amount_if(scalar, -30);
            },
            CExpr::Cast { ty, .. } => {
                q.address_shape_penalty = amount_if(scalar && ty.is_pointer(), -24);
            },
            CExpr::Binary { op, left, right } => {
                let sum = *op == BinaryOp::Add || *op == BinaryOp::Sub;
                let zero_left = match literal_to_i64(left) {
                    Some(v) => v == 0,
                    None => false,
                };
                let zero_right = match literal_to_i64(right) {
                    Some(v) => v == 0,
                    None => false,
                };
                q.zero_offset_penalty = amount_if(sum && (zero_left || zero_right), -10);
                q.address_shape_penalty = amount_if(
                    scalar && self.expr_contains_raw_stack_base_arithmetic(e),
                    -18,
                );
            },
            _ => {},
        }
        q
    }

    /// Counts everything that an expression holds, down to a depth.
    pub fn accumulate_visible_expr_quality(
        &self,
        e: &CExpr,
        quality: &mut VisibleExprQuality,
        depth: u32,
        context: VisibleExprContext,
    )
        ensures
            *final(quality) == self@.counted(e@, *old(quality), depth as int, context),
        decreases self.left, 5int, self.ctx.limits.simple_expr + 1 - depth,
    {
        if depth > self.ctx.limits.simple_expr as u32 {
            return;
        }
        *quality = quality.plus(self.quality_of_node(e, context));
        let ghost start = *quality;
        let n = e.arity();
        let mut i: u128 = 0;
        while i < n
            invariant
                i <= n == kids(e@).len(),
                depth <= self.ctx.limits.simple_expr,
                *quality == self@.counted_first(kids(e@), i as int, start, depth + 1, context),
            decreases n - i,
        {
            self.accumulate_visible_expr_quality(e.kid(i), quality, depth + 1, context);
            i = i + 1;
            proof {
                if depth + 1 > self.ctx.limits.simple_expr {
                    assert(self@.counted_first(kids(e@), i as int, start, depth + 1, context)
                        == start);
                }
            }
        }
    }

    /// How well an expression reads in a context.
    pub fn visible_expr_quality_in_context(
        &self,
        e: &CExpr,
        context: VisibleExprContext,
    ) -> (r: VisibleExprQuality)
        ensures
            r == self@.quality(e@, context),
        decreases self.left, 6int,
    {
        let mut q = VisibleExprQuality::default();
        self.accumulate_visible_expr_quality(e, &mut q, 0, context);
        let condition = context == VisibleExprContext::ScalarPredicate && expr_in_list(
            &self.ctx.answers.predicate_like,
            e,
        );
        let mut more = VisibleExprQuality::default();
        more.predicate_signal = amount_if(condition, 12);
        more.scalar_signal = amount_if(condition, 4);
        more.address_shape_penalty = amount_if(
            context.is_scalar() && self.expr_contains_raw_stack_base_arithmetic(e),
            -24,
        );
        q.plus(more)
    }

    /// How well an expression reads.
    pub fn visible_expr_quality(&self, e: &CExpr) -> (r: VisibleExprQuality)
        ensures
            r == self@.quality(e@, VisibleExprContext::Generic),
        decreases self.left, 7int,
    {
        self.visible_expr_quality_in_context(e, VisibleExprContext::Generic)
    }

    /// Does the candidate read better than the current expression?
    pub fn prefers_visible_expr_in_context(
        &self,
        current: &CExpr,
        candidate: &CExpr,
        context: VisibleExprContext,
    ) -> (r: bool)
        ensures
            r == self@.prefers(current@, candidate@, context),
        decreases self.left, 7int,
    {
        self.visible_expr_quality_in_context(candidate, context).better_than(
            self.visible_expr_quality_in_context(current, context),
        )
    }

    /// Does the candidate read better than the current expression?
    pub fn prefers_visible_expr(&self, current: &CExpr, candidate: &CExpr) -> (r: bool)
        ensures
            r == self@.prefers(current@, candidate@, VisibleExprContext::Generic),
        decreases self.left, 8int,
    {
        self.prefers_visible_expr_in_context(current, candidate, VisibleExprContext::Generic)
    }

    /// The expression that reads better; the current one where neither does.
    pub fn choose_preferred_visible_expr_in_context(
        &self,
        current: Option<CExpr>,
        candidate: Option<CExpr>,
        context: VisibleExprContext,
    ) -> (r: Option<CExpr>)
        ensures
            view_opt(r) == self@.chosen(view_opt(current), view_opt(candidate), context),
        decreases self.left, 8int,
    {
        match (current, candidate) {
            (None, other) => other,
            (Some(a), None) => Some(a),
            (Some(a), Some(b)) => if self.prefers_visible_expr_in_context(&a, &b, context) {
                Some(b)
            } else {
                Some(a)
            },
        }
    }

    /// The expression that reads better.
    pub fn choose_preferred_visible_expr(
        &self,
        current: Option<CExpr>,
        candidate: Option<CExpr>,
    ) -> (r: Option<CExpr>)
        ensures
            view_opt(r) == self@.chosen(
                view_opt(current),
                view_opt(candidate),
                VisibleExprContext::Generic,
            ),
        decreases self.left, 9int,
    {
        self.choose_preferred_visible_expr_in_context(
            current,
            candidate,
            VisibleExprContext::Generic,
        )
    }

    /// The expression that reads better as a condition.
    pub fn choose_preferred_scalar_predicate_expr(
        &self,
        current: Option<CExpr>,
        candidate: Option<CExpr>,
    ) -> (r: Option<CExpr>)
        ensures
            view_opt(r) == self@.chosen(
                view_opt(current),
                view_opt(candidate),
                VisibleExprContext::ScalarPredicate,
            ),
    {
        self.choose_preferred_visible_expr_in_context(
            current,
            candidate,
            VisibleExprContext::ScalarPredicate,
        )
    }
}

proof fn lemma_lex_order(a: Seq<int>, b: Seq<int>, c: Seq<int>, i: int)
    requires
        0 <= i <= a.len(),
        a.len() == b.len(),
        b.len() == c.len(),
    ensures
        !lex_greater(a, a, i),
        lex_greater(a, b, i) ==> !lex_greater(b, a, i),
        lex_greater(a, b, i) && lex_greater(b, c, i) ==> lex_greater(a, c, i),
    decreases a.len() - i,
{
    if i < a.len() {
        lemma_lex_order(a, b, c, i + 1);
    }
}

/// Reading better is a strict order: nothing reads better than itself, no two
/// expressions each read better than the other, and preferences chain.
pub proof fn preference_is_a_strict_order(
    ctx: &Reading,
    a: Expr,
    b: Expr,
    c: Expr,
    context: VisibleExprContext,
)
    ensures
        !ctx.prefers(a, a, context),
        ctx.prefers(a, b, context) ==> !ctx.prefers(b, a, context),
        ctx.prefers(a, b, context) && ctx.prefers(b, c, context) ==> ctx.prefers(a, c, context),
{
    lemma_lex_order(
        ctx.quality(a, context).ranks(),
        ctx.quality(a, context).ranks(),
        ctx.quality(a, context).ranks(),
        0,
    );
    lemma_lex_order(
        ctx.quality(b, context).ranks(),
        ctx.quality(a, context).ranks(),
        ctx.quality(a, context).ranks(),
        0,
    );
    lemma_lex_order(
        ctx.quality(c, context).ranks(),
        ctx.quality(b, context).ranks(),
        ctx.quality(a, context).ranks(),
        0,
    );
}

/// A choice is one of the two, is there whenever either is, and nothing on
/// offer reads better than it.
pub proof fn choice_is_best_on_offer(
    ctx: &Reading,
    current: Option<Expr>,
    candidate: Option<Expr>,
    context: VisibleExprContext,
)
    ensures
        ({
            let chosen = ctx.chosen(current, candidate, context);
            &&& chosen == current || chosen == candidate
            &&& chosen is Some <==> current is Some || candidate is Some
            &&& chosen matches Some(best) ==> {
                &&& current matches Some(a) ==> !ctx.prefers(best, a, context)
                &&& candidate matches Some(b) ==> !ctx.prefers(best, b, context)
            }
        }),
{
    if current is Some {
        preference_is_a_strict_order(ctx, current->0, current->0, current->0, context);
    }
    if candidate is Some {
        preference_is_a_strict_order(ctx, candidate->0, candidate->0, candidate->0, context);
        if current is Some {
            preference_is_a_strict_order(ctx, current->0, candidate->0, current->0, context);
        }
    }
}

/// Choosing again between the choice and either offer changes nothing.
pub proof fn choice_is_settled(
    ctx: &Reading,
    current: Option<Expr>,
    candidate: Option<Expr>,
    context: VisibleExprContext,
)
    ensures
        ctx.chosen(ctx.chosen(current, candidate, context), current, context) == ctx.chosen(
            current,
            candidate,
            context,
        ),
        ctx.chosen(ctx.chosen(current, candidate, context), candidate, context) == ctx.chosen(
            current,
            candidate,
            context,
        ),
{
    choice_is_best_on_offer(ctx, current, candidate, context);
}

} // verus!
