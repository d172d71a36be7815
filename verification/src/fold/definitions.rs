//! What a name is defined as, and how its definition reads best.

use crate::ast::expr::{
    deref, addr_of, kid_is_smaller, kids, view_opt, views, with_kids, CExpr, Expr,
};
use crate::ast::types::{view_opt as view_opt_type, CType, Type};
use crate::fold::context::{MemoryAccess, MAX_SEMANTIC_RENDER_DEPTH};
use crate::fold::levels::{Folder, Reading};
use crate::fold::names::{is_low_signal_visible_name, low_signal};
use crate::fold::quality::VisibleExprContext;
use crate::fold::shape::{root_name, root_visible_name_in_expr, text_of_var, var_text};
use crate::fold::tables::{entry, find, find_named_expr, find_number, named_expr, number_entry};
use crate::text::{
    copy_of, digits, in_list, join, lower, push_digits, push_text, same, same_ignoring_case,
    same_lower, texts, to_lower,
};
use vstd::prelude::*;

verus! {

broadcast use kid_is_smaller;

/// Where a rendering of a name was found.
#[derive(Debug, Clone, Copy, PartialEq, Eq, Structural)]
pub enum RenderCandidateSource {
    ExactNameDefinition,
    ValueDefinition,
    SemanticValue,
    ForwardedValue,
    AliasDefinition,
    RawDefinition,
}

impl RenderCandidateSource {
    /// Which source counts more, where both give the same rendering: the lower.
    pub open spec fn rank(self) -> int {
        match self {
            RenderCandidateSource::ExactNameDefinition => 0,
            RenderCandidateSource::SemanticValue => 1,
            RenderCandidateSource::ForwardedValue => 2,
            RenderCandidateSource::ValueDefinition => 3,
            RenderCandidateSource::AliasDefinition => 4,
            RenderCandidateSource::RawDefinition => 5,
        }
    }

    /// Which source counts more, where both give the same rendering: the lower.
    pub fn render_candidate_rank(self) -> (r: usize)
        ensures
            r == self.rank(),
    {
        match self {
            RenderCandidateSource::ExactNameDefinition => 0,
            RenderCandidateSource::SemanticValue => 1,
            RenderCandidateSource::ForwardedValue => 2,
            RenderCandidateSource::ValueDefinition => 3,
            RenderCandidateSource::AliasDefinition => 4,
            RenderCandidateSource::RawDefinition => 5,
        }
    }
}

/// A rendering of a name, with where it was found.
pub struct RenderCandidate {
    pub expr: CExpr,
    pub source: RenderCandidateSource,
}

/// A rendering of a name, as a mathematical value.
pub struct Candidate {
    pub expr: Expr,
    pub source: RenderCandidateSource,
}

impl RenderCandidate {
    pub open spec fn view(&self) -> Candidate {
        Candidate { expr: self.expr@, source: self.source }
    }
}

/// The twin of an optional candidate.
pub open spec fn view_opt_candidate(c: Option<RenderCandidate>) -> Option<Candidate> {
    match c {
        Some(c) => Some(c@),
        None => None,
    }
}

/// An optional expression as a candidate.
pub open spec fn candidate_from(e: Option<Expr>, source: RenderCandidateSource) -> Option<Candidate> {
    match e {
        Some(expr) => Some(Candidate { expr, source }),
        None => None,
    }
}

/// An optional expression as a candidate.
pub fn as_candidate(e: Option<CExpr>, source: RenderCandidateSource) -> (r: Option<RenderCandidate>)
    ensures
        view_opt_candidate(r) == candidate_from(view_opt(e), source),
{
    match e {
        Some(expr) => Some(RenderCandidate { expr, source }),
        None => None,
    }
}

/// The expression of an optional candidate.
pub open spec fn candidate_expr(c: Option<Candidate>) -> Option<Expr> {
    match c {
        Some(c) => Some(c.expr),
        None => None,
    }
}

/// How an access through an address is written, from entry `i` on.
pub open spec fn access_from(t: Seq<MemoryAccess>, addr: Expr, size: u32, i: int) -> Option<Expr>
    decreases t.len() - i,
{
    if i < 0 || i >= t.len() {
        None
    } else if t[i].addr@ == addr && t[i].elem_size == size {
        Some(t[i].access@)
    } else {
        access_from(t, addr, size, i + 1)
    }
}

/// One more name.
pub fn with_name(list: &Vec<String>, name: &str) -> (r: Vec<String>)
    ensures
        texts(r@) == texts(list@).push(name@),
{
    let mut out: Vec<String> = Vec::new();
    let mut i: usize = 0;
    while i < list.len()
        invariant
            i <= list@.len(),
            out@.len() == i,
            forall|j: int| 0 <= j < i ==> (#[trigger] out@[j])@ == list@[j]@,
        decreases list@.len() - i,
    {
        out.push(copy_of(&list[i]));
        i = i + 1;
    }
    out.push(copy_of(name));
    assert(texts(out@) =~= texts(list@).push(name@));
    out
}

/// Is a name in a list?
pub fn has_name(list: &Vec<String>, name: &str) -> (r: bool)
    ensures
        r == texts(list@).contains(name@),
{
    let found = in_list(list, name);
    proof {
        if found {
            let i = choose|i: int| 0 <= i < list@.len() && (#[trigger] list@[i])@ == name@;
            assert(texts(list@)[i] == name@);
        } else if texts(list@).contains(name@) {
            let i = choose|i: int| 0 <= i < texts(list@).len() && texts(list@)[i] == name@;
            assert(list@[i]@ == name@);
        }
    }
    found
}

/// A type that values are reached through.
pub open spec fn reaches(ty: Option<Type>) -> bool {
    ty matches Some(ty) && (ty is Pointer || ty is Array)
}

/// A type that values are reached through.
pub fn is_reaching(ty: &Option<CType>) -> (r: bool)
    ensures
        r == reaches(view_opt_type(*ty)),
{
    match ty {
        Some(ty) => matches!(ty, CType::Pointer(_) | CType::Array(_, _)),
        None => false,
    }
}

impl Reading {
    /// The key under which a name is marked as being resolved: the number of
    /// its value where it has one.
    pub open spec fn visit_key(&self, prefix: Seq<char>, name: Seq<char>) -> Seq<char> {
        match entry(self.ctx.facts.value_ids@, name) {
            Some(id) => prefix + ":value:"@ + digits(id as nat, 10),
            None => prefix + ":name:"@ + name,
        }
    }

    /// The definition of the value behind a name.
    pub open spec fn value_definition(&self, name: Seq<char>) -> Option<Expr> {
        match entry(self.ctx.facts.value_ids@, name) {
            Some(id) => match number_entry(self.ctx.facts.value_definitions@, id) {
                Some(e) => Some(e@),
                None => None,
            },
            None => None,
        }
    }

    /// The better candidate. Of two with the same rendering, the one whose
    /// source counts more.
    pub open spec fn better_candidate(
        &self,
        current: Option<Candidate>,
        candidate: Option<Candidate>,
        context: VisibleExprContext,
    ) -> Option<Candidate> {
        match (current, candidate) {
            (None, other) => other,
            (Some(a), None) => Some(a),
            (Some(a), Some(b)) => if a.expr == b.expr {
                if b.source.rank() < a.source.rank() {
                    Some(b)
                } else {
                    Some(a)
                }
            } else if self.prefers(a.expr, b.expr, context) {
                Some(b)
            } else {
                Some(a)
            },
        }
    }

    /// The best definition written down for a name, or for the variable behind
    /// it. What is being looked up answers with its direct definition. `seen` holds
    /// the keys of the names being looked up here.
    pub open spec fn raw_definition(&self, name: Seq<char>, depth: int, seen: Seq<Seq<char>>) -> Option<Expr>
        decreases self.ctx.limits.alias_rewrite + 1 - depth, 1int,
    {
        let key = self.visit_key("defraw"@, name);
        let progress = self.visit_key("defraw-progress"@, name);
        if depth > self.ctx.limits.alias_rewrite || seen.contains(key) {
            None
        } else if self.marks.contains(progress) {
            named_expr(self.ctx.facts.definitions@, name)
        } else {
            self.marking(progress).raw_best(name, depth, seen.push(key))
        }
    }

    /// The best of the direct definition of a name, that of its value, and that
    /// of the variable behind it.
    pub open spec fn raw_best(&self, name: Seq<char>, depth: int, seen: Seq<Seq<char>>) -> Option<Expr>
        decreases self.ctx.limits.alias_rewrite + 1 - depth, 0int,
    {
        let exact = candidate_from(
            named_expr(self.ctx.facts.definitions@, name),
            RenderCandidateSource::ExactNameDefinition,
        );
        let own = if entry(self.ctx.facts.value_ids@, name) is Some {
            self.better_candidate(
                exact,
                candidate_from(
                    self.value_definition(name),
                    RenderCandidateSource::ValueDefinition,
                ),
                VisibleExprContext::Generic,
            )
        } else {
            exact
        };
        let best = match self.ssa_of(name) {
            Some(ssa) => if ssa != name && depth <= self.ctx.limits.alias_rewrite {
                self.better_candidate(
                    own,
                    candidate_from(
                        self.raw_definition(ssa, depth + 1, seen),
                        RenderCandidateSource::AliasDefinition,
                    ),
                    VisibleExprContext::Generic,
                )
            } else {
                own
            },
            None => own,
        };
        candidate_expr(best)
    }

    /// The best definition written down for a name, from the start. A name that
    /// leads back to itself is answered by what stands there in writing.
    pub open spec fn raw_of(&self, name: Seq<char>) -> Option<Expr> {
        if self.marked("raw:"@, name) {
            Some(self.cycle_fallback(name))
        } else {
            self.resolving("raw:"@, name).raw_definition(name, 0, Seq::empty())
        }
    }

    /// Is a name that of a local pointer or array whose contents are reached through it?
    pub open spec fn pointer_owner(&self, name: Seq<char>, e: Expr) -> bool {
        self.named_local(name) && reaches(
            match self.hint(name) {
                Some(ty) => Some(ty),
                None => self.expr_hint(e),
            },
        )
    }

    /// Must a load through this expression stay a load through a local pointer?
    pub open spec fn local_deref(&self, e: Expr) -> bool {
        match root_name(e) {
            Some(name) => self.pointer_owner(name, e) || (self.root_name(name) != name
                && self.pointer_owner(self.shown_alias(self.root_name(name)), e)),
            None => false,
        }
    }

    /// How an access through an address is written.
    pub open spec fn access_through(&self, addr: Expr, size: u32) -> Option<Expr> {
        access_from(self.ctx.answers.memory_accesses@, addr, size, 0)
    }

    /// Is a shown name that of a call's result?
    pub open spec fn owned_name(&self, name: Seq<char>) -> bool {
        self.ctx.owns(lower(name))
    }

    /// The meaning of `source` as it would stand for `name`: a temporary gives
    /// way to the load that it stands for.
    pub open spec fn meaning_for(
        &self,
        name: Seq<char>,
        source: Seq<char>,
        depth: int,
        seen: Seq<Seq<char>>,
    ) -> Option<Expr> {
        match self.asked_meaning(source, depth, seen) {
            Some(candidate) => Some(
                match named_expr(self.ctx.answers.deref_candidates@, name) {
                    Some(load) => if low_signal(name) && candidate is Var && load != candidate {
                        load
                    } else {
                        candidate
                    },
                    None => candidate,
                },
            ),
            None => None,
        }
    }

    /// Does a rendering replace a name? It does where it reads better, and
    /// where it turns a temporary into an access.
    pub open spec fn replaces(&self, name: Seq<char>, rendering: Expr) -> bool {
        self.prefers(Expr::Var(name), rendering, VisibleExprContext::Generic) || (low_signal(name) && (
        rendering is Subscript || rendering is Member || rendering is PtrMember || rendering
            is Deref))
    }

    /// A definition or its meaning, whichever reads better.
    pub open spec fn best_of_definition(&self, def: Expr, meaning: Expr) -> Expr {
        if self.prefers(def, meaning, VisibleExprContext::Generic) {
            meaning
        } else {
            def
        }
    }

    /// An expression with names replaced by what they mean, where that reads
    /// better. `seen` lists the names whose own definition is being read.
    pub open spec fn semantic(&self, e: Expr, depth: int, seen: Seq<Seq<char>>) -> Expr
        decreases MAX_SEMANTIC_RENDER_DEPTH + 1 - depth, 4int,
    {
        if depth > MAX_SEMANTIC_RENDER_DEPTH {
            e
        } else {
            match e {
                Expr::Var(name) => self.semantic_name(name, depth, seen),
                Expr::Deref(inner) => self.semantic_load(*inner, depth, seen),
                Expr::AddrOf(inner) => if var_text(*inner) matches Some(name) && self.telling(
                    name,
                ) {
                    e
                } else {
                    addr_of(self.semantic(*inner, depth + 1, seen))
                },
                _ => with_kids(e, self.semantic_list(kids(e), depth + 1, seen)),
            }
        }
    }

    /// Each expression of a list with names replaced by what they mean.
    pub open spec fn semantic_list(&self, list: Seq<Expr>, depth: int, seen: Seq<Seq<char>>) -> Seq<Expr>
        decreases MAX_SEMANTIC_RENDER_DEPTH + 1 - depth, 5int,
    {
        Seq::new(list.len(), |i: int| self.semantic(list[i], depth, seen))
    }

    /// A load through an address: the value that the name holds, the access
    /// that the address stands for, or the plain load.
    pub open spec fn semantic_load(&self, inner: Expr, depth: int, seen: Seq<Seq<char>>) -> Expr
        decreases MAX_SEMANTIC_RENDER_DEPTH + 1 - depth, 0int,
    {
        let held = match var_text(inner) {
            Some(name) => named_expr(self.ctx.answers.deref_candidates@, name),
            None => None,
        };
        if held is Some {
            held->0
        } else if depth > MAX_SEMANTIC_RENDER_DEPTH {
            deref(inner)
        } else {
            let target = self.semantic(inner, depth + 1, seen);
            let access = self.access_through(target, 0);
            if !self.local_deref(target) && access is Some {
                access->0
            } else {
                deref(target)
            }
        }
    }

    /// The definition `def` as it would stand for `name`, where it reads better.
    pub open spec fn semantic_definition(
        &self,
        name: Seq<char>,
        def: Expr,
        depth: int,
        seen: Seq<Seq<char>>,
    ) -> Option<Expr>
        decreases MAX_SEMANTIC_RENDER_DEPTH + 1 - depth, 0int,
    {
        if depth > MAX_SEMANTIC_RENDER_DEPTH {
            None
        } else {
            let best = self.best_of_definition(def, self.semantic(def, depth + 1, seen));
            if self.prefers(Expr::Var(name), best, VisibleExprContext::Generic) {
                Some(best)
            } else {
                None
            }
        }
    }

    /// What the variable behind a shown name contributes: its meaning, or its definition.
    pub open spec fn semantic_alias(
        &self,
        name: Seq<char>,
        ssa: Seq<char>,
        depth: int,
        seen: Seq<Seq<char>>,
    ) -> Option<Expr>
        decreases MAX_SEMANTIC_RENDER_DEPTH + 1 - depth, 2int,
    {
        match self.meaning_for(name, ssa, depth + 1, seen) {
            Some(meaning) => if self.replaces(name, meaning) {
                Some(meaning)
            } else {
                self.semantic_alias_definition(name, ssa, depth, seen)
            },
            None => self.semantic_alias_definition(name, ssa, depth, seen),
        }
    }

    pub open spec fn semantic_alias_definition(
        &self,
        name: Seq<char>,
        ssa: Seq<char>,
        depth: int,
        seen: Seq<Seq<char>>,
    ) -> Option<Expr>
        decreases MAX_SEMANTIC_RENDER_DEPTH + 1 - depth, 1int,
    {
        match self.raw_definition(ssa, depth + 1, seen) {
            Some(def) => if def matches Expr::Var(inner) && same_ignoring_case(inner, name) {
                None
            } else {
                self.semantic_definition(name, def, depth, seen)
            },
            None => None,
        }
    }

    /// A name, or what it means, where that reads better.
    pub open spec fn semantic_name(&self, name: Seq<char>, depth: int, seen: Seq<Seq<char>>) -> Expr
        decreases MAX_SEMANTIC_RENDER_DEPTH + 1 - depth, 3int,
    {
        let by_meaning = match self.meaning_for(name, name, depth + 1, seen) {
            Some(meaning) => if self.replaces(name, meaning) {
                Some(meaning)
            } else {
                None
            },
            None => None,
        };
        let by_alias = match self.ssa_of(name) {
            Some(ssa) => if ssa != name {
                self.semantic_alias(name, ssa, depth, seen)
            } else {
                None
            },
            None => None,
        };
        let key = "vis:"@ + name;
        let by_definition = if seen.contains(key) {
            None
        } else {
            match self.raw_definition(name, depth + 1, seen.push(key)) {
                Some(def) => if def == Expr::Var(name) {
                    None
                } else {
                    self.semantic_definition(name, def, depth, seen.push(key))
                },
                None => None,
            }
        };
        if self.telling_address(name) || self.owned_name(name) {
            Expr::Var(name)
        } else if by_meaning is Some {
            by_meaning->0
        } else if by_alias is Some {
            by_alias->0
        } else if by_definition is Some {
            by_definition->0
        } else {
            Expr::Var(name)
        }
    }
}

impl<'a> Folder<'a> {
    /// The key under which a name is marked as being resolved.
    pub fn resolution_name_key(&self, prefix: &str, name: &str) -> (r: String)
        ensures
            r@ == self@.visit_key(prefix@, name@),
    {
        match find(&self.ctx.facts.value_ids, name) {
            Some(id) => {
                let mut out = join(prefix, ":value:");
                push_digits(&mut out, *id as u64, 10);
                out
            },
            None => {
                let mut out = join(prefix, ":name:");
                push_text(&mut out, name);
                out
            },
        }
    }

    /// The definition of the value behind a name.
    pub fn definition_of_value(&self, name: &str) -> (r: Option<CExpr>)
        ensures
            view_opt(r) == self@.value_definition(name@),
    {
        match find(&self.ctx.facts.value_ids, name) {
            Some(id) => match find_number(&self.ctx.facts.value_definitions, *id) {
                Some(e) => Some(e.dup()),
                None => None,
            },
            None => None,
        }
    }

    /// The better candidate.
    pub fn choose_preferred_render_candidate(
        &self,
        current: Option<RenderCandidate>,
        candidate: Option<RenderCandidate>,
        context: VisibleExprContext,
    ) -> (r: Option<RenderCandidate>)
        ensures
            view_opt_candidate(r) == self@.better_candidate(
                view_opt_candidate(current),
                view_opt_candidate(candidate),
                context,
            ),
        decreases self.left, 8int,
    {
        match (current, candidate) {
            (None, other) => other,
            (Some(a), None) => Some(a),
            (Some(a), Some(b)) => if a.expr.same(&b.expr) {
                if b.source.render_candidate_rank() < a.source.render_candidate_rank() {
                    Some(b)
                } else {
                    Some(a)
                }
            } else if self.prefers_visible_expr_in_context(&a.expr, &b.expr, context) {
                Some(b)
            } else {
                Some(a)
            },
        }
    }

    /// The best definition written down for a name, or for the variable behind it.
    pub fn lookup_definition_raw_with_depth(
        &self,
        name: &str,
        depth: u32,
        visited: &Vec<String>,
    ) -> (r: Option<CExpr>)
        ensures
            view_opt(r) == self@.raw_definition(name@, depth as int, texts(visited@)),
        decreases self.left, 9int, self.ctx.limits.alias_rewrite + 1 - depth, 1int,
    {
        let key = self.resolution_name_key("defraw", name);
        if depth > self.ctx.limits.alias_rewrite as u32 || has_name(visited, &key) {
            return None;
        }
        let progress = self.resolution_name_key("defraw-progress", name);
        if self.has_mark(&progress) {
            return self.direct_definition_expr(name);
        }
        let within = with_name(visited, &key);
        let more = with_name(self.marks, &progress);
        self.now_marking(&more).lookup_raw_best(name, depth, &within)
    }

    fn lookup_raw_best(&self, name: &str, depth: u32, visited: &Vec<String>) -> (r: Option<CExpr>)
        requires
            depth <= self.ctx.limits.alias_rewrite,
        ensures
            view_opt(r) == self@.raw_best(name@, depth as int, texts(visited@)),
        decreases self.left, 9int, self.ctx.limits.alias_rewrite + 1 - depth, 0int,
    {
        let mut best = as_candidate(
            self.direct_definition_expr(name),
            RenderCandidateSource::ExactNameDefinition,
        );
        if find(&self.ctx.facts.value_ids, name).is_some() {
            let by_value = as_candidate(
                self.definition_of_value(name),
                RenderCandidateSource::ValueDefinition,
            );
            best = self.choose_preferred_render_candidate(
                best,
                by_value,
                VisibleExprContext::Generic,
            );
        }
        if let Some(ssa) = self.find_ssa_name_for_rendered_alias(name) {
            if !same(&ssa, name) {
                let by_alias = as_candidate(
                    self.lookup_definition_raw_with_depth(&ssa, depth + 1, visited),
                    RenderCandidateSource::AliasDefinition,
                );
                best = self.choose_preferred_render_candidate(
                    best,
                    by_alias,
                    VisibleExprContext::Generic,
                );
            }
        }
        match best {
            Some(candidate) => Some(candidate.expr),
            None => None,
        }
    }

    /// The best definition written down for a name, from the start.
    pub fn lookup_definition_raw(&self, name: &str) -> (r: Option<CExpr>)
        ensures
            view_opt(r) == self@.raw_of(name@),
        decreases self.left, 14int,
    {
        if self.is_marked("raw:", name) {
            return Some(self.resolution_cycle_fallback(name));
        }
        let visited: Vec<String> = Vec::new();
        assert(texts(visited@) =~= Seq::<Seq<char>>::empty());
        let more = self.with_mark("raw:", name);
        self.now_marking(&more).lookup_definition_raw_with_depth(
            name,
            0,
            &visited,
        )
    }

    fn is_pointer_like_owner(&self, name: &str, e: &CExpr) -> (r: bool)
        ensures
            r == self@.pointer_owner(name@, e@),
        decreases self.left, 3int,
    {
        if !self.is_named_scalar_local(name) {
            return false;
        }
        let hint = match self.lookup_type_hint(name) {
            Some(ty) => Some(ty),
            None => self.expr_type_hint(e),
        };
        is_reaching(&hint)
    }

    /// Must a load through this expression stay a load through a local pointer?
    pub fn should_preserve_indirect_local_deref(&self, e: &CExpr) -> (r: bool)
        ensures
            r == self@.local_deref(e@),
        decreases self.left, 4int,
    {
        let name = match root_visible_name_in_expr(e) {
            Some(name) => name,
            None => {
                return false;
            },
        };
        if self.is_pointer_like_owner(&name, e) {
            return true;
        }
        let root = self.resolve_copy_root_name_in_fold(&name);
        if same(&root, &name) {
            return false;
        }
        let rendered = self.rendered_visible_name_for_ssa_name(&root);
        self.is_pointer_like_owner(&rendered, e)
    }

    /// How an access through an address is written.
    pub fn render_memory_access_from_visible_expr(&self, addr: &CExpr, elem_size: u32) -> (r: Option<
        CExpr,
    >)
        ensures
            view_opt(r) == self@.access_through(addr@, elem_size),
    {
        let t = &self.ctx.answers.memory_accesses;
        let mut i: usize = 0;
        while i < t.len()
            invariant
                i <= t@.len(),
                t@ == self.ctx.answers.memory_accesses@,
                access_from(t@, addr@, elem_size, 0) == access_from(
                    t@,
                    addr@,
                    elem_size,
                    i as int,
                ),
            decreases t@.len() - i,
        {
            if t[i].addr.same(addr) && t[i].elem_size == elem_size {
                return Some(t[i].access.dup());
            }
            i = i + 1;
        }
        None
    }

    /// Is a shown name that of a call's result?
    pub fn should_preserve_owned_call_result_visible_name(&self, name: &str) -> (r: bool)
        ensures
            r == self@.owned_name(name@),
    {
        match &self.ctx.ownership {
            Some(o) => in_list(&o.visible_owned_names, &to_lower(name)),
            None => false,
        }
    }

    fn find_meaning_for(&self, name: &str, source: &str, depth: u32, visited: &Vec<String>) -> (r: Option<
        CExpr,
    >)
        ensures
            view_opt(r) == self@.meaning_for(name@, source@, depth as int, texts(visited@)),
        decreases self.left, 1int,
    {
        match self.rendered_meaning(source, depth, visited) {
            Some(candidate) => {
                if is_low_signal_visible_name(name) && matches!(candidate, CExpr::Var(_)) {
                    if let Some(load) = find_named_expr(&self.ctx.answers.deref_candidates, name) {
                        if !load.same(&candidate) {
                            return Some(load);
                        }
                    }
                }
                Some(candidate)
            },
            None => None,
        }
    }

    fn should_replace(&self, name: &str, rendering: &CExpr) -> (r: bool)
        ensures
            r == self@.replaces(name@, rendering@),
        decreases self.left, 9int,
    {
        let var = CExpr::var(name);
        self.prefers_visible_expr(&var, rendering) || (is_low_signal_visible_name(name) && matches!(
            rendering,
            CExpr::Subscript { .. } | CExpr::Member { .. } | CExpr::PtrMember { .. } | CExpr::Deref(_)
        ))
    }

    fn semanticize_definition(
        &self,
        name: &str,
        def: CExpr,
        depth: u32,
        visited: &Vec<String>,
    ) -> (r: Option<CExpr>)
        ensures
            view_opt(r) == self@.semantic_definition(name@, def@, depth as int, texts(visited@)),
        decreases self.left, 10int, MAX_SEMANTIC_RENDER_DEPTH + 1 - depth, 0int,
    {
        if depth > MAX_SEMANTIC_RENDER_DEPTH {
            return None;
        }
        let meaning = self.semanticize_visible_expr(&def, depth + 1, visited);
        let best = if self.prefers_visible_expr(&def, &meaning) {
            meaning
        } else {
            def
        };
        if self.prefers_visible_expr(&CExpr::var(name), &best) {
            Some(best)
        } else {
            None
        }
    }

    fn semanticize_alias(
        &self,
        name: &str,
        ssa: &str,
        depth: u32,
        visited: &Vec<String>,
    ) -> (r: Option<CExpr>)
        requires
            depth <= MAX_SEMANTIC_RENDER_DEPTH,
        ensures
            view_opt(r) == self@.semantic_alias(name@, ssa@, depth as int, texts(visited@)),
        decreases self.left, 10int, MAX_SEMANTIC_RENDER_DEPTH + 1 - depth, 2int,
    {
        if let Some(meaning) = self.find_meaning_for(name, ssa, depth + 1, visited) {
            if self.should_replace(name, &meaning) {
                return Some(meaning);
            }
        }
        match self.lookup_definition_raw_with_depth(ssa, depth + 1, visited) {
            Some(def) => {
                if let CExpr::Var(inner) = &def {
                    if same_lower(inner, name) {
                        return None;
                    }
                }
                self.semanticize_definition(name, def, depth, visited)
            },
            None => None,
        }
    }

    fn semanticize_name(&self, name: &str, depth: u32, visited: &Vec<String>) -> (r: CExpr)
        requires
            depth <= MAX_SEMANTIC_RENDER_DEPTH,
        ensures
            r@ == self@.semantic_name(name@, depth as int, texts(visited@)),
        decreases self.left, 10int, MAX_SEMANTIC_RENDER_DEPTH + 1 - depth, 3int,
    {
        if self.should_preserve_address_like_visible_name(name)
            || self.should_preserve_owned_call_result_visible_name(name) {
            return CExpr::var(name);
        }
        if let Some(meaning) = self.find_meaning_for(name, name, depth + 1, visited) {
            if self.should_replace(name, &meaning) {
                return meaning;
            }
        }
        if let Some(ssa) = self.find_ssa_name_for_rendered_alias(name) {
            if !same(&ssa, name) {
                if let Some(found) = self.semanticize_alias(name, &ssa, depth, visited) {
                    return found;
                }
            }
        }
        let key = join("vis:", name);
        if !has_name(visited, &key) {
            let deeper = with_name(visited, &key);
            if let Some(def) = self.lookup_definition_raw_with_depth(name, depth + 1, &deeper) {
                if !def.is_var(name) {
                    if let Some(found) = self.semanticize_definition(name, def, depth, &deeper) {
                        return found;
                    }
                }
            }
        }
        CExpr::var(name)
    }

    fn semanticize_load(&self, inner: &CExpr, depth: u32, visited: &Vec<String>) -> (r: CExpr)
        requires
            depth <= MAX_SEMANTIC_RENDER_DEPTH,
        ensures
            r@ == self@.semantic_load(inner@, depth as int, texts(visited@)),
        decreases self.left, 10int, MAX_SEMANTIC_RENDER_DEPTH + 1 - depth, 0int,
    {
        if let Some(name) = text_of_var(inner) {
            if let Some(candidate) = find_named_expr(&self.ctx.answers.deref_candidates, &name) {
                return candidate;
            }
        }
        let target = self.semanticize_visible_expr(inner, depth + 1, visited);
        if self.should_preserve_indirect_local_deref(&target) {
            return CExpr::deref(target);
        }
        match self.render_memory_access_from_visible_expr(&target, 0) {
            Some(access) => access,
            None => CExpr::deref(target),
        }
    }

    /// An expression with names replaced by what they mean, where that reads better.
    pub fn semanticize_visible_expr(&self, e: &CExpr, depth: u32, visited: &Vec<String>) -> (r: CExpr)
        ensures
            r@ == self@.semantic(e@, depth as int, texts(visited@)),
        decreases self.left, 10int, MAX_SEMANTIC_RENDER_DEPTH + 1 - depth, 4int,
    {
        if depth > MAX_SEMANTIC_RENDER_DEPTH {
            return e.dup();
        }
        match e {
            CExpr::Var(name) => self.semanticize_name(name, depth, visited),
            CExpr::Deref(inner) => self.semanticize_load(inner, depth, visited),
            CExpr::AddrOf(inner) => {
                if let Some(name) = text_of_var(inner) {
                    if self.is_telling_name(&name) {
                        return e.dup();
                    }
                }
                CExpr::addr_of(self.semanticize_visible_expr(inner, depth + 1, visited))
            },
            _ => {
                let n = e.arity();
                let mut parts: Vec<CExpr> = Vec::new();
                let mut i: u128 = 0;
                while i < n
                    invariant
                        i <= n == kids(e@).len(),
                        depth <= MAX_SEMANTIC_RENDER_DEPTH,
                        parts@.len() == i,
                        forall|j: int|
                            0 <= j < i ==> (#[trigger] parts@[j])@ == self@.semantic(
                                kids(e@)[j],
                                depth + 1,
                                texts(visited@),
                            ),
                    decreases n - i,
                {
                    let part = self.semanticize_visible_expr(e.kid(i), depth + 1, visited);
                    parts.push(part);
                    i = i + 1;
                }
                assert(views(parts@) =~= self@.semantic_list(
                    kids(e@),
                    depth + 1,
                    texts(visited@),
                ));
                e.rebuild(parts)
            },
        }
    }
}

} // verus!
