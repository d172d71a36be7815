//! The variable behind a shown name.

use crate::ast::expr::{CExpr, Expr};
use crate::fold::address::first;
use crate::fold::context::FoldingContext;
use crate::fold::levels::{Folder, Reading};
use crate::fold::names::{name_parts, parse_lowered_temp_alias, ssa_name_parts, temp_alias};
use crate::fold::quality::{VisibleExprContext, VisibleExprQuality};
use crate::fold::shape::{constish, is_direct_constish_visible_expr};
use crate::fold::tables::{entry, find, named_expr, view_opt_text};
use crate::text::{
    comes_before, copy_of, has_prefix, in_list, listed, lower, same, same_ignoring_case, same_lower, starts_with,
    strip, strip_prefix, text_before, texts, to_lower,
};
use vstd::prelude::*;

verus! {

/// How much a variable recommends itself: a literal value, a string, and how
/// well its rendering reads.
pub struct AliasKey {
    pub literal: bool,
    pub text: bool,
    pub quality: VisibleExprQuality,
}

/// Does one key recommend more than another?
pub open spec fn key_beats(a: AliasKey, b: AliasKey) -> bool {
    if a.literal != b.literal {
        a.literal
    } else if a.text != b.text {
        a.text
    } else {
        a.quality.beats(b.quality)
    }
}

fn recommends_more(a: &AliasKey, b: &AliasKey) -> (r: bool)
    ensures
        r == key_beats(*a, *b),
{
    if a.literal != b.literal {
        a.literal
    } else if a.text != b.text {
        a.text
    } else {
        a.quality.better_than(b.quality)
    }
}

/// A list of names in order, with one more; a name that is there already is
/// not added.
pub open spec fn text_inserted(list: Seq<Seq<char>>, x: Seq<char>) -> Seq<Seq<char>>
    decreases list.len(),
{
    if list.len() == 0 {
        seq![x]
    } else if list[0] == x {
        list
    } else if text_before(x, list[0], 0) {
        seq![x] + list
    } else {
        seq![list[0]] + text_inserted(list.skip(1), x)
    }
}

fn insert_text(list: &mut Vec<String>, x: String)
    ensures
        texts(final(list)@) == text_inserted(texts(old(list)@), x@),
{
    let ghost start = texts(list@);
    let mut i: usize = 0;
    assert(start.skip(0) =~= start);
    assert(start.take(0) + text_inserted(start, x@) =~= text_inserted(start, x@));
    while i < list.len()
        invariant
            i <= list@.len(),
            texts(list@) == start,
            start == texts(old(list)@),
            start.take(i as int) + text_inserted(start.skip(i as int), x@) == text_inserted(
                start,
                x@,
            ),
        decreases list@.len() - i,
    {
        assert(start.skip(i as int)[0] == list@[i as int]@);
        if same(&list[i], &x) {
            assert(start.take(i as int) + start.skip(i as int) =~= start);
            return;
        }
        if comes_before(&x, &list[i]) {
            let ghost added = x@;
            list.insert(i, x);
            assert(texts(list@) =~= start.take(i as int) + (seq![added] + start.skip(i as int)));
            return;
        }
        assert(start.skip(i as int).skip(1) =~= start.skip(i + 1));
        assert(start.take(i as int) + (seq![start[i as int]] + text_inserted(
            start.skip(i + 1),
            x@,
        )) =~= start.take(i + 1) + text_inserted(start.skip(i + 1), x@));
        i = i + 1;
    }
    let ghost added = x@;
    list.push(x);
    assert(start.skip(i as int) =~= Seq::<Seq<char>>::empty());
    assert(texts(list@) =~= start.take(i as int) + seq![added]);
}

impl Reading {
    /// The rendering that a variable recommends itself by.
    pub open spec fn alias_rendering(&self, ssa: Seq<char>) -> Option<Expr> {
        first(
            match self.meaning_of(ssa) {
                Some(m) => self.asked_meaning_expr(m, 0, Seq::empty()),
                None => None,
            },
            named_expr(self.ctx.facts.definitions@, ssa),
        )
    }

    /// How much a variable recommends itself.
    pub open spec fn alias_key(&self, ssa: Seq<char>) -> AliasKey {
        match self.alias_rendering(ssa) {
            Some(e) => AliasKey {
                literal: constish(e, 0),
                text: e is StringLit,
                quality: self.quality(e, VisibleExprContext::Generic),
            },
            None => AliasKey {
                literal: false,
                text: false,
                quality: VisibleExprQuality::none(),
            },
        }
    }

    /// Does one variable come before another as the one behind a name? The one
    /// that recommends itself more, then the later version, then name order.
    pub open spec fn alias_before(&self, a: Seq<char>, b: Seq<char>) -> bool {
        let (base_a, version_a) = name_parts(a);
        let (base_b, version_b) = name_parts(b);
        if key_beats(self.alias_key(a), self.alias_key(b)) {
            true
        } else if key_beats(self.alias_key(b), self.alias_key(a)) {
            false
        } else if version_a != version_b {
            version_a > version_b
        } else if base_a != base_b {
            text_before(base_a, base_b, 0)
        } else {
            text_before(a, b, 0)
        }
    }

    /// A list of variables in order, with one more.
    pub open spec fn alias_inserted(&self, list: Seq<Seq<char>>, x: Seq<char>) -> Seq<Seq<char>>
        decreases list.len(),
    {
        if list.len() == 0 {
            seq![x]
        } else if self.alias_before(x, list[0]) {
            seq![x] + list
        } else {
            seq![list[0]] + self.alias_inserted(list.skip(1), x)
        }
    }

    /// The first `n` names of a list, in the order in which they stand behind a name.
    pub open spec fn alias_order(&self, list: Seq<Seq<char>>, n: int) -> Seq<Seq<char>>
        decreases n,
    {
        if n <= 0 {
            Seq::empty()
        } else {
            self.alias_inserted(self.alias_order(list, n - 1), list[n - 1])
        }
    }

    /// The variables that the first `n` aliases list under a shown name, in order.
    pub open spec fn aliased_upto(&self, name: Seq<char>, n: int) -> Seq<Seq<char>>
        decreases n,
    {
        if n <= 0 {
            Seq::empty()
        } else {
            let before = self.aliased_upto(name, n - 1);
            if same_ignoring_case(self.ctx.facts.var_aliases@[n - 1].1@, name) {
                self.alias_inserted(before, self.ctx.facts.var_aliases@[n - 1].0@)
            } else {
                before
            }
        }
    }

    /// The variables listed under a shown name, in order.
    pub open spec fn aliased(&self, name: Seq<char>) -> Seq<Seq<char>> {
        self.aliased_upto(name, self.ctx.facts.var_aliases@.len() as int)
    }

    /// Is a variable the one that a temporary's alias refers to?
    pub open spec fn temp_matches(&self, alias: (bool, Seq<char>, u32), name: Seq<char>, ssa: Seq<char>) -> bool {
        let (base, version) = name_parts(ssa);
        version == alias.2 && if alias.0 {
            match strip(lower(base), "tmp:"@) {
                Some(temp) => alias.1.len() == 0 || same_ignoring_case(temp, alias.1),
                None => false,
            }
        } else {
            !has_prefix(base, "tmp:"@) && name.len() > 0 && name[0] == 'v'
        }
    }

    /// Of the first `n` known variables, those that a temporary's alias refers
    /// to, in name order and each once.
    pub open spec fn temps_upto(&self, alias: (bool, Seq<char>, u32), name: Seq<char>, n: int) -> Seq<Seq<char>>
        decreases n,
    {
        if n <= 0 {
            Seq::empty()
        } else {
            let before = self.temps_upto(alias, name, n - 1);
            let ssa = self.ctx.facts.named_values@[n - 1]@;
            if self.temp_matches(alias, name, ssa) {
                text_inserted(before, ssa)
            } else {
                before
            }
        }
    }

    /// The variables that a temporary's alias refers to.
    pub open spec fn temps(&self, name: Seq<char>) -> Seq<Seq<char>> {
        match temp_alias(name) {
            Some(alias) => self.temps_upto(alias, name, self.ctx.facts.named_values@.len() as int),
            None => Seq::empty(),
        }
    }

    /// The variable behind a shown name, unless it is being looked for.
    pub open spec fn alias_of(&self, name: Seq<char>) -> Option<Seq<char>> {
        if self.marked("alias:"@, name) {
            None
        } else {
            self.resolving("alias:"@, name).behind(name)
        }
    }

    /// The variable behind a shown name: of a temporary's alias, a parameter as
    /// it arrives, or the first of those listed under the name.
    pub open spec fn behind(&self, name: Seq<char>) -> Option<Seq<char>> {
        let temps = self.temps(name);
        let ordered = self.alias_order(temps, temps.len() as int);
        let listed_names = self.aliased(name);
        if temps.len() > 0 {
            Some(ordered[0])
        } else {
            match self.entry_arg(name) {
                Some(arg) => if listed(self.ctx.facts.renderable_names@, arg) || entry(
                    self.ctx.facts.var_aliases@,
                    arg,
                ) is Some {
                    Some(arg)
                } else if listed_names.len() > 0 {
                    Some(listed_names[0])
                } else {
                    None
                },
                None => if listed_names.len() > 0 {
                    Some(listed_names[0])
                } else {
                    None
                },
            }
        }
    }
}

impl<'a> Folder<'a> {
    /// How much a variable recommends itself.
    pub fn ssa_alias_preference_key(&self, ssa_name: &str) -> (r: AliasKey)
        ensures
            r == self@.alias_key(ssa_name@),
        decreases self.left, 8int,
    {
        let none: Vec<String> = Vec::new();
        assert(texts(none@) =~= Seq::<Seq<char>>::empty());
        let meant = match self.lookup_semantic_value(ssa_name) {
            Some(m) => self.rendered_value_meaning(m, 0, &none),
            None => None,
        };
        let rendering = match meant {
            Some(e) => Some(e),
            None => self.direct_definition_expr(ssa_name),
        };
        match rendering {
            Some(e) => AliasKey {
                literal: is_direct_constish_visible_expr(&e, 0),
                text: matches!(e, CExpr::StringLit(_)),
                quality: self.visible_expr_quality(&e),
            },
            None => AliasKey {
                literal: false,
                text: false,
                quality: VisibleExprQuality::default(),
            },
        }
    }

    fn comes_first(&self, a: &str, b: &str) -> (r: bool)
        ensures
            r == self@.alias_before(a@, b@),
        decreases self.left, 9int,
    {
        let key_a = self.ssa_alias_preference_key(a);
        let key_b = self.ssa_alias_preference_key(b);
        if recommends_more(&key_a, &key_b) {
            return true;
        }
        if recommends_more(&key_b, &key_a) {
            return false;
        }
        let (base_a, version_a) = ssa_name_parts(a);
        let (base_b, version_b) = ssa_name_parts(b);
        if version_a != version_b {
            return version_a > version_b;
        }
        if !same(&base_a, &base_b) {
            return comes_before(&base_a, &base_b);
        }
        comes_before(a, b)
    }

    fn insert_alias(&self, list: &mut Vec<String>, x: String)
        ensures
            texts(final(list)@) == self@.alias_inserted(texts(old(list)@), x@),
        decreases self.left, 10int,
    {
        let ghost start = texts(list@);
        let mut i: usize = 0;
        assert(start.skip(0) =~= start);
        assert(start.take(0) + self@.alias_inserted(start, x@) =~= self@.alias_inserted(start, x@));
        while i < list.len()
            invariant
                i <= list@.len(),
                texts(list@) == start,
                start == texts(old(list)@),
                start.take(i as int) + self@.alias_inserted(start.skip(i as int), x@)
                    == self@.alias_inserted(start, x@),
            decreases list@.len() - i,
        {
            assert(start.skip(i as int)[0] == list@[i as int]@);
            if self.comes_first(&x, &list[i]) {
                let ghost added = x@;
                list.insert(i, x);
                assert(texts(list@) =~= start.take(i as int) + (seq![added] + start.skip(
                    i as int,
                )));
                return;
            }
            assert(start.skip(i as int).skip(1) =~= start.skip(i + 1));
            assert(start.take(i as int) + (seq![start[i as int]] + self@.alias_inserted(
                start.skip(i + 1),
                x@,
            )) =~= start.take(i + 1) + self@.alias_inserted(start.skip(i + 1), x@));
            i = i + 1;
        }
        let ghost added = x@;
        list.push(x);
        assert(start.skip(i as int) =~= Seq::<Seq<char>>::empty());
        assert(texts(list@) =~= start.take(i as int) + seq![added]);
    }

    /// The variables listed under a shown name, in order.
    pub fn ssa_names_for_alias(&self, name: &str) -> (r: Vec<String>)
        ensures
            texts(r@) == self@.aliased(name@),
        decreases self.left, 11int,
    {
        let t = &self.ctx.facts.var_aliases;
        let mut out: Vec<String> = Vec::new();
        let mut i: usize = 0;
        assert(texts(out@) =~= Seq::<Seq<char>>::empty());
        while i < t.len()
            invariant
                i <= t@.len(),
                t@ == self.ctx.facts.var_aliases@,
                texts(out@) == self@.aliased_upto(name@, i as int),
            decreases t@.len() - i,
        {
            if same_lower(&t[i].1, name) {
                self.insert_alias(&mut out, copy_of(&t[i].0));
            }
            i = i + 1;
        }
        out
    }

    /// The variables that a temporary's alias refers to, in name order.
    pub fn ssa_names_for_lowered_temp_alias(&self, name: &str) -> (r: Vec<String>)
        ensures
            texts(r@) == self@.temps(name@),
    {
        let mut out: Vec<String> = Vec::new();
        assert(texts(out@) =~= Seq::<Seq<char>>::empty());
        let (is_temp, alias_base, alias_version) = match parse_lowered_temp_alias(name) {
            Some(alias) => alias,
            None => {
                return out;
            },
        };
        let ghost alias = (is_temp, alias_base@, alias_version);
        let names = &self.ctx.facts.named_values;
        let bare = alias_base.as_str().unicode_len() == 0;
        let chars = crate::text::chars_of(name);
        let is_v = chars.len() > 0 && chars[0] == 'v';
        let mut i: usize = 0;
        while i < names.len()
            invariant
                i <= names@.len(),
                names@ == self.ctx.facts.named_values@,
                alias == (is_temp, alias_base@, alias_version),
                bare == (alias_base@.len() == 0),
                is_v == (name@.len() > 0 && name@[0] == 'v'),
                texts(out@) == self@.temps_upto(alias, name@, i as int),
            decreases names@.len() - i,
        {
            let (base, version) = ssa_name_parts(&names[i]);
            let fits = if is_temp {
                match strip_prefix(&to_lower(&base), "tmp:") {
                    Some(temp) => bare || same_lower(&temp, &alias_base),
                    None => false,
                }
            } else {
                !starts_with(&base, "tmp:") && is_v
            };
            if version == alias_version && fits {
                insert_text(&mut out, copy_of(&names[i]));
            }
            i = i + 1;
        }
        out
    }

    fn first_name(list: &Vec<String>) -> (r: Option<String>)
        ensures
            match r {
                Some(s) => texts(list@).len() > 0 && s@ == texts(list@)[0],
                None => texts(list@).len() == 0,
            },
    {
        if list.len() > 0 {
            Some(copy_of(&list[0]))
        } else {
            None
        }
    }

    /// The variable behind a shown name, unless it is being looked for.
    pub fn resolve_rendered_alias(&self, name: &str) -> (r: Option<String>)
        ensures
            view_opt_text(r) == self@.alias_of(name@),
        decreases self.left, 13int,
    {
        if self.is_marked("alias:", name) {
            return None;
        }
        let more = self.with_mark("alias:", name);
        self.now_marking(&more).best_variable_behind(name)
    }

    fn best_variable_behind(&self, name: &str) -> (r: Option<String>)
        ensures
            view_opt_text(r) == self@.behind(name@),
        decreases self.left, 12int,
    {
        let temps = self.ssa_names_for_lowered_temp_alias(name);
        if temps.len() > 0 {
            let mut ordered: Vec<String> = Vec::new();
            let mut i: usize = 0;
            assert(texts(ordered@) =~= Seq::<Seq<char>>::empty());
            while i < temps.len()
                invariant
                    i <= temps@.len(),
                    texts(ordered@) == self@.alias_order(texts(temps@), i as int),
                    i > 0 ==> ordered@.len() > 0,
                decreases temps@.len() - i,
            {
                assert(texts(temps@)[i as int] == temps@[i as int]@);
                let ghost before = texts(ordered@);
                self.insert_alias(&mut ordered, copy_of(&temps[i]));
                proof {
                    lemma_inserted_is_there(&self@, before, temps@[i as int]@);
                    assert(texts(ordered@).len() == ordered@.len());
                }
                i = i + 1;
            }
            assert(texts(ordered@)[0] == ordered@[0]@);
            return Some(copy_of(&ordered[0]));
        }
        assert(texts(temps@).len() == 0);
        if let Some(arg) = self.preferred_entry_arg_ssa_name(name) {
            if in_list(&self.ctx.facts.renderable_names, &arg) || find(
                &self.ctx.facts.var_aliases,
                &arg,
            ).is_some() {
                return Some(arg);
            }
        }
        Self::first_name(&self.ssa_names_for_alias(name))
    }
}

proof fn lemma_inserted_is_there(ctx: &Reading, list: Seq<Seq<char>>, x: Seq<char>)
    ensures
        ctx.alias_inserted(list, x).len() == list.len() + 1,
        ctx.alias_inserted(list, x).to_multiset() == list.to_multiset().insert(x),
    decreases list.len(),
{
    broadcast use vstd::seq_lib::group_to_multiset_ensures;

    if list.len() == 0 {
        assert(seq![x] =~= list.push(x));
    } else if ctx.alias_before(x, list[0]) {
        vstd::seq_lib::lemma_multiset_commutative(seq![x], list);
        assert(seq![x] =~= Seq::<Seq<char>>::empty().push(x));
        assert((seq![x] + list).to_multiset() =~= list.to_multiset().insert(x));
    } else {
        let rest = list.skip(1);
        lemma_inserted_is_there(ctx, rest, x);
        let tail = ctx.alias_inserted(rest, x);
        vstd::seq_lib::lemma_multiset_commutative(seq![list[0]], tail);
        vstd::seq_lib::lemma_multiset_commutative(seq![list[0]], rest);
        assert(seq![list[0]] + rest =~= list);
        assert((seq![list[0]] + tail).to_multiset() =~= list.to_multiset().insert(x));
    }
}

/// Putting a variable in its place adds exactly that variable to the list.
pub proof fn ordering_keeps_every_variable(ctx: &Reading, list: Seq<Seq<char>>, x: Seq<char>)
    ensures
        ctx.alias_inserted(list, x).to_multiset() == list.to_multiset().insert(x),
{
    lemma_inserted_is_there(ctx, list, x);
}

/// Is a variable listed under a shown name?
pub open spec fn shown_as(ctx: FoldingContext, ssa: Seq<char>, name: Seq<char>) -> bool {
    exists|j: int|
        0 <= j < ctx.facts.var_aliases@.len() && (#[trigger] ctx.facts.var_aliases@[j]).0@ == ssa
            && same_ignoring_case(ctx.facts.var_aliases@[j].1@, name)
}

proof fn lemma_inserted_is_one_of(r: &Reading, list: Seq<Seq<char>>, x: Seq<char>, k: int)
    requires
        0 <= k < r.alias_inserted(list, x).len(),
    ensures
        r.alias_inserted(list, x)[k] == x || list.contains(r.alias_inserted(list, x)[k]),
    decreases list.len(),
{
    if list.len() > 0 {
        if r.alias_before(x, list[0]) {
            if k > 0 {
                assert((seq![x] + list)[k] == list[k - 1]);
            }
        } else if k > 0 {
            let rest = list.skip(1);
            lemma_inserted_is_one_of(r, rest, x, k - 1);
            let found = r.alias_inserted(rest, x)[k - 1];
            assert(r.alias_inserted(list, x)[k] == found);
            if rest.contains(found) {
                let i = choose|i: int| 0 <= i < rest.len() && rest[i] == found;
                assert(list[i + 1] == found);
            }
        } else {
            assert(list.contains(list[0]));
        }
    }
}

proof fn lemma_aliased_are_shown_so(r: &Reading, name: Seq<char>, n: int)
    requires
        0 <= n <= r.ctx.facts.var_aliases@.len(),
    ensures
        forall|k: int|
            0 <= k < r.aliased_upto(name, n).len() ==> shown_as(
                r.ctx,
                #[trigger] r.aliased_upto(name, n)[k],
                name,
            ),
        forall|j: int|
            0 <= j < n && same_ignoring_case((#[trigger] r.ctx.facts.var_aliases@[j]).1@, name)
                ==> r.aliased_upto(name, n).len() > 0,
    decreases n,
{
    if n > 0 {
        lemma_aliased_are_shown_so(r, name, n - 1);
        let before = r.aliased_upto(name, n - 1);
        let last = r.ctx.facts.var_aliases@[n - 1];
        if same_ignoring_case(last.1@, name) {
            let all = r.alias_inserted(before, last.0@);
            lemma_inserted_is_there(r, before, last.0@);
            assert forall|k: int| 0 <= k < all.len() implies shown_as(r.ctx, #[trigger] all[k], name) by {
                lemma_inserted_is_one_of(r, before, last.0@, k);
                if before.contains(all[k]) {
                    let i = choose|i: int| 0 <= i < before.len() && before[i] == all[k];
                    assert(shown_as(r.ctx, before[i], name));
                }
            }
        }
    }
}

/// A name that some variable is shown under leads back to such a variable, unless
/// it is the name of a temporary or of a parameter, which go first, or is being
/// looked for already.
pub proof fn a_shown_name_leads_to_a_variable_shown_so(r: &Reading, name: Seq<char>, i: int)
    requires
        0 <= i < r.ctx.facts.var_aliases@.len(),
        same_ignoring_case(r.ctx.facts.var_aliases@[i].1@, name),
        temp_alias(name) is None,
        r.entry_arg(name) is None,
        !r.marked("alias:"@, name),
    ensures
        r.alias_of(name) matches Some(ssa) && shown_as(r.ctx, ssa, name),
{
    let within = r.resolving("alias:"@, name);
    lemma_aliased_are_shown_so(&within, name, within.ctx.facts.var_aliases@.len() as int);
    assert(within.ctx.facts.var_aliases@[i] == r.ctx.facts.var_aliases@[i]);
    assert(within.entry_arg(name) is None);
    assert(within.aliased(name).len() > 0);
    assert(shown_as(within.ctx, within.aliased(name)[0], name));
}

} // verus!
