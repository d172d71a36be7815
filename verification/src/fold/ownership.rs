//! Collecting which names own the results of which calls.

use crate::ast::expr::{CExpr, Expr};
use crate::fold::address::first;
use crate::fold::context::{CallOwner, CallOwnerKind, CallOwnershipFact, SemanticOwnershipFacts};
use crate::fold::definitions::has_name;
use crate::fold::levels::{Folder, Reading};
use crate::fold::tables::Site;
use crate::text::{copy_of, in_list, listed, lower, texts, to_lower};
use vstd::prelude::*;

verus! {

/// Who owns the result of a call, as mathematical values.
pub struct Owner {
    pub name: Seq<char>,
    pub kind: CallOwnerKind,
}

/// What is known about the result of one call, as a mathematical value.
pub struct OwnedCall {
    pub source: Site,
    pub owner: Option<Owner>,
    pub aliases: Seq<Seq<char>>,
    pub direct: Seq<Seq<char>>,
    pub keys: Seq<Expr>,
}

/// Which calls the shown names come from, as a mathematical value.
pub struct Ownership {
    pub alias_sources: Seq<(Seq<char>, Site)>,
    pub owner_sources: Seq<(Seq<char>, Site)>,
    pub owned_names: Seq<Seq<char>>,
    pub call_sources: Seq<(Expr, Site)>,
    pub calls: Seq<(Site, OwnedCall)>,
}

/// The twin of a table of places by name.
pub open spec fn named_sites(t: Seq<(String, Site)>) -> Seq<(Seq<char>, Site)> {
    t.map_values(|p: (String, Site)| (p.0@, p.1))
}

/// The twin of a table of places by call.
pub open spec fn call_sites(t: Seq<(CExpr, Site)>) -> Seq<(Expr, Site)> {
    t.map_values(|p: (CExpr, Site)| (p.0@, p.1))
}

/// The twin of a list of expressions.
pub open spec fn expr_views(t: Seq<CExpr>) -> Seq<Expr> {
    t.map_values(|e: CExpr| e@)
}

impl CallOwnershipFact {
    pub open spec fn view(&self) -> OwnedCall {
        OwnedCall {
            source: self.source,
            owner: match self.owner {
                Some(owner) => Some(Owner { name: owner.visible_name@, kind: owner.kind }),
                None => None,
            },
            aliases: texts(self.aliases@),
            direct: texts(self.direct_aliases@),
            keys: expr_views(self.call_expr_keys@),
        }
    }
}

/// The twin of the table of calls.
pub open spec fn owned_calls(t: Seq<(Site, CallOwnershipFact)>) -> Seq<(Site, OwnedCall)> {
    t.map_values(|p: (Site, CallOwnershipFact)| (p.0, p.1@))
}

impl SemanticOwnershipFacts {
    pub open spec fn view(&self) -> Ownership {
        Ownership {
            alias_sources: named_sites(self.alias_sources@),
            owner_sources: named_sites(self.visible_owner_sources@),
            owned_names: texts(self.visible_owned_names@),
            call_sources: call_sites(self.call_expr_sources@),
            calls: owned_calls(self.call_ownership@),
        }
    }
}

/// A table with a name in front, as written and in lower case.
pub open spec fn with_source(t: Seq<(Seq<char>, Site)>, name: Seq<char>, site: Site) -> Seq<
    (Seq<char>, Site),
> {
    t.insert(0, (name, site)).insert(0, (lower(name), site))
}

fn add_source(t: &mut Vec<(String, Site)>, name: &str, site: Site)
    ensures
        named_sites(final(t)@) == with_source(named_sites(old(t)@), name@, site),
{
    t.insert(0, (copy_of(name), site));
    t.insert(0, (to_lower(name), site));
    assert(named_sites(t@) =~= with_source(named_sites(old(t)@), name@, site));
}

/// A list with one more element, unless it holds it already.
pub open spec fn added<T>(list: Seq<T>, x: T) -> Seq<T> {
    if list.contains(x) {
        list
    } else {
        list.push(x)
    }
}

fn add_expr(list: &mut Vec<CExpr>, e: CExpr)
    ensures
        expr_views(final(list)@) == added(expr_views(old(list)@), e@),
{
    let mut i: usize = 0;
    while i < list.len()
        invariant
            i <= list@.len(),
            list@ == old(list)@,
            forall|j: int| 0 <= j < i ==> (#[trigger] list@[j])@ != e@,
        decreases list@.len() - i,
    {
        if list[i].same(&e) {
            assert(expr_views(list@)[i as int] == e@);
            return;
        }
        i = i + 1;
    }
    assert forall|j: int| 0 <= j < expr_views(list@).len() implies expr_views(list@)[j] != e@ by {
        assert(list@[j]@ != e@);
    }
    list.push(e);
    assert(expr_views(list@) =~= expr_views(old(list)@).push(e@));
}

fn add_text(list: &mut Vec<String>, s: &str)
    ensures
        texts(final(list)@) == added(texts(old(list)@), s@),
{
    if !has_name(list, s) {
        list.push(copy_of(s));
        assert(texts(list@) =~= texts(old(list)@).push(s@));
    }
}

pub fn copy_texts(list: &Vec<String>) -> (r: Vec<String>)
    ensures
        texts(r@) == texts(list@),
{
    let mut out: Vec<String> = Vec::new();
    let mut i: usize = 0;
    while i < list.len()
        invariant
            i <= list@.len(),
            out@.len() == i,
            forall|j: int| 0 <= j < i ==> (#[trigger] out@[j])@ == list@[j]@,
        decreases list@.len() - i,
    {
        out.push(copy_of(&list[i]));
        i = i + 1;
    }
    assert(texts(out@) =~= texts(list@));
    out
}

/// A table of places by name, with the first `n` aliases of a call in front.
pub open spec fn aliases_added(
    t: Seq<(Seq<char>, Site)>,
    aliases: Seq<String>,
    site: Site,
    n: int,
) -> Seq<(Seq<char>, Site)>
    decreases n,
{
    if n <= 0 {
        t
    } else {
        with_source(aliases_added(t, aliases, site, n - 1), aliases[n - 1]@, site)
    }
}

/// A table of places by call, with the first `n` of some calls in front.
pub open spec fn keys_added(t: Seq<(Expr, Site)>, keys: Seq<Expr>, site: Site, n: int) -> Seq<
    (Expr, Site),
>
    decreases n,
{
    if n <= 0 {
        t
    } else {
        keys_added(t, keys, site, n - 1).insert(0, (keys[n - 1], site))
    }
}

/// No facts.
pub open spec fn no_ownership() -> Ownership {
    Ownership {
        alias_sources: Seq::empty(),
        owner_sources: Seq::empty(),
        owned_names: Seq::empty(),
        call_sources: Seq::empty(),
        calls: Seq::empty(),
    }
}

impl Reading {
    /// The first `n` aliases that hold a call's result directly.
    pub open spec fn direct_among(&self, aliases: Seq<String>, n: int) -> Seq<Seq<char>>
        decreases n,
    {
        if n <= 0 {
            Seq::empty()
        } else if listed(self.ctx.facts.direct_call_results@, aliases[n - 1]@) {
            added(self.direct_among(aliases, n - 1), aliases[n - 1]@)
        } else {
            self.direct_among(aliases, n - 1)
        }
    }

    /// The calls that the first `n` aliases are defined as, in normal form.
    pub open spec fn keys_among(&self, aliases: Seq<String>, n: int) -> Seq<Expr>
        decreases n,
    {
        if n <= 0 {
            Seq::empty()
        } else {
            let rest = self.keys_among(aliases, n - 1);
            match self.any_definition(aliases[n - 1]@) {
                Some(e) => if e is Call {
                    added(rest, self.call_form(e))
                } else {
                    rest
                },
                None => rest,
            }
        }
    }

    /// The name that owns a call's result, by its aliases or the local it is
    /// stored to.
    pub open spec fn derived_owner(&self, site: Site, aliases: Seq<String>) -> Option<Seq<char>> {
        first(
            self.owner_by_aliases(aliases, aliases.len() as int),
            self.stored_local(site, aliases),
        )
    }

    /// What is known about the result of a call with these aliases.
    pub open spec fn owned_call(&self, site: Site, aliases: Seq<String>) -> OwnedCall {
        OwnedCall {
            source: site,
            owner: match self.derived_owner(site, aliases) {
                Some(name) => Some(Owner { name, kind: self.owner_kind(name) }),
                None => None,
            },
            aliases: texts(aliases),
            direct: self.direct_among(aliases, aliases.len() as int),
            keys: self.keys_among(aliases, aliases.len() as int),
        }
    }

    /// The facts, with those of one more call.
    pub open spec fn ownership_with(&self, o: Ownership, site: Site, aliases: Seq<String>) -> Ownership {
        let fact = self.owned_call(site, aliases);
        Ownership {
            alias_sources: aliases_added(o.alias_sources, aliases, site, aliases.len() as int),
            owner_sources: match fact.owner {
                Some(owner) => with_source(o.owner_sources, owner.name, site),
                None => o.owner_sources,
            },
            owned_names: match fact.owner {
                Some(owner) => added(o.owned_names, lower(owner.name)),
                None => o.owned_names,
            },
            call_sources: keys_added(o.call_sources, fact.keys, site, fact.keys.len() as int),
            calls: o.calls.push((site, fact)),
        }
    }

    /// The facts on the first `n` calls.
    pub open spec fn ownership_upto(&self, n: int) -> Ownership
        decreases n,
    {
        if n <= 0 {
            no_ownership()
        } else {
            let call = self.ctx.facts.call_result_aliases@[n - 1];
            self.ownership_with(self.ownership_upto(n - 1), call.0, call.1@)
        }
    }

    /// The facts on all calls whose results have aliases.
    pub open spec fn owned_results(&self) -> Ownership {
        self.ownership_upto(self.ctx.facts.call_result_aliases@.len() as int)
    }

    /// Every alias of a call's result leads to some call, and so does its
    /// lower-case form.
    pub proof fn every_alias_has_a_source(&self, call: int, alias: int)
        requires
            0 <= call < self.ctx.facts.call_result_aliases@.len(),
            0 <= alias < self.ctx.facts.call_result_aliases@[call].1@.len(),
        ensures
            ({
                let name = self.ctx.facts.call_result_aliases@[call].1@[alias]@;
                let keys = self.owned_results().alias_sources.map_values(
                    |p: (Seq<char>, Site)| p.0,
                );
                keys.contains(name) && keys.contains(lower(name))
            }),
    {
        let n = self.ctx.facts.call_result_aliases@.len() as int;
        self.alias_kept(call, alias, n);
    }

    proof fn alias_kept(&self, call: int, alias: int, n: int)
        requires
            0 <= call < n <= self.ctx.facts.call_result_aliases@.len(),
            0 <= alias < self.ctx.facts.call_result_aliases@[call].1@.len(),
        ensures
            ({
                let name = self.ctx.facts.call_result_aliases@[call].1@[alias]@;
                let keys = self.ownership_upto(n).alias_sources.map_values(
                    |p: (Seq<char>, Site)| p.0,
                );
                keys.contains(name) && keys.contains(lower(name))
            }),
        decreases n,
    {
        let last = self.ctx.facts.call_result_aliases@[n - 1];
        let name = self.ctx.facts.call_result_aliases@[call].1@[alias]@;
        let before = self.ownership_upto(n - 1).alias_sources;
        let count = last.1@.len() as int;
        if call == n - 1 {
            added_aliases_are_keys(before, last.1@, last.0, count, alias);
        } else {
            self.alias_kept(call, alias, n - 1);
            keys_are_kept(before, last.1@, last.0, count, name);
            keys_are_kept(before, last.1@, last.0, count, lower(name));
        }
    }
}

impl<'a> Folder<'a> {
    fn record_aliases(&self, facts: &mut SemanticOwnershipFacts, site: Site, aliases: &Vec<String>) -> (r: (
        Vec<String>,
        Vec<CExpr>,
    ))
        ensures
            final(facts)@ == (Ownership {
                alias_sources: aliases_added(
                    old(facts)@.alias_sources,
                    aliases@,
                    site,
                    aliases@.len() as int,
                ),
                ..old(facts)@
            }),
            texts(r.0@) == self@.direct_among(aliases@, aliases@.len() as int),
            expr_views(r.1@) == self@.keys_among(aliases@, aliases@.len() as int),
    {
        let mut direct: Vec<String> = Vec::new();
        let mut keys: Vec<CExpr> = Vec::new();
        let mut i: usize = 0;
        assert(texts(direct@) =~= Seq::empty());
        assert(expr_views(keys@) =~= Seq::empty());
        while i < aliases.len()
            invariant
                i <= aliases@.len(),
                facts@ == (Ownership {
                    alias_sources: aliases_added(
                        old(facts)@.alias_sources,
                        aliases@,
                        site,
                        i as int,
                    ),
                    ..old(facts)@
                }),
                texts(direct@) == self@.direct_among(aliases@, i as int),
                expr_views(keys@) == self@.keys_among(aliases@, i as int),
            decreases aliases@.len() - i,
        {
            let alias = &aliases[i];
            add_source(&mut facts.alias_sources, alias, site);
            if in_list(&self.ctx.facts.direct_call_results, alias) {
                add_text(&mut direct, alias);
            }
            if let Some(e) = self.find_any_definition(alias) {
                if matches!(e, CExpr::Call { .. }) {
                    add_expr(&mut keys, self.call_expr_cache_key(&e));
                }
            }
            i = i + 1;
        }
        (direct, keys)
    }

    fn record_owner(&self, facts: &mut SemanticOwnershipFacts, site: Site, aliases: &Vec<String>) -> (r: Option<
        CallOwner,
    >)
        ensures
            final(facts)@ == (Ownership {
                owner_sources: match self@.derived_owner(site, aliases@) {
                    Some(name) => with_source(old(facts)@.owner_sources, name, site),
                    None => old(facts)@.owner_sources,
                },
                owned_names: match self@.derived_owner(site, aliases@) {
                    Some(name) => added(old(facts)@.owned_names, lower(name)),
                    None => old(facts)@.owned_names,
                },
                ..old(facts)@
            }),
            match self@.derived_owner(site, aliases@) {
                Some(name) => r is Some && r->0.visible_name@ == name && r->0.kind
                    == self@.owner_kind(name),
                None => r is None,
            },
    {
        let name = match self.derive_stable_owned_call_result_name_for_source(aliases) {
            Some(name) => Some(name),
            None => self.fallback_owned_call_result_stack_local_name_for_source(site, aliases),
        };
        match name {
            Some(visible_name) => {
                let kind = self.classify_call_owner_kind(&visible_name);
                add_source(&mut facts.visible_owner_sources, &visible_name, site);
                let low = to_lower(&visible_name);
                add_text(&mut facts.visible_owned_names, &low);
                Some(CallOwner { visible_name, kind })
            },
            None => None,
        }
    }

    fn record_keys(&self, facts: &mut SemanticOwnershipFacts, site: Site, keys: &Vec<CExpr>)
        ensures
            final(facts)@ == (Ownership {
                call_sources: keys_added(
                    old(facts)@.call_sources,
                    expr_views(keys@),
                    site,
                    keys@.len() as int,
                ),
                ..old(facts)@
            }),
    {
        let mut i: usize = 0;
        while i < keys.len()
            invariant
                i <= keys@.len(),
                facts@ == (Ownership {
                    call_sources: keys_added(
                        old(facts)@.call_sources,
                        expr_views(keys@),
                        site,
                        i as int,
                    ),
                    ..old(facts)@
                }),
            decreases keys@.len() - i,
        {
            let ghost before = facts.call_expr_sources@;
            facts.call_expr_sources.insert(0, (keys[i].dup(), site));
            assert(call_sites(facts.call_expr_sources@) =~= call_sites(before).insert(
                0,
                (expr_views(keys@)[i as int], site),
            ));
            i = i + 1;
        }
    }

    /// The facts on all calls whose results have aliases.
    pub fn build_semantic_ownership_facts(&self) -> (r: SemanticOwnershipFacts)
        ensures
            r@ == self@.owned_results(),
    {
        let mut facts = SemanticOwnershipFacts::new();
        proof {
            assert(named_sites(facts.alias_sources@) =~= Seq::empty());
            assert(named_sites(facts.visible_owner_sources@) =~= Seq::empty());
            assert(texts(facts.visible_owned_names@) =~= Seq::empty());
            assert(call_sites(facts.call_expr_sources@) =~= Seq::empty());
            assert(owned_calls(facts.call_ownership@) =~= Seq::empty());
        }
        let t = &self.ctx.facts.call_result_aliases;
        let mut i: usize = 0;
        while i < t.len()
            invariant
                i <= t@.len(),
                t@ == self.ctx.facts.call_result_aliases@,
                facts@ == self@.ownership_upto(i as int),
            decreases t@.len() - i,
        {
            let site = t[i].0;
            let aliases = &t[i].1;
            let (direct_aliases, call_expr_keys) = self.record_aliases(&mut facts, site, aliases);
            let owner = self.record_owner(&mut facts, site, aliases);
            self.record_keys(&mut facts, site, &call_expr_keys);
            let fact = CallOwnershipFact {
                source: site,
                owner,
                aliases: copy_texts(aliases),
                direct_aliases,
                call_expr_keys,
            };
            let ghost before = facts.call_ownership@;
            facts.call_ownership.push((site, fact));
            assert(owned_calls(facts.call_ownership@) =~= owned_calls(before).push(
                (site, self@.owned_call(site, aliases@)),
            ));
            i = i + 1;
        }
        facts
    }
}

proof fn key_in_front(t: Seq<(Seq<char>, Site)>, name: Seq<char>, site: Site)
    ensures
        ({
            let keys = with_source(t, name, site).map_values(|p: (Seq<char>, Site)| p.0);
            &&& keys.contains(name)
            &&& keys.contains(lower(name))
            &&& forall|k: Seq<char>|
                t.map_values(|p: (Seq<char>, Site)| p.0).contains(k) ==> keys.contains(k)
        }),
{
    let f = |p: (Seq<char>, Site)| p.0;
    let keys = with_source(t, name, site).map_values(f);
    assert(keys[0] == lower(name));
    assert(keys[1] == name);
    assert forall|k: Seq<char>| t.map_values(f).contains(k) implies keys.contains(k) by {
        let i = choose|i: int| 0 <= i < t.len() && t.map_values(f)[i] == k;
        assert(keys[i + 2] == k);
    }
}

proof fn keys_are_kept(
    t: Seq<(Seq<char>, Site)>,
    aliases: Seq<String>,
    site: Site,
    n: int,
    key: Seq<char>,
)
    requires
        0 <= n <= aliases.len(),
        t.map_values(|p: (Seq<char>, Site)| p.0).contains(key),
    ensures
        aliases_added(t, aliases, site, n).map_values(|p: (Seq<char>, Site)| p.0).contains(key),
    decreases n,
{
    if n > 0 {
        keys_are_kept(t, aliases, site, n - 1, key);
        key_in_front(aliases_added(t, aliases, site, n - 1), aliases[n - 1]@, site);
    }
}

proof fn added_aliases_are_keys(
    t: Seq<(Seq<char>, Site)>,
    aliases: Seq<String>,
    site: Site,
    n: int,
    i: int,
)
    requires
        0 <= i < n <= aliases.len(),
    ensures
        ({
            let keys = aliases_added(t, aliases, site, n).map_values(
                |p: (Seq<char>, Site)| p.0,
            );
            keys.contains(aliases[i]@) && keys.contains(lower(aliases[i]@))
        }),
    decreases n,
{
    key_in_front(aliases_added(t, aliases, site, n - 1), aliases[n - 1]@, site);
    if i < n - 1 {
        added_aliases_are_keys(t, aliases, site, n - 1, i);
    }
}

} // verus!
