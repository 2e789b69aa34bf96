//! Environments: what is known of the names in scope.

use im_rc::HashMap as ImHashMap;
use std::collections::HashSet;
use vstd::prelude::*;

use crate::apply::apply;
use crate::ast::{Stmt, Type, TypeDef};
use crate::ast_view::{some_type_view, stmt_view, stmts_view, variant_defs_view, StmtV, TypeDefV};
use crate::ast_view::{type_def_view, TypeV};
use crate::display::env_info_text;
use crate::subst::{apply_scheme_view, Subst, SubstV};
use crate::tables::{insert_name, lemma_push_contains, lemma_sorted_names, lists_names};
use crate::tables::{sorted_names, Dup, NameMap};
use crate::text::{clone_strings, strings_view};
use crate::ty::{constraints_view, tys_view, EnvInfo, EnvInfoV, Scheme, SchemeV, Ty, TyV, TyVar};
use crate::vars::{contains_var, free_type_vars_into, free_vars, list_vars, occurs};
use crate::vars::{occurs_in_constraints, tys_vars_into};

verus! {

broadcast use vstd::std_specs::hash::group_hash_axioms;

// ---------------------------------------------------------------------------
// The persistent map
// ---------------------------------------------------------------------------

/// The persistent hash map of the `im_rc` crate.
#[verifier::external_type_specification]
#[verifier::external_body]
#[verifier::reject_recursive_types(K)]
#[verifier::reject_recursive_types(V)]
#[verifier::reject_recursive_types(S)]
pub struct ExImHashMap<K, V, S>(ImHashMap<K, V, S>);

/// What a persistent map holds: an entry for each of its keys.
pub uninterp spec fn env_contents(m: ImHashMap<String, EnvInfo>) -> Map<Seq<char>, EnvInfoV>;

/// A map without entries.
pub open spec fn no_entries() -> Map<Seq<char>, EnvInfoV> {
    Map::empty()
}

/// `im_rc::HashMap::new` makes a map without entries.
#[verifier::external_body]
fn im_new() -> (m: ImHashMap<String, EnvInfo>)
    ensures
        env_contents(m) == no_entries(),
{
    ImHashMap::new()
}

/// `im_rc::HashMap::insert` puts the value under the key, in place of what was
/// there, and leaves the other keys alone.
#[verifier::external_body]
fn im_insert(m: &mut ImHashMap<String, EnvInfo>, key: String, value: EnvInfo)
    ensures
        env_contents(*final(m)) == env_contents(*old(m)).insert(key@, value@),
{
    m.insert(key, value);
}

/// `im_rc::HashMap::get` finds the value under the key, if there is one.
#[verifier::external_body]
fn im_get<'a>(m: &'a ImHashMap<String, EnvInfo>, key: &str) -> (r: Option<&'a EnvInfo>)
    ensures
        r matches Some(v) ==> env_contents(*m).dom().contains(key@) && v@ == env_contents(
            *m,
        )[key@],
        r is None ==> !env_contents(*m).dom().contains(key@),
{
    m.get(key)
}

/// `im_rc::HashMap::clone` makes a map with the same entries.
#[verifier::external_body]
fn im_clone(m: &ImHashMap<String, EnvInfo>) -> (r: ImHashMap<String, EnvInfo>)
    ensures
        env_contents(r) == env_contents(*m),
{
    m.clone()
}

/// `im_rc::HashMap::keys` hands out each key once, in no order that is
/// promised.
#[verifier::external_body]
fn im_keys(m: &ImHashMap<String, EnvInfo>) -> (r: Vec<String>)
    ensures
        forall|n: Seq<char>| #[trigger]
            strings_view(r@).contains(n) <==> env_contents(*m).dom().contains(n),
        strings_view(r@).no_duplicates(),
{
    m.keys().cloned().collect()
}

// ---------------------------------------------------------------------------
// Type environments
// ---------------------------------------------------------------------------

/// The view of a [`TypeEnv`].
pub type EnvV = Map<Seq<char>, EnvInfoV>;

/// The names in scope and what is known of each.
#[derive(Debug)]
pub struct TypeEnv(pub ImHashMap<String, EnvInfo>);

impl View for TypeEnv {
    type V = EnvV;

    open spec fn view(&self) -> EnvV {
        env_contents(self.0)
    }
}

/// Whether `v` is mentioned in a scheme, quantified or not.
pub open spec fn scheme_mentions(s: SchemeV, v: TyVar) -> bool {
    occurs(v, s.ty) || occurs_in_constraints(v, s.constraints)
}

/// Whether `v` is free in a scheme: mentioned and not quantified.
pub open spec fn scheme_free(s: SchemeV, v: TyVar) -> bool {
    scheme_mentions(s, v) && !s.vars.contains(v)
}

/// Whether `v` is what is left of a free variable of a scheme once the solved
/// variables are filled in.
pub open spec fn scheme_free_after(m: Map<TyVar, TyV>, s: SchemeV, v: TyVar) -> bool {
    exists|w: TyVar| #[trigger] scheme_free(s, w) && occurs(v, apply(m, TyV::Var(w)))
}

/// The variables that are free in an environment once the solved variables
/// are filled in.
pub open spec fn env_free_vars(m: Map<TyVar, TyV>, env: EnvV) -> Set<TyVar> {
    Set::new(
        |v: TyVar|
            exists|n: Seq<char>| #[trigger]
                env.dom().contains(n) && scheme_free_after(m, env[n].scheme, v),
    )
}

/// The variables that are free in an environment as it is written.
pub open spec fn env_free_vars_syntactic(env: EnvV) -> Set<TyVar> {
    Set::new(
        |v: TyVar|
            exists|n: Seq<char>| #[trigger]
                env.dom().contains(n) && scheme_free(env[n].scheme, v),
    )
}

/// The environment with the type of each entry resolved. Constraints keep
/// referring to the variables of their scheme.
pub open spec fn apply_env(m: Map<TyVar, TyV>, env: EnvV) -> EnvV {
    env.map_values(|i: EnvInfoV| EnvInfoV { scheme: apply_scheme_view(m, i.scheme), ..i })
}

/// The lines of an environment, one for each of `names`.
pub open spec fn env_lines(env: EnvV, names: Seq<Seq<char>>) -> Seq<char>
    decreases names.len(),
{
    if names.len() == 0 {
        Seq::empty()
    } else {
        env_lines(env, names.drop_last()) + "  "@ + names.last() + ": "@ + env_info_text(
            env[names.last()],
        ) + "\n"@
    }
}

impl TypeEnv {
    pub fn new() -> (r: Self)
        ensures
            r@ == Map::<Seq<char>, EnvInfoV>::empty(),
    {
        TypeEnv(im_new())
    }

    pub fn insert(&mut self, name: String, info: EnvInfo)
        ensures
            final(self)@ == old(self)@.insert(name@, info@),
    {
        im_insert(&mut self.0, name, info);
    }

    pub fn get(&self, name: &str) -> (r: Option<&EnvInfo>)
        ensures
            r matches Some(info) ==> self@.dom().contains(name@) && info@ == self@[name@],
            r is None ==> !self@.dom().contains(name@),
    {
        im_get(&self.0, name)
    }

    /// The names in dictionary order.
    pub fn names(&self) -> (r: Vec<String>)
        ensures
            strings_view(r@) == sorted_names(self@.dom()),
            lists_names(strings_view(r@), self@.dom()),
            r@.len() == strings_view(r@).len(),
    {
        let keys = im_keys(&self.0);
        let mut out: Vec<String> = Vec::new();
        let ghost all = strings_view(keys@);
        let mut i: usize = 0;
        assert(strings_view(out@) =~= Seq::empty());
        assert(all.take(0).to_set() =~= Set::empty());
        while i < keys.len()
            invariant
                i <= keys.len(),
                all == strings_view(keys@),
                lists_names(strings_view(out@), all.take(i as int).to_set()),
            decreases keys.len() - i,
        {
            let ghost seen = all.take(i as int);
            let ghost item = keys@[i as int]@;
            insert_name(&mut out, keys[i].clone(), Ghost(seen.to_set()));
            proof {
                assert(all.take(i + 1) =~= seen.push(item));
                assert forall|n: Seq<char>| all.take(i + 1).to_set().contains(n)
                    <==> seen.to_set().insert(item).contains(n) by {
                    lemma_push_contains(seen, item, n);
                }
                assert(all.take(i + 1).to_set() =~= seen.to_set().insert(item));
            }
            i = i + 1;
        }
        proof {
            assert(all.take(all.len() as int) =~= all);
            assert(all.to_set() =~= self@.dom());
            lemma_sorted_names(strings_view(out@), self@.dom());
        }
        out
    }

    /// The variables that are free in the environment once the solved
    /// variables are filled in.
    pub fn free_vars(&self, s: &Subst) -> (r: HashSet<TyVar>)
        requires
            s.wf(),
        ensures
            r@ == env_free_vars(s@.map, self@),
    {
        let names = self.names();
        let ghost all = strings_view(names@);
        let ghost m = s@.map;
        let mut vars: HashSet<TyVar> = HashSet::new();
        let mut i: usize = 0;
        while i < names.len()
            invariant
                i <= names.len(),
                s.wf(),
                m == s@.map,
                all == strings_view(names@),
                forall|n: Seq<char>| #[trigger] all.contains(n) <==> self@.dom().contains(n),
                forall|v: TyVar| #[trigger]
                    vars@.contains(v) <==> exists|j: int|
                        0 <= j < i && scheme_free_after(m, self@[#[trigger] all[j]].scheme, v),
            decreases names.len() - i,
        {
            let ghost before = vars@;
            assert(all[i as int] == names@[i as int]@);
            assert(all.contains(all[i as int]));
            assert(self@.dom().contains(all[i as int]));
            if let Some(info) = self.get(names[i].as_str()) {
                scheme_free_vars_after_apply_into(&info.scheme, s, &mut vars);
            }
            proof {
                assert forall|v: TyVar| #[trigger]
                    vars@.contains(v) <==> exists|j: int|
                        0 <= j < i + 1 && scheme_free_after(
                            m,
                            self@[#[trigger] all[j]].scheme,
                            v,
                        ) by {
                    assert(before.contains(v) <==> exists|j: int|
                        0 <= j < i && scheme_free_after(m, self@[#[trigger] all[j]].scheme, v));
                    if vars@.contains(v) && !before.contains(v) {
                        assert(scheme_free_after(m, self@[all[i as int]].scheme, v));
                    }
                    if exists|j: int|
                        0 <= j < i + 1 && scheme_free_after(
                            m,
                            self@[#[trigger] all[j]].scheme,
                            v,
                        ) {
                        let j = choose|j: int|
                            0 <= j < i + 1 && scheme_free_after(
                                m,
                                self@[#[trigger] all[j]].scheme,
                                v,
                            );
                        if j < i {
                            assert(before.contains(v));
                        }
                    }
                }
            }
            i = i + 1;
        }
        proof {
            assert forall|v: TyVar| vars@.contains(v) <==> env_free_vars(m, self@).contains(v) by {
                if vars@.contains(v) {
                    let j = choose|j: int|
                        0 <= j < i && scheme_free_after(m, self@[#[trigger] all[j]].scheme, v);
                    assert(all.contains(all[j]));
                    assert(self@.dom().contains(all[j]));
                }
                if env_free_vars(m, self@).contains(v) {
                    let n = choose|n: Seq<char>| #[trigger]
                        self@.dom().contains(n) && scheme_free_after(m, self@[n].scheme, v);
                    assert(all.contains(n));
                    let j = choose|j: int| 0 <= j < all.len() && all[j] == n;
                    assert(scheme_free_after(m, self@[all[j]].scheme, v));
                }
            }
            assert(vars@ =~= env_free_vars(m, self@));
        }
        vars
    }

    /// The variables that are free in the environment as it is written.
    pub fn free_vars_syntactic(&self) -> (r: HashSet<TyVar>)
        ensures
            r@ == env_free_vars_syntactic(self@),
    {
        let s = Subst::new();
        let r = self.free_vars(&s);
        proof {
            assert forall|v: TyVar| r@.contains(v) <==> env_free_vars_syntactic(self@).contains(
                v,
            ) by {
                assert forall|n: Seq<char>| self@.dom().contains(n) implies (scheme_free_after(
                    s@.map,
                    self@[n].scheme,
                    v,
                ) <==> scheme_free(self@[n].scheme, v)) by {
                    lemma_free_unsolved(self@[n].scheme, v);
                }
                if env_free_vars_syntactic(self@).contains(v) {
                    let n = choose|n: Seq<char>| #[trigger]
                        self@.dom().contains(n) && scheme_free(self@[n].scheme, v);
                    assert(scheme_free_after(s@.map, self@[n].scheme, v));
                }
                if r@.contains(v) {
                    let n = choose|n: Seq<char>| #[trigger]
                        self@.dom().contains(n) && scheme_free_after(
                            s@.map,
                            self@[n].scheme,
                            v,
                        );
                    assert(scheme_free(self@[n].scheme, v));
                }
            }
            assert(r@ =~= env_free_vars_syntactic(self@));
        }
        r
    }

    /// Resolves the type of each entry.
    pub fn apply_subst(&mut self, subst: &Subst)
        requires
            subst.wf(),
        ensures
            final(self)@ == apply_env(subst@.map, old(self)@),
    {
        let names = self.names();
        let ghost all = strings_view(names@);
        let ghost start = self@;
        let ghost m = subst@.map;
        let mut i: usize = 0;
        while i < names.len()
            invariant
                i <= names.len(),
                subst.wf(),
                m == subst@.map,
                all == strings_view(names@),
                lists_names(all, start.dom()),
                self@.dom() == start.dom(),
                forall|j: int|
                    0 <= j < i ==> self@[#[trigger] all[j]] == apply_env(m, start)[all[j]],
                forall|j: int| i <= j < all.len() ==> self@[#[trigger] all[j]] == start[all[j]],
            decreases names.len() - i,
        {
            let ghost before = self@;
            let ghost name = all[i as int];
            assert(all.contains(name));
            let updated = match self.get(names[i].as_str()) {
                Some(info) => EnvInfo {
                    scheme: subst.apply_scheme(&info.scheme),
                    binding_mutable: info.binding_mutable,
                    place_mutable: info.place_mutable,
                    macro_phase_available: info.macro_phase_available,
                },
                None => {
                    assert(false);
                    return;
                },
            };
            self.insert(names[i].clone(), updated);
            proof {
                assert(self@.dom() =~= start.dom());
                assert forall|j: int| 0 <= j < all.len() && j != i implies all[j] != name by {
                    if j < i {
                        assert(crate::text::lex_less(all[j], all[i as int]));
                    } else {
                        assert(crate::text::lex_less(all[i as int], all[j]));
                    }
                    crate::text::lemma_lex_irreflexive(name);
                }
            }
            i = i + 1;
        }
        assert forall|n: Seq<char>| start.dom().contains(n) implies self@[n] == apply_env(
            m,
            start,
        )[n] by {
            assert(all.contains(n));
            let j = choose|j: int| 0 <= j < all.len() && all[j] == n;
            assert(self@[all[j]] == apply_env(m, start)[all[j]]);
        }
        assert(self@ =~= apply_env(m, start));
    }

    /// The environment as text: a line for each name, in dictionary order.
    pub fn to_string(&self) -> (r: String)
        ensures
            r@ == env_lines(self@, sorted_names(self@.dom())),
    {
        let names = self.names();
        let ghost all = strings_view(names@);
        let mut out = String::new();
        let mut i: usize = 0;
        assert(out@ =~= env_lines(self@, all.take(0)));
        while i < names.len()
            invariant
                i <= names.len(),
                all == strings_view(names@),
                lists_names(all, self@.dom()),
                out@ == env_lines(self@, all.take(i as int)),
            decreases names.len() - i,
        {
            let ghost name = all[i as int];
            assert(all.contains(name));
            if let Some(info) = self.get(names[i].as_str()) {
                out.append("  ");
                out.append(names[i].as_str());
                out.append(": ");
                out.append(info.to_string().as_str());
                out.append("\n");
            }
            proof {
                assert(all.take(i + 1).drop_last() =~= all.take(i as int));
                assert(out@ =~= env_lines(self@, all.take(i + 1)));
            }
            i = i + 1;
        }
        assert(all.take(all.len() as int) =~= all);
        out
    }
}

impl Clone for TypeEnv {
    fn clone(&self) -> (r: Self)
        ensures
            r@ == self@,
    {
        TypeEnv(im_clone(&self.0))
    }
}

impl Default for TypeEnv {
    fn default() -> (r: Self)
        ensures
            r@ == Map::<Seq<char>, EnvInfoV>::empty(),
    {
        TypeEnv::new()
    }
}

proof fn lemma_free_unsolved(s: SchemeV, v: TyVar)
    ensures
        scheme_free_after(Map::empty(), s, v) <==> scheme_free(s, v),
{
    let m = Map::<TyVar, TyV>::empty();
    crate::subst::lemma_empty_acyclic();
    if scheme_free(s, v) {
        assert(apply(m, TyV::Var(v)) == TyV::Var(v));
        assert(occurs(v, apply(m, TyV::Var(v))));
    }
    if scheme_free_after(m, s, v) {
        let w = choose|w: TyVar| #[trigger] scheme_free(s, w) && occurs(v, apply(m, TyV::Var(w)));
        assert(apply(m, TyV::Var(w)) == TyV::Var(w));
    }
}

/// Adds to `vars` what is left of the free variables of a scheme once the
/// solved variables are filled in.
fn scheme_free_vars_after_apply_into(scheme: &Scheme, subst: &Subst, vars: &mut HashSet<TyVar>)
    requires
        subst.wf(),
    ensures
        forall|v: TyVar| #[trigger]
            final(vars)@.contains(v) <==> old(vars)@.contains(v) || scheme_free_after(
                subst@.map,
                scheme@,
                v,
            ),
{
    let mut mentioned: HashSet<TyVar> = HashSet::new();
    free_type_vars_into(&scheme.ty, &mut mentioned);
    let mut i: usize = 0;
    let ghost cs = constraints_view(scheme.constraints@);
    while i < scheme.constraints.len()
        invariant
            i <= scheme.constraints.len(),
            cs == constraints_view(scheme.constraints@),
            forall|v: TyVar| #[trigger]
                mentioned@.contains(v) <==> occurs(v, scheme.ty@) || occurs_in_constraints(
                    v,
                    cs.take(i as int),
                ),
        decreases scheme.constraints.len() - i,
    {
        let ghost before = mentioned@;
        let c = &scheme.constraints[i];
        assert(cs[i as int] == c@);
        mentioned.insert(c.var);
        tys_vars_into(&c.args, &mut mentioned);
        proof {
            assert forall|v: TyVar| #[trigger]
                mentioned@.contains(v) <==> occurs(v, scheme.ty@) || occurs_in_constraints(
                    v,
                    cs.take(i + 1),
                ) by {
                assert(before.contains(v) <==> occurs(v, scheme.ty@) || occurs_in_constraints(
                    v,
                    cs.take(i as int),
                ));
                if occurs_in_constraints(v, cs.take(i as int)) {
                    let k = choose|k: int|
                        0 <= k < i && ((#[trigger] cs.take(i as int)[k]).var == v
                            || crate::vars::occurs_in_tys(v, cs.take(i as int)[k].args));
                    assert(cs.take(i + 1)[k] == cs.take(i as int)[k]);
                }
                if occurs_in_constraints(v, cs.take(i + 1)) {
                    let k = choose|k: int|
                        0 <= k < i + 1 && ((#[trigger] cs.take(i + 1)[k]).var == v
                            || crate::vars::occurs_in_tys(v, cs.take(i + 1)[k].args));
                    if k < i {
                        assert(cs.take(i as int)[k] == cs.take(i + 1)[k]);
                        assert(occurs_in_constraints(v, cs.take(i as int)));
                    }
                }
                assert(cs.take(i + 1)[i as int] == c@);
            }
        }
        i = i + 1;
    }
    assert(cs.take(cs.len() as int) =~= cs);
    let items = list_vars(&mentioned);
    let ghost start = vars@;
    let ghost m = subst@.map;
    let mut k: usize = 0;
    while k < items.len()
        invariant
            k <= items.len(),
            subst.wf(),
            m == subst@.map,
            forall|v: TyVar| #[trigger] items@.contains(v) <==> scheme_mentions(scheme@, v),
            forall|v: TyVar| #[trigger]
                vars@.contains(v) <==> start.contains(v) || exists|j: int|
                    0 <= j < k && scheme_free(scheme@, #[trigger] items@[j]) && occurs(
                        v,
                        apply(m, TyV::Var(items@[j])),
                    ),
        decreases items.len() - k,
    {
        let ghost before = vars@;
        assert(items@.contains(items@[k as int]));
        if !contains_var(&scheme.vars, items[k]) {
            let t = Ty::Var(items[k]);
            assert(t@ == TyV::Var(items@[k as int]));
            subst.free_vars_after_apply_into(&t, vars);
        }
        proof {
            assert forall|v: TyVar| #[trigger]
                vars@.contains(v) <==> start.contains(v) || exists|j: int|
                    0 <= j < k + 1 && scheme_free(scheme@, #[trigger] items@[j]) && occurs(
                        v,
                        apply(m, TyV::Var(items@[j])),
                    ) by {
                assert(before.contains(v) <==> start.contains(v) || exists|j: int|
                    0 <= j < k && scheme_free(scheme@, #[trigger] items@[j]) && occurs(
                        v,
                        apply(m, TyV::Var(items@[j])),
                    ));
                if vars@.contains(v) && !before.contains(v) {
                    assert(scheme_free(scheme@, items@[k as int]));
                    assert(occurs(v, apply(m, TyV::Var(items@[k as int]))));
                }
                if exists|j: int|
                    0 <= j < k + 1 && scheme_free(scheme@, #[trigger] items@[j]) && occurs(
                        v,
                        apply(m, TyV::Var(items@[j])),
                    ) {
                    let j = choose|j: int|
                        0 <= j < k + 1 && scheme_free(scheme@, #[trigger] items@[j]) && occurs(
                            v,
                            apply(m, TyV::Var(items@[j])),
                        );
                    if j < k {
                        assert(before.contains(v));
                    }
                }
            }
        }
        k = k + 1;
    }
    assert forall|v: TyVar| #[trigger] vars@.contains(v) <==> start.contains(v)
        || scheme_free_after(m, scheme@, v) by {
        if scheme_free_after(m, scheme@, v) {
            let w = choose|w: TyVar| #[trigger]
                scheme_free(scheme@, w) && occurs(v, apply(m, TyV::Var(w)));
            assert(items@.contains(w));
            let j = choose|j: int| 0 <= j < items@.len() && items@[j] == w;
            assert(scheme_free(scheme@, items@[j]));
        }
    }
}

// ---------------------------------------------------------------------------
// Variants
// ---------------------------------------------------------------------------

/// A variant: the type it belongs to and what it carries.
#[derive(Debug)]
pub struct VariantInfo {
    pub nominal_name: String,
    pub type_params: Vec<String>,
    pub type_param_vars: Vec<TyVar>,
    pub payload: Option<Type>,
    pub payload_ty: Option<Ty>,
}

/// The view of a [`VariantInfo`].
pub struct VariantInfoV {
    pub nominal_name: Seq<char>,
    pub type_params: Seq<Seq<char>>,
    pub type_param_vars: Seq<TyVar>,
    pub payload: Option<TypeV>,
    pub payload_ty: Option<TyV>,
}

/// The view of an optional type.
pub open spec fn some_ty_view(t: Option<Ty>) -> Option<TyV> {
    match t {
        Some(t) => Some(t@),
        None => None,
    }
}

impl View for VariantInfo {
    type V = VariantInfoV;

    open spec fn view(&self) -> VariantInfoV {
        VariantInfoV {
            nominal_name: self.nominal_name@,
            type_params: strings_view(self.type_params@),
            type_param_vars: self.type_param_vars@,
            payload: some_type_view(self.payload),
            payload_ty: some_ty_view(self.payload_ty),
        }
    }
}

/// Copies an optional type as it is written in the source.
pub fn clone_payload(t: &Option<Type>) -> (r: Option<Type>)
    ensures
        some_type_view(r) == some_type_view(*t),
{
    match t {
        Some(t) => Some(t.clone()),
        None => None,
    }
}

impl Clone for VariantInfo {
    fn clone(&self) -> (r: Self)
        ensures
            r@ == self@,
    {
        VariantInfo {
            nominal_name: self.nominal_name.clone(),
            type_params: clone_strings(&self.type_params),
            type_param_vars: crate::ty::clone_vars(&self.type_param_vars),
            payload: clone_payload(&self.payload),
            payload_ty: match &self.payload_ty {
                Some(t) => Some(t.clone()),
                None => None,
            },
        }
    }
}

impl Dup for VariantInfo {
    fn dup(&self) -> (r: Self) {
        self.clone()
    }
}

/// The view of a [`VariantEnv`].
pub type VariantsV = Map<Seq<char>, VariantInfoV>;

/// The variants in scope.
#[derive(Debug)]
pub struct VariantEnv(pub NameMap<VariantInfo>);

impl View for VariantEnv {
    type V = VariantsV;

    open spec fn view(&self) -> VariantsV {
        self.0@
    }
}

impl Clone for VariantEnv {
    fn clone(&self) -> (r: Self)
        ensures
            r@ == self@,
    {
        VariantEnv(self.0.clone())
    }
}

impl Default for VariantEnv {
    fn default() -> (r: Self)
        ensures
            r@ == Map::<Seq<char>, VariantInfoV>::empty(),
    {
        VariantEnv(NameMap::new())
    }
}

/// The first `n` variants of a type definition added to `env`.
pub open spec fn add_variants(env: VariantsV, td: TypeDefV, n: nat) -> VariantsV
    decreases n,
{
    if n == 0 {
        env
    } else {
        let v = td.variants[n - 1];
        add_variants(env, td, (n - 1) as nat).insert(
            v.name,
            VariantInfoV {
                nominal_name: td.name,
                type_params: td.params,
                type_param_vars: Seq::empty(),
                payload: v.payload,
                payload_ty: None,
            },
        )
    }
}

/// The variants of every type definition among `stmts` added to `env`.
pub open spec fn variants_of(env: VariantsV, stmts: Seq<StmtV>) -> VariantsV
    decreases stmts.len(),
{
    if stmts.len() == 0 {
        env
    } else {
        let rest = variants_of(env, stmts.drop_last());
        match stmts.last() {
            StmtV::Type(td) => add_variants(rest, td, td.variants.len()),
            _ => rest,
        }
    }
}

fn add_type_variants(env: &mut VariantEnv, td: &TypeDef)
    ensures
        final(env)@ == add_variants(old(env)@, td@, td@.variants.len()),
{
    let ghost start = env@;
    let ghost all = td@.variants;
    let mut i: usize = 0;
    while i < td.variants.len()
        invariant
            i <= td.variants.len(),
            all == td@.variants,
            all.len() == td.variants@.len(),
            env@ == add_variants(start, td@, i as nat),
        decreases td.variants.len() - i,
    {
        let v = &td.variants[i];
        assert(all[i as int] == v@);
        let info = VariantInfo {
            nominal_name: td.name.clone(),
            type_params: clone_strings(&td.params),
            type_param_vars: Vec::new(),
            payload: clone_payload(&v.payload),
            payload_ty: None,
        };
        assert(info.type_param_vars@ =~= Seq::empty());
        env.0.insert(v.name.clone(), info);
        i = i + 1;
    }
}

fn add_stmt_variants(env: &mut VariantEnv, stmts: &Vec<Stmt>)
    ensures
        final(env)@ == variants_of(old(env)@, stmts_view(stmts@)),
{
    let ghost start = env@;
    let ghost all = stmts_view(stmts@);
    let mut i: usize = 0;
    assert(all.take(0) =~= Seq::empty());
    while i < stmts.len()
        invariant
            i <= stmts.len(),
            all == stmts_view(stmts@),
            env@ == variants_of(start, all.take(i as int)),
        decreases stmts.len() - i,
    {
        assert(all[i as int] == stmts@[i as int]@);
        assert(all.take(i + 1).drop_last() =~= all.take(i as int));
        if let Stmt::Type(td) = &stmts[i] {
            add_type_variants(env, td);
        }
        i = i + 1;
    }
    assert(all.take(all.len() as int) =~= all);
}

/// The variants that the type definitions of two lists of statements declare;
/// those of the second list win.
pub fn build_variant_env_from_stmts(seed_stmts: &Vec<Stmt>, stmts: &Vec<Stmt>) -> (r: VariantEnv)
    ensures
        r@ == variants_of(
            variants_of(Map::empty(), stmts_view(seed_stmts@)),
            stmts_view(stmts@),
        ),
{
    let mut env = VariantEnv(NameMap::new());
    add_stmt_variants(&mut env, seed_stmts);
    add_stmt_variants(&mut env, stmts);
    env
}

} // verus!
