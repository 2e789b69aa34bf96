//! What is known while a program is checked: its declarations, the types found
//! so far, and what has been learned of each node.

use std::collections::HashSet;
use vstd::prelude::*;

use crate::apply::apply;
use crate::ast::{NO_NODE_ID, NodeId, ResolvedCallee, SourceSpan, SyntaxCaptureInfo, TraitDef};
use crate::ast::Type;
use crate::ast_copy::clone_syntax_capture;
use crate::ast_view::{ResolvedCalleeV, SyntaxCaptureV, TraitDefV, TypeV};
use crate::dicts::KnownV;
use crate::env::{EnvV, VariantEnv, VariantsV};
use crate::subst::{after_fresh, apply_scheme_view, ROOT_LEVEL, Subst, SubstV, TypeLevel};
use crate::tables::{Dup, NameMap, NameSet, NodeMap, SpanMap};
use crate::text::{clone_strings, strings_view};
use crate::ty::{clone_capabilities, constraints_view, return_view, tys_view};
use crate::ty::{BindingCapabilities, CallableCapabilities, ConstraintV, FuncReturn};
use crate::ty::{InherentMethodScheme, ParamCapability, ReturnV, Scheme, SchemeV};
use crate::ty::{TraitConstraint, Ty, TyV, TyVar};
use crate::type_syntax::{inherent_dict_name, inherent_impl_dict_name};
use crate::vars::list_vars;

verus! {

broadcast use vstd::std_specs::hash::group_hash_axioms;

impl Dup for Ty {
    fn dup(&self) -> (r: Self) {
        self.clone()
    }
}

impl Dup for Scheme {
    fn dup(&self) -> (r: Self) {
        self.clone()
    }
}

impl View for CallableCapabilities {
    type V = Seq<ParamCapability>;

    open spec fn view(&self) -> Seq<ParamCapability> {
        self.param_capabilities@
    }
}

impl Dup for CallableCapabilities {
    fn dup(&self) -> (r: Self) {
        self.clone()
    }
}

impl View for BindingCapabilities {
    type V = bool;

    open spec fn view(&self) -> bool {
        self.place_mutable
    }
}

impl Dup for BindingCapabilities {
    fn dup(&self) -> (r: Self) {
        BindingCapabilities { place_mutable: self.place_mutable }
    }
}

impl Dup for SyntaxCaptureInfo {
    fn dup(&self) -> (r: Self) {
        clone_syntax_capture(self)
    }
}

/// The scheme of an inherent method, and whether it has a receiver.
pub struct InherentSchemeV {
    pub scheme: SchemeV,
    pub has_receiver: bool,
}

impl View for InherentMethodScheme {
    type V = InherentSchemeV;

    open spec fn view(&self) -> InherentSchemeV {
        InherentSchemeV { scheme: self.scheme@, has_receiver: self.has_receiver }
    }
}

/// What is known of an inherent method.
#[derive(Debug)]
pub struct InherentMethodInfo {
    pub scheme: Scheme,
    pub resolved_callee: ResolvedCallee,
    pub has_receiver: bool,
}

/// The view of an [`InherentMethodInfo`].
pub struct MethodInfoV {
    pub scheme: SchemeV,
    pub resolved_callee: ResolvedCalleeV,
    pub has_receiver: bool,
}

impl View for InherentMethodInfo {
    type V = MethodInfoV;

    open spec fn view(&self) -> MethodInfoV {
        MethodInfoV {
            scheme: self.scheme@,
            resolved_callee: self.resolved_callee@,
            has_receiver: self.has_receiver,
        }
    }
}

impl Clone for InherentMethodInfo {
    fn clone(&self) -> (r: Self)
        ensures
            r@ == self@,
    {
        InherentMethodInfo {
            scheme: self.scheme.clone(),
            resolved_callee: self.resolved_callee.clone(),
            has_receiver: self.has_receiver,
        }
    }
}

impl Dup for InherentMethodInfo {
    fn dup(&self) -> (r: Self) {
        self.clone()
    }
}

/// What a type alias stands for.
#[derive(Debug)]
pub struct Alias {
    pub params: Vec<String>,
    pub ty: Type,
}

/// The view of an [`Alias`].
pub struct AliasV {
    pub params: Seq<Seq<char>>,
    pub ty: TypeV,
}

impl View for Alias {
    type V = AliasV;

    open spec fn view(&self) -> AliasV {
        AliasV { params: strings_view(self.params@), ty: self.ty@ }
    }
}

impl Clone for Alias {
    fn clone(&self) -> (r: Self)
        ensures
            r@ == self@,
    {
        Alias { params: clone_strings(&self.params), ty: self.ty.clone() }
    }
}

// ---------------------------------------------------------------------------
// Metadata
// ---------------------------------------------------------------------------

/// What has been learned of nodes and source positions.
#[derive(Debug)]
pub struct TypeMetadata {
    pub expr_types: NodeMap<Ty>,
    pub symbol_types: NodeMap<Ty>,
    pub binding_types: SpanMap<Ty>,
    pub definition_schemes: SpanMap<Scheme>,
    pub binding_capabilities: SpanMap<BindingCapabilities>,
    pub syntax_captures: SpanMap<SyntaxCaptureInfo>,
    pub callable_capabilities: NodeMap<CallableCapabilities>,
    pub fresh_place_exprs: HashSet<NodeId>,
}

/// The view of [`TypeMetadata`].
#[verifier::ext_equal]
pub struct MetaV {
    pub expr_types: Map<NodeId, TyV>,
    pub symbol_types: Map<NodeId, TyV>,
    pub binding_types: Map<SourceSpan, TyV>,
    pub definition_schemes: Map<SourceSpan, SchemeV>,
    pub binding_capabilities: Map<SourceSpan, bool>,
    pub syntax_captures: Map<SourceSpan, SyntaxCaptureV>,
    pub callable_capabilities: Map<NodeId, Seq<ParamCapability>>,
    pub fresh_places: Set<NodeId>,
}

impl View for TypeMetadata {
    type V = MetaV;

    open spec fn view(&self) -> MetaV {
        MetaV {
            expr_types: self.expr_types@,
            symbol_types: self.symbol_types@,
            binding_types: self.binding_types@,
            definition_schemes: self.definition_schemes@,
            binding_capabilities: self.binding_capabilities@,
            syntax_captures: self.syntax_captures@,
            callable_capabilities: self.callable_capabilities@,
            fresh_places: self.fresh_place_exprs@,
        }
    }
}

/// Nothing has been learned.
pub open spec fn no_meta() -> MetaV {
    MetaV {
        expr_types: Map::empty(),
        symbol_types: Map::empty(),
        binding_types: Map::empty(),
        definition_schemes: Map::empty(),
        binding_capabilities: Map::empty(),
        syntax_captures: Map::empty(),
        callable_capabilities: Map::empty(),
        fresh_places: Set::empty(),
    }
}

/// `m` with `ty` as the type of the node `id`, unless the node has no number.
pub open spec fn with_expr_type(m: MetaV, id: NodeId, ty: TyV) -> MetaV {
    if id == NO_NODE_ID {
        m
    } else {
        MetaV { expr_types: m.expr_types.insert(id, ty), ..m }
    }
}

pub open spec fn with_symbol_type(m: MetaV, id: NodeId, ty: TyV) -> MetaV {
    if id == NO_NODE_ID {
        m
    } else {
        MetaV { symbol_types: m.symbol_types.insert(id, ty), ..m }
    }
}

pub open spec fn with_callable(m: MetaV, id: NodeId, caps: Seq<ParamCapability>) -> MetaV {
    if id == NO_NODE_ID {
        m
    } else {
        MetaV { callable_capabilities: m.callable_capabilities.insert(id, caps), ..m }
    }
}

pub open spec fn with_fresh_place(m: MetaV, id: NodeId) -> MetaV {
    if id == NO_NODE_ID {
        m
    } else {
        MetaV { fresh_places: m.fresh_places.insert(id), ..m }
    }
}

pub open spec fn callable_at(m: MetaV, id: NodeId) -> Seq<ParamCapability> {
    if m.callable_capabilities.dom().contains(id) {
        m.callable_capabilities[id]
    } else {
        Seq::empty()
    }
}

/// Each type with the substitution applied.
pub open spec fn applied_types<K>(m: Map<K, TyV>, s: Map<TyVar, TyV>) -> Map<K, TyV> {
    Map::new(|k: K| m.dom().contains(k), |k: K| apply(s, m[k]))
}

/// Each scheme with the substitution applied.
pub open spec fn applied_schemes<K>(m: Map<K, SchemeV>, s: Map<TyVar, TyV>) -> Map<K, SchemeV> {
    Map::new(|k: K| m.dom().contains(k), |k: K| apply_scheme_view(s, m[k]))
}

/// `m` with the substitution applied to all types.
pub open spec fn finalized(m: MetaV, s: Map<TyVar, TyV>) -> MetaV {
    MetaV {
        expr_types: applied_types(m.expr_types, s),
        symbol_types: applied_types(m.symbol_types, s),
        binding_types: applied_types(m.binding_types, s),
        definition_schemes: applied_schemes(m.definition_schemes, s),
        ..m
    }
}

/// The keys that metadata is known for.
#[derive(Debug)]
pub struct TypeMetadataSnapshot {
    pub expr_types: Vec<NodeId>,
    pub symbol_types: Vec<NodeId>,
    pub binding_types: Vec<SourceSpan>,
    pub definition_schemes: Vec<SourceSpan>,
    pub binding_capabilities: Vec<SourceSpan>,
    pub syntax_captures: Vec<SourceSpan>,
    pub callable_capabilities: Vec<NodeId>,
    pub fresh_place_exprs: Vec<NodeId>,
}

/// The view of a [`TypeMetadataSnapshot`].
#[verifier::ext_equal]
pub struct MetaKeysV {
    pub expr_types: Set<NodeId>,
    pub symbol_types: Set<NodeId>,
    pub binding_types: Set<SourceSpan>,
    pub definition_schemes: Set<SourceSpan>,
    pub binding_capabilities: Set<SourceSpan>,
    pub syntax_captures: Set<SourceSpan>,
    pub callable_capabilities: Set<NodeId>,
    pub fresh_places: Set<NodeId>,
}

impl View for TypeMetadataSnapshot {
    type V = MetaKeysV;

    open spec fn view(&self) -> MetaKeysV {
        MetaKeysV {
            expr_types: self.expr_types@.to_set(),
            symbol_types: self.symbol_types@.to_set(),
            binding_types: self.binding_types@.to_set(),
            definition_schemes: self.definition_schemes@.to_set(),
            binding_capabilities: self.binding_capabilities@.to_set(),
            syntax_captures: self.syntax_captures@.to_set(),
            callable_capabilities: self.callable_capabilities@.to_set(),
            fresh_places: self.fresh_place_exprs@.to_set(),
        }
    }
}

/// The keys that `m` has something for.
pub open spec fn meta_keys(m: MetaV) -> MetaKeysV {
    MetaKeysV {
        expr_types: m.expr_types.dom(),
        symbol_types: m.symbol_types.dom(),
        binding_types: m.binding_types.dom(),
        definition_schemes: m.definition_schemes.dom(),
        binding_capabilities: m.binding_capabilities.dom(),
        syntax_captures: m.syntax_captures.dom(),
        callable_capabilities: m.callable_capabilities.dom(),
        fresh_places: m.fresh_places,
    }
}

/// What of `m` stands under `keys`.
pub open spec fn restored(m: MetaV, keys: MetaKeysV) -> MetaV {
    MetaV {
        expr_types: m.expr_types.restrict(keys.expr_types),
        symbol_types: m.symbol_types.restrict(keys.symbol_types),
        binding_types: m.binding_types.restrict(keys.binding_types),
        definition_schemes: m.definition_schemes.restrict(keys.definition_schemes),
        binding_capabilities: m.binding_capabilities.restrict(keys.binding_capabilities),
        syntax_captures: m.syntax_captures.restrict(keys.syntax_captures),
        callable_capabilities: m.callable_capabilities.restrict(keys.callable_capabilities),
        fresh_places: m.fresh_places.intersect(keys.fresh_places),
    }
}

/// What a failed statement learned of symbols and callables.
#[derive(Debug)]
pub struct FailedStatementMetadata {
    pub symbol_types: NodeMap<Ty>,
    pub callable_capabilities: NodeMap<CallableCapabilities>,
}

/// The view of [`FailedStatementMetadata`].
#[verifier::ext_equal]
pub struct FailedMetaV {
    pub symbol_types: Map<NodeId, TyV>,
    pub callable_capabilities: Map<NodeId, Seq<ParamCapability>>,
}

impl View for FailedStatementMetadata {
    type V = FailedMetaV;

    open spec fn view(&self) -> FailedMetaV {
        FailedMetaV {
            symbol_types: self.symbol_types@,
            callable_capabilities: self.callable_capabilities@,
        }
    }
}

/// What `m` has of symbols and callables beyond `keys`.
pub open spec fn added_after(m: MetaV, keys: MetaKeysV, s: Map<TyVar, TyV>) -> FailedMetaV {
    FailedMetaV {
        symbol_types: applied_types(m.symbol_types, s).remove_keys(keys.symbol_types),
        callable_capabilities: m.callable_capabilities.remove_keys(keys.callable_capabilities),
    }
}

/// `m` and what a failed statement learned.
pub open spec fn extended(m: MetaV, failed: FailedMetaV) -> MetaV {
    MetaV {
        symbol_types: m.symbol_types.union_prefer_right(failed.symbol_types),
        callable_capabilities: m.callable_capabilities.union_prefer_right(
            failed.callable_capabilities,
        ),
        ..m
    }
}

fn insert_all_types(m: &mut NodeMap<Ty>, from: &NodeMap<Ty>)
    ensures
        final(m)@ == old(m)@.union_prefer_right(from@),
{
    let keys = from.nodes();
    let ghost start = m@;
    let mut i: usize = 0;
    while i < keys.len()
        invariant
            i <= keys.len(),
            start == old(m)@,
            forall|k: NodeId| #[trigger] keys@.contains(k) <==> from@.dom().contains(k),
            forall|k: NodeId| #[trigger]
                m@.dom().contains(k) <==> start.dom().contains(k) || keys@.take(
                    i as int,
                ).contains(k),
            forall|k: NodeId| #[trigger]
                m@.dom().contains(k) ==> m@[k] == (if keys@.take(i as int).contains(k) {
                    from@[k]
                } else {
                    start[k]
                }),
        decreases keys.len() - i,
    {
        let ghost before = m@;
        let key = keys[i];
        proof {
            assert(keys@.contains(keys@[i as int]));
            assert(keys@.take(i + 1) =~= keys@.take(i as int).push(key));
        }
        if let Some(ty) = from.get(&key) {
            m.insert(key, ty.clone());
        }
        proof {
            assert forall|k: NodeId|
                #[trigger] keys@.take(i + 1).contains(k) <==> keys@.take(i as int).contains(k) || k == key by {
                crate::tables::lemma_push_contains(keys@.take(i as int), key, k);
            }
        }
        i = i + 1;
    }
    assert(keys@.take(keys@.len() as int) =~= keys@);
    assert(m@ =~= start.union_prefer_right(from@));
}

fn insert_all_callables(m: &mut NodeMap<CallableCapabilities>, from: &NodeMap<CallableCapabilities>)
    ensures
        final(m)@ == old(m)@.union_prefer_right(from@),
{
    let keys = from.nodes();
    let ghost start = m@;
    let mut i: usize = 0;
    while i < keys.len()
        invariant
            i <= keys.len(),
            start == old(m)@,
            forall|k: NodeId| #[trigger] keys@.contains(k) <==> from@.dom().contains(k),
            forall|k: NodeId| #[trigger]
                m@.dom().contains(k) <==> start.dom().contains(k) || keys@.take(
                    i as int,
                ).contains(k),
            forall|k: NodeId| #[trigger]
                m@.dom().contains(k) ==> m@[k] == (if keys@.take(i as int).contains(k) {
                    from@[k]
                } else {
                    start[k]
                }),
        decreases keys.len() - i,
    {
        let key = keys[i];
        proof {
            assert(keys@.contains(keys@[i as int]));
            assert(keys@.take(i + 1) =~= keys@.take(i as int).push(key));
        }
        if let Some(caps) = from.get(&key) {
            m.insert(key, caps.clone());
        }
        proof {
            assert forall|k: NodeId|
                #[trigger] keys@.take(i + 1).contains(k) <==> keys@.take(i as int).contains(k) || k == key by {
                crate::tables::lemma_push_contains(keys@.take(i as int), key, k);
            }
        }
        i = i + 1;
    }
    assert(keys@.take(keys@.len() as int) =~= keys@);
    assert(m@ =~= start.union_prefer_right(from@));
}

fn apply_to_nodes(m: &NodeMap<Ty>, s: &Subst) -> (r: NodeMap<Ty>)
    requires
        s.wf(),
    ensures
        r@ == applied_types(m@, s@.map),
{
    let keys = m.nodes();
    let mut out: NodeMap<Ty> = NodeMap::new();
    let mut i: usize = 0;
    while i < keys.len()
        invariant
            i <= keys.len(),
            s.wf(),
            forall|k: NodeId| #[trigger] keys@.contains(k) <==> m@.dom().contains(k),
            forall|k: NodeId| #[trigger]
                out@.dom().contains(k) <==> keys@.take(i as int).contains(k),
            forall|k: NodeId| #[trigger]
                out@.dom().contains(k) ==> out@[k] == apply(s@.map, m@[k]),
        decreases keys.len() - i,
    {
        let key = keys[i];
        proof {
            assert(keys@.contains(keys@[i as int]));
            assert(keys@.take(i + 1) =~= keys@.take(i as int).push(key));
        }
        if let Some(x) = m.get(&key) {
            out.insert(key, s.apply(x));
        }
        proof {
            assert forall|k: NodeId|
                #[trigger] keys@.take(i + 1).contains(k) <==> keys@.take(i as int).contains(k) || k == key by {
                crate::tables::lemma_push_contains(keys@.take(i as int), key, k);
            }
        }
        i = i + 1;
    }
    assert(keys@.take(keys@.len() as int) =~= keys@);
    assert(out@ =~= applied_types(m@, s@.map));
    out
}

fn apply_to_spans(m: &SpanMap<Ty>, s: &Subst) -> (r: SpanMap<Ty>)
    requires
        s.wf(),
    ensures
        r@ == applied_types(m@, s@.map),
{
    let keys = m.spans();
    let mut out: SpanMap<Ty> = SpanMap::new();
    let mut i: usize = 0;
    while i < keys.len()
        invariant
            i <= keys.len(),
            s.wf(),
            forall|k: SourceSpan| #[trigger] keys@.contains(k) <==> m@.dom().contains(k),
            forall|k: SourceSpan| #[trigger]
                out@.dom().contains(k) <==> keys@.take(i as int).contains(k),
            forall|k: SourceSpan| #[trigger]
                out@.dom().contains(k) ==> out@[k] == apply(s@.map, m@[k]),
        decreases keys.len() - i,
    {
        let key = keys[i];
        proof {
            assert(keys@.contains(keys@[i as int]));
            assert(keys@.take(i + 1) =~= keys@.take(i as int).push(key));
        }
        if let Some(x) = m.get(&key) {
            out.insert(key, s.apply(x));
        }
        proof {
            assert forall|k: SourceSpan|
                #[trigger] keys@.take(i + 1).contains(k) <==> keys@.take(i as int).contains(k) || k == key by {
                crate::tables::lemma_push_contains(keys@.take(i as int), key, k);
            }
        }
        i = i + 1;
    }
    assert(keys@.take(keys@.len() as int) =~= keys@);
    assert(out@ =~= applied_types(m@, s@.map));
    out
}

fn apply_to_schemes(m: &SpanMap<Scheme>, s: &Subst) -> (r: SpanMap<Scheme>)
    requires
        s.wf(),
    ensures
        r@ == applied_schemes(m@, s@.map),
{
    let keys = m.spans();
    let mut out: SpanMap<Scheme> = SpanMap::new();
    let mut i: usize = 0;
    while i < keys.len()
        invariant
            i <= keys.len(),
            s.wf(),
            forall|k: SourceSpan| #[trigger] keys@.contains(k) <==> m@.dom().contains(k),
            forall|k: SourceSpan| #[trigger]
                out@.dom().contains(k) <==> keys@.take(i as int).contains(k),
            forall|k: SourceSpan| #[trigger]
                out@.dom().contains(k) ==> out@[k] == apply_scheme_view(s@.map, m@[k]),
        decreases keys.len() - i,
    {
        let key = keys[i];
        proof {
            assert(keys@.contains(keys@[i as int]));
            assert(keys@.take(i + 1) =~= keys@.take(i as int).push(key));
        }
        if let Some(x) = m.get(&key) {
            out.insert(key, s.apply_scheme(x));
        }
        proof {
            assert forall|k: SourceSpan|
                #[trigger] keys@.take(i + 1).contains(k) <==> keys@.take(i as int).contains(k) || k == key by {
                crate::tables::lemma_push_contains(keys@.take(i as int), key, k);
            }
        }
        i = i + 1;
    }
    assert(keys@.take(keys@.len() as int) =~= keys@);
    assert(out@ =~= applied_schemes(m@, s@.map));
    out
}

/// Whether a list of keys is what `want` says.
proof fn lemma_key_list<K>(keys: Seq<K>, want: Set<K>)
    requires
        forall|k: K| #[trigger] keys.contains(k) <==> want.contains(k),
    ensures
        keys.to_set() == want,
{
    assert(keys.to_set() =~= want);
}

impl TypeMetadata {
    pub fn new() -> (r: Self)
        ensures
            r@ == no_meta(),
    {
        let r = TypeMetadata {
            expr_types: NodeMap::new(),
            symbol_types: NodeMap::new(),
            binding_types: SpanMap::new(),
            definition_schemes: SpanMap::new(),
            binding_capabilities: SpanMap::new(),
            syntax_captures: SpanMap::new(),
            callable_capabilities: NodeMap::new(),
            fresh_place_exprs: HashSet::new(),
        };
        assert(r@ =~= no_meta());
        r
    }

    pub fn record_expr_type(&mut self, id: NodeId, ty: Ty)
        ensures
            final(self)@ == with_expr_type(old(self)@, id, ty@),
    {
        if id != NO_NODE_ID {
            self.expr_types.insert(id, ty);
        }
    }

    pub fn record_symbol_type(&mut self, id: NodeId, ty: Ty)
        ensures
            final(self)@ == with_symbol_type(old(self)@, id, ty@),
    {
        if id != NO_NODE_ID {
            self.symbol_types.insert(id, ty);
        }
    }

    pub fn record_binding_type(&mut self, span: SourceSpan, ty: Ty)
        ensures
            final(self)@ == (MetaV {
                binding_types: old(self)@.binding_types.insert(span, ty@),
                ..old(self)@
            }),
    {
        self.binding_types.insert(span, ty);
    }

    pub fn record_definition_scheme(&mut self, span: SourceSpan, scheme: Scheme)
        ensures
            final(self)@ == (MetaV {
                definition_schemes: old(self)@.definition_schemes.insert(span, scheme@),
                ..old(self)@
            }),
    {
        self.definition_schemes.insert(span, scheme);
    }

    pub fn record_binding_capability(&mut self, span: SourceSpan, capability: BindingCapabilities)
        ensures
            final(self)@ == (MetaV {
                binding_capabilities: old(self)@.binding_capabilities.insert(span, capability@),
                ..old(self)@
            }),
    {
        self.binding_capabilities.insert(span, capability);
    }

    pub fn record_syntax_capture(&mut self, capture: SyntaxCaptureInfo)
        ensures
            final(self)@ == (MetaV {
                syntax_captures: old(self)@.syntax_captures.insert(capture.span, capture@),
                ..old(self)@
            }),
    {
        let span = capture.span;
        self.syntax_captures.insert(span, capture);
    }

    pub fn record_callable_capabilities(&mut self, id: NodeId, caps: Vec<ParamCapability>)
        ensures
            final(self)@ == with_callable(old(self)@, id, caps@),
    {
        if id != NO_NODE_ID {
            self.callable_capabilities.insert(id, CallableCapabilities { param_capabilities: caps });
        }
    }

    pub fn callable_capabilities_for(&self, id: NodeId) -> (r: Vec<ParamCapability>)
        ensures
            r@ == callable_at(self@, id),
    {
        match self.callable_capabilities.get(&id) {
            Some(caps) => clone_capabilities(&caps.param_capabilities),
            None => Vec::new(),
        }
    }

    pub fn mark_fresh_place(&mut self, id: NodeId)
        ensures
            final(self)@ == with_fresh_place(old(self)@, id),
    {
        if id != NO_NODE_ID {
            self.fresh_place_exprs.insert(id);
        }
    }

    pub fn is_fresh_place_expr(&self, id: NodeId) -> (r: bool)
        ensures
            r == self@.fresh_places.contains(id),
    {
        self.fresh_place_exprs.contains(&id)
    }

    /// Adds what a failed statement learned.
    pub fn extend_failed_statement(&mut self, failed: FailedStatementMetadata)
        ensures
            final(self)@ == extended(old(self)@, failed@),
    {
        insert_all_types(&mut self.symbol_types, &failed.symbol_types);
        insert_all_callables(&mut self.callable_capabilities, &failed.callable_capabilities);
    }

    /// The metadata with the substitution applied to all types.
    pub fn finalize(&self, s: &Subst) -> (r: TypeMetadata)
        requires
            s.wf(),
        ensures
            r@ == finalized(self@, s@.map),
    {
        TypeMetadata {
            expr_types: apply_to_nodes(&self.expr_types, s),
            symbol_types: apply_to_nodes(&self.symbol_types, s),
            binding_types: apply_to_spans(&self.binding_types, s),
            definition_schemes: apply_to_schemes(&self.definition_schemes, s),
            binding_capabilities: self.binding_capabilities.clone(),
            syntax_captures: self.syntax_captures.clone(),
            callable_capabilities: self.callable_capabilities.clone(),
            fresh_place_exprs: copy_nodes(&self.fresh_place_exprs),
        }
    }

    /// The keys that something is known for.
    pub fn snapshot(&self) -> (r: TypeMetadataSnapshot)
        ensures
            r@ == meta_keys(self@),
    {
        let r = TypeMetadataSnapshot {
            expr_types: self.expr_types.nodes(),
            symbol_types: self.symbol_types.nodes(),
            binding_types: self.binding_types.spans(),
            definition_schemes: self.definition_schemes.spans(),
            binding_capabilities: self.binding_capabilities.spans(),
            syntax_captures: self.syntax_captures.spans(),
            callable_capabilities: self.callable_capabilities.nodes(),
            fresh_place_exprs: list_vars(&self.fresh_place_exprs),
        };
        proof {
            lemma_key_list(r.expr_types@, self@.expr_types.dom());
            lemma_key_list(r.symbol_types@, self@.symbol_types.dom());
            lemma_key_list(r.binding_types@, self@.binding_types.dom());
            lemma_key_list(r.definition_schemes@, self@.definition_schemes.dom());
            lemma_key_list(r.binding_capabilities@, self@.binding_capabilities.dom());
            lemma_key_list(r.syntax_captures@, self@.syntax_captures.dom());
            lemma_key_list(r.callable_capabilities@, self@.callable_capabilities.dom());
            lemma_key_list(r.fresh_place_exprs@, self@.fresh_places);
        }
        r
    }

    /// What has been learned of symbols and callables since the snapshot.
    pub fn metadata_added_after(&self, snapshot: &TypeMetadataSnapshot, s: &Subst) -> (r:
        FailedStatementMetadata)
        requires
            s.wf(),
        ensures
            r@ == added_after(self@, snapshot@, s@.map),
    {
        let mut symbol_types = apply_to_nodes(&self.symbol_types, s);
        let mut callable_capabilities = self.callable_capabilities.clone();
        let symbols = symbol_types.nodes();
        let callables = callable_capabilities.nodes();
        let new_symbols = nodes_beyond(&symbols, &snapshot.symbol_types);
        let new_callables = nodes_beyond(&callables, &snapshot.callable_capabilities);
        let ghost all_symbols = symbol_types@;
        let ghost all_callables = callable_capabilities@;
        symbol_types.retain_keys(&new_symbols);
        callable_capabilities.retain_keys(&new_callables);
        let r = FailedStatementMetadata { symbol_types, callable_capabilities };
        proof {
            assert forall|k: NodeId| #[trigger]
                r@.symbol_types.dom().contains(k) <==> all_symbols.dom().contains(k)
                    && !snapshot@.symbol_types.contains(k) by {
                assert(symbols@.contains(k) <==> all_symbols.dom().contains(k));
                assert(new_symbols@.contains(k) <==> symbols@.contains(k)
                    && !snapshot.symbol_types@.contains(k));
            }
            assert forall|k: NodeId| #[trigger]
                r@.callable_capabilities.dom().contains(k) <==> all_callables.dom().contains(k)
                    && !snapshot@.callable_capabilities.contains(k) by {
                assert(callables@.contains(k) <==> all_callables.dom().contains(k));
                assert(new_callables@.contains(k) <==> callables@.contains(k)
                    && !snapshot.callable_capabilities@.contains(k));
            }
            assert(r@.symbol_types =~= added_after(self@, snapshot@, s@.map).symbol_types);
            assert(r@.callable_capabilities =~= added_after(
                self@,
                snapshot@,
                s@.map,
            ).callable_capabilities);
        }
        r
    }

    /// Forgets what has been learned of anything new since the snapshot.
    pub fn restore(&mut self, snapshot: &TypeMetadataSnapshot)
        ensures
            final(self)@ == restored(old(self)@, snapshot@),
    {
        self.expr_types.retain_keys(&snapshot.expr_types);
        self.symbol_types.retain_keys(&snapshot.symbol_types);
        self.binding_types.retain_keys(&snapshot.binding_types);
        self.definition_schemes.retain_keys(&snapshot.definition_schemes);
        self.binding_capabilities.retain_keys(&snapshot.binding_capabilities);
        self.syntax_captures.retain_keys(&snapshot.syntax_captures);
        self.callable_capabilities.retain_keys(&snapshot.callable_capabilities);
        let ghost before = self.fresh_place_exprs@;
        let mut kept: HashSet<NodeId> = HashSet::new();
        let mut i: usize = 0;
        let keys = &snapshot.fresh_place_exprs;
        while i < keys.len()
            invariant
                i <= keys.len(),
                before == self.fresh_place_exprs@,
                forall|k: NodeId| #[trigger]
                    kept@.contains(k) <==> before.contains(k) && keys@.take(i as int).contains(k),
            decreases keys.len() - i,
        {
            let key = keys[i];
            proof {
                assert(keys@.take(i + 1) =~= keys@.take(i as int).push(key));
                assert forall|k: NodeId|
                    #[trigger] keys@.take(i + 1).contains(k) <==> keys@.take(i as int).contains(k) || k
                        == key by {
                    crate::tables::lemma_push_contains(keys@.take(i as int), key, k);
                }
            }
            if self.fresh_place_exprs.contains(&key) {
                kept.insert(key);
            }
            i = i + 1;
        }
        proof {
            assert(keys@.take(keys@.len() as int) =~= keys@);
            assert(kept@ =~= before.intersect(snapshot@.fresh_places));
        }
        self.fresh_place_exprs = kept;
    }
}

fn copy_nodes(nodes: &HashSet<NodeId>) -> (r: HashSet<NodeId>)
    ensures
        r@ == nodes@,
{
    let keys = list_vars(nodes);
    let mut out: HashSet<NodeId> = HashSet::new();
    let mut i: usize = 0;
    while i < keys.len()
        invariant
            i <= keys.len(),
            forall|k: NodeId| #[trigger] keys@.contains(k) <==> nodes@.contains(k),
            forall|k: NodeId| #[trigger] out@.contains(k) <==> keys@.take(i as int).contains(k),
        decreases keys.len() - i,
    {
        let key = keys[i];
        proof {
            assert(keys@.take(i + 1) =~= keys@.take(i as int).push(key));
            assert forall|k: NodeId|
                #[trigger] keys@.take(i + 1).contains(k) <==> keys@.take(i as int).contains(k) || k == key by {
                crate::tables::lemma_push_contains(keys@.take(i as int), key, k);
            }
        }
        out.insert(key);
        i = i + 1;
    }
    assert(keys@.take(keys@.len() as int) =~= keys@);
    assert(out@ =~= nodes@);
    out
}

fn nodes_beyond(keys: &Vec<NodeId>, known: &Vec<NodeId>) -> (r: Vec<NodeId>)
    ensures
        forall|k: NodeId| #[trigger]
            r@.contains(k) <==> keys@.contains(k) && !known@.contains(k),
{
    let mut out: Vec<NodeId> = Vec::new();
    let mut i: usize = 0;
    while i < keys.len()
        invariant
            i <= keys.len(),
            forall|k: NodeId| #[trigger]
                out@.contains(k) <==> keys@.take(i as int).contains(k) && !known@.contains(k),
        decreases keys.len() - i,
    {
        let ghost before = out@;
        let key = keys[i];
        assert(keys@.take(i + 1) =~= keys@.take(i as int).push(key));
        let known_key = crate::vars::contains_var(known, key);
        if !known_key {
            out.push(key);
        }
        proof {
            assert forall|k: NodeId| #[trigger]
                out@.contains(k) <==> keys@.take(i + 1).contains(k) && !known@.contains(k) by {
                crate::tables::lemma_push_contains(keys@.take(i as int), key, k);
                crate::tables::lemma_push_contains(before, key, k);
                assert(before.contains(k) <==> keys@.take(i as int).contains(k)
                    && !known@.contains(k));
            }
        }
        i = i + 1;
    }
    assert(keys@.take(keys@.len() as int) =~= keys@);
    out
}

// ---------------------------------------------------------------------------
// The state
// ---------------------------------------------------------------------------

/// The traits in scope, and which of them declares an operator.
#[derive(Debug)]
pub struct TraitScope {
    pub env: NameMap<TraitDef>,
    pub op_trait_map: NameMap<String>,
    pub scoped_env: NameMap<TraitDef>,
    pub scoped_op_trait_map: NameMap<String>,
}

/// The types in scope.
#[derive(Debug)]
pub struct TypeScope {
    pub variant_env: VariantEnv,
    pub aliases: NameMap<Alias>,
    pub declared: NameSet,
    pub scoped_declared: NameSet,
    pub constructor_arities: NameMap<usize>,
}

/// What other modules give.
#[derive(Debug)]
pub struct ImportScope {
    pub types: NameMap<Ty>,
    pub schemes: NameMap<NameMap<Scheme>>,
    pub bindings: NameMap<String>,
}

/// The methods of types, and the fields of records that are called.
#[derive(Debug)]
pub struct InherentScope {
    pub methods: NameMap<NameMap<InherentMethodInfo>>,
    pub scoped_methods: NameMap<NameMap<InherentMethodInfo>>,
    pub record_field_callables: NameMap<NameMap<CallableCapabilities>>,
}

/// The implementations in scope.
#[derive(Debug)]
pub struct ImplScope {
    pub active_dicts: NameSet,
    pub scoped_dicts: NameSet,
    pub known_schemes: NameMap<Scheme>,
}

/// The loops and functions around.
#[derive(Debug)]
pub struct FlowState {
    pub loop_break_tys: Vec<Ty>,
    pub fn_return_tys: Vec<FuncReturn>,
}

/// The constraints that are not settled yet.
#[derive(Debug)]
pub struct ConstraintState {
    pub pending: Vec<TraitConstraint>,
}

/// What is known while a program is checked.
pub struct Infer {
    pub subst: Subst,
    pub traits: TraitScope,
    pub types: TypeScope,
    pub imports: ImportScope,
    pub inherent: InherentScope,
    pub impls: ImplScope,
    pub flow: FlowState,
    pub constraints: ConstraintState,
    pub metadata: TypeMetadata,
    pub current_level: TypeLevel,
}

/// Methods by name.
pub type MethodsV = Map<Seq<char>, MethodInfoV>;

/// The view of [`Infer`].
pub struct InferV {
    pub subst: SubstV,
    pub traits: Map<Seq<char>, TraitDefV>,
    pub op_traits: Map<Seq<char>, Seq<char>>,
    pub scoped_traits: Map<Seq<char>, TraitDefV>,
    pub scoped_op_traits: Map<Seq<char>, Seq<char>>,
    pub variants: VariantsV,
    pub aliases: Map<Seq<char>, AliasV>,
    pub declared: Set<Seq<char>>,
    pub scoped_declared: Set<Seq<char>>,
    pub arities: Map<Seq<char>, usize>,
    pub import_types: Map<Seq<char>, TyV>,
    pub import_schemes: Map<Seq<char>, Map<Seq<char>, SchemeV>>,
    pub import_bindings: Map<Seq<char>, Seq<char>>,
    pub methods: Map<Seq<char>, MethodsV>,
    pub scoped_methods: Map<Seq<char>, MethodsV>,
    pub field_callables: Map<Seq<char>, Map<Seq<char>, Seq<ParamCapability>>>,
    pub dicts: Set<Seq<char>>,
    pub scoped_dicts: Set<Seq<char>>,
    pub schemes: Map<Seq<char>, SchemeV>,
    pub break_tys: Seq<TyV>,
    pub return_tys: Seq<ReturnV>,
    pub pending: Seq<ConstraintV>,
    pub meta: MetaV,
    pub level: TypeLevel,
}

/// The views of results of functions.
pub open spec fn returns_view(s: Seq<FuncReturn>) -> Seq<ReturnV> {
    Seq::new(s.len(), |i: int| return_view(s[i]))
}

impl View for Infer {
    type V = InferV;

    open spec fn view(&self) -> InferV {
        InferV {
            subst: self.subst@,
            traits: self.traits.env@,
            op_traits: self.traits.op_trait_map@,
            scoped_traits: self.traits.scoped_env@,
            scoped_op_traits: self.traits.scoped_op_trait_map@,
            variants: self.types.variant_env@,
            aliases: self.types.aliases@,
            declared: self.types.declared@,
            scoped_declared: self.types.scoped_declared@,
            arities: self.types.constructor_arities@,
            import_types: self.imports.types@,
            import_schemes: self.imports.schemes@,
            import_bindings: self.imports.bindings@,
            methods: self.inherent.methods@,
            scoped_methods: self.inherent.scoped_methods@,
            field_callables: self.inherent.record_field_callables@,
            dicts: self.impls.active_dicts@,
            scoped_dicts: self.impls.scoped_dicts@,
            schemes: self.impls.known_schemes@,
            break_tys: tys_view(self.flow.loop_break_tys@),
            return_tys: returns_view(self.flow.fn_return_tys@),
            pending: constraints_view(self.constraints.pending@),
            meta: self.metadata@,
            level: self.current_level,
        }
    }
}

/// What is known of implementations.
pub open spec fn known_of(st: InferV, env: EnvV) -> KnownV {
    KnownV { env, dicts: st.dicts, schemes: st.schemes }
}

/// The state after a fresh variable was taken.
pub open spec fn fresh(st: InferV) -> InferV {
    InferV { subst: after_fresh(st.subst, st.level), ..st }
}

/// The fresh variable that is taken next.
pub open spec fn next_var(st: InferV) -> TyVar {
    st.subst.next_var
}

/// What the implementations given by other modules say of methods.
pub open spec fn method_infos(
    dict: Seq<char>,
    given: Map<Seq<char>, InherentSchemeV>,
) -> MethodsV {
    Map::new(
        |n: Seq<char>| given.dom().contains(n),
        |n: Seq<char>| method_info(dict, n, given[n]),
    )
}

/// What is known of a method of an implementation.
pub open spec fn method_info(dict: Seq<char>, name: Seq<char>, given: InherentSchemeV) -> MethodInfoV {
    MethodInfoV {
        scheme: given.scheme,
        resolved_callee: ResolvedCalleeV::InherentMethod { dict, method: name },
        has_receiver: given.has_receiver,
    }
}

/// What the implementations given by other modules say of types.
pub open spec fn scope_infos(given: Map<Seq<char>, Map<Seq<char>, InherentSchemeV>>) -> Map<
    Seq<char>,
    MethodsV,
> {
    Map::new(
        |t: Seq<char>| given.dom().contains(t),
        |t: Seq<char>| method_infos(inherent_dict_name(t), given[t]),
    )
}

/// The schemes of methods with the substitution applied.
pub open spec fn method_schemes(ms: MethodsV, s: Map<TyVar, TyV>) -> Map<Seq<char>, InherentSchemeV> {
    Map::new(
        |n: Seq<char>| ms.dom().contains(n),
        |n: Seq<char>| InherentSchemeV {
            scheme: apply_scheme_view(s, ms[n].scheme),
            has_receiver: ms[n].has_receiver,
        },
    )
}

/// The schemes of the methods of all types.
pub open spec fn exported_schemes(ms: Map<Seq<char>, MethodsV>, s: Map<TyVar, TyV>) -> Map<
    Seq<char>,
    Map<Seq<char>, InherentSchemeV>,
> {
    Map::new(
        |t: Seq<char>| ms.dom().contains(t),
        |t: Seq<char>| method_schemes(ms[t], s),
    )
}

/// The state at the start.
pub open spec fn fresh_state() -> InferV {
    InferV {
        subst: SubstV { map: Map::empty(), next_var: 0, levels: Map::empty() },
        traits: Map::empty(),
        op_traits: Map::empty(),
        scoped_traits: Map::empty(),
        scoped_op_traits: Map::empty(),
        variants: Map::empty(),
        aliases: Map::empty(),
        declared: Set::empty(),
        scoped_declared: Set::empty(),
        arities: Map::empty(),
        import_types: Map::empty(),
        import_schemes: Map::empty(),
        import_bindings: Map::empty(),
        methods: Map::empty(),
        scoped_methods: Map::empty(),
        field_callables: Map::empty(),
        dicts: Set::empty(),
        scoped_dicts: Set::empty(),
        schemes: Map::empty(),
        break_tys: Seq::empty(),
        return_tys: Seq::empty(),
        pending: Seq::empty(),
        meta: no_meta(),
        level: ROOT_LEVEL,
    }
}

/// The types that every program knows.
pub open spec fn builtin_types() -> Set<Seq<char>> {
    Set::empty().insert("string"@).insert("bool"@).insert("Array"@)
}

/// How many arguments the built-in types take.
pub open spec fn builtin_arities() -> Map<Seq<char>, usize> {
    Map::empty().insert("int"@, 0usize).insert("float"@, 0usize).insert("string"@, 0usize).insert(
        "bool"@,
        0usize,
    ).insert("Unit"@, 0usize).insert("Array"@, 1usize)
}

/// The state before a program is checked: what other modules give is kept, what
/// was learned from the program before is not. Type variables stay fresh.
pub open spec fn reset(st: InferV) -> InferV {
    InferV {
        subst: SubstV { map: Map::empty(), ..st.subst },
        traits: st.scoped_traits,
        op_traits: st.scoped_op_traits,
        variants: Map::empty(),
        aliases: Map::empty(),
        declared: st.scoped_declared.union(builtin_types()),
        arities: builtin_arities(),
        import_bindings: Map::empty(),
        methods: Map::empty(),
        field_callables: Map::empty(),
        dicts: st.scoped_dicts,
        break_tys: Seq::empty(),
        return_tys: Seq::empty(),
        pending: Seq::empty(),
        meta: no_meta(),
        level: ROOT_LEVEL,
        ..st
    }
}

fn build_method_infos(dict: &String, given: &NameMap<InherentMethodScheme>) -> (r: NameMap<
    InherentMethodInfo,
>)
    ensures
        r@ == method_infos(dict@, given@),
{
    let names = given.names();
    let ghost all = strings_view(names@);
    let mut out: NameMap<InherentMethodInfo> = NameMap::new();
    let mut i: usize = 0;
    while i < names.len()
        invariant
            i <= names.len(),
            all == strings_view(names@),
            forall|n: Seq<char>| #[trigger] all.contains(n) <==> given@.dom().contains(n),
            forall|n: Seq<char>| #[trigger]
                out@.dom().contains(n) <==> all.take(i as int).contains(n),
            forall|n: Seq<char>| #[trigger]
                out@.dom().contains(n) ==> out@[n] == method_info(dict@, n, given@[n]),
        decreases names.len() - i,
    {
        let ghost name = all[i as int];
        proof {
            assert(name == names@[i as int]@);
            assert(all.contains(name));
            assert(all.take(i + 1) =~= all.take(i as int).push(name));
            assert forall|n: Seq<char>|
                #[trigger] all.take(i + 1).contains(n) <==> all.take(i as int).contains(n) || n == name by {
                crate::tables::lemma_push_contains(all.take(i as int), name, n);
            }
        }
        if let Some(method) = given.get(names[i].as_str()) {
            out.insert(
                names[i].clone(),
                InherentMethodInfo {
                    scheme: method.scheme.clone(),
                    resolved_callee: ResolvedCallee::InherentMethod {
                        dict: dict.clone(),
                        method: names[i].clone(),
                    },
                    has_receiver: method.has_receiver,
                },
            );
        }
        i = i + 1;
    }
    assert(all.take(all.len() as int) =~= all);
    assert(out@ =~= method_infos(dict@, given@));
    out
}

fn build_method_schemes(ms: &NameMap<InherentMethodInfo>, s: &Subst) -> (r: NameMap<
    InherentMethodScheme,
>)
    requires
        s.wf(),
    ensures
        r@ == method_schemes(ms@, s@.map),
{
    let names = ms.names();
    let ghost all = strings_view(names@);
    let mut out: NameMap<InherentMethodScheme> = NameMap::new();
    let mut i: usize = 0;
    while i < names.len()
        invariant
            i <= names.len(),
            s.wf(),
            all == strings_view(names@),
            forall|n: Seq<char>| #[trigger] all.contains(n) <==> ms@.dom().contains(n),
            forall|n: Seq<char>| #[trigger]
                out@.dom().contains(n) <==> all.take(i as int).contains(n),
            forall|n: Seq<char>| #[trigger]
                out@.dom().contains(n) ==> out@[n] == method_schemes(ms@, s@.map)[n],
        decreases names.len() - i,
    {
        let ghost name = all[i as int];
        proof {
            assert(name == names@[i as int]@);
            assert(all.contains(name));
            assert(all.take(i + 1) =~= all.take(i as int).push(name));
            assert forall|n: Seq<char>|
                #[trigger] all.take(i + 1).contains(n) <==> all.take(i as int).contains(n) || n == name by {
                crate::tables::lemma_push_contains(all.take(i as int), name, n);
            }
        }
        if let Some(info) = ms.get(names[i].as_str()) {
            out.insert(
                names[i].clone(),
                InherentMethodScheme {
                    scheme: s.apply_scheme(&info.scheme),
                    has_receiver: info.has_receiver,
                },
            );
        }
        i = i + 1;
    }
    assert(all.take(all.len() as int) =~= all);
    assert(out@ =~= method_schemes(ms@, s@.map));
    out
}

impl Infer {
    pub open spec fn wf(&self) -> bool {
        self.subst.wf()
    }

    /// A checker that knows nothing yet.
    pub fn new() -> (r: Self)
        ensures
            r@ == fresh_state(),
            r.wf(),
    {
        let r = Infer {
            subst: Subst::new(),
            traits: TraitScope {
                env: NameMap::new(),
                op_trait_map: NameMap::new(),
                scoped_env: NameMap::new(),
                scoped_op_trait_map: NameMap::new(),
            },
            types: TypeScope {
                variant_env: VariantEnv(NameMap::new()),
                aliases: NameMap::new(),
                declared: NameSet::new(),
                scoped_declared: NameSet::new(),
                constructor_arities: NameMap::new(),
            },
            imports: ImportScope {
                types: NameMap::new(),
                schemes: NameMap::new(),
                bindings: NameMap::new(),
            },
            inherent: InherentScope {
                methods: NameMap::new(),
                scoped_methods: NameMap::new(),
                record_field_callables: NameMap::new(),
            },
            impls: ImplScope {
                active_dicts: NameSet::new(),
                scoped_dicts: NameSet::new(),
                known_schemes: NameMap::new(),
            },
            flow: FlowState { loop_break_tys: Vec::new(), fn_return_tys: Vec::new() },
            constraints: ConstraintState { pending: Vec::new() },
            metadata: TypeMetadata::new(),
            current_level: ROOT_LEVEL,
        };
        proof {
            assert(r@.break_tys =~= Seq::empty());
            assert(r@.return_tys =~= Seq::empty());
            assert(r@.pending =~= Seq::empty());
        }
        r
    }

    /// Takes a fresh type variable of the current level.
    pub fn fresh_var(&mut self) -> (v: TyVar)
        requires
            old(self).wf(),
        ensures
            v == next_var(old(self)@),
            final(self)@ == fresh(old(self)@),
            final(self).wf(),
    {
        self.subst.fresh_tyvar_at(self.current_level)
    }

    /// Takes a fresh type.
    pub fn fresh_ty(&mut self) -> (t: Ty)
        requires
            old(self).wf(),
        ensures
            t@ == TyV::Var(next_var(old(self)@)),
            final(self)@ == fresh(old(self)@),
            final(self).wf(),
    {
        Ty::Var(self.fresh_var())
    }

    /// Sets the types of modules that can be imported.
    pub fn set_import_types(&mut self, import_types: NameMap<Ty>)
        ensures
            final(self)@ == (InferV { import_types: import_types@, ..old(self)@ }),
    {
        self.imports.types = import_types;
    }

    /// Sets the schemes of the members of modules that can be imported.
    pub fn set_import_schemes(&mut self, import_schemes: NameMap<NameMap<Scheme>>)
        ensures
            final(self)@ == (InferV { import_schemes: import_schemes@, ..old(self)@ }),
    {
        self.imports.schemes = import_schemes;
    }

    /// Sets the dictionaries of other modules.
    pub fn set_known_impl_dicts(&mut self, dicts: NameSet)
        ensures
            final(self)@ == (InferV { dicts: dicts@, scoped_dicts: dicts@, ..old(self)@ }),
    {
        self.impls.active_dicts = dicts.clone();
        self.impls.scoped_dicts = dicts;
    }

    /// Sets the schemes of the dictionaries of other modules.
    pub fn set_known_impl_schemes(&mut self, schemes: NameMap<Scheme>)
        ensures
            final(self)@ == (InferV { schemes: schemes@, ..old(self)@ }),
    {
        self.impls.known_schemes = schemes;
    }

    /// Sets the traits of other modules and their operators.
    pub fn set_trait_scope(&mut self, traits: NameMap<TraitDef>, op_trait_map: NameMap<String>)
        ensures
            final(self)@ == (InferV {
                traits: traits@,
                scoped_traits: traits@,
                op_traits: op_trait_map@,
                scoped_op_traits: op_trait_map@,
                ..old(self)@
            }),
    {
        self.traits.env = traits.clone();
        self.traits.scoped_env = traits;
        self.traits.op_trait_map = op_trait_map.clone();
        self.traits.scoped_op_trait_map = op_trait_map;
    }

    /// Sets the types of other modules.
    pub fn set_type_scope(&mut self, type_names: NameSet)
        ensures
            final(self)@ == (InferV { scoped_declared: type_names@, ..old(self)@ }),
    {
        self.types.scoped_declared = type_names;
    }

    /// Sets the inherent methods of other modules.
    pub fn set_inherent_scope(&mut self, given: NameMap<NameMap<InherentMethodScheme>>)
        ensures
            final(self)@ == (InferV { scoped_methods: scope_infos(given@), ..old(self)@ }),
    {
        let names = given.names();
        let ghost all = strings_view(names@);
        let mut out: NameMap<NameMap<InherentMethodInfo>> = NameMap::new();
        let mut i: usize = 0;
        while i < names.len()
            invariant
                i <= names.len(),
                all == strings_view(names@),
                forall|n: Seq<char>| #[trigger] all.contains(n) <==> given@.dom().contains(n),
                forall|n: Seq<char>| #[trigger]
                    out@.dom().contains(n) <==> all.take(i as int).contains(n),
                forall|n: Seq<char>| #[trigger]
                    out@.dom().contains(n) ==> out@[n] == scope_infos(given@)[n],
            decreases names.len() - i,
        {
            let ghost name = all[i as int];
            proof {
                assert(name == names@[i as int]@);
                assert(all.contains(name));
                assert(all.take(i + 1) =~= all.take(i as int).push(name));
                assert forall|n: Seq<char>|
                    #[trigger] all.take(i + 1).contains(n) <==> all.take(i as int).contains(n) || n
                        == name by {
                    crate::tables::lemma_push_contains(all.take(i as int), name, n);
                }
            }
            if let Some(methods) = given.get(names[i].as_str()) {
                let dict = inherent_impl_dict_name(names[i].as_str());
                out.insert(names[i].clone(), build_method_infos(&dict, methods));
            }
            i = i + 1;
        }
        assert(all.take(all.len() as int) =~= all);
        assert(out@ =~= scope_infos(given@));
        self.inherent.scoped_methods = out;
    }

    /// The schemes of the program's inherent methods.
    pub fn export_inherent_method_schemes(&self) -> (r: NameMap<NameMap<InherentMethodScheme>>)
        requires
            self.wf(),
        ensures
            r@ == exported_schemes(self@.methods, self@.subst.map),
    {
        let ghost ms = self@.methods;
        let ghost want = exported_schemes(ms, self@.subst.map);
        let names = self.inherent.methods.names();
        let ghost all = strings_view(names@);
        let mut out: NameMap<NameMap<InherentMethodScheme>> = NameMap::new();
        let mut i: usize = 0;
        while i < names.len()
            invariant
                i <= names.len(),
                self.wf(),
                ms == self@.methods,
                want == exported_schemes(ms, self@.subst.map),
                all == strings_view(names@),
                forall|n: Seq<char>| #[trigger] all.contains(n) <==> ms.dom().contains(n),
                forall|n: Seq<char>| #[trigger]
                    out@.dom().contains(n) <==> all.take(i as int).contains(n),
                forall|n: Seq<char>| #[trigger]
                    out@.dom().contains(n) ==> out@[n] == want[n],
            decreases names.len() - i,
        {
            let ghost name = all[i as int];
            proof {
                assert(name == names@[i as int]@);
                assert(all.contains(name));
                assert(all.take(i + 1) =~= all.take(i as int).push(name));
                assert forall|n: Seq<char>|
                    #[trigger] all.take(i + 1).contains(n) <==> all.take(i as int).contains(n) || n
                        == name by {
                    crate::tables::lemma_push_contains(all.take(i as int), name, n);
                }
            }
            if let Some(methods) = self.inherent.methods.get(names[i].as_str()) {
                out.insert(names[i].clone(), build_method_schemes(methods, &self.subst));
            }
            i = i + 1;
        }
        assert(all.take(all.len() as int) =~= all);
        assert(out@ =~= want);
        out
    }

    /// Makes ready for another program.
    pub fn reset_program_state(&mut self)
        ensures
            final(self)@ == reset(old(self)@),
            final(self).wf(),
    {
        self.subst.clear_map_keep_counter();
        self.types.variant_env = VariantEnv(NameMap::new());
        self.types.aliases = NameMap::new();
        let mut declared = self.types.scoped_declared.clone();
        declared.insert("string".to_owned());
        declared.insert("bool".to_owned());
        declared.insert("Array".to_owned());
        self.types.declared = declared;
        let mut arities: NameMap<usize> = NameMap::new();
        arities.insert("int".to_owned(), 0);
        arities.insert("float".to_owned(), 0);
        arities.insert("string".to_owned(), 0);
        arities.insert("bool".to_owned(), 0);
        arities.insert("Unit".to_owned(), 0);
        arities.insert("Array".to_owned(), 1);
        self.types.constructor_arities = arities;
        self.traits.env = self.traits.scoped_env.clone();
        self.traits.op_trait_map = self.traits.scoped_op_trait_map.clone();
        self.impls.active_dicts = self.impls.scoped_dicts.clone();
        self.inherent.methods = NameMap::new();
        self.constraints.pending = Vec::new();
        self.flow = FlowState { loop_break_tys: Vec::new(), fn_return_tys: Vec::new() };
        self.metadata = TypeMetadata::new();
        self.imports.bindings = NameMap::new();
        self.inherent.record_field_callables = NameMap::new();
        self.current_level = ROOT_LEVEL;
        proof {
            let want = reset(old(self)@);
            assert(self@.declared =~= want.declared);
            assert(self@.break_tys =~= want.break_tys);
            assert(self@.return_tys =~= want.return_tys);
            assert(self@.pending =~= want.pending);
        }
    }
}

impl Default for Infer {
    fn default() -> (r: Self)
        ensures
            r@ == fresh_state(),
            r.wf(),
    {
        Infer::new()
    }
}

} // verus!
