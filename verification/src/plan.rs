//! The expansion plan: the module and the structs that a derive generates,
//! and the decisions behind them.

use vstd::prelude::*;

use crate::attrs::{
    analyze_field_attrs, analyze_variant_attrs, field_info, read_settings, settings, FieldAttrInfo,
    FieldAttrInfoV, MetaError, MetaFlags, MetaFlagsV, MetaLevel,
};
use crate::generics::{
    lemma_mentions_extend, lifetime_use, mentions_lifetime, mentions_type, strings_view, type_use,
    unused_names, GenericsUsageCollector, TypeRefsV,
};
use crate::model::{
    fields_view, variants_view, DataInput, DataV, DeriveInput, DeriveInputV, FieldInput, FieldV,
    FieldsInput, FieldsV, VariantInput, VariantV,
};
use crate::naming::{snake_case, to_snake_case};
use crate::tokens::{copy_toks, relation_for_module, relation_outcome, text_eq, toks_view, Tok, TokV};

verus! {

/// Which kind of Bevy type each variant becomes.
#[derive(Clone, Copy, PartialEq, Eq, Structural, Debug)]
pub enum EventKind {
    /// Observer-based global events (`#[derive(Event)]`).
    Event,
    /// Buffered messages (`#[derive(Message)]`).
    Message,
    /// Entity-targeted observer events (`#[derive(EntityEvent)]`).
    EntityEvent,
}

/// The form of a generated struct.
#[derive(Clone, Copy, PartialEq, Eq, Structural, Debug)]
pub enum StructShape {
    Unit,
    Tuple,
    Named,
}

/// One field of a generated struct; its name and type are those of the
/// variant's field at the same position.
pub struct FieldPlan {
    /// Positions of the field's attributes that are copied, in order.
    pub passthrough_attrs: Vec<usize>,
    /// The field carries `#[event_target]`.
    pub event_target: bool,
}

/// The `#[entity_event(..)]` propagation attribute of a generated struct.
pub struct PropagateAttr {
    /// `auto_propagate` is written too.
    pub auto_propagate: bool,
    /// The relation type after `propagate =`; empty for a plain `propagate`.
    pub relation: Vec<Tok>,
}

/// One generated struct.
pub struct StructPlan {
    /// The variant's name, which the struct takes.
    pub name: String,
    pub shape: StructShape,
    pub fields: Vec<FieldPlan>,
    /// Type parameters of the enum that the variant's fields do not use, in
    /// order; they go into a `PhantomData` field.
    pub phantom_types: Vec<String>,
    /// Lifetime parameters of the enum that the variant's fields do not use,
    /// in order; they go into the `PhantomData` field as `&'a ()`.
    pub phantom_lifetimes: Vec<String>,
    pub propagate: Option<PropagateAttr>,
}

/// What a derive generates: a module named after the enum holding one
/// struct per variant, in the variants' order.
pub struct ExpansionPlan {
    pub module_name: String,
    pub kind: EventKind,
    pub structs: Vec<StructPlan>,
}

/// Why a derive is refused.
#[derive(Debug)]
pub enum ExpandError {
    /// An `#[enum_event(..)]` attribute on the enum cannot be read.
    ContainerAttr(MetaError),
    /// The derive is applied to a struct or a union.
    NotAnEnum,
    /// An `#[enum_event(..)]` attribute on a variant cannot be read.
    VariantAttr(MetaError),
    /// An `#[enum_event(..)]` attribute on a field cannot be read.
    FieldAttr(MetaError),
    /// An entity-event variant has more than one target field.
    MultipleTargets(String),
    /// An entity-event variant has no target field (or is no named-field
    /// variant).
    MissingTarget(String),
}

/// The mathematical value of [`FieldPlan`].
pub struct FieldPlanV {
    pub passthrough_attrs: Seq<int>,
    pub event_target: bool,
}

/// The mathematical value of [`PropagateAttr`].
pub struct PropagateAttrV {
    pub auto_propagate: bool,
    pub relation: Seq<TokV>,
}

/// The mathematical value of [`StructPlan`].
pub struct StructPlanV {
    pub name: Seq<char>,
    pub shape: StructShape,
    pub fields: Seq<FieldPlanV>,
    pub phantom_types: Seq<Seq<char>>,
    pub phantom_lifetimes: Seq<Seq<char>>,
    pub propagate: Option<PropagateAttrV>,
}

/// The mathematical value of [`ExpansionPlan`].
pub struct PlanV {
    pub module_name: Seq<char>,
    pub kind: EventKind,
    pub structs: Seq<StructPlanV>,
}

/// The mathematical value of [`ExpandError`].
pub enum ExpandErrorV {
    ContainerAttr(MetaError),
    NotAnEnum,
    VariantAttr(MetaError),
    FieldAttr(MetaError),
    MultipleTargets(Seq<char>),
    MissingTarget(Seq<char>),
}

impl View for FieldPlan {
    type V = FieldPlanV;

    open spec fn view(&self) -> FieldPlanV {
        FieldPlanV {
            passthrough_attrs: self.passthrough_attrs@.map_values(|i: usize| i as int),
            event_target: self.event_target,
        }
    }
}

impl View for PropagateAttr {
    type V = PropagateAttrV;

    open spec fn view(&self) -> PropagateAttrV {
        PropagateAttrV { auto_propagate: self.auto_propagate, relation: toks_view(self.relation@) }
    }
}

impl View for StructPlan {
    type V = StructPlanV;

    open spec fn view(&self) -> StructPlanV {
        StructPlanV {
            name: self.name@,
            shape: self.shape,
            fields: field_plans_view(self.fields@),
            phantom_types: strings_view(self.phantom_types@),
            phantom_lifetimes: strings_view(self.phantom_lifetimes@),
            propagate: match self.propagate {
                Some(p) => Some(p@),
                None => None,
            },
        }
    }
}

/// The values of a list of field plans.
pub open spec fn field_plans_view(v: Seq<FieldPlan>) -> Seq<FieldPlanV> {
    v.map_values(|f: FieldPlan| f@)
}

/// The values of a list of struct plans.
pub open spec fn structs_view(v: Seq<StructPlan>) -> Seq<StructPlanV> {
    v.map_values(|s: StructPlan| s@)
}

impl View for ExpansionPlan {
    type V = PlanV;

    open spec fn view(&self) -> PlanV {
        PlanV { module_name: self.module_name@, kind: self.kind, structs: structs_view(self.structs@) }
    }
}

impl View for ExpandError {
    type V = ExpandErrorV;

    open spec fn view(&self) -> ExpandErrorV {
        match self {
            ExpandError::ContainerAttr(e) => ExpandErrorV::ContainerAttr(*e),
            ExpandError::NotAnEnum => ExpandErrorV::NotAnEnum,
            ExpandError::VariantAttr(e) => ExpandErrorV::VariantAttr(*e),
            ExpandError::FieldAttr(e) => ExpandErrorV::FieldAttr(*e),
            ExpandError::MultipleTargets(s) => ExpandErrorV::MultipleTargets(s@),
            ExpandError::MissingTarget(s) => ExpandErrorV::MissingTarget(s@),
        }
    }
}

/// The types of a list of fields.
pub open spec fn field_types(fs: Seq<FieldV>) -> Seq<TypeRefsV> {
    fs.map_values(|f: FieldV| f.ty)
}

/// The fields of a variant; none for a unit variant.
pub open spec fn variant_fields(v: VariantV) -> Seq<FieldV> {
    match v.fields {
        FieldsV::Unit => seq![],
        FieldsV::Unnamed(fs) => fs,
        FieldsV::Named(fs) => fs,
    }
}

/// What the attributes of the first `n` fields say; the first field whose
/// attributes cannot be read gives the error.
pub open spec fn field_infos_prefix(fs: Seq<FieldV>, n: int) -> Result<Seq<FieldAttrInfoV>, MetaError>
    decreases n,
{
    if n <= 0 {
        Ok(seq![])
    } else {
        match field_infos_prefix(fs, n - 1) {
            Err(e) => Err(e),
            Ok(s) => match field_info(fs[n - 1].attrs) {
                Err(e) => Err(e),
                Ok(i) => Ok(s.push(i)),
            },
        }
    }
}

/// What the attributes of each field say.
pub open spec fn field_infos(fs: Seq<FieldV>) -> Result<Seq<FieldAttrInfoV>, MetaError> {
    field_infos_prefix(fs, fs.len() as int)
}

/// A field is a target: it is marked as one, or it is named `entity`.
pub open spec fn is_target(f: FieldV, info: FieldAttrInfoV) -> bool {
    info.is_event_target || f.name == Some("entity"@)
}

/// How many of the first `n` fields are targets.
pub open spec fn target_count(fs: Seq<FieldV>, infos: Seq<FieldAttrInfoV>, n: int) -> nat
    decreases n,
{
    if n <= 0 {
        0
    } else {
        target_count(fs, infos, n - 1) + if is_target(fs[n - 1], infos[n - 1]) {
            1nat
        } else {
            0nat
        }
    }
}

/// The propagation settings of a variant: its own where it sets
/// `propagate`, the enum's otherwise. The two are never combined.
pub open spec fn effective_propagation(container: MetaFlagsV, variant: MetaFlagsV) -> MetaFlagsV {
    if variant.propagate is Some {
        variant
    } else {
        container
    }
}

/// The propagation attribute that settings ask for, with the relation type
/// as it is written in the attribute.
pub open spec fn propagate_plan(f: MetaFlagsV) -> Option<PropagateAttrV> {
    match f.propagate {
        Some(t) => Some(PropagateAttrV { auto_propagate: f.auto_propagate, relation: t }),
        None => None,
    }
}

/// A generated propagation attribute agrees with the one asked for: the
/// same `auto_propagate`, and a relation type that is the written one as
/// seen from inside the generated module (see [`relation_outcome`]).
pub open spec fn propagation_agrees(got: Option<PropagateAttrV>, want: Option<PropagateAttrV>) -> bool {
    match (got, want) {
        (None, None) => true,
        (Some(g), Some(w)) => g.auto_propagate == w.auto_propagate && relation_outcome(
            w.relation,
            g.relation,
        ),
        _ => false,
    }
}

/// A generated struct agrees with the planned one: equal in everything but
/// the propagation relation, which agrees.
pub open spec fn struct_agrees(got: StructPlanV, want: StructPlanV) -> bool {
    &&& got.name == want.name
    &&& got.shape == want.shape
    &&& got.fields == want.fields
    &&& got.phantom_types == want.phantom_types
    &&& got.phantom_lifetimes == want.phantom_lifetimes
    &&& propagation_agrees(got.propagate, want.propagate)
}

/// Each generated struct agrees with the planned one at its position.
pub open spec fn structs_agree(got: Seq<StructPlanV>, want: Seq<StructPlanV>) -> bool {
    got.len() == want.len() && forall|i: int|
        0 <= i < got.len() ==> #[trigger] struct_agrees(got[i], want[i])
}

/// A struct or the error, as planned.
pub open spec fn struct_result_agrees(
    got: Result<StructPlanV, ExpandErrorV>,
    want: Result<StructPlanV, ExpandErrorV>,
) -> bool {
    match (got, want) {
        (Ok(g), Ok(w)) => struct_agrees(g, w),
        (Err(a), Err(b)) => a == b,
        _ => false,
    }
}

/// A generated plan or the error, as planned.
pub open spec fn plan_agrees(got: Result<PlanV, ExpandErrorV>, want: Result<PlanV, ExpandErrorV>) -> bool {
    match (got, want) {
        (Ok(g), Ok(w)) => g.module_name == w.module_name && g.kind == w.kind && structs_agree(
            g.structs,
            w.structs,
        ),
        (Err(a), Err(b)) => a == b,
        _ => false,
    }
}

/// The generated fields: each keeps its passthrough attributes; for entity
/// events the target field is marked.
pub open spec fn plan_fields(fs: Seq<FieldV>, infos: Seq<FieldAttrInfoV>, entity: bool) -> Seq<
    FieldPlanV,
> {
    Seq::new(
        fs.len(),
        |j: int|
            FieldPlanV {
                passthrough_attrs: infos[j].passthrough_attrs,
                event_target: entity && is_target(fs[j], infos[j]),
            },
    )
}

/// The struct that variant `v` becomes, or why it cannot.
pub open spec fn plan_variant(
    v: VariantV,
    kind: EventKind,
    container: MetaFlagsV,
    type_params: Seq<Seq<char>>,
    lifetime_params: Seq<Seq<char>>,
) -> Result<StructPlanV, ExpandErrorV> {
    let entity = kind == EventKind::EntityEvent;
    let tys = field_types(variant_fields(v));
    let phantom_types = unused_names(type_params, type_use(tys));
    let phantom_lifetimes = unused_names(lifetime_params, lifetime_use(tys));
    match settings(v.attrs, MetaLevel::Variant) {
        Err(e) => Err(ExpandErrorV::VariantAttr(e)),
        Ok(vf) => match v.fields {
            FieldsV::Unit => if entity {
                Err(ExpandErrorV::MissingTarget(v.name))
            } else {
                Ok(
                    StructPlanV {
                        name: v.name,
                        shape: StructShape::Unit,
                        fields: seq![],
                        phantom_types,
                        phantom_lifetimes,
                        propagate: None,
                    },
                )
            },
            FieldsV::Unnamed(fs) => if entity {
                Err(ExpandErrorV::MissingTarget(v.name))
            } else {
                match field_infos(fs) {
                    Err(e) => Err(ExpandErrorV::FieldAttr(e)),
                    Ok(infos) => Ok(
                        StructPlanV {
                            name: v.name,
                            shape: StructShape::Tuple,
                            fields: plan_fields(fs, infos, false),
                            phantom_types,
                            phantom_lifetimes,
                            propagate: None,
                        },
                    ),
                }
            },
            FieldsV::Named(fs) => match field_infos(fs) {
                Err(e) => Err(ExpandErrorV::FieldAttr(e)),
                Ok(infos) => if entity && target_count(fs, infos, fs.len() as int) > 1 {
                    Err(ExpandErrorV::MultipleTargets(v.name))
                } else if entity && target_count(fs, infos, fs.len() as int) == 0 {
                    Err(ExpandErrorV::MissingTarget(v.name))
                } else {
                    Ok(
                        StructPlanV {
                            name: v.name,
                            shape: StructShape::Named,
                            fields: plan_fields(fs, infos, entity),
                            phantom_types,
                            phantom_lifetimes,
                            propagate: if entity {
                                propagate_plan(effective_propagation(container, vf))
                            } else {
                                None
                            },
                        },
                    )
                },
            },
        },
    }
}

/// The structs of the first `n` variants; the first variant that cannot be
/// planned gives the error.
pub open spec fn plan_variants_prefix(
    vs: Seq<VariantV>,
    n: int,
    kind: EventKind,
    container: MetaFlagsV,
    type_params: Seq<Seq<char>>,
    lifetime_params: Seq<Seq<char>>,
) -> Result<Seq<StructPlanV>, ExpandErrorV>
    decreases n,
{
    if n <= 0 {
        Ok(seq![])
    } else {
        match plan_variants_prefix(vs, n - 1, kind, container, type_params, lifetime_params) {
            Err(e) => Err(e),
            Ok(s) => match plan_variant(vs[n - 1], kind, container, type_params, lifetime_params) {
                Err(e) => Err(e),
                Ok(p) => Ok(s.push(p)),
            },
        }
    }
}

/// What a derive of `kind` on `input` generates, or why it is refused: the
/// enum's attributes are read first, then the input must be an enum, then
/// each variant is planned in order.
pub open spec fn expansion(input: DeriveInputV, kind: EventKind) -> Result<PlanV, ExpandErrorV> {
    match settings(input.attrs, MetaLevel::Container) {
        Err(e) => Err(ExpandErrorV::ContainerAttr(e)),
        Ok(cf) => match input.data {
            DataV::Enum(vs) => match plan_variants_prefix(
                vs,
                vs.len() as int,
                kind,
                cf,
                input.type_params,
                input.lifetime_params,
            ) {
                Err(e) => Err(e),
                Ok(structs) => Ok(
                    PlanV { module_name: snake_case(input.name), kind, structs },
                ),
            },
            _ => Err(ExpandErrorV::NotAnEnum),
        },
    }
}

/// The value of the outcome of planning.
pub open spec fn plan_result_view(r: Result<ExpansionPlan, ExpandError>) -> Result<
    PlanV,
    ExpandErrorV,
> {
    match r {
        Ok(p) => Ok(p@),
        Err(e) => Err(e@),
    }
}

/// The value of the outcome of planning one variant.
pub open spec fn struct_result_view(r: Result<StructPlan, ExpandError>) -> Result<
    StructPlanV,
    ExpandErrorV,
> {
    match r {
        Ok(p) => Ok(p@),
        Err(e) => Err(e@),
    }
}

/// Copies a list of positions.
fn copy_positions(v: &Vec<usize>) -> (r: Vec<usize>)
    ensures
        r@ == v@,
{
    let mut r: Vec<usize> = Vec::new();
    let mut i: usize = 0;
    while i < v.len()
        invariant
            i <= v@.len(),
            r@ == v@.take(i as int),
        decreases v@.len() - i,
    {
        r.push(v[i]);
        proof {
            assert(r@ =~= v@.take(i + 1));
        }
        i += 1;
    }
    proof {
        assert(v@.take(v@.len() as int) =~= v@);
    }
    r
}

/// Copies a list of names.
fn copy_names(v: &Vec<String>) -> (r: Vec<String>)
    ensures
        strings_view(r@) == strings_view(v@),
{
    let mut r: Vec<String> = Vec::new();
    let mut i: usize = 0;
    while i < v.len()
        invariant
            i <= v@.len(),
            strings_view(r@) == strings_view(v@).take(i as int),
        decreases v@.len() - i,
    {
        let ghost before = r@;
        let s = v[i].clone();
        r.push(s);
        proof {
            assert(r@ == before.push(s));
            assert(strings_view(v@)[i as int] == v@[i as int]@);
            assert(strings_view(r@) =~= strings_view(before).push(s@));
            assert(strings_view(r@) =~= strings_view(v@).take(i + 1));
        }
        i += 1;
    }
    proof {
        assert(strings_view(v@).take(v@.len() as int) =~= strings_view(v@));
    }
    r
}

/// One step of [`unused_names`]: the unused names among the first `i + 1`.
proof fn lemma_unused_names_step(names: Seq<Seq<char>>, used: spec_fn(Seq<char>) -> bool, i: int)
    requires
        0 <= i < names.len(),
    ensures
        unused_names(names.take(i + 1), used) == if used(names[i]) {
            unused_names(names.take(i), used)
        } else {
            unused_names(names.take(i), used).push(names[i])
        },
{
    assert(names.take(i + 1).drop_last() =~= names.take(i));
}

/// The names among `names` that `used` does not hold, where `is_used`
/// answers for each position.
fn keep_unused(names: &Vec<String>, is_used: &Vec<bool>, used: Ghost<spec_fn(Seq<char>) -> bool>) -> (r:
    Vec<String>)
    requires
        is_used@.len() == names@.len(),
        forall|i: int| 0 <= i < names@.len() ==> is_used@[i] == (used@)(names@[i]@),
    ensures
        strings_view(r@) == unused_names(strings_view(names@), used@),
{
    let ghost nv = strings_view(names@);
    let mut r: Vec<String> = Vec::new();
    let mut i: usize = 0;
    while i < names.len()
        invariant
            i <= names@.len(),
            is_used@.len() == names@.len(),
            nv == strings_view(names@),
            forall|k: int| 0 <= k < names@.len() ==> is_used@[k] == (used@)(names@[k]@),
            strings_view(r@) == unused_names(nv.take(i as int), used@),
        decreases names@.len() - i,
    {
        proof {
            lemma_unused_names_step(nv, used@, i as int);
        }
        if !is_used[i] {
            let ghost before = r@;
            let s = names[i].clone();
            r.push(s);
            proof {
                assert(r@ == before.push(s));
                assert(strings_view(r@) =~= strings_view(before).push(nv[i as int]));
            }
        }
        i += 1;
    }
    proof {
        assert(nv.take(names@.len() as int) =~= nv);
    }
    r
}

/// The type and lifetime parameters that the types of `fields` do not use.
fn phantom_params(fields: &Vec<FieldInput>, type_params: &Vec<String>, lifetime_params: &Vec<String>) -> (r: (
    Vec<String>,
    Vec<String>,
))
    ensures
        strings_view(r.0@) == unused_names(
            strings_view(type_params@),
            type_use(field_types(fields_view(fields@))),
        ),
        strings_view(r.1@) == unused_names(
            strings_view(lifetime_params@),
            lifetime_use(field_types(fields_view(fields@))),
        ),
{
    let ghost tys = field_types(fields_view(fields@));
    let ghost tnames = strings_view(type_params@).to_set();
    let ghost lnames = strings_view(lifetime_params@).to_set();
    let mut collector = GenericsUsageCollector::new(type_params.as_slice(), lifetime_params.as_slice());
    proof {
        assert(Set::new(|n: Seq<char>| tnames.contains(n) && mentions_type(tys.take(0), n))
            =~= Set::<Seq<char>>::empty());
        assert(Set::new(|n: Seq<char>| lnames.contains(n) && mentions_lifetime(tys.take(0), n))
            =~= Set::<Seq<char>>::empty());
    }
    let mut i: usize = 0;
    while i < fields.len()
        invariant
            i <= fields@.len(),
            tys == field_types(fields_view(fields@)),
            collector.type_name_set() == tnames,
            collector.lifetime_name_set() == lnames,
            collector.used_type_set() == Set::new(
                |n: Seq<char>| tnames.contains(n) && mentions_type(tys.take(i as int), n),
            ),
            collector.used_lifetime_set() == Set::new(
                |n: Seq<char>| lnames.contains(n) && mentions_lifetime(tys.take(i as int), n),
            ),
        decreases fields@.len() - i,
    {
        collector.visit_type(&fields[i].ty);
        proof {
            assert(tys[i as int] == fields@[i as int].ty@);
            lemma_mentions_extend(tys, i as int);
            assert(collector.used_type_set() =~= Set::new(
                |n: Seq<char>| tnames.contains(n) && mentions_type(tys.take(i + 1), n),
            ));
            assert(collector.used_lifetime_set() =~= Set::new(
                |n: Seq<char>| lnames.contains(n) && mentions_lifetime(tys.take(i + 1), n),
            ));
        }
        i += 1;
    }
    proof {
        assert(tys.take(fields@.len() as int) =~= tys);
    }
    let mut type_used: Vec<bool> = Vec::new();
    let mut j: usize = 0;
    while j < type_params.len()
        invariant
            j <= type_params@.len(),
            tys == field_types(fields_view(fields@)),
            tys.take(fields@.len() as int) == tys,
            tnames == strings_view(type_params@).to_set(),
            collector.used_type_set() == Set::new(
                |n: Seq<char>| tnames.contains(n) && mentions_type(tys.take(fields@.len() as int), n),
            ),
            type_used@.len() == j,
            forall|k: int| 0 <= k < j ==> type_used@[k] == mentions_type(tys, type_params@[k]@),
        decreases type_params@.len() - j,
    {
        let u = collector.is_type_used(&type_params[j]);
        proof {
            assert(strings_view(type_params@)[j as int] == type_params@[j as int]@);
            assert(tnames.contains(type_params@[j as int]@));
        }
        type_used.push(u);
        j += 1;
    }
    let mut lifetime_used: Vec<bool> = Vec::new();
    let mut j: usize = 0;
    while j < lifetime_params.len()
        invariant
            j <= lifetime_params@.len(),
            tys == field_types(fields_view(fields@)),
            tys.take(fields@.len() as int) == tys,
            lnames == strings_view(lifetime_params@).to_set(),
            collector.used_lifetime_set() == Set::new(
                |n: Seq<char>| lnames.contains(n) && mentions_lifetime(tys.take(fields@.len() as int), n),
            ),
            lifetime_used@.len() == j,
            forall|k: int| 0 <= k < j ==> lifetime_used@[k] == mentions_lifetime(tys, lifetime_params@[k]@),
        decreases lifetime_params@.len() - j,
    {
        let u = collector.is_lifetime_used(&lifetime_params[j]);
        proof {
            assert(strings_view(lifetime_params@)[j as int] == lifetime_params@[j as int]@);
            assert(lnames.contains(lifetime_params@[j as int]@));
        }
        lifetime_used.push(u);
        j += 1;
    }
    let unused_types = keep_unused(type_params, &type_used, Ghost(type_use(tys)));
    let unused_lifetimes = keep_unused(lifetime_params, &lifetime_used, Ghost(lifetime_use(tys)));
    (unused_types, unused_lifetimes)
}

/// The values of a list of field attribute readings.
pub open spec fn infos_view(v: Seq<FieldAttrInfo>) -> Seq<FieldAttrInfoV> {
    v.map_values(|i: FieldAttrInfo| i@)
}

/// Once reading a field's attributes fails, the error stays the outcome.
proof fn lemma_field_infos_error_stays(fs: Seq<FieldV>, m: int, n: int)
    requires
        0 <= m <= n,
        field_infos_prefix(fs, m) is Err,
    ensures
        field_infos_prefix(fs, n) == field_infos_prefix(fs, m),
    decreases n - m,
{
    if n > m {
        lemma_field_infos_error_stays(fs, m, n - 1);
    }
}

/// Reads the attributes of every field; see [`field_infos`].
fn analyze_fields(fields: &Vec<FieldInput>) -> (r: Result<Vec<FieldAttrInfo>, MetaError>)
    ensures
        match r {
            Ok(v) => field_infos(fields_view(fields@)) == Ok::<Seq<FieldAttrInfoV>, MetaError>(
                infos_view(v@),
            ),
            Err(e) => field_infos(fields_view(fields@)) == Err::<Seq<FieldAttrInfoV>, MetaError>(e),
        },
{
    let ghost fv = fields_view(fields@);
    let mut infos: Vec<FieldAttrInfo> = Vec::new();
    proof {
        assert(infos_view(infos@) =~= Seq::<FieldAttrInfoV>::empty());
    }
    let mut i: usize = 0;
    while i < fields.len()
        invariant
            i <= fields@.len(),
            fv == fields_view(fields@),
            field_infos_prefix(fv, i as int) == Ok::<Seq<FieldAttrInfoV>, MetaError>(
                infos_view(infos@),
            ),
        decreases fields@.len() - i,
    {
        assert(fv[i as int] == fields@[i as int]@);
        match analyze_field_attrs(&fields[i].attrs) {
            Ok(info) => {
                let ghost before = infos@;
                infos.push(info);
                proof {
                    assert(infos@ == before.push(info));
                    assert(infos_view(infos@) =~= infos_view(before).push(info@));
                }
            },
            Err(e) => {
                proof {
                    lemma_field_infos_error_stays(fv, i + 1, fv.len() as int);
                }
                return Err(e);
            },
        }
        i += 1;
    }
    Ok(infos)
}

/// Whether a field is a target; see [`is_target`].
fn field_is_target(f: &FieldInput, info: &FieldAttrInfo) -> (r: bool)
    ensures
        r == is_target(f@, info@),
{
    if info.is_event_target {
        return true;
    }
    match &f.name {
        Some(n) => text_eq(n, "entity"),
        None => false,
    }
}

/// How many fields are targets; see [`target_count`].
fn count_targets(fields: &Vec<FieldInput>, infos: &Vec<FieldAttrInfo>) -> (r: usize)
    requires
        infos@.len() == fields@.len(),
    ensures
        r == target_count(fields_view(fields@), infos_view(infos@), fields@.len() as int),
{
    let mut r: usize = 0;
    let mut i: usize = 0;
    while i < fields.len()
        invariant
            i <= fields@.len(),
            infos@.len() == fields@.len(),
            r <= i,
            r == target_count(fields_view(fields@), infos_view(infos@), i as int),
        decreases fields@.len() - i,
    {
        assert(fields_view(fields@)[i as int] == fields@[i as int]@);
        assert(infos_view(infos@)[i as int] == infos@[i as int]@);
        if field_is_target(&fields[i], &infos[i]) {
            r += 1;
        }
        i += 1;
    }
    r
}

/// The generated fields; see [`plan_fields`].
fn build_field_plans(fields: &Vec<FieldInput>, infos: &Vec<FieldAttrInfo>, entity: bool) -> (r: Vec<
    FieldPlan,
>)
    requires
        infos@.len() == fields@.len(),
    ensures
        field_plans_view(r@) == plan_fields(fields_view(fields@), infos_view(infos@), entity),
{
    let ghost want = plan_fields(fields_view(fields@), infos_view(infos@), entity);
    let mut r: Vec<FieldPlan> = Vec::new();
    proof {
        assert(field_plans_view(r@) =~= want.take(0));
    }
    let mut i: usize = 0;
    while i < fields.len()
        invariant
            i <= fields@.len(),
            infos@.len() == fields@.len(),
            want == plan_fields(fields_view(fields@), infos_view(infos@), entity),
            field_plans_view(r@) == want.take(i as int),
        decreases fields@.len() - i,
    {
        assert(infos_view(infos@)[i as int] == infos@[i as int]@);
        let target = entity && field_is_target(&fields[i], &infos[i]);
        let p = FieldPlan {
            passthrough_attrs: copy_positions(&infos[i].passthrough_attrs),
            event_target: target,
        };
        let ghost before = r@;
        r.push(p);
        proof {
            assert(r@ == before.push(p));
            assert(p@ == want[i as int]);
            assert(field_plans_view(r@) =~= field_plans_view(before).push(p@));
            assert(field_plans_view(r@) =~= want.take(i + 1));
        }
        i += 1;
    }
    proof {
        assert(want.take(fields@.len() as int) =~= want);
    }
    r
}

/// The value of an optional propagation attribute.
pub open spec fn propagate_view(p: Option<PropagateAttr>) -> Option<PropagateAttrV> {
    match p {
        Some(a) => Some(a@),
        None => None,
    }
}

/// The propagation attribute of a named-field entity-event variant; see
/// [`propagate_plan`] and [`effective_propagation`].
fn plan_propagation(container: &MetaFlags, variant: &MetaFlags) -> (r: Option<PropagateAttr>)
    ensures
        propagation_agrees(propagate_view(r), propagate_plan(effective_propagation(container@, variant@))),
{
    let chosen: &MetaFlags = if variant.propagate.is_some() {
        variant
    } else {
        container
    };
    match &chosen.propagate {
        Some(t) => Some(
            PropagateAttr { auto_propagate: chosen.auto_propagate, relation: relation_for_module(t) },
        ),
        None => None,
    }
}

/// The struct that a variant becomes, or why it cannot; see
/// [`plan_variant`].
pub fn plan_variant_struct(
    v: &VariantInput,
    kind: EventKind,
    container: &MetaFlags,
    type_params: &Vec<String>,
    lifetime_params: &Vec<String>,
) -> (r: Result<StructPlan, ExpandError>)
    ensures
        struct_result_agrees(struct_result_view(r), plan_variant(
            v@,
            kind,
            container@,
            strings_view(type_params@),
            strings_view(lifetime_params@),
        )),
{
    let vf = match analyze_variant_attrs(&v.attrs) {
        Ok(f) => f,
        Err(e) => {
            return Err(ExpandError::VariantAttr(e));
        },
    };
    let entity = kind == EventKind::EntityEvent;
    let no_fields: Vec<FieldInput> = Vec::new();
    let field_list: &Vec<FieldInput> = match &v.fields {
        FieldsInput::Unit => &no_fields,
        FieldsInput::Unnamed(fs) => fs,
        FieldsInput::Named(fs) => fs,
    };
    proof {
        assert(fields_view(field_list@) =~= variant_fields(v@));
    }
    let (phantom_types, phantom_lifetimes) = phantom_params(
        field_list,
        type_params,
        lifetime_params,
    );
    match &v.fields {
        FieldsInput::Unit => {
            if entity {
                return Err(ExpandError::MissingTarget(v.name.clone()));
            }
            let fields: Vec<FieldPlan> = Vec::new();
            proof {
                assert(field_plans_view(fields@) =~= Seq::<FieldPlanV>::empty());
            }
            Ok(
                StructPlan {
                    name: v.name.clone(),
                    shape: StructShape::Unit,
                    fields,
                    phantom_types,
                    phantom_lifetimes,
                    propagate: None,
                },
            )
        },
        FieldsInput::Unnamed(fs) => {
            if entity {
                return Err(ExpandError::MissingTarget(v.name.clone()));
            }
            let infos = match analyze_fields(fs) {
                Ok(x) => x,
                Err(e) => {
                    return Err(ExpandError::FieldAttr(e));
                },
            };
            proof {
                lemma_field_infos_len(fields_view(fs@), fs@.len() as int);
            }
            let fields = build_field_plans(fs, &infos, false);
            Ok(
                StructPlan {
                    name: v.name.clone(),
                    shape: StructShape::Tuple,
                    fields,
                    phantom_types,
                    phantom_lifetimes,
                    propagate: None,
                },
            )
        },
        FieldsInput::Named(fs) => {
            let infos = match analyze_fields(fs) {
                Ok(x) => x,
                Err(e) => {
                    return Err(ExpandError::FieldAttr(e));
                },
            };
            proof {
                lemma_field_infos_len(fields_view(fs@), fs@.len() as int);
            }
            let count = count_targets(fs, &infos);
            if entity && count > 1 {
                return Err(ExpandError::MultipleTargets(v.name.clone()));
            }
            if entity && count == 0 {
                return Err(ExpandError::MissingTarget(v.name.clone()));
            }
            let fields = build_field_plans(fs, &infos, entity);
            let propagate = if entity {
                plan_propagation(container, &vf)
            } else {
                None
            };
            Ok(
                StructPlan {
                    name: v.name.clone(),
                    shape: StructShape::Named,
                    fields,
                    phantom_types,
                    phantom_lifetimes,
                    propagate,
                },
            )
        },
    }
}

/// A successful reading of the first `n` fields gives `n` readings.
pub proof fn lemma_field_infos_len(fs: Seq<FieldV>, n: int)
    requires
        0 <= n,
    ensures
        field_infos_prefix(fs, n) matches Ok(s) ==> s.len() == n,
    decreases n,
{
    if n > 0 {
        lemma_field_infos_len(fs, n - 1);
    }
}

/// Once planning a variant fails, the error stays the outcome.
proof fn lemma_variants_error_stays(
    vs: Seq<VariantV>,
    m: int,
    n: int,
    kind: EventKind,
    container: MetaFlagsV,
    type_params: Seq<Seq<char>>,
    lifetime_params: Seq<Seq<char>>,
)
    requires
        0 <= m <= n,
        plan_variants_prefix(vs, m, kind, container, type_params, lifetime_params) is Err,
    ensures
        plan_variants_prefix(vs, n, kind, container, type_params, lifetime_params)
            == plan_variants_prefix(vs, m, kind, container, type_params, lifetime_params),
    decreases n - m,
{
    if n > m {
        lemma_variants_error_stays(vs, m, n - 1, kind, container, type_params, lifetime_params);
    }
}

/// Plans the derive of `kind` on `input`; see [`expansion`].
pub fn derive_enum_event_impl(input: &DeriveInput, kind: EventKind) -> (r: Result<
    ExpansionPlan,
    ExpandError,
>)
    ensures
        plan_agrees(plan_result_view(r), expansion(input@, kind)),
{
    let container = match read_settings(&input.attrs, MetaLevel::Container) {
        Ok(f) => f,
        Err(e) => {
            return Err(ExpandError::ContainerAttr(e));
        },
    };
    let variants = match &input.data {
        DataInput::Enum(vs) => vs,
        _ => {
            return Err(ExpandError::NotAnEnum);
        },
    };
    let module_name = to_snake_case(input.name.as_str());
    let ghost vv = variants_view(variants@);
    let ghost tp = strings_view(input.type_params@);
    let ghost lp = strings_view(input.lifetime_params@);
    let mut structs: Vec<StructPlan> = Vec::new();
    proof {
        assert(structs_view(structs@) =~= Seq::<StructPlanV>::empty());
    }
    let mut i: usize = 0;
    while i < variants.len()
        invariant
            i <= variants@.len(),
            vv == variants_view(variants@),
            tp == strings_view(input.type_params@),
            lp == strings_view(input.lifetime_params@),
            input@.data == DataV::Enum(vv),
            settings(input@.attrs, MetaLevel::Container) == Ok::<MetaFlagsV, MetaError>(container@),
            module_name@ == snake_case(input@.name),
            plan_variants_prefix(vv, i as int, kind, container@, tp, lp) matches Ok(want)
                && structs_agree(structs_view(structs@), want),
        decreases variants@.len() - i,
    {
        assert(vv[i as int] == variants@[i as int]@);
        match plan_variant_struct(
            &variants[i],
            kind,
            &container,
            &input.type_params,
            &input.lifetime_params,
        ) {
            Ok(p) => {
                let ghost before = structs@;
                let ghost want = plan_variants_prefix(vv, i as int, kind, container@, tp, lp)->Ok_0;
                let ghost w = plan_variant(vv[i as int], kind, container@, tp, lp)->Ok_0;
                structs.push(p);
                proof {
                    assert(structs@ == before.push(p));
                    assert(structs_view(structs@) =~= structs_view(before).push(p@));
                    let got = structs_view(structs@);
                    let next = want.push(w);
                    assert(plan_variants_prefix(vv, i + 1, kind, container@, tp, lp) == Ok::<
                        Seq<StructPlanV>,
                        ExpandErrorV,
                    >(next));
                    assert forall|j: int| 0 <= j < got.len() implies #[trigger] struct_agrees(
                        got[j],
                        next[j],
                    ) by {
                        if j < before.len() {
                            assert(struct_agrees(structs_view(before)[j], want[j]));
                        }
                    }
                }
            },
            Err(e) => {
                proof {
                    assert(plan_variants_prefix(vv, i + 1, kind, container@, tp, lp) == Err::<
                        Seq<StructPlanV>,
                        ExpandErrorV,
                    >(e@));
                    lemma_variants_error_stays(vv, i + 1, vv.len() as int, kind, container@, tp, lp);
                }
                return Err(e);
            },
        }
        i += 1;
    }
    let r = ExpansionPlan { module_name, kind, structs };
    proof {
        assert(vv.len() == variants@.len());
    }
    Ok(r)
}

/// Plans `#[derive(EnumEvent)]`: one observer event struct per variant.
pub fn derive_enum_events(input: &DeriveInput) -> (r: Result<ExpansionPlan, ExpandError>)
    ensures
        plan_agrees(plan_result_view(r), expansion(input@, EventKind::Event)),
{
    derive_enum_event_impl(input, EventKind::Event)
}

/// Plans `#[derive(EnumMessage)]`: one buffered message struct per variant.
pub fn derive_enum_messages(input: &DeriveInput) -> (r: Result<ExpansionPlan, ExpandError>)
    ensures
        plan_agrees(plan_result_view(r), expansion(input@, EventKind::Message)),
{
    derive_enum_event_impl(input, EventKind::Message)
}

/// Plans `#[derive(EnumEntityEvent)]`: one entity-targeted event struct per
/// variant; every variant needs named fields with exactly one target field.
pub fn derive_enum_entity_events(input: &DeriveInput) -> (r: Result<ExpansionPlan, ExpandError>)
    ensures
        plan_agrees(plan_result_view(r), expansion(input@, EventKind::EntityEvent)),
{
    derive_enum_event_impl(input, EventKind::EntityEvent)
}

/// The trait that each generated struct derives for a kind.
pub open spec fn event_derive_name(kind: EventKind) -> Seq<char> {
    match kind {
        EventKind::EntityEvent => "EntityEvent"@,
        EventKind::Message => "Message"@,
        EventKind::Event => "Event"@,
    }
}

/// The doc comment of each generated struct for a kind.
pub open spec fn struct_doc_text(kind: EventKind) -> Seq<char> {
    match kind {
        EventKind::EntityEvent => "Entity event type corresponding to the enum variant."@,
        EventKind::Message => "Message type corresponding to the enum variant."@,
        EventKind::Event => "Event type corresponding to the enum variant."@,
    }
}

/// The doc comment of the generated module for a kind.
pub open spec fn module_doc_text(kind: EventKind) -> Seq<char> {
    match kind {
        EventKind::EntityEvent => "Generated module containing entity event types for each enum variant."@,
        EventKind::Message => "Generated module containing message types for each enum variant."@,
        EventKind::Event => "Generated module containing event types for each enum variant."@,
    }
}

/// What the generated module imports from `bevy_ecs` for a kind (a use
/// tree).
pub open spec fn import_tree_text(kind: EventKind) -> Seq<char> {
    match kind {
        EventKind::EntityEvent => "bevy_ecs::{entity::Entity, event::EntityEvent}"@,
        EventKind::Message => "bevy_ecs::message::Message"@,
        EventKind::Event => "bevy_ecs::event::Event"@,
    }
}

impl EventKind {
    /// The trait that each generated struct derives.
    pub fn event_derive(&self) -> (r: &'static str)
        ensures
            r@ == event_derive_name(*self),
    {
        match self {
            EventKind::EntityEvent => "EntityEvent",
            EventKind::Message => "Message",
            EventKind::Event => "Event",
        }
    }

    /// The doc comment of each generated struct.
    pub fn struct_doc(&self) -> (r: &'static str)
        ensures
            r@ == struct_doc_text(*self),
    {
        match self {
            EventKind::EntityEvent => "Entity event type corresponding to the enum variant.",
            EventKind::Message => "Message type corresponding to the enum variant.",
            EventKind::Event => "Event type corresponding to the enum variant.",
        }
    }

    /// The doc comment of the generated module.
    pub fn module_doc(&self) -> (r: &'static str)
        ensures
            r@ == module_doc_text(*self),
    {
        match self {
            EventKind::EntityEvent => "Generated module containing entity event types for each enum variant.",
            EventKind::Message => "Generated module containing message types for each enum variant.",
            EventKind::Event => "Generated module containing event types for each enum variant.",
        }
    }

    /// What the generated module imports from `bevy_ecs`, as a use tree.
    pub fn import_tree(&self) -> (r: &'static str)
        ensures
            r@ == import_tree_text(*self),
    {
        match self {
            EventKind::EntityEvent => "bevy_ecs::{entity::Entity, event::EntityEvent}",
            EventKind::Message => "bevy_ecs::message::Message",
            EventKind::Event => "bevy_ecs::event::Event",
        }
    }
}

/// The standard traits that a generated struct of a shape derives besides
/// the event trait.
pub open spec fn std_derive_names(shape: StructShape) -> Seq<Seq<char>> {
    match shape {
        StructShape::Unit => seq!["Clone"@, "Copy"@, "Debug"@, "Default"@],
        _ => seq!["Clone"@, "Debug"@],
    }
}

impl StructPlan {
    /// The struct needs a `PhantomData` field, and then a `new` constructor,
    /// exactly when some type or lifetime parameter is unused.
    pub fn needs_phantom(&self) -> (r: bool)
        ensures
            r == (self@.phantom_types.len() > 0 || self@.phantom_lifetimes.len() > 0),
    {
        self.phantom_types.len() > 0 || self.phantom_lifetimes.len() > 0
    }

    /// The standard traits that the struct derives besides the event trait:
    /// a unit struct is also `Copy` and `Default`.
    pub fn std_derives(&self) -> (r: Vec<&'static str>)
        ensures
            r@.map_values(|s: &'static str| s@) == std_derive_names(self.shape),
    {
        let mut r: Vec<&'static str> = Vec::new();
        r.push("Clone");
        match self.shape {
            StructShape::Unit => {
                r.push("Copy");
                r.push("Debug");
                r.push("Default");
            },
            _ => {
                r.push("Debug");
            },
        }
        proof {
            assert(r@.map_values(|s: &'static str| s@) =~= std_derive_names(self.shape));
        }
        r
    }
}

} // verus!
