//! Properties of the expansion that hold for every input.

use vstd::prelude::*;

use crate::attrs::{
    apply_property, attr_named, field_info, field_info_prefix, lemma_meta_path_advances, meta_list,
    meta_list_from, meta_path, settings, settings_prefix, AttrArgsV, AttrV, MetaError, MetaFlagsV,
    MetaLevel,
};
use crate::generics::{lifetime_use, type_use, unused_names, usage_run, usage_start, usage_step, UsageEvent, UsageState};
use crate::model::{DataV, DeriveInputV, FieldV, FieldsV, VariantV};
use crate::naming::{
    ascii_case_facts, is_ascii_upper, is_lower_char, is_upper_char, lower_first_char, snake_case,
    snake_case_prefix, snake_piece,
};
use crate::plan::{
    effective_propagation, expansion, field_infos, field_types, is_target, lemma_field_infos_len,
    plan_fields, plan_variant, plan_variants_prefix, propagate_plan, target_count, variant_fields,
    plan_agrees, struct_agrees, EventKind, ExpandErrorV, PlanV, PropagateAttrV, StructPlanV, StructShape,
};
use crate::tokens::{
    is_punct, path_is_anchored, plain_relation, qualified_with_super, reaches, reference_prefix_end, relation_outcome,
    super_step, super_tokens, with_super_at, InsertionStepV, TokV, TypeHeadV,
};

verus! {

/// Each successfully planned prefix of variants gives one struct per
/// variant, each being that variant's plan.
proof fn lemma_plan_variants_ok(
    vs: Seq<VariantV>,
    n: int,
    kind: EventKind,
    container: MetaFlagsV,
    tp: Seq<Seq<char>>,
    lp: Seq<Seq<char>>,
)
    requires
        0 <= n,
    ensures
        plan_variants_prefix(vs, n, kind, container, tp, lp) matches Ok(s) ==> {
            &&& s.len() == n
            &&& forall|i: int|
                0 <= i < n ==> #[trigger] plan_variant(vs[i], kind, container, tp, lp) == Ok::<
                    StructPlanV,
                    ExpandErrorV,
                >(s[i])
        },
    decreases n,
{
    if n > 0 {
        lemma_plan_variants_ok(vs, n - 1, kind, container, tp, lp);
    }
}

/// A successful plan of a variant takes the variant's name.
proof fn lemma_plan_variant_name(
    v: VariantV,
    kind: EventKind,
    container: MetaFlagsV,
    tp: Seq<Seq<char>>,
    lp: Seq<Seq<char>>,
)
    ensures
        plan_variant(v, kind, container, tp, lp) matches Ok(s) ==> s.name == v.name
            && s.phantom_types == unused_names(tp, type_use(field_types(variant_fields(v))))
            && s.phantom_lifetimes == unused_names(lp, lifetime_use(field_types(variant_fields(v)))),
{
}

/// Each variant becomes one struct named after it, in the variants' order,
/// inside a module whose name is the enum's name in snake_case; a type or
/// lifetime parameter goes into a struct's phantom data exactly when the
/// variant's fields do not use it, whatever the variant's shape.
pub proof fn law_one_struct_per_variant(input: DeriveInputV, kind: EventKind)
    ensures
        expansion(input, kind) matches Ok(plan) ==> {
            &&& plan.module_name == snake_case(input.name)
            &&& plan.kind == kind
            &&& input.data matches DataV::Enum(vs)
            &&& plan.structs.len() == vs.len()
            &&& forall|i: int|
                0 <= i < vs.len() ==> {
                    &&& (#[trigger] plan.structs[i]).name == vs[i].name
                    &&& plan.structs[i].phantom_types == unused_names(
                        input.type_params,
                        type_use(field_types(variant_fields(vs[i]))),
                    )
                    &&& plan.structs[i].phantom_lifetimes == unused_names(
                        input.lifetime_params,
                        lifetime_use(field_types(variant_fields(vs[i]))),
                    )
                }
        },
{
    if let Ok(cf) = settings(input.attrs, MetaLevel::Container) {
        if let DataV::Enum(vs) = input.data {
            let tp = input.type_params;
            let lp = input.lifetime_params;
            lemma_plan_variants_ok(vs, vs.len() as int, kind, cf, tp, lp);
            if let Ok(s) = plan_variants_prefix(vs, vs.len() as int, kind, cf, tp, lp) {
                assert forall|i: int| 0 <= i < vs.len() implies s[i].name == vs[i].name
                    && s[i].phantom_types == unused_names(
                    tp,
                    type_use(field_types(variant_fields(vs[i]))),
                ) && s[i].phantom_lifetimes == unused_names(
                    lp,
                    lifetime_use(field_types(variant_fields(vs[i]))),
                ) by {
                    assert(plan_variant(vs[i], kind, cf, tp, lp) == Ok::<StructPlanV, ExpandErrorV>(
                        s[i],
                    ));
                    lemma_plan_variant_name(vs[i], kind, cf, tp, lp);
                }
            }
        }
    }
}

/// A name is left unused exactly when it is among the names and the
/// predicate does not hold of it.
pub proof fn law_unused_names_membership(
    names: Seq<Seq<char>>,
    used: spec_fn(Seq<char>) -> bool,
    n: Seq<char>,
)
    ensures
        unused_names(names, used).contains(n) <==> (names.contains(n) && !used(n)),
    decreases names.len(),
{
    if names.len() > 0 {
        let rest = names.drop_last();
        law_unused_names_membership(rest, used, n);
        assert(names =~= rest.push(names.last()));
        if rest.contains(n) {
            let j = choose|j: int| 0 <= j < rest.len() && rest[j] == n;
            assert(names[j] == n);
        }
        if names.contains(n) && n != names.last() {
            let j = choose|j: int| 0 <= j < names.len() && names[j] == n;
            assert(j != names.len() - 1);
            assert(rest[j] == n);
        }
        let u = unused_names(rest, used);
        if !used(names.last()) {
            assert(u.push(names.last())[u.len() as int] == names.last());
            if u.push(names.last()).contains(n) && n != names.last() {
                let j = choose|j: int| 0 <= j < u.len() + 1 && u.push(names.last())[j] == n;
                assert(u[j] == n);
            }
            if u.contains(n) {
                let j = choose|j: int| 0 <= j < u.len() && u[j] == n;
                assert(u.push(names.last())[j] == n);
            }
        }
    } else {
        assert(!names.contains(n));
    }
}

/// The plan of a variant for `EnumEvent` and for `EnumMessage` is the same.
proof fn lemma_variant_event_message(
    v: VariantV,
    container: MetaFlagsV,
    tp: Seq<Seq<char>>,
    lp: Seq<Seq<char>>,
)
    ensures
        plan_variant(v, EventKind::Event, container, tp, lp) == plan_variant(
            v,
            EventKind::Message,
            container,
            tp,
            lp,
        ),
{
}

/// The prefix plans for `EnumEvent` and for `EnumMessage` are the same.
proof fn lemma_variants_event_message(
    vs: Seq<VariantV>,
    n: int,
    container: MetaFlagsV,
    tp: Seq<Seq<char>>,
    lp: Seq<Seq<char>>,
)
    ensures
        plan_variants_prefix(vs, n, EventKind::Event, container, tp, lp) == plan_variants_prefix(
            vs,
            n,
            EventKind::Message,
            container,
            tp,
            lp,
        ),
    decreases n,
{
    if n > 0 {
        lemma_variants_event_message(vs, n - 1, container, tp, lp);
        lemma_variant_event_message(vs[n - 1], container, tp, lp);
    }
}

/// `EnumEvent` and `EnumMessage` accept and refuse the same inputs, for the
/// same reason, and generate the same module and structs; only the derived
/// trait differs.
pub proof fn law_event_and_message_agree(input: DeriveInputV)
    ensures
        expansion(input, EventKind::Message) == match expansion(input, EventKind::Event) {
            Ok(p) => Ok(PlanV { kind: EventKind::Message, ..p }),
            Err(e) => Err(e),
        },
{
    if let Ok(cf) = settings(input.attrs, MetaLevel::Container) {
        if let DataV::Enum(vs) = input.data {
            lemma_variants_event_message(
                vs,
                vs.len() as int,
                cf,
                input.type_params,
                input.lifetime_params,
            );
        }
    }
}

/// Plans of `EnumEvent` and `EnumMessage` carry no propagation attribute
/// and mark no field as the event target.
pub proof fn law_only_entity_events_target_and_propagate(input: DeriveInputV, kind: EventKind)
    requires
        kind != EventKind::EntityEvent,
    ensures
        expansion(input, kind) matches Ok(plan) ==> forall|i: int|
            0 <= i < plan.structs.len() ==> {
                &&& (#[trigger] plan.structs[i]).propagate is None
                &&& forall|j: int|
                    0 <= j < plan.structs[i].fields.len() ==> !(
                    #[trigger] plan.structs[i].fields[j]).event_target
            },
{
    if let Ok(cf) = settings(input.attrs, MetaLevel::Container) {
        if let DataV::Enum(vs) = input.data {
            let tp = input.type_params;
            let lp = input.lifetime_params;
            lemma_plan_variants_ok(vs, vs.len() as int, kind, cf, tp, lp);
            if let Ok(s) = plan_variants_prefix(vs, vs.len() as int, kind, cf, tp, lp) {
                assert forall|i: int| 0 <= i < s.len() implies {
                    &&& (#[trigger] s[i]).propagate is None
                    &&& forall|j: int| 0 <= j < s[i].fields.len() ==> !(#[trigger] s[i].fields[j]).event_target
                } by {
                    assert(plan_variant(vs[i], kind, cf, tp, lp) == Ok::<StructPlanV, ExpandErrorV>(
                        s[i],
                    ));
                }
            }
        }
    }
}

/// A count of exactly one target picks exactly one field.
proof fn lemma_single_target(fs: Seq<FieldV>, infos: Seq<crate::attrs::FieldAttrInfoV>, n: int)
    requires
        0 <= n <= fs.len(),
        n <= infos.len(),
    ensures
        target_count(fs, infos, n) == 0 ==> forall|k: int| 0 <= k < n ==> !is_target(fs[k], infos[k]),
        target_count(fs, infos, n) == 1 ==> exists|j: int|
            0 <= j < n && is_target(fs[j], infos[j]) && forall|k: int|
                0 <= k < n && k != j ==> !is_target(fs[k], infos[k]),
    decreases n,
{
    if n > 0 {
        lemma_single_target(fs, infos, n - 1);
        if target_count(fs, infos, n) == 1 {
            if is_target(fs[n - 1], infos[n - 1]) {
                assert(forall|k: int| 0 <= k < n - 1 ==> !is_target(fs[k], infos[k]));
            } else {
                let j = choose|j: int|
                    0 <= j < n - 1 && is_target(fs[j], infos[j]) && forall|k: int|
                        0 <= k < n - 1 && k != j ==> !is_target(fs[k], infos[k]);
                assert(forall|k: int| 0 <= k < n && k != j ==> !is_target(fs[k], infos[k]));
            }
        }
    }
}

/// The plan of an entity-event variant has named fields, exactly one of
/// them marked as the event target.
proof fn lemma_entity_variant(
    v: VariantV,
    container: MetaFlagsV,
    tp: Seq<Seq<char>>,
    lp: Seq<Seq<char>>,
)
    ensures
        plan_variant(v, EventKind::EntityEvent, container, tp, lp) matches Ok(s) ==> {
            &&& s.shape == StructShape::Named
            &&& exists|j: int|
                0 <= j < s.fields.len() && s.fields[j].event_target && forall|k: int|
                    0 <= k < s.fields.len() && k != j ==> !s.fields[k].event_target
        },
{
    if let FieldsV::Named(fs) = v.fields {
        lemma_field_infos_len(fs, fs.len() as int);
        if let Ok(infos) = field_infos(fs) {
            lemma_single_target(fs, infos, fs.len() as int);
            if let Ok(s) = plan_variant(v, EventKind::EntityEvent, container, tp, lp) {
                let p = plan_fields(fs, infos, true);
                assert(s.fields == p);
                if target_count(fs, infos, fs.len() as int) == 1 {
                    let j = choose|j: int|
                        0 <= j < fs.len() && is_target(fs[j], infos[j]) && forall|k: int|
                            0 <= k < fs.len() && k != j ==> !is_target(fs[k], infos[k]);
                    assert(p[j].event_target);
                    assert(forall|k: int| 0 <= k < p.len() && k != j ==> !p[k].event_target);
                }
            }
        }
    }
}

/// Every struct of an `EnumEntityEvent` plan has named fields, and exactly
/// one of them is marked as the event target.
pub proof fn law_entity_events_have_one_target(input: DeriveInputV)
    ensures
        expansion(input, EventKind::EntityEvent) matches Ok(plan) ==> forall|i: int|
            0 <= i < plan.structs.len() ==> {
                &&& (#[trigger] plan.structs[i]).shape == StructShape::Named
                &&& exists|j: int|
                    0 <= j < plan.structs[i].fields.len() && plan.structs[i].fields[j].event_target
                        && forall|k: int|
                        0 <= k < plan.structs[i].fields.len() && k != j
                            ==> !plan.structs[i].fields[k].event_target
            },
{
    if let Ok(cf) = settings(input.attrs, MetaLevel::Container) {
        if let DataV::Enum(vs) = input.data {
            let tp = input.type_params;
            let lp = input.lifetime_params;
            lemma_plan_variants_ok(vs, vs.len() as int, EventKind::EntityEvent, cf, tp, lp);
            if let Ok(s) = plan_variants_prefix(
                vs,
                vs.len() as int,
                EventKind::EntityEvent,
                cf,
                tp,
                lp,
            ) {
                assert forall|i: int| 0 <= i < s.len() implies {
                    &&& (#[trigger] s[i]).shape == StructShape::Named
                    &&& exists|j: int|
                        0 <= j < s[i].fields.len() && s[i].fields[j].event_target && forall|k: int|
                            0 <= k < s[i].fields.len() && k != j ==> !s[i].fields[k].event_target
                } by {
                    assert(plan_variant(vs[i], EventKind::EntityEvent, cf, tp, lp) == Ok::<
                        StructPlanV,
                        ExpandErrorV,
                    >(s[i]));
                    lemma_entity_variant(vs[i], cf, tp, lp);
                }
            }
        }
    }
}

/// A variant that sets `propagate` itself takes its own settings whole
/// (`auto_propagate` included), ignoring the enum's; a variant that does not
/// takes the enum's settings whole.
pub proof fn law_variant_propagation_overrides(container: MetaFlagsV, variant: MetaFlagsV)
    ensures
        variant.propagate matches Some(t) ==> propagate_plan(effective_propagation(container, variant))
            == Some(PropagateAttrV { auto_propagate: variant.auto_propagate, relation: t }),
        variant.propagate is None ==> propagate_plan(effective_propagation(container, variant))
            == propagate_plan(container),
{
}

/// A relation type that parses as a path from the crate root or in the
/// module hierarchy (`::..`, `crate::..`, `super::..`, `self::..`) is kept as
/// it is; another path gets `super` as its first segment, so that it names
/// the same item from inside the generated module (for a path with a
/// qualified self the qualified self keeps covering as many segments as
/// before); a reference written with `&` is followed to its element type;
/// tokens that are no type are kept.
pub proof fn law_relation_paths(ts: Seq<TokV>, head: Option<TypeHeadV>)
    requires
        ts.len() > 0,
    ensures
        head matches Some(TypeHeadV::Path { qualified, leading_colon, first }) ==> if path_is_anchored(
            leading_colon,
            first,
        ) {
            super_step(ts, 0, head) == InsertionStepV::Keep
        } else {
            &&& super_step(ts, 0, head) == (InsertionStepV::Insert { at: 0, qualified })
            &&& with_super_at(ts, 0, qualified) == if qualified {
                qualified_with_super(ts, 0)
            } else {
                super_tokens() + ts
            }
        },
        head == Some(TypeHeadV::Reference) && is_punct(ts[0], '&') ==> super_step(ts, 0, head)
            == InsertionStepV::Descend(reference_prefix_end(ts, 0)),
        head is None ==> super_step(ts, 0, head) == InsertionStepV::Keep,
{
    assert(ts.skip(0) =~= ts);
    assert(ts.take(0) + super_tokens() + ts.skip(0) =~= super_tokens() + ts);
}

/// Whatever the type parser reports, a relation type that does not start
/// with `&` is either kept as written or gets `super` at its very start; an
/// empty relation stays empty.
pub proof fn law_relation_changes_only_at_start(ts: Seq<TokV>, r: Seq<TokV>)
    requires
        relation_outcome(ts, r),
        ts.len() == 0 || !is_punct(ts[0], '&'),
    ensures
        r == ts || r == with_super_at(ts, 0, false) || r == with_super_at(ts, 0, true),
{
    if r != ts {
        let (k, q) = choose|k: int, q: bool|
            0 <= k < ts.len() && reaches(ts, 0, k) && r == #[trigger] with_super_at(ts, k, q);
        assert(k == 0);
    }
}

/// Where the enum accepts the properties of an `#[enum_event(..)]`
/// attribute, a variant accepts them too, with the same outcome.
pub proof fn law_variant_accepts_what_enum_accepts(t: Seq<TokV>, st: MetaFlagsV)
    ensures
        meta_list(t, MetaLevel::Container, st) is Ok ==> meta_list(t, MetaLevel::Variant, st)
            == meta_list(t, MetaLevel::Container, st),
{
    lemma_variant_accepts_from(t, 0, st);
}

/// The step of [`law_variant_accepts_what_enum_accepts`] from position `p`.
proof fn lemma_variant_accepts_from(t: Seq<TokV>, p: int, st: MetaFlagsV)
    ensures
        meta_list_from(t, p, MetaLevel::Container, st) is Ok ==> meta_list_from(
            t,
            p,
            MetaLevel::Variant,
            st,
        ) == meta_list_from(t, p, MetaLevel::Container, st),
    decreases t.len() - p,
{
    if 0 <= p < t.len() {
        if let Ok((name, p1)) = meta_path(t, p) {
            if let Ok((st2, p2)) = apply_property(t, p1, name, MetaLevel::Container, st) {
                assert(apply_property(t, p1, name, MetaLevel::Variant, st) == apply_property(
                    t,
                    p1,
                    name,
                    MetaLevel::Container,
                    st,
                ));
                if p2 < t.len() && crate::tokens::is_punct(t[p2], ',') && p2 + 1 < t.len() {
                    crate::attrs::lemma_meta_path_advances(t, p);
                    lemma_variant_accepts_from(t, p2 + 1, st2);
                }
            }
        }
    }
}

/// Without uppercase chars, the converted prefix is the prefix itself.
proof fn lemma_snake_prefix_no_upper(s: Seq<char>, n: int)
    requires
        0 <= n <= s.len(),
        forall|i: int| 0 <= i < n ==> !is_upper_char(#[trigger] s[i]),
    ensures
        snake_case_prefix(s, n) == s.take(n),
    decreases n,
{
    if n > 0 {
        lemma_snake_prefix_no_upper(s, n - 1);
        assert(s.take(n) =~= s.take(n - 1).push(s[n - 1]));
        assert(snake_piece(s, n - 1) == seq![s[n - 1]]);
    }
}

/// An identifier with no uppercase char is already in snake_case and is
/// kept as it is.
pub proof fn law_snake_case_keeps_lowercase(s: Seq<char>)
    requires
        forall|i: int| 0 <= i < s.len() ==> !is_upper_char(#[trigger] s[i]),
    ensures
        snake_case(s) == s,
{
    lemma_snake_prefix_no_upper(s, s.len() as int);
    assert(s.take(s.len() as int) =~= s);
}

/// All chars of `s` are ASCII.
pub open spec fn all_ascii(s: Seq<char>) -> bool {
    forall|i: int| 0 <= i < s.len() ==> #[trigger] s[i] <= '\x7f'
}

/// The snake case of an ASCII prefix is ASCII and has no uppercase letter.
proof fn lemma_snake_prefix_ascii(s: Seq<char>, n: int)
    requires
        0 <= n <= s.len(),
        all_ascii(s),
        ascii_case_facts(),
    ensures
        all_ascii(snake_case_prefix(s, n)),
        forall|i: int|
            0 <= i < snake_case_prefix(s, n).len() ==> !is_ascii_upper(
                #[trigger] snake_case_prefix(s, n)[i],
            ),
    decreases n,
{
    if n > 0 {
        lemma_snake_prefix_ascii(s, n - 1);
        let c = s[n - 1];
        let prev = snake_case_prefix(s, n - 1);
        let piece = snake_piece(s, n - 1);
        if is_upper_char(c) {
            let l = lower_first_char(c);
            assert(l as u32 == c as u32 + 32);
            assert(l <= '\x7f' && !is_ascii_upper(l));
        }
        assert forall|i: int| 0 <= i < piece.len() implies piece[i] <= '\x7f' && !is_ascii_upper(
            piece[i],
        ) by {
            if is_upper_char(c) {
                let l = lower_first_char(c);
                assert(l as u32 == c as u32 + 32);
            }
        }
        let whole = snake_case_prefix(s, n);
        assert(whole == prev + piece);
        assert forall|i: int| 0 <= i < whole.len() implies whole[i] <= '\x7f' && !is_ascii_upper(
            whole[i],
        ) by {
            if i < prev.len() {
                assert(whole[i] == prev[i]);
            } else {
                assert(whole[i] == piece[i - prev.len()]);
            }
        }
    }
}

/// For an ASCII identifier the snake case is ASCII, has no uppercase letter,
/// and converting it again changes nothing. (`ascii_case_behaviour`
/// establishes `ascii_case_facts`.)
pub proof fn law_snake_case_ascii(s: Seq<char>)
    requires
        all_ascii(s),
        ascii_case_facts(),
    ensures
        all_ascii(snake_case(s)),
        forall|i: int| 0 <= i < snake_case(s).len() ==> !is_ascii_upper(#[trigger] snake_case(s)[i]),
        snake_case(snake_case(s)) == snake_case(s),
{
    lemma_snake_prefix_ascii(s, s.len() as int);
    let t = snake_case(s);
    assert forall|i: int| 0 <= i < t.len() implies !is_upper_char(#[trigger] t[i]) by {
        assert(t[i] <= '\x7f');
    }
    law_snake_case_keeps_lowercase(t);
}

/// One call on a collector keeps the names looked for and removes no name
/// met so far; a name it adds is one looked for.
proof fn lemma_usage_step(s: UsageState, e: UsageEvent)
    ensures
        usage_step(s, e).type_names == s.type_names,
        usage_step(s, e).lifetime_names == s.lifetime_names,
        s.used_types.subset_of(usage_step(s, e).used_types),
        s.used_lifetimes.subset_of(usage_step(s, e).used_lifetimes),
        s.used_types.subset_of(s.type_names) ==> usage_step(s, e).used_types.subset_of(
            s.type_names,
        ),
        s.used_lifetimes.subset_of(s.lifetime_names) ==> usage_step(
            s,
            e,
        ).used_lifetimes.subset_of(s.lifetime_names),
{
}

/// The states after the first `i` and the first `j` calls, `i <= j`: the
/// later holds every name the earlier held, and both keep the names of the
/// start and hold only names looked for.
proof fn lemma_usage_prefixes(s: UsageState, evs: Seq<UsageEvent>, j: int)
    requires
        0 <= j <= evs.len(),
        s.used_types.subset_of(s.type_names),
        s.used_lifetimes.subset_of(s.lifetime_names),
    ensures
        usage_run(s, evs.take(j)).type_names == s.type_names,
        usage_run(s, evs.take(j)).lifetime_names == s.lifetime_names,
        usage_run(s, evs.take(j)).used_types.subset_of(s.type_names),
        usage_run(s, evs.take(j)).used_lifetimes.subset_of(s.lifetime_names),
        forall|i: int|
            #![trigger evs.take(i)]
            0 <= i <= j ==> usage_run(s, evs.take(i)).used_types.subset_of(
                usage_run(s, evs.take(j)).used_types,
            ) && usage_run(s, evs.take(i)).used_lifetimes.subset_of(
                usage_run(s, evs.take(j)).used_lifetimes,
            ),
    decreases j,
{
    if j == 0 {
        assert(evs.take(0) =~= Seq::<UsageEvent>::empty());
    } else {
        lemma_usage_prefixes(s, evs, j - 1);
        assert(evs.take(j).drop_last() =~= evs.take(j - 1));
        let prev = usage_run(s, evs.take(j - 1));
        lemma_usage_step(prev, evs[j - 1]);
        assert(usage_run(s, evs.take(j)) == usage_step(prev, evs[j - 1]));
    }
}

/// A collector made with the type parameter names `type_names` and the
/// lifetime parameter names `lifetime_names`, after any sequence of
/// `visit_type_path`, `visit_lifetime` and `visit_type` calls: it still looks
/// for exactly those names, every name it has met is one of them, and no
/// call ever removes a name it had met.
pub proof fn law_collector_usage(
    type_names: Seq<Seq<char>>,
    lifetime_names: Seq<Seq<char>>,
    calls: Seq<UsageEvent>,
)
    ensures
        ({
            let end = usage_run(usage_start(type_names, lifetime_names), calls);
            &&& end.type_names == type_names.to_set()
            &&& end.lifetime_names == lifetime_names.to_set()
            &&& end.used_types.subset_of(type_names.to_set())
            &&& end.used_lifetimes.subset_of(lifetime_names.to_set())
        }),
        forall|i: int, j: int|
            #![trigger calls.take(i), calls.take(j)]
            0 <= i <= j <= calls.len() ==> usage_run(
                usage_start(type_names, lifetime_names),
                calls.take(i),
            ).used_types.subset_of(
                usage_run(usage_start(type_names, lifetime_names), calls.take(j)).used_types,
            ) && usage_run(usage_start(type_names, lifetime_names), calls.take(i)).used_lifetimes.subset_of(
                usage_run(usage_start(type_names, lifetime_names), calls.take(j)).used_lifetimes,
            ),
{
    let s = usage_start(type_names, lifetime_names);
    lemma_usage_prefixes(s, calls, calls.len() as int);
    assert(calls.take(calls.len() as int) =~= calls);
    assert forall|i: int, j: int|
        #![trigger calls.take(i), calls.take(j)]
        0 <= i <= j <= calls.len() implies usage_run(s, calls.take(i)).used_types.subset_of(
        usage_run(s, calls.take(j)).used_types,
    ) && usage_run(s, calls.take(i)).used_lifetimes.subset_of(usage_run(s, calls.take(j)).used_lifetimes) by {
        lemma_usage_prefixes(s, calls, j);
    }
}

/// `b` keeps every property that `a` sets.
pub open spec fn flags_grow(a: MetaFlagsV, b: MetaFlagsV) -> bool {
    &&& a.auto_propagate ==> b.auto_propagate
    &&& a.propagate is Some ==> b.propagate is Some
    &&& a.target ==> b.target
}

/// Reading properties sets flags and never clears one.
proof fn lemma_meta_list_grows(t: Seq<TokV>, p: int, level: MetaLevel, st: MetaFlagsV)
    ensures
        meta_list_from(t, p, level, st) matches Ok(st2) ==> flags_grow(st, st2),
    decreases t.len() - p,
{
    if 0 <= p < t.len() {
        lemma_meta_path_advances(t, p);
        if let Ok((name, p1)) = meta_path(t, p) {
            if let Ok((st2, p2)) = apply_property(t, p1, name, level, st) {
                if p2 < t.len() && is_punct(t[p2], ',') && p2 + 1 < t.len() {
                    lemma_meta_list_grows(t, p2 + 1, level, st2);
                }
            }
        }
    }
}

/// The settings of the first `k` of `attrs` are those of the first `k` of
/// any longer prefix.
proof fn lemma_settings_take(attrs: Seq<AttrV>, m: int, k: int, level: MetaLevel)
    requires
        0 <= k <= m <= attrs.len(),
    ensures
        settings_prefix(attrs.take(m), k, level) == settings_prefix(attrs, k, level),
    decreases k,
{
    if k > 0 {
        lemma_settings_take(attrs, m, k - 1, level);
        assert(attrs.take(m)[k - 1] == attrs[k - 1]);
    }
}

/// Reading the `#[enum_event(..)]` attributes of a list is cumulative: the
/// settings after the first `n` attributes are those after the first `n - 1`,
/// with the `n`-th attribute's properties read on top of them when it is an
/// `#[enum_event(..)]` attribute (a word or `= value` form is refused); any
/// other attribute leaves them as they are.
pub proof fn law_settings_cumulative(attrs: Seq<AttrV>, n: int, level: MetaLevel)
    requires
        0 < n <= attrs.len(),
    ensures
        settings(attrs.take(n), level) == match settings(attrs.take(n - 1), level) {
            Err(e) => Err(e),
            Ok(st) => if attr_named(attrs[n - 1], "enum_event"@) {
                match attrs[n - 1].args {
                    AttrArgsV::List(t) => meta_list(t, level, st),
                    AttrArgsV::Word => Err(MetaError::ExpectedParens),
                    AttrArgsV::NameValue => Err(MetaError::ExpectedParensNotValue),
                }
            } else {
                Ok(st)
            },
        },
{
    lemma_settings_take(attrs, n, n, level);
    lemma_settings_take(attrs, n - 1, n - 1, level);
}

/// A property that an earlier `#[enum_event(..)]` attribute sets
/// (`auto_propagate`, `propagate`, `target`) is still set once all the
/// attributes are read: later attributes add properties and never clear one.
pub proof fn law_settings_persist(attrs: Seq<AttrV>, m: int, level: MetaLevel)
    requires
        0 <= m <= attrs.len(),
    ensures
        settings(attrs.take(m), level) matches Ok(early) ==> settings(attrs, level) matches Ok(all)
            ==> flags_grow(early, all),
    decreases attrs.len() - m,
{
    lemma_settings_take(attrs, m, m, level);
    if m < attrs.len() {
        law_settings_persist(attrs, m + 1, level);
        lemma_settings_take(attrs, m + 1, m + 1, level);
        if let Ok(early) = settings_prefix(attrs, m, level) {
            if attr_named(attrs[m], "enum_event"@) {
                if let AttrArgsV::List(t) = attrs[m].args {
                    lemma_meta_list_grows(t, 0, level, early);
                }
            }
            if settings_prefix(attrs, m + 1, level) is Err {
                crate::attrs::lemma_settings_error_stays(attrs, m + 1, attrs.len() as int, level);
            }
        }
    } else {
        assert(attrs.take(m) =~= attrs);
    }
}

/// The copied attributes of the first `n` attributes of a field.
proof fn lemma_field_passthrough(attrs: Seq<AttrV>, n: int)
    requires
        0 <= n <= attrs.len(),
    ensures
        field_info_prefix(attrs, n) matches Ok(info) ==> {
            &&& forall|j: int|
                #![trigger info.passthrough_attrs.contains(j)]
                info.passthrough_attrs.contains(j) <==> (0 <= j < n && !attr_named(
                    attrs[j],
                    "enum_event"@,
                ) && !attr_named(attrs[j], "event_target"@))
            &&& forall|a: int, b: int|
                0 <= a < b < info.passthrough_attrs.len() ==> info.passthrough_attrs[a]
                    < info.passthrough_attrs[b]
            &&& forall|a: int| 0 <= a < info.passthrough_attrs.len() ==> info.passthrough_attrs[a] < n
        },
    decreases n,
{
    if n > 0 {
        lemma_field_passthrough(attrs, n - 1);
        if let Ok(prev) = field_info_prefix(attrs, n - 1) {
            let a = attrs[n - 1];
            if !attr_named(a, "enum_event"@) && !attr_named(a, "event_target"@) {
                let ps = prev.passthrough_attrs;
                let qs = ps.push(n - 1);
                assert forall|j: int| qs.contains(j) <==> (0 <= j < n && !attr_named(
                    attrs[j],
                    "enum_event"@,
                ) && !attr_named(attrs[j], "event_target"@)) by {
                    if qs.contains(j) {
                        let x = choose|x: int| 0 <= x < qs.len() && qs[x] == j;
                        if x < ps.len() {
                            assert(ps[x] == j);
                            assert(ps.contains(j));
                        }
                    }
                    if 0 <= j < n - 1 && ps.contains(j) {
                        let x = choose|x: int| 0 <= x < ps.len() && ps[x] == j;
                        assert(qs[x] == j);
                    }
                    if j == n - 1 {
                        assert(qs[ps.len() as int] == j);
                    }
                }
            } else if let Ok(info) = field_info_prefix(attrs, n) {
                assert(info.passthrough_attrs == prev.passthrough_attrs);
                assert forall|j: int| info.passthrough_attrs.contains(j) implies j != n - 1 by {
                    let x = choose|x: int|
                        0 <= x < info.passthrough_attrs.len() && info.passthrough_attrs[x] == j;
                }
            }
        }
    }
}

/// The attributes copied onto a generated field are exactly the field's
/// attributes named neither `enum_event` nor `event_target`, each once and in
/// their order: two attributes with the same path (two doc lines, two
/// `serde` attributes) are both copied.
pub proof fn law_field_passthrough(attrs: Seq<AttrV>)
    ensures
        field_info(attrs) matches Ok(info) ==> {
            &&& forall|j: int|
                #![trigger info.passthrough_attrs.contains(j)]
                info.passthrough_attrs.contains(j) <==> (0 <= j < attrs.len() && !attr_named(
                    attrs[j],
                    "enum_event"@,
                ) && !attr_named(attrs[j], "event_target"@))
            &&& forall|a: int, b: int|
                0 <= a < b < info.passthrough_attrs.len() ==> info.passthrough_attrs[a]
                    < info.passthrough_attrs[b]
        },
{
    lemma_field_passthrough(attrs, attrs.len() as int);
}

/// Whether a word starts at position `i` of `s`: an uppercase char after a
/// lowercase one, or an uppercase char before a lowercase one.
pub open spec fn word_starts_at(s: Seq<char>, i: int) -> bool {
    is_upper_char(s[i]) && (is_lower_char(s[i - 1]) || (i + 1 < s.len() && is_lower_char(s[i + 1])))
}

/// Converting the first `n <= i` positions of `s` or of `s.take(i)` gives
/// the same, where the char at `i - 1` does not look at the char at `i`.
proof fn lemma_snake_take(s: Seq<char>, i: int, n: int)
    requires
        0 < i <= s.len(),
        0 <= n <= i,
        !is_upper_char(s[i - 1]) || i == s.len() || !is_lower_char(s[i]),
    ensures
        snake_case_prefix(s.take(i), n) == snake_case_prefix(s, n),
    decreases n,
{
    if n > 0 {
        lemma_snake_take(s, i, n - 1);
        let t = s.take(i);
        assert(t[n - 1] == s[n - 1]);
        if n - 1 > 0 {
            assert(t[n - 2] == s[n - 2]);
        }
        if n < i {
            assert(t[n] == s[n]);
        }
        assert(snake_piece(t, n - 1) == snake_piece(s, n - 1));
    }
}

/// From position `i` on, the conversion of `s` is that of `s.skip(i)`, with
/// an underscore in front where a word starts at `i`.
proof fn lemma_snake_skip(s: Seq<char>, i: int, m: int)
    requires
        0 < i < s.len(),
        1 <= m <= s.len() - i,
    ensures
        snake_case_prefix(s, i + m) == snake_case_prefix(s, i) + (if word_starts_at(s, i) {
            seq!['_']
        } else {
            seq![]
        }) + snake_case_prefix(s.skip(i), m),
    decreases m,
{
    let u = s.skip(i);
    let mid: Seq<char> = if word_starts_at(s, i) {
        seq!['_']
    } else {
        seq![]
    };
    if m == 1 {
        assert(u[0] == s[i]);
        assert(snake_case_prefix(u, 0) == Seq::<char>::empty());
        if i + 1 < s.len() {
            assert(u[1] == s[i + 1]);
        }
        assert(snake_piece(s, i) =~= mid + snake_piece(u, 0));
        assert(snake_case_prefix(s, i + 1) =~= snake_case_prefix(s, i) + mid + snake_case_prefix(u, 1));
    } else {
        lemma_snake_skip(s, i, m - 1);
        let j = m - 1;
        assert(u[j] == s[i + j]);
        assert(u[j - 1] == s[i + j - 1]);
        if j + 1 < u.len() {
            assert(u[j + 1] == s[i + j + 1]);
        }
        assert(snake_piece(u, j) == snake_piece(s, i + j));
        assert(snake_case_prefix(s, i + m) =~= snake_case_prefix(s, i) + mid + snake_case_prefix(u, m));
    }
}

/// The conversion splits at any position `i`: the snake case of `s` is the
/// snake case of the part before `i`, an underscore exactly where a word
/// starts at `i` (an uppercase char after a lowercase one, whatever follows,
/// or an uppercase char before a lowercase one, as at the end of an acronym:
/// `HTTPServer` gives `http_server`), and the snake case of the part from `i`
/// on. (The char at `i - 1` is not both uppercase with the char at `i`
/// lowercase, which could only change how `i - 1` itself is read.)
pub proof fn law_snake_case_splits(s: Seq<char>, i: int)
    requires
        0 < i < s.len(),
        !is_upper_char(s[i - 1]) || !is_lower_char(s[i]),
    ensures
        snake_case(s) == snake_case(s.take(i)) + (if word_starts_at(s, i) {
            seq!['_']
        } else {
            seq![]
        }) + snake_case(s.skip(i)),
{
    lemma_snake_take(s, i, i);
    lemma_snake_skip(s, i, s.len() - i);
}

/// A lowercase char followed by an uppercase one is a word boundary: the
/// snake case of the whole is the snake case of the part before it, an
/// underscore, and the snake case of the part from the uppercase char on,
/// whatever follows (so `aB` gives `a_b` and `PlayerA` gives `player_a`).
pub proof fn law_snake_case_splits_at_word_boundary(s: Seq<char>, i: int)
    requires
        0 < i < s.len(),
        is_upper_char(s[i]),
        is_lower_char(s[i - 1]),
        !is_upper_char(s[i - 1]),
    ensures
        snake_case(s) == snake_case(s.take(i)) + seq!['_'] + snake_case(s.skip(i)),
{
    law_snake_case_splits(s, i);
}

/// The relation of a generated propagation attribute does not depend on
/// `auto_propagate`: wherever the plan asks for a relation written as an
/// ASCII type name, alone or behind one reference prefix (`&`, `&'static`,
/// `&'a mut`, ..), the generated attribute has that relation with
/// `super ::` in front of the name, with or without `auto_propagate`.
pub proof fn law_plain_relation_gets_super(
    got: Result<PlanV, ExpandErrorV>,
    input: DeriveInputV,
    kind: EventKind,
)
    requires
        plan_agrees(got, expansion(input, kind)),
    ensures
        got matches Ok(g) ==> expansion(input, kind) matches Ok(w) ==> forall|i: int|
            #![trigger g.structs[i]]
            0 <= i < w.structs.len() && (w.structs[i].propagate matches Some(p) && plain_relation(
                p.relation,
            )) ==> g.structs[i].propagate == Some(
                PropagateAttrV {
                    auto_propagate: w.structs[i].propagate->Some_0.auto_propagate,
                    relation: w.structs[i].propagate->Some_0.relation.drop_last() + super_tokens()
                        + seq![w.structs[i].propagate->Some_0.relation.last()],
                },
            ),
{
    if let Ok(g) = got {
        if let Ok(w) = expansion(input, kind) {
            assert forall|i: int|
                #![trigger g.structs[i]]
                0 <= i < w.structs.len() && (w.structs[i].propagate matches Some(p) && plain_relation(
                    p.relation,
                )) implies g.structs[i].propagate == Some(
                PropagateAttrV {
                    auto_propagate: w.structs[i].propagate->Some_0.auto_propagate,
                    relation: w.structs[i].propagate->Some_0.relation.drop_last() + super_tokens()
                        + seq![w.structs[i].propagate->Some_0.relation.last()],
                },
            ) by {
                assert(struct_agrees(g.structs[i], w.structs[i]));
                let raw = w.structs[i].propagate->Some_0.relation;
                let n = raw.len() as int;
                assert(raw.take(n - 1) =~= raw.drop_last());
                assert(raw.skip(n - 1) =~= seq![raw.last()]);
            }
        }
    }
}

} // verus!
