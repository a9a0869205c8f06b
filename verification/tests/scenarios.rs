use bevy_enum_event::attrs::{AttrArgs, AttrInput};
use bevy_enum_event::generics::{TypePathRef, TypeRefs};
use bevy_enum_event::model::{DataInput, DeriveInput, FieldInput, FieldsInput, VariantInput};
use bevy_enum_event::plan::{ExpansionPlan, StructShape};
use bevy_enum_event::tokens::Tok;
use bevy_enum_event::{derive_enum_entity_events, derive_enum_messages};

fn id(s: &str) -> Tok {
    Tok::Ident(s.to_string())
}

fn pj(c: char) -> Tok {
    Tok::Punct { ch: c, joint: true }
}

fn pa(c: char) -> Tok {
    Tok::Punct { ch: c, joint: false }
}

fn texts(ts: &[Tok]) -> Vec<String> {
    ts.iter()
        .map(|t| match t {
            Tok::Ident(s) | Tok::Literal(s) | Tok::Group(s) => s.clone(),
            Tok::Punct { ch, .. } => ch.to_string(),
        })
        .collect()
}

fn enum_event(tokens: Vec<Tok>) -> AttrInput {
    AttrInput { path: vec!["enum_event".to_string()], args: AttrArgs::List(tokens) }
}

fn ty(name: &str) -> TypeRefs {
    TypeRefs { paths: vec![TypePathRef { qualified: false, plain_ident: Some(name.to_string()) }], lifetimes: vec![] }
}

fn named(name: &str, attrs: Vec<AttrInput>, t: TypeRefs) -> FieldInput {
    FieldInput { name: Some(name.to_string()), attrs, ty: t }
}

fn unnamed(t: TypeRefs) -> FieldInput {
    FieldInput { name: None, attrs: vec![], ty: t }
}

fn entity() -> FieldInput {
    named("entity", vec![], ty("Entity"))
}

fn v(name: &str, attrs: Vec<AttrInput>, fields: FieldsInput) -> VariantInput {
    VariantInput { name: name.to_string(), attrs, fields }
}

fn enum_input(name: &str, attrs: Vec<AttrInput>, variants: Vec<VariantInput>) -> DeriveInput {
    DeriveInput {
        name: name.to_string(),
        attrs,
        type_params: vec![],
        lifetime_params: vec![],
        data: DataInput::Enum(variants),
    }
}

fn names(plan: &ExpansionPlan) -> Vec<String> {
    plan.structs.iter().map(|s| s.name.clone()).collect()
}

/// `propagate`, with `auto_propagate` in front when asked.
fn propagate(auto: bool) -> Vec<Tok> {
    if auto {
        vec![id("auto_propagate"), pa(','), id("propagate")]
    } else {
        vec![id("propagate")]
    }
}

/// `propagate = &'static <path>`, with `auto_propagate` in front when asked.
fn propagate_to(auto: bool, path: Vec<Tok>) -> Vec<Tok> {
    let mut t = if auto { vec![id("auto_propagate"), pa(',')] } else { vec![] };
    t.extend([id("propagate"), pa('='), pa('&'), pj('\''), id("static")]);
    t.extend(path);
    t
}

fn bevy_child_of() -> Vec<Tok> {
    vec![pj(':'), pa(':'), id("bevy_ecs"), pj(':'), pa(':'), id("prelude"), pj(':'), pa(':'), id("ChildOf")]
}

fn crate_path(name: &str) -> Vec<Tok> {
    vec![id("crate"), pj(':'), pa(':'), id(name)]
}

fn static_ref(path: Vec<Tok>) -> Vec<String> {
    let mut t = vec![pa('&'), pj('\''), id("static")];
    t.extend(path);
    texts(&t)
}

/// The propagation of struct `i`: `None`, or its auto flag and relation text.
fn prop(plan: &ExpansionPlan, i: usize) -> Option<(bool, Vec<String>)> {
    plan.structs[i].propagate.as_ref().map(|p| (p.auto_propagate, texts(&p.relation)))
}

#[test]
fn test_unit_message_variants() {
    let plan = derive_enum_messages(&enum_input(
        "UnitMessage",
        vec![],
        vec![v("Start", vec![], FieldsInput::Unit), v("Stop", vec![], FieldsInput::Unit), v("Pause", vec![], FieldsInput::Unit)],
    ))
    .unwrap();
    assert_eq!(plan.module_name, "unit_message");
    assert_eq!(names(&plan), vec!["Start", "Stop", "Pause"]);
    for s in &plan.structs {
        assert_eq!(s.shape, StructShape::Unit);
        assert!(s.fields.is_empty());
        assert!(!s.needs_phantom());
    }
}

#[test]
fn test_tuple_message_variants() {
    let plan = derive_enum_messages(&enum_input(
        "TupleMessage",
        vec![],
        vec![
            v("Data", vec![], FieldsInput::Unnamed(vec![unnamed(ty("u32"))])),
            v("Text", vec![], FieldsInput::Unnamed(vec![unnamed(ty("String"))])),
            v("Pair", vec![], FieldsInput::Unnamed(vec![unnamed(ty("u32")), unnamed(ty("String"))])),
        ],
    ))
    .unwrap();
    assert_eq!(plan.module_name, "tuple_message");
    assert_eq!(names(&plan), vec!["Data", "Text", "Pair"]);
    assert_eq!(plan.structs[2].shape, StructShape::Tuple);
    assert_eq!(plan.structs[2].fields.len(), 2);
}

#[test]
fn test_named_message_variants() {
    let plan = derive_enum_messages(&enum_input(
        "NamedMessage",
        vec![],
        vec![
            v("Request", vec![], FieldsInput::Named(vec![named("id", vec![], ty("u32")), named("payload", vec![], ty("String"))])),
            v("Response", vec![], FieldsInput::Named(vec![named("id", vec![], ty("u32")), named("data", vec![], ty("Vec"))])),
            v("Empty", vec![], FieldsInput::Unit),
        ],
    ))
    .unwrap();
    assert_eq!(plan.module_name, "named_message");
    assert_eq!(names(&plan), vec!["Request", "Response", "Empty"]);
    assert_eq!(plan.structs[0].shape, StructShape::Named);
    assert_eq!(plan.structs[1].fields.len(), 2);
    assert_eq!(plan.structs[2].shape, StructShape::Unit);
}

#[test]
fn test_mixed_message_variants() {
    let plan = derive_enum_messages(&enum_input(
        "MixedMessage",
        vec![],
        vec![
            v("Unit", vec![], FieldsInput::Unit),
            v("Tuple", vec![], FieldsInput::Unnamed(vec![unnamed(ty("String"))])),
            v("Named", vec![], FieldsInput::Named(vec![named("value", vec![], ty("i32"))])),
        ],
    ))
    .unwrap();
    assert_eq!(plan.module_name, "mixed_message");
    let shapes: Vec<StructShape> = plan.structs.iter().map(|s| s.shape).collect();
    assert_eq!(shapes, vec![StructShape::Unit, StructShape::Tuple, StructShape::Named]);
}

#[test]
fn test_generic_message_support() {
    // enum GenericMessage<T> where T: Clone + Debug { Owned(T), Pair(T, u32), Unit }
    let mut generic = enum_input(
        "GenericMessage",
        vec![],
        vec![
            v("Owned", vec![], FieldsInput::Unnamed(vec![unnamed(ty("T"))])),
            v("Pair", vec![], FieldsInput::Unnamed(vec![unnamed(ty("T")), unnamed(ty("u32"))])),
            v("Unit", vec![], FieldsInput::Unit),
        ],
    );
    generic.type_params = vec!["T".to_string()];
    let plan = derive_enum_messages(&generic).unwrap();
    assert_eq!(plan.module_name, "generic_message");
    assert!(!plan.structs[0].needs_phantom());
    assert!(!plan.structs[1].needs_phantom());
    assert_eq!(plan.structs[2].phantom_types, vec!["T"]);
    assert!(plan.structs[2].needs_phantom());

    // enum BorrowedMessage<'a> { Reference(&'a i32), Unit }
    let reference = TypeRefs {
        paths: vec![TypePathRef { qualified: false, plain_ident: Some("i32".to_string()) }],
        lifetimes: vec!["a".to_string()],
    };
    let mut borrowed = enum_input(
        "BorrowedMessage",
        vec![],
        vec![v("Reference", vec![], FieldsInput::Unnamed(vec![unnamed(reference)])), v("Unit", vec![], FieldsInput::Unit)],
    );
    borrowed.lifetime_params = vec!["a".to_string()];
    let plan = derive_enum_messages(&borrowed).unwrap();
    assert_eq!(plan.module_name, "borrowed_message");
    assert!(!plan.structs[0].needs_phantom());
    assert_eq!(plan.structs[1].phantom_lifetimes, vec!["a"]);
}

#[test]
fn test_generated_code() {
    let plan = derive_enum_entity_events(&enum_input(
        "TestEvent",
        vec![enum_event(propagate_to(false, bevy_child_of()))],
        vec![v("Action", vec![], FieldsInput::Named(vec![entity(), named("data", vec![], ty("u16"))]))],
    ))
    .unwrap();
    assert_eq!(plan.module_name, "test_event");
    assert_eq!(prop(&plan, 0), Some((false, static_ref(bevy_child_of()))));
    assert!(plan.structs[0].fields[0].event_target);
    assert!(!plan.structs[0].fields[1].event_target);
}

#[test]
fn test_enum_level_propagate() {
    let plan = derive_enum_entity_events(&enum_input(
        "EnumLevelPropagateEvent",
        vec![enum_event(propagate(false))],
        vec![
            v("Action", vec![], FieldsInput::Named(vec![entity(), named("data", vec![], ty("u16"))])),
            v("Update", vec![], FieldsInput::Named(vec![entity()])),
        ],
    ))
    .unwrap();
    assert_eq!(plan.module_name, "enum_level_propagate_event");
    assert_eq!(prop(&plan, 0), Some((false, vec![])));
    assert_eq!(prop(&plan, 1), Some((false, vec![])));
}

#[test]
fn test_variant_level_override() {
    let plan = derive_enum_entity_events(&enum_input(
        "MixedPropagateEvent",
        vec![enum_event(propagate(false))],
        vec![
            v("Normal", vec![], FieldsInput::Named(vec![entity()])),
            v("Auto", vec![enum_event(propagate(true))], FieldsInput::Named(vec![entity()])),
            v("Custom", vec![enum_event(propagate_to(false, bevy_child_of()))], FieldsInput::Named(vec![entity()])),
        ],
    ))
    .unwrap();
    assert_eq!(plan.module_name, "mixed_propagate_event");
    assert_eq!(prop(&plan, 0), Some((false, vec![])));
    assert_eq!(prop(&plan, 1), Some((true, vec![])));
    assert_eq!(prop(&plan, 2), Some((false, static_ref(bevy_child_of()))));
}

#[test]
fn test_variant_only_propagate() {
    let plan = derive_enum_entity_events(&enum_input(
        "VariantOnlyPropagateEvent",
        vec![],
        vec![
            v("None", vec![], FieldsInput::Named(vec![entity()])),
            v("Manual", vec![enum_event(propagate(false))], FieldsInput::Named(vec![entity()])),
            v("Auto", vec![enum_event(propagate_to(true, bevy_child_of()))], FieldsInput::Named(vec![entity()])),
        ],
    ))
    .unwrap();
    assert_eq!(plan.module_name, "variant_only_propagate_event");
    assert_eq!(prop(&plan, 0), None);
    assert_eq!(prop(&plan, 1), Some((false, vec![])));
    assert_eq!(prop(&plan, 2), Some((true, static_ref(bevy_child_of()))));
}

#[test]
fn test_auto_propagate_override() {
    let plan = derive_enum_entity_events(&enum_input(
        "AutoPropagateOverrideEvent",
        vec![enum_event(propagate(true))],
        vec![
            v("InheritAuto", vec![], FieldsInput::Named(vec![entity()])),
            v("NoAutoCustomRel", vec![enum_event(propagate_to(false, bevy_child_of()))], FieldsInput::Named(vec![entity()])),
            v("WithAutoCustomRel", vec![enum_event(propagate_to(true, bevy_child_of()))], FieldsInput::Named(vec![entity()])),
        ],
    ))
    .unwrap();
    assert_eq!(plan.module_name, "auto_propagate_override_event");
    assert_eq!(prop(&plan, 0), Some((true, vec![])));
    assert_eq!(prop(&plan, 1), Some((false, static_ref(bevy_child_of()))));
    assert_eq!(prop(&plan, 2), Some((true, static_ref(bevy_child_of()))));
}

#[test]
fn test_basic_event_firing() {
    let plan = derive_enum_entity_events(&enum_input(
        "BasicEvent",
        vec![],
        vec![v("Triggered", vec![], FieldsInput::Named(vec![entity()]))],
    ))
    .unwrap();
    assert_eq!(plan.module_name, "basic_event");
    assert_eq!(names(&plan), vec!["Triggered"]);
    assert!(plan.structs[0].fields[0].event_target);
    assert_eq!(prop(&plan, 0), None);
}

#[test]
fn test_entity_specific_vs_global_observers() {
    let plan = derive_enum_entity_events(&enum_input(
        "SpecificEvent",
        vec![],
        vec![v("Happened", vec![], FieldsInput::Named(vec![entity()]))],
    ))
    .unwrap();
    assert_eq!(plan.module_name, "specific_event");
    assert!(plan.structs[0].fields[0].event_target);
}

#[test]
fn test_entity_targeted_observers() {
    let plan = derive_enum_entity_events(&enum_input(
        "TargetedEvent",
        vec![],
        vec![v("Hit", vec![], FieldsInput::Named(vec![entity()]))],
    ))
    .unwrap();
    assert_eq!(plan.module_name, "targeted_event");
    assert_eq!(names(&plan), vec!["Hit"]);
}

#[test]
fn test_custom_target_field() {
    let plan = derive_enum_entity_events(&enum_input(
        "AttackEvent",
        vec![],
        vec![v(
            "Hit",
            vec![],
            FieldsInput::Named(vec![
                named("attacker", vec![enum_event(vec![id("target")])], ty("Entity")),
                named("defender", vec![], ty("Entity")),
            ]),
        )],
    ))
    .unwrap();
    assert_eq!(plan.module_name, "attack_event");
    assert!(plan.structs[0].fields[0].event_target);
    assert!(!plan.structs[0].fields[1].event_target);
}

#[test]
fn test_multiple_events_from_enum() {
    let plan = derive_enum_entity_events(&enum_input(
        "LifecycleEvent",
        vec![],
        vec![
            v("Spawned", vec![], FieldsInput::Named(vec![entity()])),
            v("Updated", vec![], FieldsInput::Named(vec![entity()])),
            v("Destroyed", vec![], FieldsInput::Named(vec![entity()])),
        ],
    ))
    .unwrap();
    assert_eq!(plan.module_name, "lifecycle_event");
    assert_eq!(names(&plan), vec!["Spawned", "Updated", "Destroyed"]);
    assert!(plan.structs.iter().all(|s| s.fields[0].event_target));
}

#[test]
fn test_armor_goblin_propagation() {
    let plan = derive_enum_entity_events(&enum_input(
        "ArmorEvent",
        vec![enum_event(propagate(true))],
        vec![v("Attack", vec![], FieldsInput::Named(vec![entity(), named("damage", vec![], ty("u16"))]))],
    ))
    .unwrap();
    assert_eq!(plan.module_name, "armor_event");
    assert_eq!(prop(&plan, 0), Some((true, vec![])));

    let plan = derive_enum_entity_events(&enum_input(
        "CustomArmorEvent",
        vec![enum_event(propagate_to(true, crate_path("ArmorOf")))],
        vec![v("Attack", vec![], FieldsInput::Named(vec![entity(), named("damage", vec![], ty("u16"))]))],
    ))
    .unwrap();
    assert_eq!(plan.module_name, "custom_armor_event");
    assert_eq!(prop(&plan, 0), Some((true, static_ref(crate_path("ArmorOf")))));

    let plan = derive_enum_entity_events(&enum_input(
        "EnumLevelPropagateEvent",
        vec![enum_event(propagate(true))],
        vec![
            v("InheritEnum", vec![], FieldsInput::Named(vec![entity()])),
            v("ManualDefault", vec![enum_event(propagate(false))], FieldsInput::Named(vec![entity()])),
            v("AutoDefault", vec![enum_event(propagate(true))], FieldsInput::Named(vec![entity()])),
            v("ManualCustom", vec![enum_event(propagate_to(false, crate_path("MountOf")))], FieldsInput::Named(vec![entity()])),
            v("AutoCustom", vec![enum_event(propagate_to(true, crate_path("MountOf")))], FieldsInput::Named(vec![entity()])),
        ],
    ))
    .unwrap();
    assert_eq!(prop(&plan, 0), Some((true, vec![])));
    assert_eq!(prop(&plan, 1), Some((false, vec![])));
    assert_eq!(prop(&plan, 2), Some((true, vec![])));
    assert_eq!(prop(&plan, 3), Some((false, static_ref(crate_path("MountOf")))));
    assert_eq!(prop(&plan, 4), Some((true, static_ref(crate_path("MountOf")))));
}
