use bevy_enum_event::attrs::{AttrArgs, AttrInput, MetaError};
use bevy_enum_event::generics::{TypePathRef, TypeRefs};
use bevy_enum_event::model::{DataInput, DeriveInput, FieldInput, FieldsInput, VariantInput};
use bevy_enum_event::plan::{
    derive_enum_entity_events, derive_enum_event_impl, derive_enum_events, derive_enum_messages,
    EventKind, ExpandError, ExpansionPlan, StructShape,
};
use bevy_enum_event::tokens::Tok;

fn id(s: &str) -> Tok {
    Tok::Ident(s.to_string())
}

fn pj(c: char) -> Tok {
    Tok::Punct { ch: c, joint: true }
}

fn pa(c: char) -> Tok {
    Tok::Punct { ch: c, joint: false }
}

fn lit(s: &str) -> Tok {
    Tok::Literal(s.to_string())
}

fn enum_event(tokens: Vec<Tok>) -> AttrInput {
    AttrInput { path: vec!["enum_event".to_string()], args: AttrArgs::List(tokens) }
}

fn other_attr(name: &str) -> AttrInput {
    AttrInput { path: vec![name.to_string()], args: AttrArgs::List(vec![id("x")]) }
}

fn no_refs() -> TypeRefs {
    TypeRefs { paths: vec![], lifetimes: vec![] }
}

fn plain_type(name: &str) -> TypeRefs {
    TypeRefs {
        paths: vec![TypePathRef { qualified: false, plain_ident: Some(name.to_string()) }],
        lifetimes: vec![],
    }
}

fn named(name: &str, attrs: Vec<AttrInput>, ty: TypeRefs) -> FieldInput {
    FieldInput { name: Some(name.to_string()), attrs, ty }
}

fn unnamed(ty: TypeRefs) -> FieldInput {
    FieldInput { name: None, attrs: vec![], ty }
}

fn variant(name: &str, attrs: Vec<AttrInput>, fields: FieldsInput) -> VariantInput {
    VariantInput { name: name.to_string(), attrs, fields }
}

fn input(name: &str, attrs: Vec<AttrInput>, variants: Vec<VariantInput>) -> DeriveInput {
    DeriveInput {
        name: name.to_string(),
        attrs,
        type_params: vec![],
        lifetime_params: vec![],
        data: DataInput::Enum(variants),
    }
}

fn struct_names(plan: &ExpansionPlan) -> Vec<String> {
    plan.structs.iter().map(|s| s.name.clone()).collect()
}

fn texts(ts: &[Tok]) -> Vec<String> {
    ts.iter()
        .map(|t| match t {
            Tok::Ident(s) | Tok::Literal(s) | Tok::Group(s) => s.clone(),
            Tok::Punct { ch, .. } => ch.to_string(),
        })
        .collect()
}

fn entity_field() -> FieldInput {
    named("entity", vec![], plain_type("Entity"))
}

#[test]
fn test_convert_macro() {
    let plan = derive_enum_events(&input(
        "Message",
        vec![],
        vec![
            variant("Increment", vec![], FieldsInput::Unit),
            variant("Decrement", vec![], FieldsInput::Unit),
        ],
    ))
    .unwrap();
    assert_eq!(plan.module_name, "message");
    let result = format!("{}::{}", plan.module_name, plan.structs[0].name);
    assert!(result.contains("Increment"));
    let result2 = format!("{}::{}", plan.module_name, plan.structs[1].name);
    assert!(result2.contains("Decrement"));
}

#[test]
fn every_variant_becomes_a_struct_in_order() {
    let plan = derive_enum_events(&input(
        "GameEvent",
        vec![],
        vec![
            variant("Victory", vec![], FieldsInput::Unnamed(vec![unnamed(plain_type("String"))])),
            variant(
                "ScoreChanged",
                vec![],
                FieldsInput::Named(vec![
                    named("team", vec![], plain_type("u32")),
                    named("score", vec![], plain_type("i32")),
                ]),
            ),
            variant("GameOver", vec![], FieldsInput::Unit),
        ],
    ))
    .unwrap();
    assert_eq!(plan.module_name, "game_event");
    assert_eq!(plan.kind, EventKind::Event);
    assert_eq!(struct_names(&plan), vec!["Victory", "ScoreChanged", "GameOver"]);
    assert_eq!(plan.structs[0].shape, StructShape::Tuple);
    assert_eq!(plan.structs[1].shape, StructShape::Named);
    assert_eq!(plan.structs[2].shape, StructShape::Unit);
    assert_eq!(plan.structs[1].fields.len(), 2);
    for s in &plan.structs {
        assert!(s.propagate.is_none());
        assert!(!s.needs_phantom());
        assert!(s.fields.iter().all(|f| !f.event_target));
    }
    assert_eq!(plan.structs[2].std_derives(), vec!["Clone", "Copy", "Debug", "Default"]);
    assert_eq!(plan.structs[0].std_derives(), vec!["Clone", "Debug"]);
}

#[test]
fn event_and_message_plans_agree() {
    let make = || {
        input(
            "NetworkMessage",
            vec![],
            vec![
                variant("Connected", vec![], FieldsInput::Unnamed(vec![unnamed(plain_type("String"))])),
                variant(
                    "Disconnected",
                    vec![],
                    FieldsInput::Named(vec![named("reason", vec![], plain_type("String"))]),
                ),
            ],
        )
    };
    let a = derive_enum_events(&make()).unwrap();
    let b = derive_enum_messages(&make()).unwrap();
    assert_eq!(a.kind, EventKind::Event);
    assert_eq!(b.kind, EventKind::Message);
    assert_eq!(a.module_name, b.module_name);
    assert_eq!(b.module_name, "network_message");
    assert_eq!(struct_names(&a), struct_names(&b));
}

#[test]
fn phantom_data_holds_unused_generics() {
    // enum GenericEvent<'a, T> { Borrowed(&'a T), Owned(T), Done }
    let borrowed = TypeRefs {
        paths: vec![TypePathRef { qualified: false, plain_ident: Some("T".to_string()) }],
        lifetimes: vec!["a".to_string()],
    };
    let mut inp = input(
        "GenericEvent",
        vec![],
        vec![
            variant("Borrowed", vec![], FieldsInput::Unnamed(vec![unnamed(borrowed)])),
            variant("Owned", vec![], FieldsInput::Unnamed(vec![unnamed(plain_type("T"))])),
            variant("Done", vec![], FieldsInput::Unit),
        ],
    );
    inp.type_params = vec!["T".to_string()];
    inp.lifetime_params = vec!["a".to_string()];
    let plan = derive_enum_events(&inp).unwrap();
    assert_eq!(plan.module_name, "generic_event");
    assert!(plan.structs[0].phantom_types.is_empty());
    assert!(plan.structs[0].phantom_lifetimes.is_empty());
    assert!(!plan.structs[0].needs_phantom());
    assert!(plan.structs[1].phantom_types.is_empty());
    assert_eq!(plan.structs[1].phantom_lifetimes, vec!["a"]);
    assert!(plan.structs[1].needs_phantom());
    assert_eq!(plan.structs[2].phantom_types, vec!["T"]);
    assert_eq!(plan.structs[2].phantom_lifetimes, vec!["a"]);
}

#[test]
fn qualified_or_compound_paths_do_not_use_a_type_parameter() {
    let refs = TypeRefs {
        paths: vec![
            TypePathRef { qualified: true, plain_ident: Some("T".to_string()) },
            TypePathRef { qualified: false, plain_ident: None },
            TypePathRef { qualified: false, plain_ident: Some("U".to_string()) },
        ],
        lifetimes: vec!["static".to_string()],
    };
    let mut inp = input("E", vec![], vec![variant("A", vec![], FieldsInput::Unnamed(vec![unnamed(refs)]))]);
    inp.type_params = vec!["T".to_string(), "U".to_string(), "V".to_string()];
    inp.lifetime_params = vec!["a".to_string()];
    let plan = derive_enum_events(&inp).unwrap();
    assert_eq!(plan.structs[0].phantom_types, vec!["T", "V"]);
    assert_eq!(plan.structs[0].phantom_lifetimes, vec!["a"]);
}

#[test]
fn entity_event_marks_the_entity_field() {
    let plan = derive_enum_entity_events(&input(
        "PlayerEvent",
        vec![],
        vec![
            variant("Spawned", vec![], FieldsInput::Named(vec![entity_field()])),
            variant(
                "Damaged",
                vec![],
                FieldsInput::Named(vec![entity_field(), named("amount", vec![], plain_type("f32"))]),
            ),
        ],
    ))
    .unwrap();
    assert_eq!(plan.module_name, "player_event");
    assert!(plan.structs[0].fields[0].event_target);
    assert!(plan.structs[1].fields[0].event_target);
    assert!(!plan.structs[1].fields[1].event_target);
    assert!(plan.structs.iter().all(|s| s.propagate.is_none()));
}

#[test]
fn entity_event_custom_target_field() {
    let attack = variant(
        "Attack",
        vec![],
        FieldsInput::Named(vec![
            named("attacker", vec![enum_event(vec![id("target")])], plain_type("Entity")),
            named("defender", vec![], plain_type("Entity")),
        ]),
    );
    let plan = derive_enum_entity_events(&input("CombatEvent", vec![], vec![attack])).unwrap();
    assert!(plan.structs[0].fields[0].event_target);
    assert!(!plan.structs[0].fields[1].event_target);
    // the marker attribute itself is not copied
    assert!(plan.structs[0].fields[0].passthrough_attrs.is_empty());

    let legacy = variant(
        "Hit",
        vec![],
        FieldsInput::Named(vec![named("who", vec![other_attr("event_target")], plain_type("Entity"))]),
    );
    let plan = derive_enum_entity_events(&input("CombatEvent", vec![], vec![legacy])).unwrap();
    assert!(plan.structs[0].fields[0].event_target);
}

#[test]
fn entity_event_needs_exactly_one_target() {
    let unit = derive_enum_entity_events(&input("E", vec![], vec![variant("A", vec![], FieldsInput::Unit)]));
    assert!(matches!(unit, Err(ExpandError::MissingTarget(ref v)) if v == "A"));

    let tuple = derive_enum_entity_events(&input(
        "E",
        vec![],
        vec![variant("B", vec![], FieldsInput::Unnamed(vec![unnamed(plain_type("Entity"))]))],
    ));
    assert!(matches!(tuple, Err(ExpandError::MissingTarget(ref v)) if v == "B"));

    let none = derive_enum_entity_events(&input(
        "E",
        vec![],
        vec![variant("C", vec![], FieldsInput::Named(vec![named("who", vec![], plain_type("Entity"))]))],
    ));
    assert!(matches!(none, Err(ExpandError::MissingTarget(ref v)) if v == "C"));

    let two = derive_enum_entity_events(&input(
        "E",
        vec![],
        vec![variant(
            "D",
            vec![],
            FieldsInput::Named(vec![
                entity_field(),
                named("other", vec![enum_event(vec![id("target")])], plain_type("Entity")),
            ]),
        )],
    ));
    assert!(matches!(two, Err(ExpandError::MultipleTargets(ref v)) if v == "D"));

    // the same variants are fine for ordinary events
    assert!(derive_enum_events(&input("E", vec![], vec![variant("A", vec![], FieldsInput::Unit)])).is_ok());
}

#[test]
fn passthrough_attributes_keep_their_order() {
    let field = named(
        "value",
        vec![other_attr("doc"), enum_event(vec![id("deref")]), other_attr("serde"), other_attr("event_target")],
        plain_type("u32"),
    );
    let plan = derive_enum_events(&input("E", vec![], vec![variant("A", vec![], FieldsInput::Named(vec![field]))]))
        .unwrap();
    assert_eq!(plan.structs[0].fields[0].passthrough_attrs, vec![0, 2]);
    // outside entity events no field is marked
    assert!(!plan.structs[0].fields[0].event_target);
}

#[test]
fn relative_relation_gets_super_prefix() {
    let value = vec![pa('&'), pj('\''), id("static"), id("ChildOf")];
    let mut tokens = vec![id("propagate"), pa('=')];
    tokens.extend(value);
    let plan = derive_enum_entity_events(&input(
        "E",
        vec![enum_event(tokens)],
        vec![variant("A", vec![], FieldsInput::Named(vec![entity_field()]))],
    ))
    .unwrap();
    let p = plan.structs[0].propagate.as_ref().unwrap();
    assert_eq!(texts(&p.relation), vec!["&", "'", "static", "super", ":", ":", "ChildOf"]);

    let crate_path = || vec![id("crate"), pj(':'), pa(':'), id("Rel")];
    let mut tokens = vec![id("propagate"), pa('=')];
    tokens.extend(crate_path());
    let plan = derive_enum_entity_events(&input(
        "E",
        vec![enum_event(tokens)],
        vec![variant("A", vec![], FieldsInput::Named(vec![entity_field()]))],
    ))
    .unwrap();
    assert_eq!(texts(&plan.structs[0].propagate.as_ref().unwrap().relation), texts(&crate_path()));
}

#[test]
fn propagate_value_takes_the_rest_of_the_attribute() {
    // propagate = X, auto_propagate : the value runs to the end, so auto_propagate is not set
    let tokens = vec![id("propagate"), pa('='), id("X"), pa(','), id("auto_propagate")];
    let plan = derive_enum_entity_events(&input(
        "E",
        vec![enum_event(tokens)],
        vec![variant("A", vec![], FieldsInput::Named(vec![entity_field()]))],
    ))
    .unwrap();
    let p = plan.structs[0].propagate.as_ref().unwrap();
    assert!(!p.auto_propagate);
    // not a type: kept as written
    assert_eq!(texts(&p.relation), vec!["X", ",", "auto_propagate"]);
}

#[test]
fn propagate_is_ignored_outside_entity_events() {
    let plan = derive_enum_events(&input(
        "E",
        vec![enum_event(vec![id("propagate")])],
        vec![variant("A", vec![], FieldsInput::Named(vec![entity_field()]))],
    ))
    .unwrap();
    assert!(plan.structs[0].propagate.is_none());
    assert!(!plan.structs[0].fields[0].event_target);
}

#[test]
fn enum_attribute_errors() {
    let v = || vec![variant("A", vec![], FieldsInput::Unit)];
    let unknown = derive_enum_events(&input("E", vec![enum_event(vec![id("bogus")])], v()));
    assert!(matches!(unknown, Err(ExpandError::ContainerAttr(MetaError::UnknownAttribute))));

    let word = derive_enum_events(&input(
        "E",
        vec![AttrInput { path: vec!["enum_event".to_string()], args: AttrArgs::Word }],
        v(),
    ));
    assert!(matches!(word, Err(ExpandError::ContainerAttr(MetaError::ExpectedParens))));

    let name_value = derive_enum_events(&input(
        "E",
        vec![AttrInput { path: vec!["enum_event".to_string()], args: AttrArgs::NameValue }],
        v(),
    ));
    assert!(matches!(name_value, Err(ExpandError::ContainerAttr(MetaError::ExpectedParensNotValue))));

    let literal = derive_enum_events(&input("E", vec![enum_event(vec![lit("1")])], v()));
    assert!(matches!(literal, Err(ExpandError::ContainerAttr(MetaError::UnexpectedLiteral))));

    let negative = derive_enum_events(&input("E", vec![enum_event(vec![pa('-'), lit("1")])], v()));
    assert!(matches!(negative, Err(ExpandError::ContainerAttr(MetaError::UnexpectedLiteral))));

    let token = derive_enum_events(&input("E", vec![enum_event(vec![pa('#')])], v()));
    assert!(matches!(token, Err(ExpandError::ContainerAttr(MetaError::UnexpectedToken))));

    let lonely_colons = derive_enum_events(&input("E", vec![enum_event(vec![pj(':'), pa(':')])], v()));
    assert!(matches!(lonely_colons, Err(ExpandError::ContainerAttr(MetaError::ExpectedNestedAttribute))));

    let bad_path = derive_enum_events(&input(
        "E",
        vec![enum_event(vec![id("a"), pj(':'), pa(':'), lit("2")])],
        v(),
    ));
    assert!(matches!(bad_path, Err(ExpandError::ContainerAttr(MetaError::ExpectedIdent))));

    let no_comma = derive_enum_events(&input(
        "E",
        vec![enum_event(vec![id("propagate"), Tok::Group("(x)".to_string())])],
        v(),
    ));
    assert!(matches!(no_comma, Err(ExpandError::ContainerAttr(MetaError::ExpectedComma))));

    // attributes of other macros are not read
    assert!(derive_enum_events(&input("E", vec![other_attr("serde")], v())).is_ok());
    // empty arguments and a trailing comma are fine
    assert!(derive_enum_events(&input("E", vec![enum_event(vec![])], v())).is_ok());
    assert!(derive_enum_events(&input("E", vec![enum_event(vec![id("propagate"), pa(',')])], v())).is_ok());
    // a path ending in enum_event counts, through any leading `::`
    let prefixed = AttrInput {
        path: vec!["bevy_enum_event".to_string(), "enum_event".to_string()],
        args: AttrArgs::List(vec![pj(':'), pa(':'), id("bogus")]),
    };
    let r = derive_enum_events(&input("E", vec![prefixed], v()));
    assert!(matches!(r, Err(ExpandError::ContainerAttr(MetaError::UnknownAttribute))));
}

#[test]
fn variant_and_field_attribute_handling() {
    // unknown properties on variants are ignored
    let plan = derive_enum_events(&input(
        "E",
        vec![],
        vec![variant("A", vec![enum_event(vec![id("deref")])], FieldsInput::Unit)],
    ));
    assert!(plan.is_ok());
    // but an unread value is still refused
    let r = derive_enum_events(&input(
        "E",
        vec![],
        vec![variant("A", vec![enum_event(vec![id("deref"), pa('='), id("x")])], FieldsInput::Unit)],
    ));
    assert!(matches!(r, Err(ExpandError::VariantAttr(MetaError::ExpectedComma))));
    // a field's target cannot take a value
    let r = derive_enum_events(&input(
        "E",
        vec![],
        vec![variant(
            "A",
            vec![],
            FieldsInput::Named(vec![named("x", vec![enum_event(vec![id("target"), pa('='), id("y")])], no_refs())]),
        )],
    ));
    assert!(matches!(r, Err(ExpandError::FieldAttr(MetaError::ExpectedComma))));
}

#[test]
fn errors_come_in_order() {
    // the enum's attributes are read before the data is looked at
    let mut inp = input("S", vec![enum_event(vec![id("bogus")])], vec![]);
    inp.data = DataInput::Struct;
    assert!(matches!(derive_enum_events(&inp), Err(ExpandError::ContainerAttr(_))));
    let mut inp = input("S", vec![], vec![]);
    inp.data = DataInput::Union;
    assert!(matches!(derive_enum_events(&inp), Err(ExpandError::NotAnEnum)));
    // the first failing variant decides
    let r = derive_enum_entity_events(&input(
        "E",
        vec![],
        vec![
            variant("Good", vec![], FieldsInput::Named(vec![entity_field()])),
            variant("First", vec![], FieldsInput::Unit),
            variant("Second", vec![], FieldsInput::Named(vec![entity_field(), entity_field()])),
        ],
    ));
    assert!(matches!(r, Err(ExpandError::MissingTarget(ref v)) if v == "First"));
    // an enum without variants gives an empty module
    let plan = derive_enum_event_impl(&input("Empty", vec![], vec![]), EventKind::Message).unwrap();
    assert_eq!(plan.module_name, "empty");
    assert!(plan.structs.is_empty());
}

#[test]
fn kind_tables() {
    assert_eq!(EventKind::Event.event_derive(), "Event");
    assert_eq!(EventKind::Message.event_derive(), "Message");
    assert_eq!(EventKind::EntityEvent.event_derive(), "EntityEvent");
    assert_eq!(EventKind::Message.struct_doc(), "Message type corresponding to the enum variant.");
    assert_eq!(
        EventKind::EntityEvent.module_doc(),
        "Generated module containing entity event types for each enum variant."
    );
    assert_eq!(EventKind::EntityEvent.import_tree(), "bevy_ecs::{entity::Entity, event::EntityEvent}");
    assert_eq!(EventKind::Event.import_tree(), "bevy_ecs::event::Event");
}
