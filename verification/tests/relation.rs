use bevy_enum_event::generics::{GenericsUsageCollector, TypePathRef, TypeRefs};
use bevy_enum_event::tokens::{insert_super_at, insertion_step, relation_for_module, InsertionStep, Tok, TypeHead};

fn id(s: &str) -> Tok {
    Tok::Ident(s.to_string())
}

fn pj(c: char) -> Tok {
    Tok::Punct { ch: c, joint: true }
}

fn pa(c: char) -> Tok {
    Tok::Punct { ch: c, joint: false }
}

fn texts(ts: &[Tok]) -> Vec<String> {
    ts.iter()
        .map(|t| match t {
            Tok::Ident(s) | Tok::Literal(s) | Tok::Group(s) => s.clone(),
            Tok::Punct { ch, .. } => ch.to_string(),
        })
        .collect()
}

#[test]
fn plain_path_gets_super() {
    let r = relation_for_module(&vec![id("ChildOf")]);
    assert_eq!(texts(&r), vec!["super", ":", ":", "ChildOf"]);
    assert!(matches!(r[1], Tok::Punct { ch: ':', joint: true }));
    assert!(matches!(r[2], Tok::Punct { ch: ':', joint: false }));
}

#[test]
fn references_are_looked_through() {
    let r = relation_for_module(&vec![pa('&'), pj('\''), id("a"), id("mut"), id("m"), pj(':'), pa(':'), id("Rel")]);
    assert_eq!(texts(&r), vec!["&", "'", "a", "mut", "super", ":", ":", "m", ":", ":", "Rel"]);
    let r = relation_for_module(&vec![pj('&'), pa('&'), id("Rel")]);
    assert_eq!(texts(&r), vec!["&", "&", "super", ":", ":", "Rel"]);
}

#[test]
fn anchored_paths_are_kept() {
    for first in ["crate", "super", "self"] {
        let ts = vec![id(first), pj(':'), pa(':'), id("Rel")];
        assert_eq!(texts(&relation_for_module(&ts)), texts(&ts));
    }
    let ts = vec![pj(':'), pa(':'), id("bevy_ecs"), pj(':'), pa(':'), id("ChildOf")];
    assert_eq!(texts(&relation_for_module(&ts)), texts(&ts));
}

#[test]
fn other_types_and_non_types_are_kept() {
    let tuple = vec![Tok::Group("(A, B)".to_string())];
    assert_eq!(texts(&relation_for_module(&tuple)), texts(&tuple));
    let garbage = vec![pa('='), pa('=')];
    assert_eq!(texts(&relation_for_module(&garbage)), texts(&garbage));
    assert!(relation_for_module(&vec![]).is_empty());
}

#[test]
fn collector_counts_only_known_names() {
    let types = vec!["T".to_string(), "U".to_string()];
    let lifetimes = vec!["a".to_string()];
    let mut c = GenericsUsageCollector::new(&types, &lifetimes);
    assert!(c.used_types.is_empty());
    assert!(c.used_lifetimes.is_empty());
    c.visit_type(&TypeRefs {
        paths: vec![
            TypePathRef { qualified: false, plain_ident: Some("T".to_string()) },
            TypePathRef { qualified: false, plain_ident: Some("T".to_string()) },
            TypePathRef { qualified: false, plain_ident: Some("String".to_string()) },
            TypePathRef { qualified: true, plain_ident: Some("U".to_string()) },
        ],
        lifetimes: vec!["a".to_string(), "b".to_string()],
    });
    assert!(c.is_type_used(&"T".to_string()));
    assert!(!c.is_type_used(&"U".to_string()));
    assert!(!c.is_type_used(&"String".to_string()));
    assert!(c.is_lifetime_used(&"a".to_string()));
    assert!(!c.is_lifetime_used(&"b".to_string()));
    assert_eq!(c.used_types, vec!["T"]);
    c.visit_lifetime(&"a".to_string());
    assert_eq!(c.used_lifetimes, vec!["a"]);
    c.visit_type_path(&TypePathRef { qualified: false, plain_ident: Some("U".to_string()) });
    assert!(c.is_type_used(&"U".to_string()));
}

#[test]
fn qualified_self_paths_get_super_as_first_segment() {
    // <T as Tr>::X: the path Tr::X gets super first; the qualified self still covers one segment
    let one = vec![pa('<'), id("T"), id("as"), id("Tr"), pa('>'), pj(':'), pa(':'), id("X")];
    assert_eq!(texts(&relation_for_module(&one)), vec!["<", "T", "as", "super", ">", ":", ":", "Tr", ":", ":", "X"]);
    // &'static <T as m::Tr<U>>::X
    let two = vec![
        pa('&'), pj('\''), id("static"),
        pa('<'), id("T"), id("as"), id("m"), pj(':'), pa(':'), id("Tr"), pa('<'), id("U"), pj('>'), pa('>'),
        pj(':'), pa(':'), id("X"),
    ];
    assert_eq!(
        texts(&relation_for_module(&two)),
        vec!["&", "'", "static", "<", "T", "as", "super", ":", ":", "m", ">", ":", ":", "Tr", "<", "U", ">", ":", ":", "X"]
    );
    // <T>::X has a leading `::` path and is kept; so is one anchored at crate
    let bare = vec![pa('<'), id("T"), pa('>'), pj(':'), pa(':'), id("X")];
    assert_eq!(texts(&relation_for_module(&bare)), texts(&bare));
    let anchored = vec![pa('<'), id("T"), id("as"), id("crate"), pj(':'), pa(':'), id("Tr"), pa('>'), pj(':'), pa(':'), id("X")];
    assert_eq!(texts(&relation_for_module(&anchored)), texts(&anchored));
}

fn path_head(qualified: bool, leading_colon: bool, first: &str) -> Option<TypeHead> {
    Some(TypeHead::Path { qualified, leading_colon, first: first.to_string() })
}

#[test]
fn insertion_step_follows_the_reported_head() {
    let ts = vec![pa('&'), pj('\''), id("a"), id("mut"), id("Rel")];
    // a reference written with `&`: descend past `& 'a mut`
    assert!(matches!(insertion_step(&ts, 0, &Some(TypeHead::Reference)), InsertionStep::Descend(4)));
    // a reference reported where no `&` is written: keep
    assert!(matches!(insertion_step(&ts, 4, &Some(TypeHead::Reference)), InsertionStep::Keep));
    // a plain path: super goes in here, qualified or not
    assert!(matches!(
        insertion_step(&ts, 4, &path_head(false, false, "Rel")),
        InsertionStep::Insert { at: 4, qualified: false }
    ));
    assert!(matches!(
        insertion_step(&ts, 4, &path_head(true, false, "Tr")),
        InsertionStep::Insert { at: 4, qualified: true }
    ));
    // anchored paths are kept
    for first in ["crate", "super", "self"] {
        assert!(matches!(insertion_step(&ts, 4, &path_head(false, false, first)), InsertionStep::Keep));
    }
    assert!(matches!(insertion_step(&ts, 4, &path_head(false, true, "std")), InsertionStep::Keep));
    // another type, no type, or a position past the end: keep
    assert!(matches!(insertion_step(&ts, 4, &Some(TypeHead::Other)), InsertionStep::Keep));
    assert!(matches!(insertion_step(&ts, 4, &None), InsertionStep::Keep));
    assert!(matches!(insertion_step(&ts, 5, &path_head(false, false, "Rel")), InsertionStep::Keep));
    // `&` with a lifetime but no `mut`, and a bare `&`
    let short = vec![pa('&'), pj('\''), id("a"), id("Rel")];
    assert!(matches!(insertion_step(&short, 0, &Some(TypeHead::Reference)), InsertionStep::Descend(3)));
    let bare = vec![pa('&'), id("Rel")];
    assert!(matches!(insertion_step(&bare, 0, &Some(TypeHead::Reference)), InsertionStep::Descend(1)));
}

#[test]
fn insert_super_at_puts_super_where_asked() {
    let ts = vec![pa('&'), id("m"), pj(':'), pa(':'), id("Rel")];
    assert_eq!(texts(&insert_super_at(&ts, 1, false)), vec!["&", "super", ":", ":", "m", ":", ":", "Rel"]);
    let r = insert_super_at(&ts, 0, false);
    assert_eq!(texts(&r), vec!["super", ":", ":", "&", "m", ":", ":", "Rel"]);
    let q = vec![pa('<'), id("T"), id("as"), id("A"), pj(':'), pa(':'), id("B"), pa('>'), pj(':'), pa(':'), id("X")];
    assert_eq!(
        texts(&insert_super_at(&q, 0, true)),
        vec!["<", "T", "as", "super", ":", ":", "A", ">", ":", ":", "B", ":", ":", "X"]
    );
    // a qualified self without `as` is left as it is
    let no_as = vec![pa('<'), id("T"), pa('>'), pj(':'), pa(':'), id("X")];
    assert_eq!(texts(&insert_super_at(&no_as, 0, true)), texts(&no_as));
}

#[test]
fn collector_never_forgets_a_name() {
    let types = vec!["T".to_string()];
    let lifetimes = vec!["a".to_string(), "b".to_string()];
    let mut c = GenericsUsageCollector::new(&types, &lifetimes);
    c.visit_lifetime(&"b".to_string());
    c.visit_type(&TypeRefs { paths: vec![], lifetimes: vec!["x".to_string()] });
    c.visit_type_path(&TypePathRef { qualified: false, plain_ident: Some("Q".to_string()) });
    assert_eq!(c.used_lifetimes, vec!["b"]);
    assert!(c.used_types.is_empty());
    c.visit_type(&TypeRefs {
        paths: vec![TypePathRef { qualified: false, plain_ident: Some("T".to_string()) }],
        lifetimes: vec!["a".to_string(), "b".to_string()],
    });
    c.visit_lifetime(&"b".to_string());
    assert_eq!(c.used_types, vec!["T"]);
    assert!(c.is_lifetime_used(&"a".to_string()) && c.is_lifetime_used(&"b".to_string()));
    assert_eq!(c.used_lifetimes.len(), 2);
}
