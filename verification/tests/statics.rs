use handler_rt::diagnostic::{Site, Violation};
use handler_rt::statics::{extract_static_muts, is_unsafe_impl, ItemStatic, Stmt};

fn item(ident: &str, mutable: bool) -> Stmt {
    Stmt::Static(ItemStatic {
        attrs: vec![],
        mutable,
        ident: ident.to_string(),
        ty: "u32".to_string(),
        expr: "0".to_string(),
    })
}

fn other(text: &str) -> Stmt {
    Stmt::Other { text: text.to_string() }
}

fn shape(stmt: &Stmt) -> String {
    match stmt {
        Stmt::Static(item) => format!("static {}", item.ident),
        Stmt::Unsafe { text } => format!("unsafe {}", text),
        Stmt::Other { text } => text.clone(),
    }
}

#[test]
fn leading_static_muts_are_taken_out() {
    let stmts = vec![
        item("A", true),
        item("B", false),
        item("C", true),
        other("let x = 1;"),
        item("D", true),
        other("x"),
    ];
    let (statics, rest) = extract_static_muts(stmts).ok().unwrap();
    let names: Vec<&str> = statics.iter().map(|s| s.ident.as_str()).collect();
    assert_eq!(names, vec!["A", "C"]);
    let left: Vec<String> = rest.iter().map(shape).collect();
    assert_eq!(left, vec!["static B", "let x = 1;", "static D", "x"]);
}

#[test]
fn body_without_statics_is_left_alone() {
    let (statics, rest) = extract_static_muts(vec![other("a"), other("b")]).ok().unwrap();
    assert!(statics.is_empty());
    assert_eq!(rest.iter().map(shape).collect::<Vec<_>>(), vec!["a", "b"]);

    let (statics, rest) = extract_static_muts(vec![]).ok().unwrap();
    assert!(statics.is_empty());
    assert!(rest.is_empty());
}

#[test]
fn body_of_statics_only() {
    let (statics, rest) =
        extract_static_muts(vec![item("A", true), item("B", true)]).ok().unwrap();
    assert_eq!(statics.len(), 2);
    assert_eq!(statics[1].ident, "B");
    assert!(rest.is_empty());
}

#[test]
fn second_definition_of_a_name_is_rejected() {
    let stmts = vec![item("A", true), item("B", true), item("A", true), other("x")];
    let d = extract_static_muts(stmts).err().unwrap();
    assert_eq!(d.violation, Violation::DuplicateStatic);
    assert_eq!(d.site, Site::StaticName(2));
    assert_eq!(d.subject, "A");
    assert_eq!(d.message(), "the name `A` is defined multiple times");
}

#[test]
fn names_may_repeat_where_they_are_not_taken_out() {
    let stmts = vec![item("A", true), item("A", false), other("x"), item("A", true)];
    let (statics, rest) = extract_static_muts(stmts).ok().unwrap();
    assert_eq!(statics.len(), 1);
    assert_eq!(rest.len(), 3);
}

#[test]
fn unsafe_body_is_one_unsafe_block() {
    let block = || Stmt::Unsafe { text: "unsafe { go() }".to_string() };
    assert!(is_unsafe_impl(&vec![block()]));
    assert!(!is_unsafe_impl(&vec![]));
    assert!(!is_unsafe_impl(&vec![block(), block()]));
    assert!(!is_unsafe_impl(&vec![other("go()")]));
    assert!(!is_unsafe_impl(&vec![item("A", true)]));
}
