use fidius::hash::{interface_hash, signature_string};
use fidius::python_stub::{
    extract_methods, method_to_spec, pick_trait, render_python_stub, rust_type_to_python,
    MethodInput, RustType, TraitMethod,
};

fn ident(name: &str) -> RustType {
    RustType::Path { last: Some(name.to_string()), ident_only: true, args: None, tokens: name.to_string() }
}

fn generic(name: &str, args: Vec<RustType>, tokens: &str) -> RustType {
    RustType::Path { last: Some(name.to_string()), ident_only: false, args: Some(args), tokens: tokens.to_string() }
}

fn vec_u8() -> RustType {
    generic("Vec", vec![ident("u8")], "Vec < u8 >")
}

fn arg(name: &str, ty: RustType) -> MethodInput {
    MethodInput::Typed { name: Some(name.to_string()), ty }
}

fn method(name: &str, args: Vec<MethodInput>, output: Option<RustType>, wire_raw: bool) -> TraitMethod {
    let mut inputs = vec![MethodInput::Receiver];
    inputs.extend(args);
    TraitMethod { name: name.to_string(), inputs, output, wire_raw, docs: Vec::new() }
}

#[test]
fn primitive_type_mapping() {
    // fn greet(&self, name: String, count: i64, loud: bool) -> String;
    let m = method_to_spec(&method(
        "greet",
        vec![arg("name", ident("String")), arg("count", ident("i64")), arg("loud", ident("bool"))],
        Some(ident("String")),
        false,
    ));
    assert_eq!(m.name, "greet");
    assert_eq!(m.arg_names_with_py_types.len(), 3);
    assert_eq!(m.arg_names_with_py_types[0].1, "str");
    assert_eq!(m.arg_names_with_py_types[1].1, "int");
    assert_eq!(m.arg_names_with_py_types[2].1, "bool");
    assert_eq!(m.return_py_type, "str");
}

#[test]
fn vec_u8_maps_to_bytes_even_without_wire_raw() {
    // fn round_trip(&self, data: Vec<u8>) -> Vec<u8>;
    let m = method_to_spec(&method("round_trip", vec![arg("data", vec_u8())], Some(vec_u8()), false));
    assert_eq!(m.arg_names_with_py_types[0].1, "bytes");
    assert_eq!(m.return_py_type, "bytes");
}

#[test]
fn wire_raw_signatures_are_bytes() {
    // #[wire(raw)] fn reverse(&self, data: Vec<u8>) -> Vec<u8>; fn name(&self) -> String;
    let methods = extract_methods(&[
        method("reverse", vec![arg("data", vec_u8())], Some(vec_u8()), true),
        method("name", vec![], Some(ident("String")), false),
    ]);
    assert!(methods[0].wire_raw);
    assert_eq!(methods[0].arg_names_with_py_types[0].1, "bytes");
    assert_eq!(methods[0].return_py_type, "bytes");
    assert!(!methods[1].wire_raw);
}

#[test]
fn unknown_types_get_todo_marker() {
    // fn process(&self, batch: MyCustomBatch) -> MyCustomResult;
    let m = method_to_spec(&method(
        "process",
        vec![arg("batch", ident("MyCustomBatch"))],
        Some(ident("MyCustomResult")),
        false,
    ));
    assert!(m.arg_names_with_py_types[0].1.contains("TODO"));
    assert!(m.return_py_type.contains("TODO"));
}

#[test]
fn rendered_stub_hash_matches_macro() {
    let methods = extract_methods(&[
        method("reverse", vec![arg("data", vec_u8())], Some(vec_u8()), true),
        method("name", vec![], Some(ident("String")), false),
    ]);
    let stub = render_python_stub("BytePipe", &methods);

    let sigs = vec![
        signature_string("reverse", &["Vec < u8 >".to_string()], "Vec < u8 >", true),
        signature_string("name", &[], "String", false),
    ];
    let sig_refs: Vec<&str> = sigs.iter().map(|s| s.as_str()).collect();
    let expected = interface_hash(&sig_refs);

    assert!(
        stub.contains(&format!("__interface_hash__ = {expected:#018x}")),
        "stub does not contain expected hash {expected:#018x}\n--- stub ---\n{stub}"
    );
}

#[test]
fn picks_named_trait_when_multiple_present() {
    let traits = vec!["A".to_string(), "B".to_string()];
    assert_eq!(pick_trait(&traits, Some("B"), "test.rs").unwrap(), 1);
    let err = pick_trait(&traits, None, "test.rs").unwrap_err();
    assert!(err.contains("multiple"));
    let err = pick_trait(&traits, Some("Z"), "test.rs").unwrap_err();
    assert!(err.contains("not found"));
}

#[test]
fn pick_trait_messages_name_the_source_and_candidates() {
    assert_eq!(pick_trait(&[], None, "api.rs").unwrap_err(), "no `#[plugin_interface]` trait found in api.rs");
    assert_eq!(pick_trait(&["Only".to_string()], None, "api.rs").unwrap(), 0);
    assert_eq!(
        pick_trait(&["A".to_string(), "B".to_string()], None, "api.rs").unwrap_err(),
        "multiple `#[plugin_interface]` traits in api.rs: A, B. Pass --trait-name to choose."
    );
    assert_eq!(
        pick_trait(&["A".to_string()], Some("Z"), "api.rs").unwrap_err(),
        "trait 'Z' not found in api.rs; available: A"
    );
}

#[test]
fn composite_type_hints() {
    assert_eq!(rust_type_to_python(&generic("Vec", vec![ident("i32")], "Vec < i32 >")), "list[int]");
    assert_eq!(rust_type_to_python(&generic("Option", vec![ident("String")], "Option < String >")), "Optional[str]");
    assert_eq!(
        rust_type_to_python(&generic("Result", vec![ident("f64"), ident("MyErr")], "Result < f64 , MyErr >")),
        "float"
    );
    let str_ref = RustType::Reference { elem: Box::new(ident("str")), tokens: "& str".to_string() };
    assert_eq!(rust_type_to_python(&str_ref), "str");
    let bytes_ref = RustType::Reference {
        elem: Box::new(RustType::Slice { elem: Box::new(ident("u8")), tokens: "[u8]".to_string() }),
        tokens: "& [u8]".to_string(),
    };
    assert_eq!(rust_type_to_python(&bytes_ref), "bytes");
    let other_ref = RustType::Reference { elem: Box::new(ident("Foo")), tokens: "& Foo".to_string() };
    assert_eq!(rust_type_to_python(&other_ref), "Any  # TODO: unsupported reference `& Foo`");
    assert_eq!(rust_type_to_python(&RustType::Tuple { len: 0, tokens: "()".to_string() }), "None");
    assert_eq!(
        rust_type_to_python(&RustType::Other { tokens: "[u8 ; 4]".to_string() }),
        "Any  # TODO: unsupported Rust type `[u8 ; 4]`"
    );
    assert_eq!(
        rust_type_to_python(&RustType::Path { last: None, ident_only: false, args: None, tokens: String::new() }),
        "Any  # TODO: empty type path"
    );
}

#[test]
fn stub_text_lays_out_each_method() {
    let mut m = method("greet", vec![arg("who", ident("String")), MethodInput::Typed { name: None, ty: ident("u8") }], None, false);
    m.docs = vec!["Say hello.".to_string()];
    let specs = extract_methods(&[m]);
    let stub = render_python_stub("Greeter", &specs);
    let hash = interface_hash(&["greet:String,u8->"]);
    assert!(stub.starts_with("# This file was generated by `fidius python-stub`."));
    assert!(stub.contains(&format!("# Interface: Greeter  (interface_hash = {hash:#018x})\n\n")));
    assert!(stub.ends_with("# Say hello.\n@method\ndef greet(who: str, _arg: int) -> None:\n    raise NotImplementedError\n\n"));
    assert!(!stub.contains("don't have a built-in Python"));
}
