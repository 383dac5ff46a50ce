use fidius::python_stub::{extract_methods, render_python_stub, MethodInput, RustType, TraitMethod};
use fidius::stub_source::{interface_stub, read_method, read_type};

const BYTE_PIPE: &str = r#"
    #[plugin_interface(version = 1, buffer = PluginAllocated)]
    pub trait BytePipe: Send + Sync {
        #[wire(raw)]
        fn reverse(&self, data: Vec<u8>) -> Vec<u8>;
        fn name(&self) -> String;
    }
"#;

fn ident(name: &str) -> RustType {
    RustType::Path { last: Some(name.to_string()), ident_only: true, args: None, tokens: name.to_string() }
}

fn vec_u8() -> RustType {
    RustType::Path {
        last: Some("Vec".to_string()),
        ident_only: false,
        args: Some(vec![ident("u8")]),
        tokens: "Vec < u8 >".to_string(),
    }
}

#[test]
fn stub_from_source_matches_the_declared_methods() {
    let stub = interface_stub(BYTE_PIPE, None, "pipe.rs").unwrap();
    let methods = vec![
        TraitMethod {
            name: "reverse".to_string(),
            inputs: vec![MethodInput::Receiver, MethodInput::Typed { name: Some("data".to_string()), ty: vec_u8() }],
            output: Some(vec_u8()),
            wire_raw: true,
            docs: vec![],
        },
        TraitMethod {
            name: "name".to_string(),
            inputs: vec![MethodInput::Receiver],
            output: Some(ident("String")),
            wire_raw: false,
            docs: vec![],
        },
    ];
    assert_eq!(stub, render_python_stub("BytePipe", &extract_methods(&methods)));
    assert!(stub.contains("# (raw-wire method: bytes in / bytes out, no bincode)\n@method\ndef reverse(data: bytes) -> bytes:"));
}

#[test]
fn primitive_types_from_source() {
    let src = r#"
        #[plugin_interface(version = 1, buffer = PluginAllocated)]
        pub trait Greeter: Send + Sync {
            /// Says hello.
            fn greet(&self, name: String, count: i64, loud: bool) -> String;
        }
    "#;
    let stub = interface_stub(src, None, "greeter.rs").unwrap();
    assert!(stub.contains("# Says hello.\n@method\ndef greet(name: str, count: int, loud: bool) -> str:"));
}

#[test]
fn only_interface_traits_count() {
    let src = r#"
        pub trait Helper { fn h(&self); }
        #[fidius::plugin_interface(version = 1, buffer = PluginAllocated)]
        pub trait Real: Send + Sync { fn r(&self) -> u32; }
    "#;
    let stub = interface_stub(src, None, "x.rs").unwrap();
    assert!(stub.contains("# Interface: Real "));
    assert!(stub.contains("def r() -> int:"));
    assert!(!stub.contains("def h"));
}

#[test]
fn choosing_among_several_interfaces() {
    let src = r#"
        #[plugin_interface(version = 1, buffer = PluginAllocated)]
        pub trait A: Send + Sync { fn a(&self) -> String; }
        #[plugin_interface(version = 1, buffer = PluginAllocated)]
        pub trait B: Send + Sync { fn b(&self) -> String; }
    "#;
    assert!(interface_stub(src, Some("B"), "ab.rs").unwrap().contains("def b() -> str:"));
    assert_eq!(
        interface_stub(src, None, "ab.rs").unwrap_err(),
        "multiple `#[plugin_interface]` traits in ab.rs: A, B. Pass --trait-name to choose."
    );
    assert_eq!(
        interface_stub(src, Some("C"), "ab.rs").unwrap_err(),
        "trait 'C' not found in ab.rs; available: A, B"
    );
    assert_eq!(
        interface_stub("pub struct S;", None, "s.rs").unwrap_err(),
        "no `#[plugin_interface]` trait found in s.rs"
    );
}

#[test]
fn unparsable_source_is_reported() {
    let err = interface_stub("pub trait {", None, "bad.rs").unwrap_err();
    assert!(err.starts_with("failed to parse bad.rs: "), "{err}");
    assert!(err.len() > "failed to parse bad.rs: ".len());
}

#[test]
fn types_read_back_from_their_text() {
    let t = read_type("Option < Vec < u8 > >", 10).unwrap();
    match t {
        RustType::Path { last, ident_only, args, tokens } => {
            assert_eq!(last.as_deref(), Some("Option"));
            assert!(!ident_only);
            assert_eq!(tokens, "Option < Vec < u8 > >");
            let args = args.unwrap();
            assert_eq!(args.len(), 1);
            assert!(matches!(&args[0], RustType::Path { last: Some(l), tokens, .. } if l == "Vec" && tokens == "Vec < u8 >"));
        }
        _ => panic!("not a path"),
    }
    assert!(matches!(read_type("& [u8]", 10), Some(RustType::Reference { elem, .. }) if matches!(*elem, RustType::Slice { .. })));
    assert!(matches!(read_type("(u8 , u16)", 10), Some(RustType::Tuple { len: 2, .. })));
    assert!(read_type("& [u8]", 1).is_none());
    assert!(read_type("fn fn", 10).is_none());
}

#[test]
fn methods_read_back_with_docs_and_wire_flag() {
    let m = read_method("# [doc = \"  Reverses.  \"] # [wire (raw)] fn reverse (& self , data : Vec < u8 >) -> Vec < u8 > ;", 20).unwrap();
    assert_eq!(m.name, "reverse");
    assert!(m.wire_raw);
    assert_eq!(m.docs, vec!["Reverses.".to_string()]);
    assert_eq!(m.inputs.len(), 2);
    assert!(matches!(&m.inputs[1], MethodInput::Typed { name: Some(n), .. } if n == "data"));
    let plain = read_method("fn name (& self) ;", 20).unwrap();
    assert!(!plain.wire_raw);
    assert!(plain.output.is_none());
    assert!(read_method("struct X ;", 20).is_none());
}

#[test]
fn doc_lines_lose_unicode_white_space() {
    let m = read_method("# [doc = \"\u{3000}\tWide.\u{2003} \"] fn f (& self) ;", 20).unwrap();
    assert_eq!(m.docs, vec!["Wide.".to_string()]);
}
