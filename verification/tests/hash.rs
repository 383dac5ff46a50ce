use fidius::hash::{fnv1a, interface_hash, signature_string, FNV_OFFSET_BASIS};

#[test]
fn empty_input() {
    // Empty string should produce the offset basis XOR'd with nothing,
    // which is just the offset basis.
    assert_eq!(fnv1a(b""), FNV_OFFSET_BASIS);
}

#[test]
fn known_vector() {
    // FNV-1a("fidius") — precomputed reference value
    let hash = fnv1a(b"fidius");
    // Just verify it's deterministic and non-zero
    assert_ne!(hash, 0);
    assert_eq!(hash, fnv1a(b"fidius"));
}

#[test]
fn order_independence() {
    let a = interface_hash(&[
        "process:&[u8],Value->Result<Vec<u8>,PluginError>",
        "name:->String",
    ]);
    let b = interface_hash(&[
        "name:->String",
        "process:&[u8],Value->Result<Vec<u8>,PluginError>",
    ]);
    assert_eq!(a, b);
}

#[test]
fn sensitivity() {
    let a = interface_hash(&["name:->String"]);
    let b = interface_hash(&["name:->string"]); // lowercase 's'
    assert_ne!(a, b);
}

#[test]
fn different_signatures_differ() {
    let a = interface_hash(&["foo:->i32"]);
    let b = interface_hash(&["bar:->i32"]);
    let c = interface_hash(&["foo:->u32"]);
    assert_ne!(a, b);
    assert_ne!(a, c);
    assert_ne!(b, c);
}

// FNV-1a 64-bit reference vectors.
#[test]
fn fnv1a_reference_vectors() {
    assert_eq!(fnv1a(b"a"), 0xaf63dc4c8601ec8c);
    assert_eq!(fnv1a(b"foobar"), 0x85944171f73967e8);
}

// The interface hash of one signature is the FNV-1a of that signature.
#[test]
fn single_signature_hash_is_its_fnv() {
    assert_eq!(interface_hash(&["name:->String"]), fnv1a(b"name:->String"));
}

// Two signatures hash as their byte-sorted lines joined by a newline.
#[test]
fn signatures_are_sorted_then_newline_joined() {
    assert_eq!(interface_hash(&["b:->i32", "a:->i32"]), fnv1a(b"a:->i32\nb:->i32"));
}

#[test]
fn signature_string_format() {
    let args = vec!["Vec < u8 >".to_string(), "u32".to_string()];
    assert_eq!(signature_string("reverse", &args, "Vec < u8 >", true), "reverse:Vec < u8 >,u32->Vec < u8 >!raw");
    assert_eq!(signature_string("name", &[], "String", false), "name:->String");
}
