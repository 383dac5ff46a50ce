//! Python stubs for a plugin interface: the type-hinted signatures and the
//! `__interface_hash__` constant a Python plugin author imports.
//!
//! The stub's hash is computed with [`interface_hash`] over
//! [`signature_string`]s built exactly as the interface macro builds them, so
//! the two agree byte for byte.
use vstd::prelude::*;
use vstd::utf8::encode_utf8;
use crate::hash::{interface_hash, interface_hash_spec, signature_bytes, signature_string, signature_string_spec,
    strings_view};
use crate::text::{contains_text, push_char, str_contains, str_eq};

verus! {

/// The shape of a Rust type as the stub generator reads it.
///
/// `tokens` is the type's token text (tokens separated by single spaces, as
/// the interface macro prints them).
pub enum RustType {
    /// A path type such as `Vec<u8>` or `std::string::String`. `last` is the
    /// final segment's identifier (`None` for an empty path), `ident_only` is
    /// whether the path is one bare identifier with no arguments, and `args`
    /// holds the final segment's type arguments when it has angle-bracketed
    /// arguments.
    Path { last: Option<String>, ident_only: bool, args: Option<Vec<RustType>>, tokens: String },
    /// `&T` or `&mut T`.
    Reference { elem: Box<RustType>, tokens: String },
    /// `[T]`.
    Slice { elem: Box<RustType>, tokens: String },
    /// A tuple type with this many elements (`()` has none).
    Tuple { len: usize, tokens: String },
    /// Any other type.
    Other { tokens: String },
}

/// The type's token text.
pub open spec fn tokens_of(t: RustType) -> Seq<char> {
    match t {
        RustType::Path { tokens, .. } => tokens@,
        RustType::Reference { tokens, .. } => tokens@,
        RustType::Slice { tokens, .. } => tokens@,
        RustType::Tuple { tokens, .. } => tokens@,
        RustType::Other { tokens } => tokens@,
    }
}

/// The bare identifier `u8`.
pub open spec fn is_u8_type(t: RustType) -> bool {
    match t {
        RustType::Path { last: Some(n), ident_only, .. } => ident_only && n@ == "u8"@,
        _ => false,
    }
}

/// Whether `name` is one of Rust's integer type names.
pub open spec fn is_int_name(name: Seq<char>) -> bool {
    name == "i8"@ || name == "i16"@ || name == "i32"@ || name == "i64"@ || name == "isize"@ || name
        == "u8"@ || name == "u16"@ || name == "u32"@ || name == "u64"@ || name == "usize"@
}

/// The fallback hint for a type the stub cannot map.
pub open spec fn unsupported_hint(kind: Seq<char>, text: Seq<char>) -> Seq<char> {
    "Any  # TODO: unsupported "@ + kind + " `"@ + text + "`"@
}

/// The hint for a path type named `name` with no special generic handling.
pub open spec fn named_hint(name: Seq<char>) -> Seq<char> {
    if is_int_name(name) {
        "int"@
    } else if name == "f32"@ || name == "f64"@ {
        "float"@
    } else if name == "bool"@ {
        "bool"@
    } else if name == "String"@ {
        "str"@
    } else {
        unsupported_hint("Rust type"@, name)
    }
}

/// The Python type hint for a Rust type: integers become `int`, floats
/// `float`, `bool` and `String`/`&str` themselves, `Vec<u8>` and `&[u8]`
/// `bytes`, `Vec<T>` a `list[..]`, `Option<T>` an `Optional[..]`,
/// `Result<T, E>` the hint of `T` (errors are raised), `()` `None`, and
/// anything else `Any` with a marker comment naming the type.
pub open spec fn py_hint(t: RustType) -> Seq<char>
    decreases t,
{
    match t {
        RustType::Path { last, ident_only, args, tokens } => match last {
            None => "Any  # TODO: empty type path"@,
            Some(name) => match args {
                Some(a) => {
                    if name@ == "Vec"@ && a@.len() == 1 {
                        if is_u8_type(a@[0]) {
                            "bytes"@
                        } else {
                            "list["@ + py_hint(a@[0]) + "]"@
                        }
                    } else if name@ == "Option"@ && a@.len() == 1 {
                        "Optional["@ + py_hint(a@[0]) + "]"@
                    } else if name@ == "Result"@ && a@.len() == 2 {
                        py_hint(a@[0])
                    } else {
                        named_hint(name@)
                    }
                },
                None => named_hint(name@),
            },
        },
        RustType::Reference { elem, tokens } => match *elem {
            RustType::Path { last: Some(n), .. } => {
                if n@ == "str"@ {
                    "str"@
                } else {
                    unsupported_hint("reference"@, tokens@)
                }
            },
            RustType::Slice { elem: inner, .. } => {
                if is_u8_type(*inner) {
                    "bytes"@
                } else {
                    unsupported_hint("reference"@, tokens@)
                }
            },
            _ => unsupported_hint("reference"@, tokens@),
        },
        RustType::Tuple { len, tokens } => {
            if len == 0 {
                "None"@
            } else {
                unsupported_hint("Rust type"@, tokens@)
            }
        },
        RustType::Slice { tokens, .. } => unsupported_hint("Rust type"@, tokens@),
        RustType::Other { tokens } => unsupported_hint("Rust type"@, tokens@),
    }
}

fn is_u8(t: &RustType) -> (r: bool)
    ensures
        r == is_u8_type(*t),
{
    match t {
        RustType::Path { last: Some(n), ident_only, .. } => *ident_only && str_eq(n.as_str(), "u8"),
        _ => false,
    }
}

fn unsupported(kind: &str, text: &str) -> (s: String)
    ensures
        s@ == unsupported_hint(kind@, text@),
{
    let mut s = String::from_str("Any  # TODO: unsupported ");
    s.append(kind);
    s.append(" `");
    s.append(text);
    s.append("`");
    s
}

fn named(name: &str) -> (s: String)
    ensures
        s@ == named_hint(name@),
{
    if str_eq(name, "i8") || str_eq(name, "i16") || str_eq(name, "i32") || str_eq(name, "i64")
        || str_eq(name, "isize") || str_eq(name, "u8") || str_eq(name, "u16") || str_eq(name, "u32")
        || str_eq(name, "u64") || str_eq(name, "usize") {
        String::from_str("int")
    } else if str_eq(name, "f32") || str_eq(name, "f64") {
        String::from_str("float")
    } else if str_eq(name, "bool") {
        String::from_str("bool")
    } else if str_eq(name, "String") {
        String::from_str("str")
    } else {
        unsupported("Rust type", name)
    }
}

/// Maps a Rust type to its Python type hint (see [`py_hint`]).
pub fn rust_type_to_python(t: &RustType) -> (s: String)
    ensures
        s@ == py_hint(*t),
    decreases t,
{
    match t {
        RustType::Path { last, args, .. } => match last {
            None => String::from_str("Any  # TODO: empty type path"),
            Some(name) => match args {
                Some(a) => {
                    if str_eq(name.as_str(), "Vec") && a.len() == 1 {
                        if is_u8(&a[0]) {
                            String::from_str("bytes")
                        } else {
                            let mut s = String::from_str("list[");
                            s.append(rust_type_to_python(&a[0]).as_str());
                            s.append("]");
                            s
                        }
                    } else if str_eq(name.as_str(), "Option") && a.len() == 1 {
                        let mut s = String::from_str("Optional[");
                        s.append(rust_type_to_python(&a[0]).as_str());
                        s.append("]");
                        s
                    } else if str_eq(name.as_str(), "Result") && a.len() == 2 {
                        rust_type_to_python(&a[0])
                    } else {
                        named(name.as_str())
                    }
                },
                None => named(name.as_str()),
            },
        },
        RustType::Reference { elem, tokens } => match &**elem {
            RustType::Path { last: Some(n), .. } => {
                if str_eq(n.as_str(), "str") {
                    String::from_str("str")
                } else {
                    unsupported("reference", tokens.as_str())
                }
            },
            RustType::Slice { elem: inner, .. } => {
                if is_u8(&**inner) {
                    String::from_str("bytes")
                } else {
                    unsupported("reference", tokens.as_str())
                }
            },
            _ => unsupported("reference", tokens.as_str()),
        },
        RustType::Tuple { len, tokens } => {
            if *len == 0 {
                String::from_str("None")
            } else {
                unsupported("Rust type", tokens.as_str())
            }
        },
        RustType::Slice { tokens, .. } => unsupported("Rust type", tokens.as_str()),
        RustType::Other { tokens } => unsupported("Rust type", tokens.as_str()),
    }
}

/// One parameter of an interface method, as declared.
pub enum MethodInput {
    /// The `self` receiver; it takes no part in the stub.
    Receiver,
    /// A typed parameter; `name` is its identifier when its pattern is a
    /// plain identifier.
    Typed { name: Option<String>, ty: RustType },
}

/// One method of an interface trait, as declared.
pub struct TraitMethod {
    pub name: String,
    pub inputs: Vec<MethodInput>,
    /// The declared return type; `None` for a method returning `()` by default.
    pub output: Option<RustType>,
    /// Whether the method opts into raw bytes-in / bytes-out wire handling.
    pub wire_raw: bool,
    /// Its doc-comment lines, trimmed.
    pub docs: Vec<String>,
}

/// One method, ready for stub emission.
pub struct MethodSpec {
    pub name: String,
    /// Argument types as token text: the interface macro's signature format.
    pub arg_types: Vec<String>,
    /// Argument names paired with their Python type hints.
    pub arg_names_with_py_types: Vec<(String, String)>,
    /// The return type as token text (empty for a method returning `()`).
    pub return_type_string: String,
    /// The Python type hint of the return value.
    pub return_py_type: String,
    pub wire_raw: bool,
    /// Doc-comment lines.
    pub docs: Vec<String>,
}

/// The typed parameters of a method, in order (the receiver left out).
pub open spec fn typed_params(inputs: Seq<MethodInput>) -> Seq<(Option<String>, RustType)>
    decreases inputs.len(),
{
    if inputs.len() == 0 {
        Seq::empty()
    } else {
        let rest = typed_params(inputs.drop_last());
        match inputs.last() {
            MethodInput::Receiver => rest,
            MethodInput::Typed { name, ty } => rest.push((name, ty)),
        }
    }
}

/// A parameter's stub name: its identifier, or `_arg` for any other pattern.
pub open spec fn param_name(name: Option<String>) -> Seq<char> {
    match name {
        Some(n) => n@,
        None => "_arg"@,
    }
}

/// The hint a method's stub gives a type: `bytes` for a raw-wire method,
/// else the mapped hint.
pub open spec fn stub_hint(t: RustType, wire_raw: bool) -> Seq<char> {
    if wire_raw {
        "bytes"@
    } else {
        py_hint(t)
    }
}

/// The views of a list of string pairs.
pub open spec fn pairs_view(v: Seq<(String, String)>) -> Seq<(Seq<char>, Seq<char>)> {
    v.map_values(|p: (String, String)| (p.0@, p.1@))
}

/// `spec` is the stub form of `method`.
pub open spec fn describes(spec: MethodSpec, method: TraitMethod) -> bool {
    let params = typed_params(method.inputs@);
    &&& spec.name@ == method.name@
    &&& strings_view(spec.arg_types@) == params.map_values(
        |p: (Option<String>, RustType)| tokens_of(p.1),
    )
    &&& pairs_view(spec.arg_names_with_py_types@) == params.map_values(
        |p: (Option<String>, RustType)| (param_name(p.0), stub_hint(p.1, method.wire_raw)),
    )
    &&& spec.return_type_string@ == match method.output {
        Some(t) => tokens_of(t),
        None => Seq::empty(),
    }
    &&& spec.return_py_type@ == match method.output {
        Some(t) => stub_hint(t, method.wire_raw),
        None => "None"@,
    }
    &&& spec.wire_raw == method.wire_raw
    &&& strings_view(spec.docs@) == strings_view(method.docs@)
}

proof fn lemma_map_push<A, B>(s: Seq<A>, x: A, f: spec_fn(A) -> B)
    ensures
        s.push(x).map_values(f) =~= s.map_values(f).push(f(x)),
{
    assert forall|k: int| 0 <= k < s.len() + 1 implies #[trigger] s.push(x).map_values(f)[k]
        == s.map_values(f).push(f(x))[k] by {
        if k < s.len() {
            assert(s.push(x)[k] == s[k]);
        }
    }
}

fn tokens_text(t: &RustType) -> (s: String)
    ensures
        s@ == tokens_of(*t),
{
    match t {
        RustType::Path { tokens, .. } => tokens.clone(),
        RustType::Reference { tokens, .. } => tokens.clone(),
        RustType::Slice { tokens, .. } => tokens.clone(),
        RustType::Tuple { tokens, .. } => tokens.clone(),
        RustType::Other { tokens } => tokens.clone(),
    }
}

fn hint_for(t: &RustType, wire_raw: bool) -> (s: String)
    ensures
        s@ == stub_hint(*t, wire_raw),
{
    if wire_raw {
        String::from_str("bytes")
    } else {
        rust_type_to_python(t)
    }
}

fn clone_texts(v: &Vec<String>) -> (r: Vec<String>)
    ensures
        strings_view(r@) == strings_view(v@),
{
    let mut r: Vec<String> = Vec::new();
    let mut i: usize = 0;
    while i < v.len()
        invariant
            i <= v@.len(),
            strings_view(r@) == strings_view(v@.take(i as int)),
        decreases v@.len() - i,
    {
        let ghost before = r@;
        r.push(v[i].clone());
        assert(v@.take(i as int + 1) =~= v@.take(i as int).push(v@[i as int]));
        proof {
            lemma_map_push(before, v@[i as int], |s: String| s@);
            lemma_map_push(v@.take(i as int), v@[i as int], |s: String| s@);
        }
        i += 1;
    }
    assert(v@.take(v@.len() as int) =~= v@);
    r
}

/// The stub form of one method: its typed parameters' token text and
/// hints, and its return type's token text and hint (`bytes` throughout for
/// a raw-wire method).
pub fn method_to_spec(method: &TraitMethod) -> (spec: MethodSpec)
    ensures
        describes(spec, *method),
{
    let mut arg_types: Vec<String> = Vec::new();
    let mut named: Vec<(String, String)> = Vec::new();
    let mut i: usize = 0;
    while i < method.inputs.len()
        invariant
            i <= method.inputs@.len(),
            strings_view(arg_types@) == typed_params(method.inputs@.take(i as int)).map_values(
                |p: (Option<String>, RustType)| tokens_of(p.1),
            ),
            pairs_view(named@) == typed_params(method.inputs@.take(i as int)).map_values(
                |p: (Option<String>, RustType)| (param_name(p.0), stub_hint(p.1, method.wire_raw)),
            ),
        decreases method.inputs@.len() - i,
    {
        assert(method.inputs@.take(i as int + 1).drop_last() =~= method.inputs@.take(i as int));
        let ghost before_types = arg_types@;
        let ghost before_named = named@;
        let ghost prev = typed_params(method.inputs@.take(i as int));
        match &method.inputs[i] {
            MethodInput::Receiver => {},
            MethodInput::Typed { name, ty } => {
                let t = tokens_text(ty);
                arg_types.push(t);
                let n = match name {
                    Some(n) => n.clone(),
                    None => String::from_str("_arg"),
                };
                let h = hint_for(ty, method.wire_raw);
                let pair = (n, h);
                named.push(pair);
                proof {
                    lemma_map_push(before_types, t, |s: String| s@);
                    lemma_map_push(before_named, pair, |p: (String, String)| (p.0@, p.1@));
                    lemma_map_push(prev, (*name, *ty), |p: (Option<String>, RustType)| tokens_of(p.1));
                    lemma_map_push(
                        prev,
                        (*name, *ty),
                        |p: (Option<String>, RustType)|
                            (param_name(p.0), stub_hint(p.1, method.wire_raw)),
                    );
                }
            },
        }
        assert(strings_view(arg_types@) =~= typed_params(method.inputs@.take(i as int + 1)).map_values(
            |p: (Option<String>, RustType)| tokens_of(p.1),
        ));
        assert(pairs_view(named@) =~= typed_params(method.inputs@.take(i as int + 1)).map_values(
            |p: (Option<String>, RustType)| (param_name(p.0), stub_hint(p.1, method.wire_raw)),
        ));
        i += 1;
    }
    assert(method.inputs@.take(method.inputs@.len() as int) =~= method.inputs@);
    let (return_type_string, return_py_type) = match &method.output {
        None => (String::new(), String::from_str("None")),
        Some(t) => (tokens_text(t), hint_for(t, method.wire_raw)),
    };
    assert(return_type_string@ == match method.output {
        Some(t) => tokens_of(t),
        None => Seq::<char>::empty(),
    });
    MethodSpec {
        name: method.name.clone(),
        arg_types,
        arg_names_with_py_types: named,
        return_type_string,
        return_py_type,
        wire_raw: method.wire_raw,
        docs: clone_texts(&method.docs),
    }
}

/// The stub forms of a trait's methods, in declaration order.
pub fn extract_methods(methods: &[TraitMethod]) -> (specs: Vec<MethodSpec>)
    ensures
        specs@.len() == methods@.len(),
        forall|i: int| 0 <= i < methods@.len() ==> describes(#[trigger] specs@[i], methods@[i]),
{
    let mut out: Vec<MethodSpec> = Vec::new();
    let mut i: usize = 0;
    while i < methods.len()
        invariant
            i <= methods@.len(),
            out@.len() == i,
            forall|k: int| 0 <= k < i ==> describes(#[trigger] out@[k], methods@[k]),
        decreases methods@.len() - i,
    {
        out.push(method_to_spec(&methods[i]));
        i += 1;
    }
    out
}

/// `parts` joined with `sep` between consecutive entries.
pub open spec fn join_texts(parts: Seq<Seq<char>>, sep: Seq<char>) -> Seq<char>
    decreases parts.len(),
{
    if parts.len() == 0 {
        Seq::empty()
    } else if parts.len() == 1 {
        parts[0]
    } else {
        join_texts(parts.drop_last(), sep) + sep + parts.last()
    }
}

/// Joins `parts` with `sep`.
pub fn join_strings(parts: &[String], sep: &str) -> (s: String)
    ensures
        s@ == join_texts(strings_view(parts@), sep@),
{
    let mut out = String::new();
    let mut i: usize = 0;
    while i < parts.len()
        invariant
            i <= parts@.len(),
            out@ == join_texts(strings_view(parts@.take(i as int)), sep@),
        decreases parts@.len() - i,
    {
        proof {
            lemma_map_push(parts@.take(i as int), parts@[i as int], |s: String| s@);
            assert(parts@.take(i as int + 1) =~= parts@.take(i as int).push(parts@[i as int]));
            assert(strings_view(parts@.take(i as int + 1)).drop_last() =~= strings_view(
                parts@.take(i as int),
            ));
        }
        if i > 0 {
            out.append(sep);
        }
        out.append(parts[i].as_str());
        i += 1;
    }
    assert(parts@.take(parts@.len() as int) =~= parts@);
    out
}

/// The message when a source file declares no plugin interface.
pub open spec fn no_interface_message(src: Seq<char>) -> Seq<char> {
    "no `#[plugin_interface]` trait found in "@ + src
}

/// The message when several interfaces are declared and none was asked for.
pub open spec fn ambiguous_interface_message(src: Seq<char>, names: Seq<Seq<char>>) -> Seq<char> {
    "multiple `#[plugin_interface]` traits in "@ + src + ": "@ + join_texts(names, ", "@)
        + ". Pass --trait-name to choose."@
}

/// The message when the requested interface is not among those declared.
pub open spec fn missing_interface_message(
    name: Seq<char>,
    src: Seq<char>,
    names: Seq<Seq<char>>,
) -> Seq<char> {
    "trait '"@ + name + "' not found in "@ + src + "; available: "@ + join_texts(names, ", "@)
}

/// Chooses the interface to stub among the traits `names` declared in the
/// source `src`: with no request, exactly one must be declared; with a
/// request, the first trait of that name is chosen.
pub fn pick_trait(names: &[String], requested: Option<&str>, src: &str) -> (r: Result<usize, String>)
    ensures
        names@.len() == 0 ==> (r matches Err(m) && m@ == no_interface_message(src@)),
        names@.len() == 1 && requested is None ==> r == Ok::<usize, String>(0),
        names@.len() > 1 && requested is None ==> (r matches Err(m) && m@
            == ambiguous_interface_message(src@, strings_view(names@))),
        names@.len() > 0 && requested is Some ==> match r {
            Ok(i) => i < names@.len() && names@[i as int]@ == requested->0@ && forall|k: int|
                0 <= k < i ==> #[trigger] names@[k]@ != requested->0@,
            Err(m) => (forall|k: int|
                0 <= k < names@.len() ==> #[trigger] names@[k]@ != requested->0@) && m@
                == missing_interface_message(requested->0@, src@, strings_view(names@)),
        },
{
    if names.len() == 0 {
        let mut m = String::from_str("no `#[plugin_interface]` trait found in ");
        m.append(src);
        return Err(m);
    }
    match requested {
        None => {
            if names.len() == 1 {
                Ok(0)
            } else {
                let mut m = String::from_str("multiple `#[plugin_interface]` traits in ");
                m.append(src);
                m.append(": ");
                m.append(join_strings(names, ", ").as_str());
                m.append(". Pass --trait-name to choose.");
                Err(m)
            }
        },
        Some(want) => {
            let mut i: usize = 0;
            while i < names.len()
                invariant
                    requested == Some(want),
                    i <= names@.len(),
                    forall|k: int| 0 <= k < i ==> #[trigger] names@[k]@ != want@,
                decreases names@.len() - i,
            {
                if str_eq(names[i].as_str(), want) {
                    return Ok(i);
                }
                i += 1;
            }
            let mut m = String::from_str("trait '");
            m.append(want);
            m.append("' not found in ");
            m.append(src);
            m.append("; available: ");
            m.append(join_strings(names, ", ").as_str());
            Err(m)
        },
    }
}

/// The hexadecimal digit for `d < 16` (lowercase).
pub open spec fn hex_digit(d: nat) -> char {
    if d < 10 {
        ((d + 48) as u8) as char
    } else {
        ((d + 87) as u8) as char
    }
}

/// The lowest `n` hexadecimal digits of `h`, most significant first.
pub open spec fn hex_digits(h: nat, n: nat) -> Seq<char>
    decreases n,
{
    if n == 0 {
        Seq::empty()
    } else {
        hex_digits(h / 16, (n - 1) as nat).push(hex_digit(h % 16))
    }
}

/// A hash as the stub prints it: `0x` and sixteen lowercase hex digits.
pub open spec fn hash_literal(h: u64) -> Seq<char> {
    "0x"@ + hex_digits(h as nat, 16)
}

fn hex_char(d: u64) -> (c: char)
    requires
        d < 16,
    ensures
        c == hex_digit(d as nat),
{
    if d < 10 {
        ((d as u8) + 48) as char
    } else {
        ((d as u8) + 87) as char
    }
}

fn hex_text(h: u64, n: u64) -> (s: String)
    ensures
        s@ == hex_digits(h as nat, n as nat),
    decreases n,
{
    if n == 0 {
        String::new()
    } else {
        let mut s = hex_text(h / 16, n - 1);
        push_char(&mut s, hex_char(h % 16));
        s
    }
}

/// The stub's doc-comment lines: each line as a `# ` comment.
pub open spec fn doc_lines_text(docs: Seq<Seq<char>>) -> Seq<char>
    decreases docs.len(),
{
    if docs.len() == 0 {
        Seq::empty()
    } else {
        doc_lines_text(docs.drop_last()) + "# "@ + docs.last() + "\n"@
    }
}

/// A stub parameter list: `name: hint` entries joined with `, `.
pub open spec fn param_list_text(args: Seq<(Seq<char>, Seq<char>)>) -> Seq<char> {
    join_texts(args.map_values(|p: (Seq<char>, Seq<char>)| p.0 + ": "@ + p.1), ", "@)
}

/// The stub block of one method: its doc lines, a raw-wire note where it
/// applies, then the decorated `def` that raises `NotImplementedError`.
pub open spec fn method_text(m: MethodSpec) -> Seq<char> {
    doc_lines_text(strings_view(m.docs@)) + (if m.wire_raw {
        "# (raw-wire method: bytes in / bytes out, no bincode)\n"@
    } else {
        Seq::empty()
    }) + "@method\n"@ + "def "@ + m.name@ + "("@ + param_list_text(
        pairs_view(m.arg_names_with_py_types@),
    ) + ") -> "@ + m.return_py_type@ + ":\n"@ + "    raise NotImplementedError\n\n"@
}

/// The blocks of all methods, in order.
pub open spec fn methods_text(ms: Seq<MethodSpec>) -> Seq<char>
    decreases ms.len(),
{
    if ms.len() == 0 {
        Seq::empty()
    } else {
        methods_text(ms.drop_last()) + method_text(ms.last())
    }
}

/// Whether a method's hints fall back to `Any` anywhere.
pub open spec fn method_has_fallback(m: MethodSpec) -> bool {
    contains_text(m.return_py_type@, "# TODO"@) || exists|j: int|
        0 <= j < m.arg_names_with_py_types@.len() && contains_text(
            #[trigger] m.arg_names_with_py_types@[j].1@,
            "# TODO"@,
        )
}

/// The signature strings of the methods, as bytes: what the interface hash
/// is computed over.
pub open spec fn stub_signatures(ms: Seq<MethodSpec>) -> Seq<Seq<u8>> {
    ms.map_values(
        |m: MethodSpec|
            encode_utf8(
                signature_string_spec(
                    m.name@,
                    strings_view(m.arg_types@),
                    m.return_type_string@,
                    m.wire_raw,
                ),
            ),
    )
}

/// The note a stub carries when some hint fell back to `Any`.
pub open spec fn fallback_note() -> Seq<char> {
    "# Some method signatures contain Rust types that don't have a built-in Python\n# mapping. The stub falls back to `Any` for those — fill in a more specific type\n# if you can, and consider whether the host-side interface should be simplified.\n\n"@
}

/// The whole stub file for the interface `trait_name` with methods `ms`.
pub open spec fn stub_text(trait_name: Seq<char>, ms: Seq<MethodSpec>) -> Seq<char> {
    let hash = hash_literal(interface_hash_spec(stub_signatures(ms)));
    "# This file was generated by `fidius python-stub`. DO NOT EDIT BY HAND —\n"@
        + "# regenerate when the underlying Rust interface changes.\n"@ + "# Interface: "@
        + trait_name + "  (interface_hash = "@ + hash + ")\n\n"@
        + "from __future__ import annotations\n\n"@ + "from typing import Any, Optional\n\n"@
        + "from fidius import method\n\n"@ + "__interface_hash__ = "@ + hash + "\n\n"@ + (
    if exists|i: int| 0 <= i < ms.len() && method_has_fallback(#[trigger] ms[i]) {
        fallback_note()
    } else {
        Seq::empty()
    }) + methods_text(ms)
}

fn has_fallback(m: &MethodSpec) -> (r: bool)
    ensures
        r == method_has_fallback(*m),
{
    if str_contains(m.return_py_type.as_str(), "# TODO") {
        return true;
    }
    let mut j: usize = 0;
    while j < m.arg_names_with_py_types.len()
        invariant
            j <= m.arg_names_with_py_types@.len(),
            !contains_text(m.return_py_type@, "# TODO"@),
            forall|k: int|
                0 <= k < j ==> !contains_text(#[trigger] m.arg_names_with_py_types@[k].1@, "# TODO"@),
        decreases m.arg_names_with_py_types@.len() - j,
    {
        if str_contains(m.arg_names_with_py_types[j].1.as_str(), "# TODO") {
            return true;
        }
        j += 1;
    }
    false
}

fn doc_lines(docs: &Vec<String>) -> (s: String)
    ensures
        s@ == doc_lines_text(strings_view(docs@)),
{
    let mut out = String::new();
    let mut i: usize = 0;
    while i < docs.len()
        invariant
            i <= docs@.len(),
            out@ == doc_lines_text(strings_view(docs@.take(i as int))),
        decreases docs@.len() - i,
    {
        proof {
            lemma_map_push(docs@.take(i as int), docs@[i as int], |s: String| s@);
            assert(docs@.take(i as int + 1) =~= docs@.take(i as int).push(docs@[i as int]));
            assert(strings_view(docs@.take(i as int + 1)).drop_last() =~= strings_view(
                docs@.take(i as int),
            ));
        }
        out.append("# ");
        out.append(docs[i].as_str());
        out.append("\n");
        i += 1;
    }
    assert(docs@.take(docs@.len() as int) =~= docs@);
    out
}

fn param_list(args: &Vec<(String, String)>) -> (s: String)
    ensures
        s@ == param_list_text(pairs_view(args@)),
{
    let mut parts: Vec<String> = Vec::new();
    let mut i: usize = 0;
    while i < args.len()
        invariant
            i <= args@.len(),
            strings_view(parts@) == pairs_view(args@.take(i as int)).map_values(
                |p: (Seq<char>, Seq<char>)| p.0 + ": "@ + p.1,
            ),
        decreases args@.len() - i,
    {
        let mut part = args[i].0.clone();
        part.append(": ");
        part.append(args[i].1.as_str());
        let ghost before = parts@;
        parts.push(part);
        proof {
            assert(args@.take(i as int + 1) =~= args@.take(i as int).push(args@[i as int]));
            lemma_map_push(before, part, |s: String| s@);
            lemma_map_push(
                args@.take(i as int),
                args@[i as int],
                |p: (String, String)| (p.0@, p.1@),
            );
            lemma_map_push(
                pairs_view(args@.take(i as int)),
                (args@[i as int].0@, args@[i as int].1@),
                |p: (Seq<char>, Seq<char>)| p.0 + ": "@ + p.1,
            );
        }
        i += 1;
    }
    assert(args@.take(args@.len() as int) =~= args@);
    join_strings(parts.as_slice(), ", ")
}

fn method_block(m: &MethodSpec) -> (s: String)
    ensures
        s@ == method_text(*m),
{
    let mut out = doc_lines(&m.docs);
    if m.wire_raw {
        out.append("# (raw-wire method: bytes in / bytes out, no bincode)\n");
    }
    out.append("@method\n");
    out.append("def ");
    out.append(m.name.as_str());
    out.append("(");
    out.append(param_list(&m.arg_names_with_py_types).as_str());
    out.append(") -> ");
    out.append(m.return_py_type.as_str());
    out.append(":\n");
    out.append("    raise NotImplementedError\n\n");
    out
}

/// Renders the stub file for the interface `trait_name` with methods
/// `methods` (see [`stub_text`]).
pub fn render_python_stub(trait_name: &str, methods: &[MethodSpec]) -> (s: String)
    ensures
        s@ == stub_text(trait_name@, methods@),
{
    let mut sigs: Vec<String> = Vec::new();
    let mut i: usize = 0;
    while i < methods.len()
        invariant
            i <= methods@.len(),
            sigs@.len() == i,
            forall|k: int|
                0 <= k < i ==> (#[trigger] sigs@[k])@ == signature_string_spec(
                    methods@[k].name@,
                    strings_view(methods@[k].arg_types@),
                    methods@[k].return_type_string@,
                    methods@[k].wire_raw,
                ),
        decreases methods@.len() - i,
    {
        let m = &methods[i];
        sigs.push(
            signature_string(
                m.name.as_str(),
                m.arg_types.as_slice(),
                m.return_type_string.as_str(),
                m.wire_raw,
            ),
        );
        i += 1;
    }
    let mut refs: Vec<&str> = Vec::new();
    let mut k: usize = 0;
    while k < sigs.len()
        invariant
            k <= sigs@.len(),
            refs@.len() == k,
            forall|j: int| 0 <= j < k ==> (#[trigger] refs@[j])@ == sigs@[j]@,
        decreases sigs@.len() - k,
    {
        refs.push(sigs[k].as_str());
        k += 1;
    }
    let hash = interface_hash(refs.as_slice());
    assert(signature_bytes(refs@) =~= stub_signatures(methods@));
    let mut lit = String::from_str("0x");
    lit.append(hex_text(hash, 16).as_str());
    let mut any = false;
    let mut j: usize = 0;
    while j < methods.len()
        invariant
            j <= methods@.len(),
            any == exists|q: int| 0 <= q < j && method_has_fallback(#[trigger] methods@[q]),
        decreases methods@.len() - j,
    {
        if has_fallback(&methods[j]) {
            any = true;
        }
        j += 1;
    }
    let mut out = String::from_str(
        "# This file was generated by `fidius python-stub`. DO NOT EDIT BY HAND —\n",
    );
    out.append("# regenerate when the underlying Rust interface changes.\n");
    out.append("# Interface: ");
    out.append(trait_name);
    out.append("  (interface_hash = ");
    out.append(lit.as_str());
    out.append(")\n\n");
    out.append("from __future__ import annotations\n\n");
    out.append("from typing import Any, Optional\n\n");
    out.append("from fidius import method\n\n");
    out.append("__interface_hash__ = ");
    out.append(lit.as_str());
    out.append("\n\n");
    if any {
        out.append(
            "# Some method signatures contain Rust types that don't have a built-in Python\n# mapping. The stub falls back to `Any` for those — fill in a more specific type\n# if you can, and consider whether the host-side interface should be simplified.\n\n",
        );
    }
    let ghost head = out@;
    let mut n: usize = 0;
    while n < methods.len()
        invariant
            n <= methods@.len(),
            out@ == head + methods_text(methods@.take(n as int)),
        decreases methods@.len() - n,
    {
        assert(methods@.take(n as int + 1).drop_last() =~= methods@.take(n as int));
        out.append(method_block(&methods[n]).as_str());
        n += 1;
    }
    assert(methods@.take(methods@.len() as int) =~= methods@);
    out
}

/// A path type without generic arguments, whose last segment is `name`.
pub open spec fn plain_path_named(t: RustType, name: Seq<char>) -> bool {
    match t {
        RustType::Path { last: Some(n), args: None, .. } => n@ == name,
        _ => false,
    }
}

/// Rust's primitive scalar types map to their Python counterparts: every
/// integer type (`i8` to `i64`, `isize`, `u8` to `u64`, `usize`) to `int`,
/// `f32` and `f64` to `float`, `bool` to `bool`, and `String` to `str`.
pub proof fn lemma_scalar_hints(t: RustType, name: Seq<char>)
    requires
        plain_path_named(t, name),
    ensures
        name == "i8"@ || name == "i16"@ || name == "i32"@ || name == "i64"@ || name == "isize"@
            || name == "u8"@ || name == "u16"@ || name == "u32"@ || name == "u64"@ || name
            == "usize"@ ==> py_hint(t) == "int"@,
        name == "f32"@ || name == "f64"@ ==> py_hint(t) == "float"@,
        name == "bool"@ ==> py_hint(t) == "bool"@,
        name == "String"@ ==> py_hint(t) == "str"@,
{
    reveal_strlit("i8");
    reveal_strlit("i16");
    reveal_strlit("i32");
    reveal_strlit("i64");
    reveal_strlit("isize");
    reveal_strlit("u8");
    reveal_strlit("u16");
    reveal_strlit("u32");
    reveal_strlit("u64");
    reveal_strlit("usize");
    reveal_strlit("f32");
    reveal_strlit("f64");
    reveal_strlit("bool");
    reveal_strlit("String");
    if name == "f32"@ || name == "f64"@ {
        assert(name[0] == 'f');
        assert(!is_int_name(name));
    }
    if name == "bool"@ {
        assert(name[0] == 'b');
        assert(!is_int_name(name));
    }
    if name == "String"@ {
        assert(name[0] == 'S');
        assert(!is_int_name(name));
        assert(name != "bool"@);
        assert(name != "f32"@ && name != "f64"@);
    }
}

} // verus!
