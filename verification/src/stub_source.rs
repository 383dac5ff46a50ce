//! Reading a plugin interface out of Rust source text.
//!
//! `syn` parses the text. Each piece the stub needs (a trait, a method, an
//! attribute, a type) is handed over as plain values, with the pieces nested
//! in it given as their token text, which is read in turn. This module
//! decides everything else: which traits are interfaces, which method opts
//! into raw wire handling, which attributes are doc lines, and the shape of
//! every type.
use vstd::prelude::*;
use quote::ToTokens;
use syn::{parse_str, FnArg, Pat, ReturnType, TraitItemFn};
use crate::hash::strings_view;
use crate::python_stub::{
    ambiguous_interface_message, describes, extract_methods, missing_interface_message,
    no_interface_message, pick_trait, render_python_stub, stub_text, MethodInput, MethodSpec,
    RustType, TraitMethod,
};
use crate::text::str_eq;

verus! {

/// An optional string's text.
pub open spec fn opt_text(o: Option<String>) -> Option<Seq<char>> {
    match o {
        Some(s) => Some(s@),
        None => None,
    }
}

/// The texts of a sequence of optional strings.
pub open spec fn opt_texts(v: Seq<Option<String>>) -> Seq<Option<Seq<char>>> {
    v.map_values(|o: Option<String>| opt_text(o))
}

/// A trait item of a source file, as the parser read it.
pub struct TraitOutline {
    pub name: String,
    /// For each attribute, the final segment of its path.
    pub attr_paths: Vec<Option<String>>,
    /// For each item of the trait, the token text of a method (`None` for any
    /// other kind of item).
    pub methods: Vec<Option<String>>,
}

/// The plain value of a [`TraitOutline`].
pub struct TraitOutlineView {
    pub name: Seq<char>,
    pub attr_paths: Seq<Option<Seq<char>>>,
    pub methods: Seq<Option<Seq<char>>>,
}

impl View for TraitOutline {
    type V = TraitOutlineView;

    open spec fn view(&self) -> TraitOutlineView {
        TraitOutlineView {
            name: self.name@,
            attr_paths: opt_texts(self.attr_paths@),
            methods: opt_texts(self.methods@),
        }
    }
}

/// The plain values of a file's items.
pub open spec fn items_view(v: Seq<Option<TraitOutline>>) -> Seq<Option<TraitOutlineView>> {
    v.map_values(
        |o: Option<TraitOutline>|
            match o {
                Some(t) => Some(t@),
                None => None,
            },
    )
}

/// What `syn::parse_file` makes of a source file: for each item, its outline
/// when it is a trait; or the text of the parser's error.
pub uninterp spec fn file_items(source: Seq<char>) -> Result<Seq<Option<TraitOutlineView>>, Seq<char>>;

/// Calls `syn::parse_file` on `source` and hands over each trait item's name,
/// attribute paths and method texts. Claims: the result depends on the text
/// alone.
#[verifier::external_body]
fn parse_file_items(source: &str) -> (r: Result<Vec<Option<TraitOutline>>, String>)
    ensures
        match r {
            Ok(v) => file_items(source@) == Ok::<_, Seq<char>>(items_view(v@)),
            Err(e) => file_items(source@) == Err::<Seq<Option<TraitOutlineView>>, _>(e@),
        },
{
    syn::parse_file(source).map_err(|e| e.to_string()).map(|f| f.items.iter().map(|i| match i {
        syn::Item::Trait(t) => Some(TraitOutline {
            name: t.ident.to_string(),
            attr_paths: t.attrs.iter().map(|a| a.path().segments.last().map(|s| s.ident.to_string())).collect(),
            methods: t.items.iter().map(|x| match x {
                syn::TraitItem::Fn(m) => Some(m.to_token_stream().to_string()),
                _ => None,
            }).collect(),
        }),
        _ => None,
    }).collect())
}

/// The outer shape of a type, with a referenced or sliced element type given
/// as its token text.
pub enum TypeShape {
    Path { tokens: String },
    Reference { elem: String, tokens: String },
    Slice { elem: String, tokens: String },
    Tuple { len: usize, tokens: String },
    Other { tokens: String },
}

/// The plain value of a [`TypeShape`].
pub enum TypeShapeView {
    Path { tokens: Seq<char> },
    Reference { elem: Seq<char>, tokens: Seq<char> },
    Slice { elem: Seq<char>, tokens: Seq<char> },
    Tuple { len: nat, tokens: Seq<char> },
    Other { tokens: Seq<char> },
}

impl View for TypeShape {
    type V = TypeShapeView;

    open spec fn view(&self) -> TypeShapeView {
        match self {
            TypeShape::Path { tokens } => TypeShapeView::Path { tokens: tokens@ },
            TypeShape::Reference { elem, tokens } => TypeShapeView::Reference {
                elem: elem@,
                tokens: tokens@,
            },
            TypeShape::Slice { elem, tokens } => TypeShapeView::Slice { elem: elem@, tokens: tokens@ },
            TypeShape::Tuple { len, tokens } => TypeShapeView::Tuple { len: *len as nat, tokens: tokens@ },
            TypeShape::Other { tokens } => TypeShapeView::Other { tokens: tokens@ },
        }
    }
}

/// What `syn` reads from a type's text (`None`: not a type).
pub uninterp spec fn type_shape(text: Seq<char>) -> Option<TypeShapeView>;

/// Calls `syn::parse_str::<syn::Type>` and hands over the type's kind, token
/// text and element text. Claims: the result depends on the text alone.
#[verifier::external_body]
fn parse_type_shape(text: &str) -> (r: Option<TypeShape>)
    ensures
        match r {
            Some(s) => type_shape(text@) == Some(s@),
            None => type_shape(text@) is None,
        },
{
    syn::parse_str::<syn::Type>(text).ok().map(|t| {
        let tokens = t.to_token_stream().to_string();
        match &t {
            syn::Type::Path(_) => TypeShape::Path { tokens },
            syn::Type::Reference(r) => TypeShape::Reference { elem: r.elem.to_token_stream().to_string(), tokens },
            syn::Type::Slice(s) => TypeShape::Slice { elem: s.elem.to_token_stream().to_string(), tokens },
            syn::Type::Tuple(u) => TypeShape::Tuple { len: u.elems.len(), tokens },
            _ => TypeShape::Other { tokens },
        }
    })
}

/// A path type as the parser read it.
pub struct PathOutline {
    /// The final segment's identifier.
    pub last: Option<String>,
    /// Whether the path is one bare identifier.
    pub ident_only: bool,
    /// The final segment's angle-bracketed arguments, when it has them: each
    /// a type's token text, or `None` for an argument that is no type.
    pub args: Option<Vec<Option<String>>>,
}

/// The plain value of a [`PathOutline`].
pub struct PathOutlineView {
    pub last: Option<Seq<char>>,
    pub ident_only: bool,
    pub args: Option<Seq<Option<Seq<char>>>>,
}

impl View for PathOutline {
    type V = PathOutlineView;

    open spec fn view(&self) -> PathOutlineView {
        PathOutlineView {
            last: opt_text(self.last),
            ident_only: self.ident_only,
            args: match self.args {
                Some(a) => Some(opt_texts(a@)),
                None => None,
            },
        }
    }
}

/// What `syn` reads from a path type's text (`None`: not a path type).
pub uninterp spec fn path_outline(text: Seq<char>) -> Option<PathOutlineView>;

/// Calls `syn::parse_str::<syn::TypePath>` and hands over the final
/// segment's identifier and arguments. Claims: the result depends on the
/// text alone.
#[verifier::external_body]
fn parse_path_outline(text: &str) -> (r: Option<PathOutline>)
    ensures
        match r {
            Some(p) => path_outline(text@) == Some(p@),
            None => path_outline(text@) is None,
        },
{
    syn::parse_str::<syn::TypePath>(text).ok().map(|tp| {
        let last = tp.path.segments.last();
        PathOutline {
            last: last.map(|s| s.ident.to_string()),
            ident_only: tp.path.get_ident().is_some(),
            args: last.and_then(|s| match &s.arguments {
                syn::PathArguments::AngleBracketed(a) => Some(a.args.iter().map(|g| match g {
                    syn::GenericArgument::Type(t) => Some(t.to_token_stream().to_string()),
                    _ => None,
                }).collect()),
                _ => None,
            }),
        }
    })
}

/// The present entries of `s`, in order.
pub open spec fn somes(s: Seq<Option<Seq<char>>>) -> Seq<Seq<char>>
    decreases s.len(),
{
    if s.len() == 0 {
        Seq::empty()
    } else {
        let rest = somes(s.drop_last());
        match s.last() {
            Some(x) => rest.push(x),
            None => rest,
        }
    }
}

proof fn lemma_somes_prefix(s: Seq<Option<Seq<char>>>, j: int)
    requires
        0 <= j <= s.len(),
    ensures
        somes(s.take(j)).len() <= somes(s).len(),
        forall|k: int| 0 <= k < somes(s.take(j)).len() ==> #[trigger] somes(s.take(j))[k] == somes(s)[k],
    decreases s.len(),
{
    if j < s.len() {
        lemma_somes_prefix(s.drop_last(), j);
        assert(s.drop_last().take(j) =~= s.take(j));
    } else {
        assert(s.take(j) =~= s);
    }
}

/// `t` is what the type text `text` reads as, nested at most `fuel` deep.
pub open spec fn reads_type(t: RustType, text: Seq<char>, fuel: nat) -> bool
    decreases fuel,
{
    if fuel == 0 {
        false
    } else {
        match type_shape(text) {
            None => false,
            Some(TypeShapeView::Path { tokens }) => match path_outline(text) {
                None => false,
                Some(p) => match t {
                    RustType::Path { last, ident_only, args, tokens: tk } => {
                        &&& tk@ == tokens
                        &&& opt_text(last) == p.last
                        &&& ident_only == p.ident_only
                        &&& match p.args {
                            None => args is None,
                            Some(a) => match args {
                                Some(v) => v@.len() == somes(a).len() && forall|i: int|
                                    0 <= i < v@.len() ==> reads_type(
                                        #[trigger] v@[i],
                                        somes(a)[i],
                                        (fuel - 1) as nat,
                                    ),
                                None => false,
                            },
                        }
                    },
                    _ => false,
                },
            },
            Some(TypeShapeView::Reference { elem, tokens }) => match t {
                RustType::Reference { elem: e, tokens: tk } => tk@ == tokens && reads_type(
                    *e,
                    elem,
                    (fuel - 1) as nat,
                ),
                _ => false,
            },
            Some(TypeShapeView::Slice { elem, tokens }) => match t {
                RustType::Slice { elem: e, tokens: tk } => tk@ == tokens && reads_type(
                    *e,
                    elem,
                    (fuel - 1) as nat,
                ),
                _ => false,
            },
            Some(TypeShapeView::Tuple { len, tokens }) => match t {
                RustType::Tuple { len: l, tokens: tk } => tk@ == tokens && l == len,
                _ => false,
            },
            Some(TypeShapeView::Other { tokens }) => match t {
                RustType::Other { tokens: tk } => tk@ == tokens,
                _ => false,
            },
        }
    }
}

/// Some type is what `text` reads as, within `fuel`.
pub open spec fn type_readable(text: Seq<char>, fuel: nat) -> bool {
    exists|t: RustType| reads_type(t, text, fuel)
}

/// Reads the type whose token text is `text`, nested at most `fuel` deep;
/// `None` when some part of it does not read as a type.
pub fn read_type(text: &str, fuel: usize) -> (r: Option<RustType>)
    ensures
        match r {
            Some(t) => reads_type(t, text@, fuel as nat),
            None => !type_readable(text@, fuel as nat),
        },
    decreases fuel,
{
    if fuel == 0 {
        return None;
    }
    let sub: usize = fuel - 1;
    match parse_type_shape(text) {
        None => None,
        Some(TypeShape::Path { tokens }) => match parse_path_outline(text) {
            None => None,
            Some(p) => {
                let ghost pv = p@;
                let PathOutline { last, ident_only, args } = p;
                let args_out: Option<Vec<RustType>> = match args {
                    None => None,
                    Some(a) => {
                        let ghost av = opt_texts(a@);
                        let mut out: Vec<RustType> = Vec::new();
                        let mut i: usize = 0;
                        while i < a.len()
                            invariant
                                i <= a@.len(),
                                av == opt_texts(a@),
                                fuel > 0,
                                sub == fuel - 1,
                                pv.args == Some(av),
                                path_outline(text@) == Some(pv),
                                type_shape(text@) == Some(TypeShapeView::Path { tokens: tokens@ }),
                                out@.len() == somes(av.take(i as int)).len(),
                                forall|k: int|
                                    0 <= k < out@.len() ==> reads_type(
                                        #[trigger] out@[k],
                                        somes(av.take(i as int))[k],
                                        sub as nat,
                                    ),
                            decreases a@.len() - i,
                        {
                            assert(av.take(i as int + 1).drop_last() =~= av.take(i as int));
                            match &a[i] {
                                None => {},
                                Some(x) => {
                                    assert(av[i as int] == Some(x@));
                                    match read_type(x.as_str(), sub) {
                                        None => {
                                            proof {
                                                lemma_somes_prefix(av, i as int + 1);
                                                let k = out@.len() as int;
                                                assert(somes(av.take(i as int + 1))[k] == x@);
                                                assert forall|t: RustType| !reads_type(
                                                    t,
                                                    text@,
                                                    fuel as nat,
                                                ) by {
                                                    if reads_type(t, text@, fuel as nat) {
                                                        assert(pv.args == Some(av));
                                                        if let RustType::Path { args: Some(v), .. } = t {
                                                            assert(reads_type(v@[k], somes(av)[k], sub as nat));
                                                        }
                                                    }
                                                }
                                            }
                                            return None;
                                        },
                                        Some(t) => {
                                            out.push(t);
                                        },
                                    }
                                },
                            }
                            i += 1;
                        }
                        assert(av.take(a@.len() as int) =~= av);
                        Some(out)
                    },
                };
                let r = RustType::Path { last, ident_only, args: args_out, tokens };
                assert(reads_type(r, text@, fuel as nat));
                Some(r)
            },
        },
        Some(TypeShape::Reference { elem, tokens }) => match read_type(elem.as_str(), sub) {
            None => {
                proof {
                    assert forall|t: RustType| !reads_type(t, text@, fuel as nat) by {
                        if let RustType::Reference { elem: e, .. } = t {
                            assert(!reads_type(*e, elem@, sub as nat));
                        }
                    }
                }
                None
            },
            Some(e) => {
                let r = RustType::Reference { elem: Box::new(e), tokens };
                assert(reads_type(r, text@, fuel as nat));
                Some(r)
            },
        },
        Some(TypeShape::Slice { elem, tokens }) => match read_type(elem.as_str(), sub) {
            None => {
                proof {
                    assert forall|t: RustType| !reads_type(t, text@, fuel as nat) by {
                        if let RustType::Slice { elem: e, .. } = t {
                            assert(!reads_type(*e, elem@, sub as nat));
                        }
                    }
                }
                None
            },
            Some(e) => {
                let r = RustType::Slice { elem: Box::new(e), tokens };
                assert(reads_type(r, text@, fuel as nat));
                Some(r)
            },
        },
        Some(TypeShape::Tuple { len, tokens }) => {
            let r = RustType::Tuple { len, tokens };
            assert(reads_type(r, text@, fuel as nat));
            Some(r)
        },
        Some(TypeShape::Other { tokens }) => {
            let r = RustType::Other { tokens };
            assert(reads_type(r, text@, fuel as nat));
            Some(r)
        },
    }
}

/// One parameter of a method as the parser read it; a typed parameter's type
/// is given as its token text.
pub enum InputOutline {
    Receiver,
    Typed { name: Option<String>, ty: String },
}

/// The plain value of an [`InputOutline`].
pub enum InputOutlineView {
    Receiver,
    Typed { name: Option<Seq<char>>, ty: Seq<char> },
}

impl View for InputOutline {
    type V = InputOutlineView;

    open spec fn view(&self) -> InputOutlineView {
        match self {
            InputOutline::Receiver => InputOutlineView::Receiver,
            InputOutline::Typed { name, ty } => InputOutlineView::Typed { name: opt_text(*name), ty: ty@ },
        }
    }
}

/// A trait method as the parser read it: its name, its parameters, its
/// return type's token text (`None` for the default `()`), and the token
/// text of each of its attributes.
pub struct MethodOutline {
    pub name: String,
    pub inputs: Vec<InputOutline>,
    pub output: Option<String>,
    pub attrs: Vec<String>,
}

/// The plain value of a [`MethodOutline`].
pub struct MethodOutlineView {
    pub name: Seq<char>,
    pub inputs: Seq<InputOutlineView>,
    pub output: Option<Seq<char>>,
    pub attrs: Seq<Seq<char>>,
}

impl View for MethodOutline {
    type V = MethodOutlineView;

    open spec fn view(&self) -> MethodOutlineView {
        MethodOutlineView {
            name: self.name@,
            inputs: self.inputs@.map_values(|i: InputOutline| i@),
            output: opt_text(self.output),
            attrs: strings_view(self.attrs@),
        }
    }
}

/// What `syn` reads from a trait method's text (`None`: not a trait method).
pub uninterp spec fn method_outline(text: Seq<char>) -> Option<MethodOutlineView>;

/// Calls `syn::parse_str::<syn::TraitItemFn>` and hands over the method's
/// name, parameters, return type and attributes. Claims: the result depends
/// on the text alone.
#[verifier::external_body]
fn parse_method(text: &str) -> (r: Option<MethodOutline>)
    ensures
        match r {
            Some(m) => method_outline(text@) == Some(m@),
            None => method_outline(text@) is None,
        },
{
    parse_str(text).ok().map(|m: TraitItemFn| MethodOutline {
        name: m.sig.ident.to_string(),
        inputs: m.sig.inputs.iter().map(|a| match a {
            FnArg::Receiver(_) => InputOutline::Receiver,
            FnArg::Typed(p) => InputOutline::Typed {
                name: match p.pat.as_ref() { Pat::Ident(i) => Some(i.ident.to_string()), _ => None },
                ty: p.ty.to_token_stream().to_string(),
            }
        }).collect(),
        output: match &m.sig.output { ReturnType::Default => None, ReturnType::Type(_, t) => Some(t.to_token_stream().to_string()) },
        attrs: m.attrs.iter().map(|a| a.to_token_stream().to_string()).collect()
    })
}

/// An attribute as the parser read it: its path when that is one bare
/// identifier, its value when it is `path = "string"`, and the paths (as
/// token text) of the nested items in `path(..)`, as far as they parse.
pub struct AttrOutline {
    pub ident: Option<String>,
    pub str_value: Option<String>,
    pub nested: Vec<String>,
}

/// The plain value of an [`AttrOutline`].
pub struct AttrOutlineView {
    pub ident: Option<Seq<char>>,
    pub str_value: Option<Seq<char>>,
    pub nested: Seq<Seq<char>>,
}

impl View for AttrOutline {
    type V = AttrOutlineView;

    open spec fn view(&self) -> AttrOutlineView {
        AttrOutlineView {
            ident: opt_text(self.ident),
            str_value: opt_text(self.str_value),
            nested: strings_view(self.nested@),
        }
    }
}

/// What `syn` reads from an attribute's text (`None`: not an attribute).
pub uninterp spec fn attribute_outline(text: Seq<char>) -> Option<AttrOutlineView>;

/// Parses one outer attribute with `syn::Attribute::parse_outer` and hands
/// over its identifier, string value and nested paths (collected through
/// `parse_nested_meta`). Claims: the result depends on the text alone.
#[verifier::external_body]
fn parse_attribute(text: &str) -> (r: Option<AttrOutline>)
    ensures
        match r {
            Some(a) => attribute_outline(text@) == Some(a@),
            None => attribute_outline(text@) is None,
        },
{
    syn::parse::Parser::parse_str(syn::Attribute::parse_outer, text).ok().and_then(|v| v.into_iter().next()).map(|a| {
        let mut nested: Vec<String> = Vec::new();
        let _ = a.parse_nested_meta(|m| { nested.push(m.path.to_token_stream().to_string()); Ok(()) });
        let str_value = match &a.meta { syn::Meta::NameValue(nv) => match &nv.value {
            syn::Expr::Lit(syn::ExprLit { lit: syn::Lit::Str(s), .. }) => Some(s.value()), _ => None }, _ => None };
        AttrOutline { ident: a.path().get_ident().map(|i| i.to_string()), str_value, nested }
    })
}

/// Whether `c` has the Unicode `White_Space` property.
pub open spec fn is_white_space(c: char) -> bool {
    let u = c as u32;
    (0x9 <= u <= 0xD) || u == 0x20 || u == 0x85 || u == 0xA0 || u == 0x1680 || (0x2000 <= u
        <= 0x200A) || u == 0x2028 || u == 0x2029 || u == 0x202F || u == 0x205F || u == 0x3000
}

/// `s` without its leading whitespace.
pub open spec fn trim_start_spec(s: Seq<char>) -> Seq<char>
    decreases s.len(),
{
    if s.len() > 0 && is_white_space(s[0]) {
        trim_start_spec(s.drop_first())
    } else {
        s
    }
}

/// `s` without its trailing whitespace.
pub open spec fn trim_end_spec(s: Seq<char>) -> Seq<char>
    decreases s.len(),
{
    if s.len() > 0 && is_white_space(s.last()) {
        trim_end_spec(s.drop_last())
    } else {
        s
    }
}

/// `s` without leading and trailing whitespace (Unicode `White_Space`).
pub open spec fn trimmed(s: Seq<char>) -> Seq<char> {
    trim_end_spec(trim_start_spec(s))
}

/// Calls `str::trim`. Claims what its documentation states: leading and
/// trailing characters with the Unicode `White_Space` property are removed.
#[verifier::external_body]
fn trim_text(s: &str) -> (r: String)
    ensures
        r@ == trimmed(s@),
{
    s.trim().to_string()
}

/// An attribute that opts a method into raw wire handling: `#[wire(raw)]`.
pub open spec fn marks_wire_raw(a: Option<AttrOutlineView>) -> bool {
    match a {
        Some(v) => v.ident == Some("wire"@) && v.nested.contains("raw"@),
        None => false,
    }
}

/// Some attribute opts into raw wire handling.
pub open spec fn wire_raw_of(attrs: Seq<Seq<char>>) -> bool {
    exists|i: int| 0 <= i < attrs.len() && marks_wire_raw(attribute_outline(#[trigger] attrs[i]))
}

/// The doc line an attribute carries: the trimmed string of `#[doc = ".."]`.
pub open spec fn doc_line(a: Option<AttrOutlineView>) -> Option<Seq<char>> {
    match a {
        Some(v) => if v.ident == Some("doc"@) {
            match v.str_value {
                Some(x) => Some(trimmed(x)),
                None => None,
            }
        } else {
            None
        },
        None => None,
    }
}

/// The doc lines among `attrs`, in order.
pub open spec fn doc_lines_of(attrs: Seq<Seq<char>>) -> Seq<Seq<char>> {
    somes(attrs.map_values(|a: Seq<char>| doc_line(attribute_outline(a))))
}

/// `m` is the parameter the outline `o` describes.
pub open spec fn reads_input(m: MethodInput, o: InputOutlineView, fuel: nat) -> bool {
    match o {
        InputOutlineView::Receiver => m is Receiver,
        InputOutlineView::Typed { name, ty } => match m {
            MethodInput::Typed { name: n, ty: t } => opt_text(n) == name && reads_type(t, ty, fuel),
            MethodInput::Receiver => false,
        },
    }
}

/// `m` is what the method text `text` reads as, its types nested at most
/// `fuel` deep.
pub open spec fn reads_method(m: TraitMethod, text: Seq<char>, fuel: nat) -> bool {
    match method_outline(text) {
        None => false,
        Some(o) => {
            &&& m.name@ == o.name
            &&& m.inputs@.len() == o.inputs.len()
            &&& forall|i: int|
                0 <= i < o.inputs.len() ==> reads_input(#[trigger] m.inputs@[i], o.inputs[i], fuel)
            &&& match o.output {
                None => m.output is None,
                Some(ty) => match m.output {
                    Some(t) => reads_type(t, ty, fuel),
                    None => false,
                },
            }
            &&& m.wire_raw == wire_raw_of(o.attrs)
            &&& strings_view(m.docs@) == doc_lines_of(o.attrs)
        },
    }
}

/// Some method is what `text` reads as.
pub open spec fn method_readable(text: Seq<char>, fuel: nat) -> bool {
    exists|m: TraitMethod| reads_method(m, text, fuel)
}

fn opt_string_clone(o: &Option<String>) -> (r: Option<String>)
    ensures
        opt_text(r) == opt_text(*o),
{
    match o {
        Some(s) => Some(s.clone()),
        None => None,
    }
}

fn strings_contain(v: &Vec<String>, x: &str) -> (r: bool)
    ensures
        r == strings_view(v@).contains(x@),
{
    let mut i: usize = 0;
    while i < v.len()
        invariant
            i <= v@.len(),
            forall|k: int| 0 <= k < i ==> v@[k]@ != x@,
        decreases v@.len() - i,
    {
        if str_eq(v[i].as_str(), x) {
            assert(strings_view(v@)[i as int] == x@);
            return true;
        }
        i += 1;
    }
    assert forall|k: int| 0 <= k < strings_view(v@).len() implies strings_view(v@)[k] != x@ by {
        assert(v@[k]@ != x@);
    }
    false
}

fn opt_is(o: &Option<String>, x: &str) -> (r: bool)
    ensures
        r == (opt_text(*o) == Some(x@)),
{
    match o {
        Some(s) => str_eq(s.as_str(), x),
        None => false,
    }
}

/// Whether the attributes `attrs` opt into raw wire handling, and their doc
/// lines.
fn read_attributes(attrs: &Vec<String>) -> (r: (bool, Vec<String>))
    ensures
        r.0 == wire_raw_of(strings_view(attrs@)),
        strings_view(r.1@) == doc_lines_of(strings_view(attrs@)),
{
    let ghost av = strings_view(attrs@);
    let ghost f = |a: Seq<char>| doc_line(attribute_outline(a));
    let mut wire_raw = false;
    let mut docs: Vec<String> = Vec::new();
    let mut i: usize = 0;
    while i < attrs.len()
        invariant
            i <= attrs@.len(),
            av == strings_view(attrs@),
            f == (|a: Seq<char>| doc_line(attribute_outline(a))),
            wire_raw == exists|j: int| 0 <= j < i && marks_wire_raw(attribute_outline(#[trigger] av[j])),
            strings_view(docs@) == somes(av.take(i as int).map_values(f)),
        decreases attrs@.len() - i,
    {
        let ghost before = docs@;
        assert(av[i as int] == attrs@[i as int]@);
        assert(av.take(i as int + 1).map_values(f) =~= av.take(i as int).map_values(f).push(
            f(av[i as int]),
        ));
        assert(av.take(i as int + 1).map_values(f).drop_last() =~= av.take(i as int).map_values(f));
        match parse_attribute(attrs[i].as_str()) {
            None => {},
            Some(a) => {
                if opt_is(&a.ident, "wire") && strings_contain(&a.nested, "raw") {
                    wire_raw = true;
                }
                if opt_is(&a.ident, "doc") {
                    match &a.str_value {
                        Some(v) => {
                            docs.push(trim_text(v.as_str()));
                            assert(strings_view(docs@) =~= strings_view(before).push(
                                trimmed(v@),
                            ));
                        },
                        None => {},
                    }
                }
            },
        }
        i += 1;
    }
    assert(av.take(attrs@.len() as int) =~= av);
    (wire_raw, docs)
}

/// Reads the trait method whose token text is `text`, its types nested at
/// most `fuel` deep; `None` when some part of it does not read back.
pub fn read_method(text: &str, fuel: usize) -> (r: Option<TraitMethod>)
    ensures
        match r {
            Some(m) => reads_method(m, text@, fuel as nat),
            None => !method_readable(text@, fuel as nat),
        },
{
    let o = match parse_method(text) {
        None => return None,
        Some(o) => o,
    };
    let ghost ov = o@;
    let mut inputs: Vec<MethodInput> = Vec::new();
    let mut i: usize = 0;
    while i < o.inputs.len()
        invariant
            i <= o.inputs@.len(),
            ov == o@,
            method_outline(text@) == Some(ov),
            inputs@.len() == i,
            forall|k: int| 0 <= k < i ==> reads_input(#[trigger] inputs@[k], ov.inputs[k], fuel as nat),
        decreases o.inputs@.len() - i,
    {
        assert(ov.inputs[i as int] == o.inputs@[i as int]@);
        match &o.inputs[i] {
            InputOutline::Receiver => {
                inputs.push(MethodInput::Receiver);
            },
            InputOutline::Typed { name, ty } => match read_type(ty.as_str(), fuel) {
                None => {
                    proof {
                        assert forall|m: TraitMethod| !reads_method(m, text@, fuel as nat) by {
                            if reads_method(m, text@, fuel as nat) {
                                assert(reads_input(m.inputs@[i as int], ov.inputs[i as int], fuel as nat));
                                if let MethodInput::Typed { ty: t, .. } = m.inputs@[i as int] {
                                    assert(reads_type(t, ty@, fuel as nat));
                                }
                            }
                        }
                    }
                    return None;
                },
                Some(t) => {
                    inputs.push(MethodInput::Typed { name: opt_string_clone(name), ty: t });
                },
            },
        }
        i += 1;
    }
    let output = match &o.output {
        None => None,
        Some(ty) => match read_type(ty.as_str(), fuel) {
            None => {
                proof {
                    assert forall|m: TraitMethod| !reads_method(m, text@, fuel as nat) by {
                        if reads_method(m, text@, fuel as nat) {
                            if let Some(t) = m.output {
                                assert(reads_type(t, ty@, fuel as nat));
                            }
                        }
                    }
                }
                return None;
            },
            Some(t) => Some(t),
        },
    };
    let (wire_raw, docs) = read_attributes(&o.attrs);
    let m = TraitMethod { name: o.name, inputs, output, wire_raw, docs };
    assert(reads_method(m, text@, fuel as nat));
    Some(m)
}

/// A trait is a plugin interface when one of its attribute paths ends in
/// `plugin_interface`.
pub open spec fn marks_interface(t: TraitOutlineView) -> bool {
    t.attr_paths.contains(Some("plugin_interface"@))
}

/// The plugin interfaces among a file's items, in file order.
pub open spec fn interface_traits(items: Seq<Option<TraitOutlineView>>) -> Seq<TraitOutlineView>
    decreases items.len(),
{
    if items.len() == 0 {
        Seq::empty()
    } else {
        let rest = interface_traits(items.drop_last());
        match items.last() {
            Some(t) => if marks_interface(t) {
                rest.push(t)
            } else {
                rest
            },
            None => rest,
        }
    }
}

/// The names of `traits`.
pub open spec fn trait_names(traits: Seq<TraitOutlineView>) -> Seq<Seq<char>> {
    traits.map_values(|t: TraitOutlineView| t.name)
}

/// The interface chosen among `names`: the only one when none is requested,
/// else the first of the requested name.
pub open spec fn chosen_interface(names: Seq<Seq<char>>, requested: Option<Seq<char>>, k: int) -> bool {
    &&& 0 <= k < names.len()
    &&& match requested {
        None => names.len() == 1,
        Some(w) => names[k] == w && forall|j: int| 0 <= j < k ==> names[j] != w,
    }
}

/// `methods` are what the method texts `texts` read as, in order.
pub open spec fn reads_methods(methods: Seq<TraitMethod>, texts: Seq<Seq<char>>, fuel: nat) -> bool {
    &&& methods.len() == texts.len()
    &&& forall|i: int| 0 <= i < texts.len() ==> reads_method(#[trigger] methods[i], texts[i], fuel)
}

/// Every method text reads back.
pub open spec fn methods_readable(texts: Seq<Seq<char>>, fuel: nat) -> bool {
    forall|i: int| 0 <= i < texts.len() ==> method_readable(#[trigger] texts[i], fuel)
}

/// The message when the source file does not parse.
pub open spec fn parse_failure_message(src: Seq<char>, error: Seq<char>) -> Seq<char> {
    "failed to parse "@ + src + ": "@ + error
}

/// The message when a method of the chosen trait does not read back.
pub open spec fn unreadable_method_message(src: Seq<char>, name: Seq<char>) -> Seq<char> {
    "failed to parse "@ + src + ": a method of trait `"@ + name + "` does not read back"@
}

/// The requested name's text.
pub open spec fn requested_text(requested: Option<&str>) -> Option<Seq<char>> {
    match requested {
        Some(w) => Some(w@),
        None => None,
    }
}

fn has_interface_attr(paths: &Vec<Option<String>>) -> (r: bool)
    ensures
        r == opt_texts(paths@).contains(Some("plugin_interface"@)),
{
    let mut i: usize = 0;
    while i < paths.len()
        invariant
            i <= paths@.len(),
            forall|k: int| 0 <= k < i ==> opt_text(#[trigger] paths@[k]) != Some("plugin_interface"@),
        decreases paths@.len() - i,
    {
        if opt_is(&paths[i], "plugin_interface") {
            assert(opt_texts(paths@)[i as int] == Some("plugin_interface"@));
            return true;
        }
        i += 1;
    }
    assert forall|k: int| 0 <= k < opt_texts(paths@).len() implies opt_texts(paths@)[k] != Some(
        "plugin_interface"@,
    ) by {
        assert(opt_text(paths@[k]) != Some("plugin_interface"@));
    }
    false
}

/// The plugin interfaces among `items`: their names, and where each stands.
fn find_interfaces(items: &Vec<Option<TraitOutline>>) -> (r: (Vec<String>, Vec<usize>))
    ensures
        strings_view(r.0@) == trait_names(interface_traits(items_view(items@))),
        r.1@.len() == r.0@.len(),
        forall|j: int|
            0 <= j < r.1@.len() ==> (#[trigger] r.1@[j]) < items@.len() && items_view(items@)[r.1@[j] as int]
                == Some(interface_traits(items_view(items@))[j]),
{
    let ghost iv = items_view(items@);
    let mut names: Vec<String> = Vec::new();
    let mut idx: Vec<usize> = Vec::new();
    let mut i: usize = 0;
    while i < items.len()
        invariant
            i <= items@.len(),
            iv == items_view(items@),
            strings_view(names@) == trait_names(interface_traits(iv.take(i as int))),
            idx@.len() == names@.len(),
            forall|j: int|
                0 <= j < idx@.len() ==> (#[trigger] idx@[j]) < i && iv[idx@[j] as int] == Some(
                    interface_traits(iv.take(i as int))[j],
                ),
        decreases items@.len() - i,
    {
        let ghost before = interface_traits(iv.take(i as int));
        let ghost names_before = names@;
        assert(iv.take(i as int + 1).drop_last() =~= iv.take(i as int));
        assert(iv.take(i as int + 1).last() == iv[i as int]);
        match &items[i] {
            None => {},
            Some(t) => {
                assert(iv[i as int] == Some(t@));
                if has_interface_attr(&t.attr_paths) {
                    names.push(t.name.clone());
                    idx.push(i);
                    assert(interface_traits(iv.take(i as int + 1)) == before.push(t@));
                    assert(strings_view(names@) =~= strings_view(names_before).push(t.name@));
                    assert(trait_names(before.push(t@)) =~= trait_names(before).push(t@.name));
                }
            },
        }
        i += 1;
    }
    assert(iv.take(items@.len() as int) =~= iv);
    (names, idx)
}

/// Reads the method texts among `methods` (`None` entries are other kinds of
/// trait item), in order; `None` when one does not read back.
fn read_methods(methods: &Vec<Option<String>>, fuel: usize) -> (r: Option<Vec<TraitMethod>>)
    ensures
        match r {
            Some(ms) => reads_methods(ms@, somes(opt_texts(methods@)), fuel as nat),
            None => !methods_readable(somes(opt_texts(methods@)), fuel as nat),
        },
{
    let ghost mv = opt_texts(methods@);
    let mut out: Vec<TraitMethod> = Vec::new();
    let mut i: usize = 0;
    while i < methods.len()
        invariant
            i <= methods@.len(),
            mv == opt_texts(methods@),
            reads_methods(out@, somes(mv.take(i as int)), fuel as nat),
        decreases methods@.len() - i,
    {
        assert(mv.take(i as int + 1).drop_last() =~= mv.take(i as int));
        assert(mv[i as int] == opt_text(methods@[i as int]));
        match &methods[i] {
            None => {},
            Some(x) => match read_method(x.as_str(), fuel) {
                None => {
                    proof {
                        lemma_somes_prefix(mv, i as int + 1);
                        let k = out@.len() as int;
                        assert(somes(mv.take(i as int + 1))[k] == x@);
                        assert(!method_readable(somes(mv)[k], fuel as nat));
                    }
                    return None;
                },
                Some(m) => {
                    out.push(m);
                },
            },
        }
        i += 1;
    }
    assert(mv.take(methods@.len() as int) =~= mv);
    Some(out)
}

/// The Python stub for a plugin interface declared in the Rust source text
/// `source`, which `src` names in messages. The interface is the trait
/// requested by name, or the file's only `#[plugin_interface]` trait; its
/// methods are read from the source and rendered with [`render_python_stub`].
pub fn interface_stub(source: &str, requested: Option<&str>, src: &str) -> (r: Result<String, String>)
    ensures
        match file_items(source@) {
            Err(e) => r matches Err(m) && m@ == parse_failure_message(src@, e),
            Ok(items) => {
                let traits = interface_traits(items);
                let names = trait_names(traits);
                &&& traits.len() == 0 ==> (r matches Err(m) && m@ == no_interface_message(src@))
                &&& traits.len() > 1 && requested is None ==> (r matches Err(m) && m@
                    == ambiguous_interface_message(src@, names))
                &&& requested matches Some(w) ==> (traits.len() > 0 && !names.contains(w@) ==> (
                r matches Err(m) && m@ == missing_interface_message(w@, src@, names)))
                &&& forall|k: int| #[trigger] chosen_interface(names, requested_text(requested), k) ==> {
                    let texts = somes(traits[k].methods);
                    &&& (r is Ok <==> methods_readable(texts, source@.len()))
                    &&& r matches Ok(s) ==> exists|ms: Seq<TraitMethod>, specs: Seq<MethodSpec>|
                        {
                            &&& reads_methods(ms, texts, source@.len())
                            &&& specs.len() == ms.len()
                            &&& forall|i: int| 0 <= i < ms.len() ==> describes(#[trigger] specs[i], ms[i])
                            &&& s@ == stub_text(traits[k].name, specs)
                        }
                    &&& r matches Err(m) ==> m@ == unreadable_method_message(src@, traits[k].name)
                }
            },
        },
{
    let items = match parse_file_items(source) {
        Err(e) => {
            let mut m = String::from_str("failed to parse ");
            m.append(src);
            m.append(": ");
            m.append(e.as_str());
            return Err(m);
        },
        Ok(v) => v,
    };
    let ghost iv = items_view(items@);
    let ghost traits = interface_traits(iv);
    let (names, idx) = find_interfaces(&items);
    let chosen = match pick_trait(&names, requested, src) {
        Err(m) => {
            proof {
                assert(strings_view(names@) == trait_names(traits));
                assert forall|k: int| !#[trigger] chosen_interface(trait_names(traits), requested_text(requested), k) by {
                    if chosen_interface(trait_names(traits), requested_text(requested), k) {
                        assert(names@[k]@ == trait_names(traits)[k]);
                    }
                }
                if requested is Some && traits.len() > 0 {
                    let w = requested->0;
                    if trait_names(traits).contains(w@) {
                        let k = choose|k: int| 0 <= k < trait_names(traits).len() && trait_names(traits)[k] == w@;
                        assert(names@[k]@ == w@);
                    }
                }
            }
            return Err(m);
        },
        Ok(i) => i,
    };
    let ghost k = chosen as int;
    proof {
        assert(strings_view(names@) == trait_names(traits));
        assert(names@[k]@ == trait_names(traits)[k]);
        assert(chosen_interface(trait_names(traits), requested_text(requested), k));
        assert forall|k2: int| #[trigger] chosen_interface(trait_names(traits), requested_text(requested), k2) implies k2 == k by {
            if k2 != k {
                assert(names@[k2]@ == trait_names(traits)[k2]);
            }
        }
    }
    let at = idx[chosen];
    let t = items[at].as_ref().unwrap();
    assert(t@ == traits[k]);
    let fuel = source.unicode_len();
    match read_methods(&t.methods, fuel) {
        None => {
            let mut m = String::from_str("failed to parse ");
            m.append(src);
            m.append(": a method of trait `");
            m.append(t.name.as_str());
            m.append("` does not read back");
            Err(m)
        },
        Some(ms) => {
            proof {
                assert forall|i: int| 0 <= i < somes(traits[k].methods).len() implies method_readable(
                    #[trigger] somes(traits[k].methods)[i],
                    source@.len(),
                ) by {
                    assert(reads_method(ms@[i], somes(traits[k].methods)[i], source@.len()));
                }
            }
            let specs = extract_methods(ms.as_slice());
            let s = render_python_stub(t.name.as_str(), specs.as_slice());
            assert(reads_methods(ms@, somes(traits[k].methods), source@.len()));
            Ok(s)
        },
    }
}

} // verus!

