//! Reading source text: each piece of syntax is taken apart by the parser, one level at a time,
//! and put together as the plain values that the rest of the library works on.

use crate::listas::agrega;
use crate::sintaxis::{
    ArgPair, ArgPairView, ArrayLen, ArrayLenView, AssocType, AssocTypeView, Attr, AttrArgs,
    AttrArgsView, AttrView, BagType, BagTypeView, DataType, DataTypeView, Decl, DeclField,
    DeclFieldView, DeclView, Field, FieldView, Item, ItemView, MetaArg, MetaArgView, PathType,
    PathTypeView, PortType, PortTypeView, Segment, SegmentView,
};
use crate::texto::es;
use quote::ToTokens;
use syn::punctuated::Punctuated;
use vstd::prelude::*;
use vstd::string::*;

verus! {

/// The view of a result whose error is a message.
pub open spec fn vista_str<T: DeepView>(r: Result<T, String>) -> Result<T::V, Seq<char>> {
    match r {
        Ok(v) => Ok(v.deep_view()),
        Err(e) => Err(e@),
    }
}

/// The segments of a path, as text: identifiers, and of each argument in angle brackets that is
/// a type, its tokens.
pub type Segmentos = Vec<(String, Vec<Option<String>>)>;

pub type SegmentosView = Seq<(Seq<char>, Seq<Option<Seq<char>>>)>;

/// A type taken apart, its parts still text.
pub enum TypeParts {
    /// A path: its tokens.
    Path(String),
    /// A tuple: its elements.
    Tuple(Vec<String>),
    /// An array: its element and its length.
    Array(String, String),
    Other,
}

pub enum TypePartsView {
    Path(Seq<char>),
    Tuple(Seq<Seq<char>>),
    Array(Seq<char>, Seq<char>),
    Other,
}

impl DeepView for TypeParts {
    type V = TypePartsView;

    open spec fn deep_view(&self) -> TypePartsView {
        match self {
            TypeParts::Path(t) => TypePartsView::Path(t@),
            TypeParts::Tuple(v) => TypePartsView::Tuple(v.deep_view()),
            TypeParts::Array(t, n) => TypePartsView::Array(t@, n@),
            TypeParts::Other => TypePartsView::Other,
        }
    }
}

/// An `impl` as text: the identifiers of its trait's path, unless it is inherent; its type; and
/// of each of its items that is an associated type, the name and the type.
pub type ImplText = (Option<Vec<String>>, String, Vec<Option<(String, String)>>);

pub type ImplTextView = (
    Option<Seq<Seq<char>>>,
    Seq<char>,
    Seq<Option<(Seq<char>, Seq<char>)>>,
);

/// An attribute as text: its identifier, and the tokens of its list.
pub type AttrText = (Option<String>, Option<String>);

pub type AttrTextView = (Option<Seq<char>>, Option<Seq<char>>);

/// A field of a struct as text: its name, its type and its attributes.
pub type FieldText = (Option<String>, String, Vec<String>);

pub type FieldTextView = (Option<Seq<char>>, Seq<char>, Seq<Seq<char>>);

/// A struct as text: its name, its visibility and its fields.
pub type StructText = (String, String, Vec<FieldText>);

pub type StructTextView = (Seq<char>, Seq<char>, Seq<FieldTextView>);

/// A module as text: its attributes, each with whether it is an inner one; its visibility; the
/// word `unsafe`, or nothing; its name; and the items of its body, if it has one.
pub struct ModText {
    pub attrs: Vec<(bool, String)>,
    pub vis: String,
    pub unsafety: String,
    pub ident: String,
    pub items: Option<Vec<String>>,
}

pub struct ModTextView {
    pub attrs: Seq<(bool, Seq<char>)>,
    pub vis: Seq<char>,
    pub unsafety: Seq<char>,
    pub ident: Seq<char>,
    pub items: Option<Seq<Seq<char>>>,
}

impl DeepView for ModText {
    type V = ModTextView;

    open spec fn deep_view(&self) -> ModTextView {
        ModTextView {
            attrs: self.attrs.deep_view(),
            vis: self.vis@,
            unsafety: self.unsafety@,
            ident: self.ident@,
            items: self.items.deep_view(),
        }
    }
}

/// What `syn` makes of a type.
pub uninterp spec fn syn_type(text: Seq<char>) -> TypePartsView;

/// What `syn` makes of a path.
pub uninterp spec fn syn_segments(text: Seq<char>) -> SegmentosView;

/// What `syn` makes of the length of an array.
pub uninterp spec fn syn_len(text: Seq<char>) -> ArrayLenView;

/// What `syn` makes of an `impl`, if the text is one.
pub uninterp spec fn syn_impl(text: Seq<char>) -> Option<ImplTextView>;

/// What `syn` makes of an enum, if the text is one: its name and the names of its variants.
pub uninterp spec fn syn_enum(text: Seq<char>) -> Option<(Seq<char>, Seq<Seq<char>>)>;

/// What `syn` makes of a module.
pub uninterp spec fn syn_mod(text: Seq<char>) -> Result<ModTextView, Seq<char>>;

/// What `syn` makes of a whole file: its items.
pub uninterp spec fn syn_file(text: Seq<char>) -> Result<Seq<Seq<char>>, Seq<char>>;

/// What `syn` makes of a struct.
pub uninterp spec fn syn_struct(text: Seq<char>) -> Result<StructTextView, Seq<char>>;

/// What `syn` makes of an attribute of a field.
pub uninterp spec fn syn_attr(text: Seq<char>) -> Option<AttrTextView>;

/// What `syn` makes of `key = value` arguments.
pub uninterp spec fn syn_args(text: Seq<char>) -> Result<Seq<ArgPairView>, Seq<char>>;

/// What `syn` makes of the arguments of an attribute on a field.
pub uninterp spec fn syn_metas(text: Seq<char>) -> Result<Seq<MetaArgView>, Seq<char>>;

/// `syn::parse_str::<Type>`, its result taken apart. What comes out is a function of the text;
/// a text that is no type gives the same as a type of a sort that is not taken apart.
#[verifier::external_body]
fn parte_tipo(text: &str) -> (r: TypeParts)
    ensures
        r.deep_view() == syn_type(text@),
{
    let txt = |t: &dyn ToTokens| t.to_token_stream().to_string();
    match syn::parse_str::<syn::Type>(text) {
        Ok(syn::Type::Path(t)) => TypeParts::Path(txt(&t.path)),
        Ok(syn::Type::Tuple(t)) => TypeParts::Tuple(t.elems.iter().map(|e| txt(e)).collect()),
        Ok(syn::Type::Array(t)) => TypeParts::Array(txt(&t.elem), txt(&t.len)),
        _ => TypeParts::Other,
    }
}

/// `syn::parse_str::<Path>`, its segments. What comes out is a function of the text; a text that
/// is no path has no segments.
#[verifier::external_body]
fn parte_ruta(text: &str) -> (r: Segmentos)
    ensures
        r.deep_view() == syn_segments(text@),
{
    let arg = |g: &syn::GenericArgument| match g {
        syn::GenericArgument::Type(t) => Some(t.to_token_stream().to_string()),
        _ => None,
    };
    let args = |a: &syn::PathArguments| match a {
        syn::PathArguments::AngleBracketed(a) => a.args.iter().map(arg).collect(),
        _ => Vec::new(),
    };
    let seg = |s: &syn::PathSegment| (s.ident.to_string(), args(&s.arguments));
    match syn::parse_str::<syn::Path>(text) {
        Ok(p) => p.segments.iter().map(seg).collect(),
        Err(_) => Vec::new(),
    }
}

/// `syn::parse_str::<Expr>` and, for an integer literal, `LitInt::base10_parse::<u64>`. What
/// comes out is a function of the text; a text that is no expression counts as no literal.
#[verifier::external_body]
fn parte_len(text: &str) -> (r: ArrayLen)
    ensures
        r.deep_view() == syn_len(text@),
{
    match syn::parse_str::<syn::Expr>(text) {
        Ok(syn::Expr::Lit(syn::ExprLit { lit: syn::Lit::Int(n), .. })) => {
            match n.base10_parse::<u64>() {
                Ok(k) => ArrayLen::Count(k),
                Err(e) => ArrayLen::Bad(e.to_string()),
            }
        },
        _ => ArrayLen::NotLiteral,
    }
}

/// `syn::parse_str::<ItemImpl>`, its result taken apart. What comes out is a function of the
/// text; a text that is no `impl` gives nothing.
#[verifier::external_body]
fn parte_impl(text: &str) -> (r: Option<ImplText>)
    ensures
        r.deep_view() == syn_impl(text@),
{
    let txt = |t: &dyn ToTokens| t.to_token_stream().to_string();
    let tipo = |x: &syn::ImplItem| match x {
        syn::ImplItem::Type(t) => Some((t.ident.to_string(), txt(&t.ty))),
        _ => None,
    };
    let idents = |p: &syn::Path| p.segments.iter().map(|s| s.ident.to_string()).collect();
    match syn::parse_str::<syn::ItemImpl>(text) {
        Ok(i) => Some((
            i.trait_.as_ref().map(|t| idents(&t.1)),
            txt(&i.self_ty),
            i.items.iter().map(tipo).collect(),
        )),
        Err(_) => None,
    }
}

/// `syn::parse_str::<ItemEnum>`, its result taken apart. What comes out is a function of the
/// text; a text that is no enum gives nothing.
#[verifier::external_body]
fn parte_enum(text: &str) -> (r: Option<(String, Vec<String>)>)
    ensures
        r.deep_view() == syn_enum(text@),
{
    match syn::parse_str::<syn::ItemEnum>(text) {
        Ok(e) => Some((
            e.ident.to_string(),
            e.variants.iter().map(|v| v.ident.to_string()).collect(),
        )),
        Err(_) => None,
    }
}

/// `syn::parse_str::<ItemMod>`, its result taken apart. What comes out is a function of the text:
/// the module, or the parser's message.
#[verifier::external_body]
pub(crate) fn parte_mod(text: &str) -> (r: Result<ModText, String>)
    ensures
        vista_str(r) == syn_mod(text@),
{
    let txt = |t: &dyn ToTokens| t.to_token_stream().to_string();
    let attr = |a: &syn::Attribute| (matches!(a.style, syn::AttrStyle::Inner(_)), txt(a));
    match syn::parse_str::<syn::ItemMod>(text) {
        Ok(m) => Ok(ModText {
            attrs: m.attrs.iter().map(attr).collect(),
            vis: txt(&m.vis),
            unsafety: txt(&m.unsafety),
            ident: m.ident.to_string(),
            items: m.content.map(|c| c.1.iter().map(|i| txt(i)).collect()),
        }),
        Err(e) => Err(e.to_string()),
    }
}

/// `syn::parse_str::<File>`, its items back as text. What comes out is a function of the text:
/// the items, or the parser's message.
#[verifier::external_body]
pub(crate) fn parte_archivo(text: &str) -> (r: Result<Vec<String>, String>)
    ensures
        vista_str(r) == syn_file(text@),
{
    let txt = |i: &syn::Item| i.to_token_stream().to_string();
    match syn::parse_str::<syn::File>(text) {
        Ok(f) => Ok(f.items.iter().map(txt).collect()),
        Err(e) => Err(e.to_string()),
    }
}

/// `syn::parse_str::<ItemStruct>`, its result taken apart. What comes out is a function of the
/// text: the struct, or the parser's message.
#[verifier::external_body]
fn parte_struct(text: &str) -> (r: Result<StructText, String>)
    ensures
        vista_str(r) == syn_struct(text@),
{
    let txt = |t: &dyn ToTokens| t.to_token_stream().to_string();
    let attrs = |v: &Vec<syn::Attribute>| v.iter().map(|a| txt(a)).collect();
    let nombre = |f: &syn::Field| f.ident.as_ref().map(|i| i.to_string());
    let campo = |f: &syn::Field| (nombre(f), txt(&f.ty), attrs(&f.attrs));
    match syn::parse_str::<syn::ItemStruct>(text) {
        Ok(s) => Ok((s.ident.to_string(), txt(&s.vis), s.fields.iter().map(campo).collect())),
        Err(e) => Err(e.to_string()),
    }
}

/// `Parser::parse_str` of `Attribute::parse_outer`, its result taken apart. What comes out is a
/// function of the text: the first of its attributes, or nothing if it holds none or anything
/// else.
#[verifier::external_body]
fn parte_attr(text: &str) -> (r: Option<AttrText>)
    ensures
        r.deep_view() == syn_attr(text@),
{
    let lista = |m: &syn::Meta| match m {
        syn::Meta::List(l) => Some(l.tokens.to_string()),
        _ => None,
    };
    let attr = |a: &syn::Attribute| (a.path().get_ident().map(|i| i.to_string()), lista(&a.meta));
    match syn::parse::Parser::parse_str(syn::Attribute::parse_outer, text) {
        Ok(v) => v.first().map(attr),
        Err(_) => None,
    }
}

/// `Parser::parse_str` of `Punctuated::<MetaNameValue, Comma>::parse_terminated`, its result
/// taken apart. What comes out is a function of the text: the pairs, or the parser's message.
#[verifier::external_body]
pub(crate) fn parte_args(text: &str) -> (r: Result<Vec<ArgPair>, String>)
    ensures
        vista_str(r) == syn_args(text@),
{
    let txt = |t: &dyn ToTokens| t.to_token_stream().to_string();
    let ruta = |e: &syn::Expr| match e {
        syn::Expr::Path(p) => Some(txt(&p.path)),
        _ => None,
    };
    let par = |p: &syn::MetaNameValue| {
        let key = p.path.get_ident().map(|i| i.to_string());
        ArgPair { key, path: ruta(&p.value), value: txt(&p.value) }
    };
    let lista = Punctuated::<syn::MetaNameValue, syn::token::Comma>::parse_terminated;
    match syn::parse::Parser::parse_str(lista, text) {
        Ok(ps) => Ok(ps.iter().map(par).collect()),
        Err(e) => Err(e.to_string()),
    }
}

/// `Parser::parse_str` of `Punctuated::<Meta, Comma>::parse_terminated`, its result taken apart.
/// What comes out is a function of the text: the arguments, or the parser's message.
#[verifier::external_body]
fn parte_metas(text: &str) -> (r: Result<Vec<MetaArg>, String>)
    ensures
        vista_str(r) == syn_metas(text@),
{
    let id = |p: &syn::Path| p.get_ident().map(|i| i.to_string());
    let meta = |m: &syn::Meta| match m {
        syn::Meta::Path(p) => MetaArg::Path(id(p)),
        syn::Meta::NameValue(n) => {
            MetaArg::NameValue(id(&n.path), n.value.to_token_stream().to_string())
        },
        syn::Meta::List(_) => MetaArg::List,
    };
    let lista = Punctuated::<syn::Meta, syn::token::Comma>::parse_terminated;
    match syn::parse::Parser::parse_str(lista, text) {
        Ok(ms) => Ok(ms.iter().map(meta).collect()),
        Err(e) => Err(e.to_string()),
    }
}

/// What `syn` makes of text as an identifier: whether it is one, keywords included.
pub uninterp spec fn syn_ident(text: Seq<char>) -> bool;

/// What `syn` makes of an error message: an invocation of `compile_error!`.
pub uninterp spec fn syn_compile_error(mensaje: Seq<char>) -> Seq<char>;

/// `Parser::parse_str` of `IdentExt::parse_any`: whether the text is an identifier, keywords
/// included. What comes out is a function of the text.
#[verifier::external_body]
pub(crate) fn es_identificador(text: &str) -> (r: bool)
    ensures
        r == syn_ident(text@),
{
    syn::parse::Parser::parse_str(<syn::Ident as syn::ext::IdentExt>::parse_any, text).is_ok()
}

/// `syn::Error::new` and `Error::to_compile_error`, the tokens as text. What comes out is a
/// function of the message.
#[verifier::external_body]
pub(crate) fn error_de_compilacion(mensaje: &str) -> (r: String)
    ensures
        r@ == syn_compile_error(mensaje@),
{
    syn::Error::new(proc_macro2::Span::call_site(), mensaje).to_compile_error().to_string()
}

/// A data type, from its text.
pub open spec fn dato_leido(text: Seq<char>) -> DataTypeView {
    DataTypeView {
        text,
        idents: match syn_type(text) {
            TypePartsView::Path(p) => {
                let segs = syn_segments(p);
                Some(Seq::new(segs.len(), |i: int| segs[i].0))
            },
            _ => None,
        },
    }
}

/// The arguments of a segment, from their text.
pub open spec fn args_leidos(args: Seq<Option<Seq<char>>>) -> Seq<Option<DataTypeView>> {
    Seq::new(
        args.len(),
        |i: int|
            match args[i] {
                Some(t) => Some(dato_leido(t)),
                None => None,
            },
    )
}

/// The segments of a path, from their text.
pub open spec fn segmentos_leidos(segs: SegmentosView) -> Seq<SegmentView> {
    Seq::new(segs.len(), |i: int| SegmentView { ident: segs[i].0, args: args_leidos(segs[i].1) })
}

/// A path, from its text.
pub open spec fn ruta_leida(text: Seq<char>) -> PathTypeView {
    PathTypeView { text, segments: segmentos_leidos(syn_segments(text)) }
}

/// A type in the place of a port, from its text.
pub open spec fn puerto_leido(text: Seq<char>) -> PortTypeView {
    PortTypeView {
        text,
        path: match syn_type(text) {
            TypePartsView::Path(p) => Some(ruta_leida(p)),
            _ => None,
        },
    }
}

/// Types in the places of ports, from their text.
pub open spec fn puertos_leidos(ts: Seq<Seq<char>>) -> Seq<PortTypeView> {
    Seq::new(ts.len(), |i: int| puerto_leido(ts[i]))
}

/// A type in the place of a bag, from its text.
pub open spec fn bolsa_leida(text: Seq<char>) -> BagTypeView {
    match syn_type(text) {
        TypePartsView::Path(p) => BagTypeView::Path(ruta_leida(p)),
        TypePartsView::Tuple(ts) => BagTypeView::Tuple(puertos_leidos(ts)),
        TypePartsView::Array(e, n) => BagTypeView::Array(puerto_leido(e), syn_len(n)),
        TypePartsView::Other => BagTypeView::Other,
    }
}

/// The associated types of an `impl`, from their text; its other items are left out.
pub open spec fn tipos_leidos(types: Seq<Option<(Seq<char>, Seq<char>)>>) -> Seq<AssocTypeView>
    decreases types.len(),
{
    if types.len() == 0 {
        Seq::empty()
    } else {
        let antes = tipos_leidos(types.drop_last());
        match types.last() {
            Some((n, t)) => antes.push(AssocTypeView { ident: n, ty: bolsa_leida(t) }),
            None => antes,
        }
    }
}

/// The fields of a struct of the module, from their text.
pub open spec fn campos_leidos(fs: Seq<FieldTextView>) -> Seq<FieldView> {
    Seq::new(fs.len(), |i: int| FieldView { ident: fs[i].0, ty: puerto_leido(fs[i].1) })
}

/// An item of the module, from its text.
pub open spec fn item_leido(text: Seq<char>) -> ItemView {
    match syn_impl(text) {
        Some((tr, ty, types)) => ItemView::Impl(tr, puerto_leido(ty), tipos_leidos(types)),
        None => match syn_struct(text) {
            Ok((n, _, fs)) => ItemView::Struct(n, campos_leidos(fs)),
            Err(_) => match syn_enum(text) {
                Some((n, vs)) => ItemView::Enum(n, vs),
                None => ItemView::Other,
            },
        },
    }
}

/// The items of the module, from their text.
pub open spec fn items_leidos(ts: Seq<Seq<char>>) -> Seq<ItemView> {
    Seq::new(ts.len(), |i: int| item_leido(ts[i]))
}

/// The items of a module's body, if it has one, from their text.
pub open spec fn cuerpo_leido(m: ModTextView) -> Option<Seq<ItemView>> {
    match m.items {
        None => None,
        Some(ts) => Some(items_leidos(ts)),
    }
}

/// The attributes of a declared field, from their text.
pub open spec fn attrs_leidos(ts: Seq<Seq<char>>) -> Seq<AttrView> {
    Seq::new(ts.len(), |i: int| attr_leido(ts[i]))
}

/// An attribute of a declared field, from its text.
pub open spec fn attr_leido(text: Seq<char>) -> AttrView {
    match syn_attr(text) {
        Some(at) => con_argumentos(at),
        None => AttrView { ident: None, args: AttrArgsView::Nothing },
    }
}

/// An attribute with its arguments read. Of one that labels no variable they are not.
pub open spec fn con_argumentos(at: AttrTextView) -> AttrView {
    AttrView {
        ident: at.0,
        args: if at.0 == Some("input"@) || at.0 == Some("output"@) {
            match at.1 {
                None => AttrArgsView::Nothing,
                Some(t) => match syn_metas(t) {
                    Ok(ms) => AttrArgsView::List(ms),
                    Err(e) => AttrArgsView::Bad(e),
                },
            }
        } else {
            AttrArgsView::Nothing
        },
    }
}

/// The fields of a declared interface, from their text.
pub open spec fn declarados_leidos(fs: Seq<FieldTextView>) -> Seq<DeclFieldView> {
    Seq::new(
        fs.len(),
        |i: int|
            DeclFieldView {
                ident: fs[i].0,
                ty: dato_leido(fs[i].1),
                attrs: attrs_leidos(fs[i].2),
            },
    )
}

/// A declared interface, from its text.
pub open spec fn decl_leida(text: Seq<char>) -> Result<DeclView, Seq<char>> {
    match syn_struct(text) {
        Err(e) => Err(e),
        Ok(d) => Ok(DeclView { ident: d.0, vis: d.1, fields: declarados_leidos(d.2) }),
    }
}

/// Another value equal to an optional text.
fn copia_opcion(x: &Option<String>) -> (r: Option<String>)
    ensures
        r.deep_view() == x.deep_view(),
{
    match x {
        Some(s) => Some(s.clone()),
        None => None,
    }
}

/// Reads a data type.
fn lee_dato(text: &str) -> (r: DataType)
    ensures
        r.deep_view() == dato_leido(text@),
{
    let idents = match parte_tipo(text) {
        TypeParts::Path(p) => {
            let segs = parte_ruta(p.as_str());
            let ghost sv = segs.deep_view();
            let ghost todo = Seq::new(sv.len(), |i: int| sv[i].0);
            let mut v: Vec<String> = Vec::new();
            assert(v.deep_view() =~= todo.take(0));
            let mut i: usize = 0;
            while i < segs.len()
                invariant
                    i <= segs.len(),
                    sv == segs.deep_view(),
                    todo == Seq::new(sv.len(), |i: int| sv[i].0),
                    v.deep_view() == todo.take(i as int),
                decreases segs.len() - i,
            {
                assert(sv[i as int] == segs[i as int].deep_view());
                agrega(&mut v, segs[i].0.clone());
                i += 1;
                assert(v.deep_view() =~= todo.take(i as int));
            }
            assert(todo.take(todo.len() as int) =~= todo);
            Some(v)
        },
        _ => None,
    };
    DataType { text: text.to_owned(), idents }
}

/// Reads the arguments of a segment.
fn lee_args(args: &Vec<Option<String>>) -> (r: Vec<Option<DataType>>)
    ensures
        r.deep_view() == args_leidos(args.deep_view()),
{
    let ghost av = args.deep_view();
    let ghost todo = args_leidos(av);
    let mut v: Vec<Option<DataType>> = Vec::new();
    assert(v.deep_view() =~= todo.take(0));
    let mut i: usize = 0;
    while i < args.len()
        invariant
            i <= args.len(),
            av == args.deep_view(),
            todo == args_leidos(av),
            v.deep_view() == todo.take(i as int),
        decreases args.len() - i,
    {
        assert(av[i as int] == args[i as int].deep_view());
        let x = match &args[i] {
            Some(t) => Some(lee_dato(t.as_str())),
            None => None,
        };
        assert(x.deep_view() == todo[i as int]);
        agrega(&mut v, x);
        i += 1;
        assert(v.deep_view() =~= todo.take(i as int));
    }
    assert(todo.take(todo.len() as int) =~= todo);
    v
}

/// Reads the segments of a path.
fn lee_segmentos(segs: &Segmentos) -> (r: Vec<Segment>)
    ensures
        r.deep_view() == segmentos_leidos(segs.deep_view()),
{
    let ghost av = segs.deep_view();
    let ghost todo = segmentos_leidos(av);
    let mut v: Vec<Segment> = Vec::new();
    assert(v.deep_view() =~= todo.take(0));
    let mut i: usize = 0;
    while i < segs.len()
        invariant
            i <= segs.len(),
            av == segs.deep_view(),
            todo == segmentos_leidos(av),
            v.deep_view() == todo.take(i as int),
        decreases segs.len() - i,
    {
        assert(av[i as int] == segs[i as int].deep_view());
        let x = Segment { ident: segs[i].0.clone(), args: lee_args(&segs[i].1) };
        assert(x.deep_view() == todo[i as int]);
        agrega(&mut v, x);
        i += 1;
        assert(v.deep_view() =~= todo.take(i as int));
    }
    assert(todo.take(todo.len() as int) =~= todo);
    v
}

/// Reads a path.
fn lee_ruta(text: String) -> (r: PathType)
    ensures
        r.deep_view() == ruta_leida(text@),
{
    let segments = lee_segmentos(&parte_ruta(text.as_str()));
    PathType { text, segments }
}

/// Reads a type in the place of a port.
fn lee_puerto(text: &str) -> (r: PortType)
    ensures
        r.deep_view() == puerto_leido(text@),
{
    let path = match parte_tipo(text) {
        TypeParts::Path(p) => Some(lee_ruta(p)),
        _ => None,
    };
    PortType { text: text.to_owned(), path }
}

/// Reads types in the places of ports.
fn lee_puertos(ts: &Vec<String>) -> (r: Vec<PortType>)
    ensures
        r.deep_view() == puertos_leidos(ts.deep_view()),
{
    let ghost av = ts.deep_view();
    let ghost todo = puertos_leidos(av);
    let mut v: Vec<PortType> = Vec::new();
    assert(v.deep_view() =~= todo.take(0));
    let mut i: usize = 0;
    while i < ts.len()
        invariant
            i <= ts.len(),
            av == ts.deep_view(),
            todo == puertos_leidos(av),
            v.deep_view() == todo.take(i as int),
        decreases ts.len() - i,
    {
        assert(av[i as int] == ts[i as int].deep_view());
        let x = lee_puerto(ts[i].as_str());
        assert(x.deep_view() == todo[i as int]);
        agrega(&mut v, x);
        i += 1;
        assert(v.deep_view() =~= todo.take(i as int));
    }
    assert(todo.take(todo.len() as int) =~= todo);
    v
}

/// Reads a type in the place of a bag.
fn lee_bolsa(text: &str) -> (r: BagType)
    ensures
        r.deep_view() == bolsa_leida(text@),
{
    match parte_tipo(text) {
        TypeParts::Path(p) => BagType::Path(lee_ruta(p)),
        TypeParts::Tuple(ts) => BagType::Tuple(lee_puertos(&ts)),
        TypeParts::Array(e, n) => BagType::Array(lee_puerto(e.as_str()), parte_len(n.as_str())),
        TypeParts::Other => BagType::Other,
    }
}

/// Reads the associated types of an `impl`.
fn lee_tipos(types: &Vec<Option<(String, String)>>) -> (r: Vec<AssocType>)
    ensures
        r.deep_view() == tipos_leidos(types.deep_view()),
{
    let ghost tv = types.deep_view();
    let mut v: Vec<AssocType> = Vec::new();
    assert(v.deep_view() =~= tipos_leidos(tv.take(0)));
    let mut i: usize = 0;
    while i < types.len()
        invariant
            i <= types.len(),
            tv == types.deep_view(),
            v.deep_view() == tipos_leidos(tv.take(i as int)),
        decreases types.len() - i,
    {
        proof {
            assert(tv.take(i + 1).drop_last() =~= tv.take(i as int));
            assert(tv.take(i + 1).last() == types[i as int].deep_view());
        }
        if let Some(t) = &types[i] {
            agrega(&mut v, AssocType { ident: t.0.clone(), ty: lee_bolsa(t.1.as_str()) });
        }
        i += 1;
    }
    assert(tv.take(tv.len() as int) =~= tv);
    v
}

/// Reads the fields of a struct of the module.
fn lee_campos(fs: &Vec<FieldText>) -> (r: Vec<Field>)
    ensures
        r.deep_view() == campos_leidos(fs.deep_view()),
{
    let ghost av = fs.deep_view();
    let ghost todo = campos_leidos(av);
    let mut v: Vec<Field> = Vec::new();
    assert(v.deep_view() =~= todo.take(0));
    let mut i: usize = 0;
    while i < fs.len()
        invariant
            i <= fs.len(),
            av == fs.deep_view(),
            todo == campos_leidos(av),
            v.deep_view() == todo.take(i as int),
        decreases fs.len() - i,
    {
        assert(av[i as int] == fs[i as int].deep_view());
        let x = Field { ident: copia_opcion(&fs[i].0), ty: lee_puerto(fs[i].1.as_str()) };
        assert(x.deep_view() == todo[i as int]);
        agrega(&mut v, x);
        i += 1;
        assert(v.deep_view() =~= todo.take(i as int));
    }
    assert(todo.take(todo.len() as int) =~= todo);
    v
}

/// Reads an item of the module.
fn lee_item(text: &str) -> (r: Item)
    ensures
        r.deep_view() == item_leido(text@),
{
    match parte_impl(text) {
        Some((tr, ty, types)) => Item::Impl(tr, lee_puerto(ty.as_str()), lee_tipos(&types)),
        None => match parte_struct(text) {
            Ok((n, _, fs)) => Item::Struct(n, lee_campos(&fs)),
            Err(_) => match parte_enum(text) {
                Some((n, vs)) => Item::Enum(n, vs),
                None => Item::Other,
            },
        },
    }
}

/// Reads the items of the module.
fn lee_items(ts: &Vec<String>) -> (r: Vec<Item>)
    ensures
        r.deep_view() == items_leidos(ts.deep_view()),
{
    let ghost av = ts.deep_view();
    let ghost todo = items_leidos(av);
    let mut v: Vec<Item> = Vec::new();
    assert(v.deep_view() =~= todo.take(0));
    let mut i: usize = 0;
    while i < ts.len()
        invariant
            i <= ts.len(),
            av == ts.deep_view(),
            todo == items_leidos(av),
            v.deep_view() == todo.take(i as int),
        decreases ts.len() - i,
    {
        assert(av[i as int] == ts[i as int].deep_view());
        let x = lee_item(ts[i].as_str());
        assert(x.deep_view() == todo[i as int]);
        agrega(&mut v, x);
        i += 1;
        assert(v.deep_view() =~= todo.take(i as int));
    }
    assert(todo.take(todo.len() as int) =~= todo);
    v
}

/// Reads the items of a module's body, if it has one.
pub fn lee_cuerpo(m: &ModText) -> (r: Option<Vec<Item>>)
    ensures
        r.deep_view() == cuerpo_leido(m.deep_view()),
{
    match &m.items {
        None => None,
        Some(ts) => Some(lee_items(ts)),
    }
}

/// Reads the arguments of an attribute, if it labels a variable.
pub fn lee_argumentos(at: &AttrText) -> (r: Attr)
    ensures
        r.deep_view() == con_argumentos(at.deep_view()),
{
    let etiqueta = match &at.0 {
        Some(n) => es(n, "input") || es(n, "output"),
        None => false,
    };
    let args = if etiqueta {
        match &at.1 {
            None => AttrArgs::Nothing,
            Some(t) => match parte_metas(t.as_str()) {
                Ok(ms) => AttrArgs::List(ms),
                Err(e) => AttrArgs::Bad(e),
            },
        }
    } else {
        AttrArgs::Nothing
    };
    Attr { ident: copia_opcion(&at.0), args }
}

/// Reads an attribute of a declared field.
fn lee_attr(text: &str) -> (r: Attr)
    ensures
        r.deep_view() == attr_leido(text@),
{
    match parte_attr(text) {
        Some(at) => lee_argumentos(&at),
        None => Attr { ident: None, args: AttrArgs::Nothing },
    }
}

/// Reads the attributes of a declared field.
fn lee_attrs(ts: &Vec<String>) -> (r: Vec<Attr>)
    ensures
        r.deep_view() == attrs_leidos(ts.deep_view()),
{
    let ghost av = ts.deep_view();
    let ghost todo = attrs_leidos(av);
    let mut v: Vec<Attr> = Vec::new();
    assert(v.deep_view() =~= todo.take(0));
    let mut i: usize = 0;
    while i < ts.len()
        invariant
            i <= ts.len(),
            av == ts.deep_view(),
            todo == attrs_leidos(av),
            v.deep_view() == todo.take(i as int),
        decreases ts.len() - i,
    {
        assert(av[i as int] == ts[i as int].deep_view());
        let x = lee_attr(ts[i].as_str());
        assert(x.deep_view() == todo[i as int]);
        agrega(&mut v, x);
        i += 1;
        assert(v.deep_view() =~= todo.take(i as int));
    }
    assert(todo.take(todo.len() as int) =~= todo);
    v
}

/// Reads the fields of a declared interface.
fn lee_declarados(fs: &Vec<FieldText>) -> (r: Vec<DeclField>)
    ensures
        r.deep_view() == declarados_leidos(fs.deep_view()),
{
    let ghost av = fs.deep_view();
    let ghost todo = declarados_leidos(av);
    let mut v: Vec<DeclField> = Vec::new();
    assert(v.deep_view() =~= todo.take(0));
    let mut i: usize = 0;
    while i < fs.len()
        invariant
            i <= fs.len(),
            av == fs.deep_view(),
            todo == declarados_leidos(av),
            v.deep_view() == todo.take(i as int),
        decreases fs.len() - i,
    {
        assert(av[i as int] == fs[i as int].deep_view());
        let x = DeclField {
            ident: copia_opcion(&fs[i].0),
            ty: lee_dato(fs[i].1.as_str()),
            attrs: lee_attrs(&fs[i].2),
        };
        assert(x.deep_view() == todo[i as int]);
        agrega(&mut v, x);
        i += 1;
        assert(v.deep_view() =~= todo.take(i as int));
    }
    assert(todo.take(todo.len() as int) =~= todo);
    v
}

/// Reads a declared interface, or gives the parser's message.
pub fn lee_decl(text: &str) -> (r: Result<Decl, String>)
    ensures
        vista_str(r) == decl_leida(text@),
{
    match parte_struct(text) {
        Err(e) => Err(e),
        Ok(d) => Ok(Decl { ident: d.0, vis: d.1, fields: lee_declarados(&d.2) }),
    }
}

}
