//! The syntax of a model, as far as the generator reads it: plain values that stand for the
//! types, items, fields and attributes of Rust source, each next to its mathematical view.

use vstd::prelude::*;

verus! {

/// A type that travels through a port: its tokens and, where it is a path, the identifiers of
/// the path.
pub struct DataType {
    pub text: String,
    pub idents: Option<Vec<String>>,
}

pub struct DataTypeView {
    pub text: Seq<char>,
    pub idents: Option<Seq<Seq<char>>>,
}

impl DeepView for DataType {
    type V = DataTypeView;

    open spec fn deep_view(&self) -> DataTypeView {
        DataTypeView { text: self.text@, idents: self.idents.deep_view() }
    }
}

/// A segment of a path: its identifier and its arguments in angle brackets. An argument that is
/// not a type (a constant, a lifetime) is `None`.
pub struct Segment {
    pub ident: String,
    pub args: Vec<Option<DataType>>,
}

pub struct SegmentView {
    pub ident: Seq<char>,
    pub args: Seq<Option<DataTypeView>>,
}

impl DeepView for Segment {
    type V = SegmentView;

    open spec fn deep_view(&self) -> SegmentView {
        SegmentView { ident: self.ident@, args: self.args.deep_view() }
    }
}

/// A path: its tokens and its segments.
pub struct PathType {
    pub text: String,
    pub segments: Vec<Segment>,
}

pub struct PathTypeView {
    pub text: Seq<char>,
    pub segments: Seq<SegmentView>,
}

impl DeepView for PathType {
    type V = PathTypeView;

    open spec fn deep_view(&self) -> PathTypeView {
        PathTypeView { text: self.text@, segments: self.segments.deep_view() }
    }
}

/// A type in the place of a port: its tokens and, where it is a path, the path.
pub struct PortType {
    pub text: String,
    pub path: Option<PathType>,
}

pub struct PortTypeView {
    pub text: Seq<char>,
    pub path: Option<PathTypeView>,
}

impl DeepView for PortType {
    type V = PortTypeView;

    open spec fn deep_view(&self) -> PortTypeView {
        PortTypeView { text: self.text@, path: self.path.deep_view() }
    }
}

/// The length of an array type.
pub enum ArrayLen {
    /// An integer literal that a `u64` can hold.
    Count(u64),
    /// An integer literal that it cannot hold, with the parser's message.
    Bad(String),
    /// Any other expression.
    NotLiteral,
}

pub enum ArrayLenView {
    Count(u64),
    Bad(Seq<char>),
    NotLiteral,
}

impl DeepView for ArrayLen {
    type V = ArrayLenView;

    open spec fn deep_view(&self) -> ArrayLenView {
        match self {
            ArrayLen::Count(n) => ArrayLenView::Count(*n),
            ArrayLen::Bad(e) => ArrayLenView::Bad(e@),
            ArrayLen::NotLiteral => ArrayLenView::NotLiteral,
        }
    }
}

/// A type in the place of a bag of ports (`type Input`, `type Output`).
pub enum BagType {
    Path(PathType),
    Tuple(Vec<PortType>),
    Array(PortType, ArrayLen),
    Other,
}

pub enum BagTypeView {
    Path(PathTypeView),
    Tuple(Seq<PortTypeView>),
    Array(PortTypeView, ArrayLenView),
    Other,
}

impl DeepView for BagType {
    type V = BagTypeView;

    open spec fn deep_view(&self) -> BagTypeView {
        match self {
            BagType::Path(p) => BagTypeView::Path(p.deep_view()),
            BagType::Tuple(v) => BagTypeView::Tuple(v.deep_view()),
            BagType::Array(t, n) => BagTypeView::Array(t.deep_view(), n.deep_view()),
            BagType::Other => BagTypeView::Other,
        }
    }
}

/// An associated type of an `impl`.
pub struct AssocType {
    pub ident: String,
    pub ty: BagType,
}

pub struct AssocTypeView {
    pub ident: Seq<char>,
    pub ty: BagTypeView,
}

impl DeepView for AssocType {
    type V = AssocTypeView;

    open spec fn deep_view(&self) -> AssocTypeView {
        AssocTypeView { ident: self.ident@, ty: self.ty.deep_view() }
    }
}

/// A field of a struct in the module: its name, unless it goes by position, and its type.
pub struct Field {
    pub ident: Option<String>,
    pub ty: PortType,
}

pub struct FieldView {
    pub ident: Option<Seq<char>>,
    pub ty: PortTypeView,
}

impl DeepView for Field {
    type V = FieldView;

    open spec fn deep_view(&self) -> FieldView {
        FieldView { ident: self.ident.deep_view(), ty: self.ty.deep_view() }
    }
}

/// An item of the module.
pub enum Item {
    /// An `impl`: the identifiers of the trait's path, unless it is inherent; the type that it
    /// is for; its associated types.
    Impl(Option<Vec<String>>, PortType, Vec<AssocType>),
    /// A struct: its name and its fields.
    Struct(String, Vec<Field>),
    /// An enum: its name and the names of its variants.
    Enum(String, Vec<String>),
    Other,
}

pub enum ItemView {
    Impl(Option<Seq<Seq<char>>>, PortTypeView, Seq<AssocTypeView>),
    Struct(Seq<char>, Seq<FieldView>),
    Enum(Seq<char>, Seq<Seq<char>>),
    Other,
}

impl DeepView for Item {
    type V = ItemView;

    open spec fn deep_view(&self) -> ItemView {
        match self {
            Item::Impl(t, s, v) => ItemView::Impl(t.deep_view(), s.deep_view(), v.deep_view()),
            Item::Struct(n, f) => ItemView::Struct(n@, f.deep_view()),
            Item::Enum(n, v) => ItemView::Enum(n@, v.deep_view()),
            Item::Other => ItemView::Other,
        }
    }
}

/// An argument of an attribute on a field (`ta`, `from = ...`).
pub enum MetaArg {
    /// A path alone: its identifier, where it has just one.
    Path(Option<String>),
    /// `path = value`: the identifier of the path, where it has just one, and the value.
    NameValue(Option<String>, String),
    /// `path(...)`.
    List,
}

pub enum MetaArgView {
    Path(Option<Seq<char>>),
    NameValue(Option<Seq<char>>, Seq<char>),
    List,
}

impl DeepView for MetaArg {
    type V = MetaArgView;

    open spec fn deep_view(&self) -> MetaArgView {
        match self {
            MetaArg::Path(p) => MetaArgView::Path(p.deep_view()),
            MetaArg::NameValue(p, v) => MetaArgView::NameValue(p.deep_view(), v@),
            MetaArg::List => MetaArgView::List,
        }
    }
}

/// The arguments of an attribute on a field.
pub enum AttrArgs {
    /// It has none in parentheses.
    Nothing,
    /// A list in parentheses.
    List(Vec<MetaArg>),
    /// Parentheses whose contents are no such list, with the reason.
    Bad(String),
}

pub enum AttrArgsView {
    Nothing,
    List(Seq<MetaArgView>),
    Bad(Seq<char>),
}

impl DeepView for AttrArgs {
    type V = AttrArgsView;

    open spec fn deep_view(&self) -> AttrArgsView {
        match self {
            AttrArgs::Nothing => AttrArgsView::Nothing,
            AttrArgs::List(v) => AttrArgsView::List(v.deep_view()),
            AttrArgs::Bad(e) => AttrArgsView::Bad(e@),
        }
    }
}

/// An attribute on a field: its identifier, where its path has just one, and its arguments.
pub struct Attr {
    pub ident: Option<String>,
    pub args: AttrArgs,
}

pub struct AttrView {
    pub ident: Option<Seq<char>>,
    pub args: AttrArgsView,
}

impl DeepView for Attr {
    type V = AttrView;

    open spec fn deep_view(&self) -> AttrView {
        AttrView { ident: self.ident.deep_view(), args: self.args.deep_view() }
    }
}

/// A field of a declared interface.
pub struct DeclField {
    pub ident: Option<String>,
    pub ty: DataType,
    pub attrs: Vec<Attr>,
}

pub struct DeclFieldView {
    pub ident: Option<Seq<char>>,
    pub ty: DataTypeView,
    pub attrs: Seq<AttrView>,
}

impl DeepView for DeclField {
    type V = DeclFieldView;

    open spec fn deep_view(&self) -> DeclFieldView {
        DeclFieldView {
            ident: self.ident.deep_view(),
            ty: self.ty.deep_view(),
            attrs: self.attrs.deep_view(),
        }
    }
}

/// An interface declared as a struct: its name, its visibility and its fields.
pub struct Decl {
    pub ident: String,
    pub vis: String,
    pub fields: Vec<DeclField>,
}

pub struct DeclView {
    pub ident: Seq<char>,
    pub vis: Seq<char>,
    pub fields: Seq<DeclFieldView>,
}

impl DeepView for Decl {
    type V = DeclView;

    open spec fn deep_view(&self) -> DeclView {
        DeclView { ident: self.ident@, vis: self.vis@, fields: self.fields.deep_view() }
    }
}

/// A `key = value` argument of the attribute: the key, where its path is a single identifier;
/// the path that the value is, where it is one; and the value.
pub struct ArgPair {
    pub key: Option<String>,
    pub path: Option<String>,
    pub value: String,
}

pub struct ArgPairView {
    pub key: Option<Seq<char>>,
    pub path: Option<Seq<char>>,
    pub value: Seq<char>,
}

impl DeepView for ArgPair {
    type V = ArgPairView;

    open spec fn deep_view(&self) -> ArgPairView {
        ArgPairView { key: self.key.deep_view(), path: self.path.deep_view(), value: self.value@ }
    }
}

}
