//! The derive input, held as plain values.
//!
//! Every piece of the input that an error can point at, or that the generated
//! code repeats verbatim, carries a `node`: a number under which the caller
//! keeps the tokens as written. Errors name the node they point at, and the
//! generated code names the nodes it splices in.

use vstd::prelude::*;

verus! {

/// One segment of a path in an attribute, such as `truncate` in `truncate = 4`.
#[derive(Debug)]
pub struct PathSegmentModel {
    pub ident: String,
    /// Whether the segment carries generic arguments, as in `a::<T>`.
    pub has_arguments: bool,
}

/// A path in an attribute.
#[derive(Debug)]
pub struct PathModel {
    pub node: usize,
    pub leading_colon: bool,
    pub segments: Vec<PathSegmentModel>,
}

/// A literal on the right of `name = ...` in an attribute.
#[derive(Debug)]
pub enum LitModel {
    /// An integer literal, with its source text (such as `4`, `0x10` or `4u32`).
    Int { node: usize, text: String },
    /// A literal of another kind (a string, a float, a boolean, ...).
    Other { node: usize },
}

/// The expression on the right of `name = ...` in an attribute.
#[derive(Debug)]
pub enum ValueModel {
    Lit(LitModel),
    /// A negation, such as `-3`.
    Negation { node: usize },
    /// Any other expression.
    Other,
}

/// One comma-separated item inside `#[sensitive(...)]`.
#[derive(Debug)]
pub enum MetaModel {
    /// A bare path, such as `redact`.
    Path(PathModel),
    /// `path = value`, such as `truncate = 4`.
    NameValue { node: usize, path: PathModel, value: ValueModel },
    /// `path(...)`.
    List { node: usize, path: PathModel },
}

/// An attribute on a field.
#[derive(Debug)]
pub struct AttrModel {
    pub node: usize,
    pub path: PathModel,
    /// The attribute's arguments read as a comma-separated list of items, or,
    /// where they cannot be read so, the number under which the caller keeps
    /// the syntax error.
    pub args: Result<Vec<MetaModel>, usize>,
}

/// A generic argument inside angle brackets.
#[derive(Debug)]
pub enum GenericArgModel {
    Type(TypeModel),
    /// An associated type binding `Name = Type`.
    AssocType(TypeModel),
    /// A lifetime, a constant or a constraint.
    Other,
}

/// The generic arguments of a path segment, in order.
#[derive(Debug)]
pub enum GenericArgs {
    Nil,
    Cons(Box<GenericArgModel>, Box<GenericArgs>),
}

/// A segment of a type path.
#[derive(Debug)]
pub struct TypeSegment {
    pub ident: String,
    /// Its angle-bracketed arguments; parenthesized ones (`Fn(A) -> B`) count as none.
    pub args: GenericArgs,
}

/// The segments of a type path, in order.
#[derive(Debug)]
pub enum TypeSegments {
    Nil,
    Cons(Box<TypeSegment>, Box<TypeSegments>),
}

/// A list of types, in order.
#[derive(Debug)]
pub enum TypeList {
    Nil,
    Cons(Box<TypeModel>, Box<TypeList>),
}

/// The shape of a Rust type, as far as bound synthesis reads it.
#[derive(Debug)]
pub enum TypeModel {
    /// A path type, with the `Self`-type of a qualified path `<Q as Trait>::X`.
    Path { qself: Option<Box<TypeModel>>, segments: TypeSegments },
    Reference(Box<TypeModel>),
    Array(Box<TypeModel>),
    Slice(Box<TypeModel>),
    Tuple(TypeList),
    Ptr(Box<TypeModel>),
    Paren(Box<TypeModel>),
    Group(Box<TypeModel>),
    BareFn { inputs: TypeList, output: Option<Box<TypeModel>> },
    /// Any other type (`impl Trait`, `dyn Trait`, `!`, `_`, a macro, ...).
    Other,
}

/// A field's type: its tokens (by node) and its shape.
#[derive(Debug)]
pub struct FieldType {
    pub node: usize,
    pub shape: TypeModel,
}

/// A named field.
#[derive(Debug)]
pub struct FieldModel {
    pub ident: String,
    pub ty: FieldType,
    pub attrs: Vec<AttrModel>,
}

/// The fields of a struct or of an enum variant.
#[derive(Debug)]
pub enum FieldsModel {
    Named(Vec<FieldModel>),
    Unnamed,
    Unit,
}

/// A variant of an enum; `node` is the variant's identifier.
#[derive(Debug)]
pub struct VariantModel {
    pub ident: String,
    pub node: usize,
    pub fields: FieldsModel,
}

/// The body of the derive input.
#[derive(Debug)]
pub enum DataModel {
    Struct(FieldsModel),
    Enum(Vec<VariantModel>),
    Union,
}

/// The generics of the derive input.
#[derive(Debug)]
pub struct GenericsModel {
    /// The parameters with their bounds, as written after `impl`.
    pub impl_generics: usize,
    /// The parameters without bounds, as written after the type's name.
    pub ty_generics: usize,
    /// The names of the type parameters, in order.
    pub type_params: Vec<String>,
    /// The predicates of the input's own `where` clause, in order.
    pub where_predicates: Vec<usize>,
    /// Whether that `where` clause ends with a comma.
    pub where_trailing_comma: bool,
}

/// The derive input; `node` is the type's identifier.
#[derive(Debug)]
pub struct DeriveInputModel {
    pub ident: String,
    pub node: usize,
    pub generics: GenericsModel,
    pub data: DataModel,
}

/// A copy of a type's shape.
pub fn duplicate_type(t: &TypeModel) -> (r: TypeModel)
    ensures
        r == *t,
    decreases t,
{
    match t {
        TypeModel::Path { qself, segments } => {
            let q = match qself {
                Some(b) => Some(Box::new(duplicate_type(b))),
                None => None,
            };
            TypeModel::Path { qself: q, segments: duplicate_segments(segments) }
        },
        TypeModel::Reference(e) => TypeModel::Reference(Box::new(duplicate_type(e))),
        TypeModel::Array(e) => TypeModel::Array(Box::new(duplicate_type(e))),
        TypeModel::Slice(e) => TypeModel::Slice(Box::new(duplicate_type(e))),
        TypeModel::Tuple(l) => TypeModel::Tuple(duplicate_list(l)),
        TypeModel::Ptr(e) => TypeModel::Ptr(Box::new(duplicate_type(e))),
        TypeModel::Paren(e) => TypeModel::Paren(Box::new(duplicate_type(e))),
        TypeModel::Group(e) => TypeModel::Group(Box::new(duplicate_type(e))),
        TypeModel::BareFn { inputs, output } => {
            let o = match output {
                Some(b) => Some(Box::new(duplicate_type(b))),
                None => None,
            };
            TypeModel::BareFn { inputs: duplicate_list(inputs), output: o }
        },
        TypeModel::Other => TypeModel::Other,
    }
}

fn duplicate_list(l: &TypeList) -> (r: TypeList)
    ensures
        r == *l,
    decreases l,
{
    match l {
        TypeList::Nil => TypeList::Nil,
        TypeList::Cons(h, t) => TypeList::Cons(
            Box::new(duplicate_type(h)),
            Box::new(duplicate_list(t)),
        ),
    }
}

fn duplicate_segments(l: &TypeSegments) -> (r: TypeSegments)
    ensures
        r == *l,
    decreases l,
{
    match l {
        TypeSegments::Nil => TypeSegments::Nil,
        TypeSegments::Cons(h, t) => {
            let seg = TypeSegment { ident: h.ident.clone(), args: duplicate_args(&h.args) };
            TypeSegments::Cons(Box::new(seg), Box::new(duplicate_segments(t)))
        },
    }
}

fn duplicate_args(l: &GenericArgs) -> (r: GenericArgs)
    ensures
        r == *l,
    decreases l,
{
    match l {
        GenericArgs::Nil => GenericArgs::Nil,
        GenericArgs::Cons(h, t) => {
            let a = match &**h {
                GenericArgModel::Type(ty) => GenericArgModel::Type(duplicate_type(ty)),
                GenericArgModel::AssocType(ty) => GenericArgModel::AssocType(duplicate_type(ty)),
                GenericArgModel::Other => GenericArgModel::Other,
            };
            GenericArgs::Cons(Box::new(a), Box::new(duplicate_args(t)))
        },
    }
}

/// A copy of a field's type.
pub fn duplicate_field_type(t: &FieldType) -> (r: FieldType)
    ensures
        r == *t,
{
    FieldType { node: t.node, shape: duplicate_type(&t.shape) }
}

} // verus!
