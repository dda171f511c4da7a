//! Code generation for the `SensitiveDebug` and `SensitiveDisplay` derives.
//!
//! The generated implementation is a sequence of pieces: source text written
//! here, tokens of the input spliced in by node, and the import of the `alloc`
//! crate that truncation needs.

use vstd::prelude::*;
use vstd::string::StringExecFns;

use crate::input::{
    DeriveInputModel, GenericArgModel, GenericArgs, GenericsModel, TypeList, TypeModel,
    TypeSegments, duplicate_field_type,
};
use crate::names::{
    insert_name, lemma_insert_all_concat, lemma_insert_all_contains, lemma_insert_all_sorted, name_set_insert,
    name_set_insert_all, names, sorted_names, str_equal,
};
use crate::render::spec_field_text;
use crate::parse::{FieldPlan, Plan, PlanView, PlannedField, PlannedVariant, ShapeView, VariantShape, VariantView};

verus! {

/// Which derive we're generating bounds for. Determines how Plain fields
/// contribute (Debug for SensitiveDebug, Display for SensitiveDisplay).
#[derive(Clone, Copy, PartialEq, Eq, Structural, Debug)]
pub enum Derive {
    DebugDerive,
    DisplayDerive,
}

/// Which trait bound a single field type needs.
#[derive(Clone, Copy, PartialEq, Eq, Structural, Debug)]
pub enum NeededBound {
    Nothing,
    Debug,
    Display,
}

/// The bound that a field with the plan `plan` puts on its type: a plain
/// field needs the derived trait, a truncated one `Display` in both derives
/// (it formats with `Display`, then keeps the tail), and a redacted or skipped
/// one nothing.
pub open spec fn spec_bound_for_field(plan: FieldPlan, derive: Derive) -> NeededBound {
    match plan {
        FieldPlan::Plain => match derive {
            Derive::DebugDerive => NeededBound::Debug,
            Derive::DisplayDerive => NeededBound::Display,
        },
        FieldPlan::Redact => NeededBound::Nothing,
        FieldPlan::Skip => NeededBound::Nothing,
        FieldPlan::Truncate(_) => NeededBound::Display,
    }
}

pub fn bound_for_field(plan: &FieldPlan, derive: Derive) -> (r: NeededBound)
    ensures
        r == spec_bound_for_field(*plan, derive),
{
    match (plan, derive) {
        (FieldPlan::Plain, Derive::DebugDerive) => NeededBound::Debug,
        (FieldPlan::Plain, Derive::DisplayDerive) => NeededBound::Display,
        (FieldPlan::Redact, _) => NeededBound::Nothing,
        (FieldPlan::Skip, _) => NeededBound::Nothing,
        (FieldPlan::Truncate(_), _) => NeededBound::Display,
    }
}

// ---- Type parameters that a field type refers to ----

/// The type parameters named by `ty`, in the order in which they are met, as
/// bound synthesis reads a type: a path of a single segment names a parameter
/// when it is one; the arguments of segments are searched, except those of a
/// segment named like the input's own type; references, arrays, slices,
/// tuples, pointers, parentheses, groups and function pointers are searched
/// through; other types name nothing.
pub open spec fn visit_type(ty: TypeModel, params: Seq<Seq<char>>, self_type: Seq<char>) -> Seq<
    Seq<char>,
>
    decreases ty,
{
    match ty {
        TypeModel::Path { qself, segments } => {
            let q = match qself {
                Some(b) => visit_type(*b, params, self_type),
                None => Seq::empty(),
            };
            let own = match single_segment(segments) {
                Some(name) => if qself is None && params.contains(name) {
                    seq![name]
                } else {
                    Seq::empty()
                },
                None => Seq::empty(),
            };
            q + own + visit_segments(segments, params, self_type)
        },
        TypeModel::Reference(e) => visit_type(*e, params, self_type),
        TypeModel::Array(e) => visit_type(*e, params, self_type),
        TypeModel::Slice(e) => visit_type(*e, params, self_type),
        TypeModel::Tuple(l) => visit_list(l, params, self_type),
        TypeModel::Ptr(e) => visit_type(*e, params, self_type),
        TypeModel::Paren(e) => visit_type(*e, params, self_type),
        TypeModel::Group(e) => visit_type(*e, params, self_type),
        TypeModel::BareFn { inputs, output } => visit_list(inputs, params, self_type) + (match output {
            Some(b) => visit_type(*b, params, self_type),
            None => Seq::empty(),
        }),
        TypeModel::Other => Seq::empty(),
    }
}

/// The identifier of a path of exactly one segment.
pub open spec fn single_segment(segments: TypeSegments) -> Option<Seq<char>> {
    match segments {
        TypeSegments::Cons(s, rest) => match *rest {
            TypeSegments::Nil => Some(s.ident@),
            _ => None,
        },
        TypeSegments::Nil => None,
    }
}

pub open spec fn visit_list(l: TypeList, params: Seq<Seq<char>>, self_type: Seq<char>) -> Seq<
    Seq<char>,
>
    decreases l,
{
    match l {
        TypeList::Nil => Seq::empty(),
        TypeList::Cons(h, t) => visit_type(*h, params, self_type) + visit_list(*t, params, self_type),
    }
}

pub open spec fn visit_segments(
    segments: TypeSegments,
    params: Seq<Seq<char>>,
    self_type: Seq<char>,
) -> Seq<Seq<char>>
    decreases segments,
{
    match segments {
        TypeSegments::Nil => Seq::empty(),
        TypeSegments::Cons(s, t) => (if s.ident@ == self_type {
            Seq::empty()
        } else {
            visit_args(s.args, params, self_type)
        }) + visit_segments(*t, params, self_type),
    }
}

pub open spec fn visit_args(args: GenericArgs, params: Seq<Seq<char>>, self_type: Seq<char>) -> Seq<
    Seq<char>,
>
    decreases args,
{
    match args {
        GenericArgs::Nil => Seq::empty(),
        GenericArgs::Cons(a, t) => visit_arg(*a, params, self_type) + visit_args(*t, params, self_type),
    }
}

pub open spec fn visit_arg(a: GenericArgModel, params: Seq<Seq<char>>, self_type: Seq<char>) -> Seq<
    Seq<char>,
>
    decreases a,
{
    match a {
        GenericArgModel::Type(ty) => visit_type(ty, params, self_type),
        GenericArgModel::AssocType(ty) => visit_type(ty, params, self_type),
        GenericArgModel::Other => Seq::empty(),
    }
}

proof fn lemma_insert_all_single(s: Seq<Seq<char>>, x: Seq<char>)
    ensures
        name_set_insert_all(s, seq![x]) == name_set_insert(s, x),
{
    assert(seq![x].drop_first() =~= Seq::<Seq<char>>::empty());
    assert(name_set_insert_all(name_set_insert(s, x), Seq::empty()) == name_set_insert(s, x));
}

fn contains_name(params: &Vec<String>, name: &String) -> (r: bool)
    ensures
        r == names(params@).contains(name@),
{
    let mut i: usize = 0;
    while i < params.len()
        invariant
            i <= params@.len(),
            forall|j: int| 0 <= j < i ==> params@[j]@ != name@,
        decreases params@.len() - i,
    {
        if str_equal(params[i].as_str(), name.as_str()) {
            assert(names(params@)[i as int] == name@);
            return true;
        }
        i = i + 1;
    }
    proof {
        if names(params@).contains(name@) {
            let k = choose|k: int| 0 <= k < names(params@).len() && names(params@)[k] == name@;
            assert(params@[k]@ == name@);
        }
    }
    false
}

pub fn collect_type_params(
    ty: &TypeModel,
    type_params: &Vec<String>,
    self_type: &str,
    found: &mut Vec<String>,
)
    ensures
        names(final(found)@) == name_set_insert_all(
            names(old(found)@),
            visit_type(*ty, names(type_params@), self_type@),
        ),
        forall|y: Seq<char>| #[trigger] names(final(found)@).contains(y) <==> (names(
            old(found)@,
        ).contains(y) || visit_type(*ty, names(type_params@), self_type@).contains(y)),
        forall|y: Seq<char>| #[trigger] names(final(found)@).contains(y) && !names(
            old(found)@,
        ).contains(y) ==> names(type_params@).contains(y),
    decreases ty,
{
    let ghost params = names(type_params@);
    let ghost start = names(found@);
    match ty {
        TypeModel::Path { qself, segments } => {
            let ghost q = match qself {
                Some(b) => visit_type(**b, params, self_type@),
                None => Seq::empty(),
            };
            match qself {
                Some(b) => collect_type_params(b, type_params, self_type, found),
                None => {},
            }
            let ghost after_q = names(found@);
            let ghost own = match single_segment(*segments) {
                Some(name) => if qself is None && params.contains(name) {
                    seq![name]
                } else {
                    Seq::empty()
                },
                None => Seq::empty(),
            };
            if qself.is_none() {
                if let TypeSegments::Cons(seg, rest) = segments {
                    if let TypeSegments::Nil = &**rest {
                        if contains_name(type_params, &seg.ident) {
                            insert_name(found, seg.ident.clone());
                            proof {
                                lemma_insert_all_single(after_q, seg.ident@);
                            }
                        }
                    }
                }
            }
            collect_from_segments(segments, type_params, self_type, found);
            proof {
                lemma_insert_all_concat(start, q, own);
                lemma_insert_all_concat(start, q + own, visit_segments(*segments, params, self_type@));
            }
        },
        TypeModel::Reference(e) => collect_type_params(e, type_params, self_type, found),
        TypeModel::Array(e) => collect_type_params(e, type_params, self_type, found),
        TypeModel::Slice(e) => collect_type_params(e, type_params, self_type, found),
        TypeModel::Tuple(l) => collect_from_list(l, type_params, self_type, found),
        TypeModel::Ptr(e) => collect_type_params(e, type_params, self_type, found),
        TypeModel::Paren(e) => collect_type_params(e, type_params, self_type, found),
        TypeModel::Group(e) => collect_type_params(e, type_params, self_type, found),
        TypeModel::BareFn { inputs, output } => {
            collect_from_list(inputs, type_params, self_type, found);
            let ghost o = match output {
                Some(b) => visit_type(**b, params, self_type@),
                None => Seq::empty(),
            };
            match output {
                Some(b) => collect_type_params(b, type_params, self_type, found),
                None => {},
            }
            proof {
                lemma_insert_all_concat(start, visit_list(*inputs, params, self_type@), o);
            }
        },
        TypeModel::Other => {},
    }
    proof {
        law_collecting_adds_only_declared_names(*ty, params, self_type@, start);
    }
}

fn collect_from_list(l: &TypeList, type_params: &Vec<String>, self_type: &str, found: &mut Vec<String>)
    ensures
        names(final(found)@) == name_set_insert_all(
            names(old(found)@),
            visit_list(*l, names(type_params@), self_type@),
        ),
    decreases l,
{
    match l {
        TypeList::Nil => {},
        TypeList::Cons(h, t) => {
            let ghost start = names(found@);
            collect_type_params(h, type_params, self_type, found);
            collect_from_list(t, type_params, self_type, found);
            proof {
                lemma_insert_all_concat(
                    start,
                    visit_type(**h, names(type_params@), self_type@),
                    visit_list(**t, names(type_params@), self_type@),
                );
            }
        },
    }
}

fn collect_from_segments(
    segments: &TypeSegments,
    type_params: &Vec<String>,
    self_type: &str,
    found: &mut Vec<String>,
)
    ensures
        names(final(found)@) == name_set_insert_all(
            names(old(found)@),
            visit_segments(*segments, names(type_params@), self_type@),
        ),
    decreases segments,
{
    match segments {
        TypeSegments::Nil => {},
        TypeSegments::Cons(seg, t) => {
            let ghost start = names(found@);
            let ghost here = if seg.ident@ == self_type@ {
                Seq::empty()
            } else {
                visit_args(seg.args, names(type_params@), self_type@)
            };
            if !str_equal(seg.ident.as_str(), self_type) {
                collect_type_params_from_path_arguments(&seg.args, type_params, self_type, found);
            }
            collect_from_segments(t, type_params, self_type, found);
            proof {
                lemma_insert_all_concat(
                    start,
                    here,
                    visit_segments(**t, names(type_params@), self_type@),
                );
            }
        },
    }
}

fn collect_type_params_from_path_arguments(
    arguments: &GenericArgs,
    type_params: &Vec<String>,
    self_type: &str,
    found: &mut Vec<String>,
)
    ensures
        names(final(found)@) == name_set_insert_all(
            names(old(found)@),
            visit_args(*arguments, names(type_params@), self_type@),
        ),
    decreases arguments,
{
    match arguments {
        GenericArgs::Nil => {},
        GenericArgs::Cons(a, t) => {
            let ghost start = names(found@);
            let ghost here = visit_arg(**a, names(type_params@), self_type@);
            match &**a {
                GenericArgModel::Type(inner) => collect_type_params(
                    inner,
                    type_params,
                    self_type,
                    found,
                ),
                GenericArgModel::AssocType(inner) => collect_type_params(
                    inner,
                    type_params,
                    self_type,
                    found,
                ),
                GenericArgModel::Other => {},
            }
            collect_type_params_from_path_arguments(t, type_params, self_type, found);
            proof {
                lemma_insert_all_concat(start, here, visit_args(**t, names(type_params@), self_type@));
            }
        },
    }
}

/// The type parameters that `ty` refers to, as an ordered set.
pub open spec fn spec_referenced(ty: TypeModel, params: Seq<Seq<char>>, self_type: Seq<char>) -> Seq<
    Seq<char>,
> {
    name_set_insert_all(Seq::empty(), visit_type(ty, params, self_type))
}

pub fn referenced_type_params(ty: &TypeModel, type_params: &Vec<String>, self_type: &str) -> (r: Vec<
    String,
>)
    ensures
        names(r@) == spec_referenced(*ty, names(type_params@), self_type@),
{
    let mut found: Vec<String> = Vec::new();
    assert(names(found@) =~= Seq::<Seq<char>>::empty());
    collect_type_params(ty, type_params, self_type, &mut found);
    found
}


// ---- Whether a field type refers to the input's own type ----

/// Whether `ty` names the input's own type anywhere in the places bound
/// synthesis searches.
pub open spec fn mentions_self(ty: TypeModel, self_type: Seq<char>) -> bool
    decreases ty,
{
    match ty {
        TypeModel::Path { qself, segments } => (match qself {
            Some(b) => mentions_self(*b, self_type),
            None => false,
        }) || segments_mention_self(segments, self_type),
        TypeModel::Reference(e) => mentions_self(*e, self_type),
        TypeModel::Array(e) => mentions_self(*e, self_type),
        TypeModel::Slice(e) => mentions_self(*e, self_type),
        TypeModel::Tuple(l) => list_mentions_self(l, self_type),
        TypeModel::Ptr(e) => mentions_self(*e, self_type),
        TypeModel::Paren(e) => mentions_self(*e, self_type),
        TypeModel::Group(e) => mentions_self(*e, self_type),
        TypeModel::BareFn { inputs, output } => list_mentions_self(inputs, self_type) || (match output {
            Some(b) => mentions_self(*b, self_type),
            None => false,
        }),
        TypeModel::Other => false,
    }
}

pub open spec fn list_mentions_self(l: TypeList, self_type: Seq<char>) -> bool
    decreases l,
{
    match l {
        TypeList::Nil => false,
        TypeList::Cons(h, t) => mentions_self(*h, self_type) || list_mentions_self(*t, self_type),
    }
}

pub open spec fn segments_mention_self(segments: TypeSegments, self_type: Seq<char>) -> bool
    decreases segments,
{
    match segments {
        TypeSegments::Nil => false,
        TypeSegments::Cons(s, t) => s.ident@ == self_type || args_mention_self(s.args, self_type)
            || segments_mention_self(*t, self_type),
    }
}

pub open spec fn args_mention_self(args: GenericArgs, self_type: Seq<char>) -> bool
    decreases args,
{
    match args {
        GenericArgs::Nil => false,
        GenericArgs::Cons(a, t) => arg_mentions_self(*a, self_type) || args_mention_self(*t, self_type),
    }
}

pub open spec fn arg_mentions_self(a: GenericArgModel, self_type: Seq<char>) -> bool
    decreases a,
{
    match a {
        GenericArgModel::Type(ty) => mentions_self(ty, self_type),
        GenericArgModel::AssocType(ty) => mentions_self(ty, self_type),
        GenericArgModel::Other => false,
    }
}

pub fn contains_self_type(ty: &TypeModel, self_type: &str) -> (r: bool)
    ensures
        r == mentions_self(*ty, self_type@),
        r == type_idents(*ty).contains(self_type@),
    decreases ty,
{
    proof {
        law_self_reference_is_any_occurrence(*ty, self_type@);
    }
    match ty {
        TypeModel::Path { qself, segments } => {
            let q = match qself {
                Some(b) => contains_self_type(b, self_type),
                None => false,
            };
            q || segments_contain_self(segments, self_type)
        },
        TypeModel::Reference(e) => contains_self_type(e, self_type),
        TypeModel::Array(e) => contains_self_type(e, self_type),
        TypeModel::Slice(e) => contains_self_type(e, self_type),
        TypeModel::Tuple(l) => list_contains_self(l, self_type),
        TypeModel::Ptr(e) => contains_self_type(e, self_type),
        TypeModel::Paren(e) => contains_self_type(e, self_type),
        TypeModel::Group(e) => contains_self_type(e, self_type),
        TypeModel::BareFn { inputs, output } => {
            list_contains_self(inputs, self_type) || match output {
                Some(b) => contains_self_type(b, self_type),
                None => false,
            }
        },
        TypeModel::Other => false,
    }
}

fn list_contains_self(l: &TypeList, self_type: &str) -> (r: bool)
    ensures
        r == list_mentions_self(*l, self_type@),
    decreases l,
{
    match l {
        TypeList::Nil => false,
        TypeList::Cons(h, t) => contains_self_type(h, self_type) || list_contains_self(t, self_type),
    }
}

fn segments_contain_self(segments: &TypeSegments, self_type: &str) -> (r: bool)
    ensures
        r == segments_mention_self(*segments, self_type@),
    decreases segments,
{
    match segments {
        TypeSegments::Nil => false,
        TypeSegments::Cons(seg, t) => str_equal(seg.ident.as_str(), self_type)
            || path_arguments_contain_self(&seg.args, self_type) || segments_contain_self(t, self_type),
    }
}

fn path_arguments_contain_self(arguments: &GenericArgs, self_type: &str) -> (r: bool)
    ensures
        r == args_mention_self(*arguments, self_type@),
    decreases arguments,
{
    match arguments {
        GenericArgs::Nil => false,
        GenericArgs::Cons(a, t) => {
            let here = match &**a {
                GenericArgModel::Type(inner) => contains_self_type(inner, self_type),
                GenericArgModel::AssocType(inner) => contains_self_type(inner, self_type),
                GenericArgModel::Other => false,
            };
            assert(here == arg_mentions_self(**a, self_type@));
            here || path_arguments_contain_self(t, self_type)
        },
    }
}

// ---- The `where` clause ----

/// What an added predicate bounds.
#[derive(Debug)]
pub enum PredicateTarget {
    /// A field's type, by node.
    FieldType(usize),
    /// A type parameter, by name.
    TypeParam(String),
}

/// A predicate added to the `where` clause: `target: bound`.
#[derive(Debug)]
pub struct AddedPredicate {
    pub target: PredicateTarget,
    pub bound: NeededBound,
}

/// The `where` clause of the generated impl: the input's own predicates, then
/// the added ones.
#[derive(Debug)]
pub struct WhereClauseModel {
    pub existing: Vec<usize>,
    pub trailing_comma: bool,
    pub added: Vec<AddedPredicate>,
}

pub enum TargetView {
    FieldType(usize),
    TypeParam(Seq<char>),
}

pub struct PredicateView {
    pub target: TargetView,
    pub bound: NeededBound,
}

impl View for AddedPredicate {
    type V = PredicateView;

    open spec fn view(&self) -> PredicateView {
        PredicateView {
            target: match self.target {
                PredicateTarget::FieldType(n) => TargetView::FieldType(n),
                PredicateTarget::TypeParam(s) => TargetView::TypeParam(s@),
            },
            bound: self.bound,
        }
    }
}

pub open spec fn predicate_views(v: Seq<AddedPredicate>) -> Seq<PredicateView> {
    v.map_values(|p: AddedPredicate| p@)
}

/// The predicates that one field adds: none where it needs no bound or its
/// type refers to no type parameter; where its type refers to the input's own
/// type, one per type parameter it refers to (in name order); otherwise one on
/// the field's type itself.
pub open spec fn field_predicates(
    f: PlannedField,
    params: Seq<Seq<char>>,
    self_type: Seq<char>,
    derive: Derive,
) -> Seq<PredicateView> {
    let bound = spec_bound_for_field(f.plan, derive);
    let refs = spec_referenced(f.ty.shape, params, self_type);
    if bound == NeededBound::Nothing || refs.len() == 0 {
        Seq::empty()
    } else if mentions_self(f.ty.shape, self_type) {
        refs.map_values(|n: Seq<char>| PredicateView { target: TargetView::TypeParam(n), bound })
    } else {
        seq![PredicateView { target: TargetView::FieldType(f.ty.node), bound }]
    }
}

/// The predicates that the fields add, field by field.
pub open spec fn fields_predicates(
    fs: Seq<PlannedField>,
    params: Seq<Seq<char>>,
    self_type: Seq<char>,
    derive: Derive,
) -> Seq<PredicateView>
    decreases fs.len(),
{
    if fs.len() == 0 {
        Seq::empty()
    } else {
        fields_predicates(fs.drop_last(), params, self_type, derive) + field_predicates(
            fs.last(),
            params,
            self_type,
            derive,
        )
    }
}

/// Builds the `where` clause for an impl, adding the minimum bounds needed.
pub fn synthesize_where(
    generics: &GenericsModel,
    self_type: &str,
    field_types: &Vec<PlannedField>,
    derive: Derive,
) -> (wc: WhereClauseModel)
    ensures
        wc.existing@ == generics.where_predicates@,
        wc.trailing_comma == generics.where_trailing_comma,
        predicate_views(wc.added@) == fields_predicates(
            field_types@,
            names(generics.type_params@),
            self_type@,
            derive,
        ),
{
    let ghost params = names(generics.type_params@);
    let mut existing: Vec<usize> = Vec::new();
    let mut k: usize = 0;
    while k < generics.where_predicates.len()
        invariant
            k <= generics.where_predicates@.len(),
            existing@ == generics.where_predicates@.take(k as int),
        decreases generics.where_predicates@.len() - k,
    {
        existing.push(generics.where_predicates[k]);
        assert(generics.where_predicates@.take(k + 1) =~= generics.where_predicates@.take(
            k as int,
        ).push(generics.where_predicates@[k as int]));
        k = k + 1;
    }
    assert(generics.where_predicates@.take(k as int) =~= generics.where_predicates@);
    let mut added: Vec<AddedPredicate> = Vec::new();
    let mut i: usize = 0;
    assert(predicate_views(added@) =~= Seq::<PredicateView>::empty());
    while i < field_types.len()
        invariant
            i <= field_types@.len(),
            params == names(generics.type_params@),
            predicate_views(added@) == fields_predicates(
                field_types@.take(i as int),
                params,
                self_type@,
                derive,
            ),
        decreases field_types@.len() - i,
    {
        let f = &field_types[i];
        let ghost prev = predicate_views(added@);
        let ghost want = field_predicates(*f, params, self_type@, derive);
        assert(field_types@.take(i + 1).drop_last() =~= field_types@.take(i as int));
        assert(field_types@.take(i + 1).last() == *f);
        let bound = bound_for_field(&f.plan, derive);
        if bound != NeededBound::Nothing {
            let referenced = referenced_type_params(&f.ty.shape, &generics.type_params, self_type);
            if referenced.len() != 0 {
                if contains_self_type(&f.ty.shape, self_type) {
                    let mut j: usize = 0;
                    let ghost refs = names(referenced@);
                    assert(refs.take(0).map_values(
                        |n: Seq<char>| PredicateView { target: TargetView::TypeParam(n), bound },
                    ) =~= Seq::<PredicateView>::empty());
                    assert(prev + Seq::<PredicateView>::empty() =~= prev);
                    while j < referenced.len()
                        invariant
                            j <= referenced@.len(),
                            refs == names(referenced@),
                            predicate_views(added@) == prev + refs.take(j as int).map_values(
                                |n: Seq<char>| PredicateView { target: TargetView::TypeParam(n), bound },
                            ),
                        decreases referenced@.len() - j,
                    {
                        let p = AddedPredicate {
                            target: PredicateTarget::TypeParam(referenced[j].clone()),
                            bound,
                        };
                        let ghost before = predicate_views(added@);
                        added.push(p);
                        assert(predicate_views(added@) =~= before.push(p@));
                        assert(refs.take(j + 1).map_values(
                            |n: Seq<char>| PredicateView { target: TargetView::TypeParam(n), bound },
                        ) =~= refs.take(j as int).map_values(
                            |n: Seq<char>| PredicateView { target: TargetView::TypeParam(n), bound },
                        ).push(p@));
                        assert(predicate_views(added@) =~= prev + refs.take(j + 1).map_values(
                            |n: Seq<char>| PredicateView { target: TargetView::TypeParam(n), bound },
                        ));
                        j = j + 1;
                    }
                    assert(refs.take(j as int) =~= refs);
                } else {
                    let p = AddedPredicate { target: PredicateTarget::FieldType(f.ty.node), bound };
                    added.push(p);
                    assert(predicate_views(added@) =~= prev + seq![p@]);
                }
            } else {
                assert(names(referenced@).len() == 0);
                assert(prev + want =~= prev);
            }
        } else {
            assert(prev + want =~= prev);
        }
        i = i + 1;
    }
    assert(field_types@.take(i as int) =~= field_types@);
    WhereClauseModel {
        existing,
        trailing_comma: generics.where_trailing_comma,
        added,
    }
}


// ---- Pieces of generated code ----

/// A piece of the generated implementation.
#[derive(Debug)]
pub enum CodePiece {
    /// Source text written by the derive.
    Text(String),
    /// The tokens of the input's node, spliced in unchanged.
    Tokens(usize),
    /// `extern crate alloc as __sensitive_fmt_alloc;`, which truncation needs
    /// to format a value in a `no_std` crate.
    AllocCrate,
}

pub enum PieceView {
    Text(Seq<char>),
    Tokens(usize),
    AllocCrate,
}

impl View for CodePiece {
    type V = PieceView;

    open spec fn view(&self) -> PieceView {
        match self {
            CodePiece::Text(s) => PieceView::Text(s@),
            CodePiece::Tokens(n) => PieceView::Tokens(*n),
            CodePiece::AllocCrate => PieceView::AllocCrate,
        }
    }
}

pub open spec fn piece_views(v: Seq<CodePiece>) -> Seq<PieceView> {
    v.map_values(|p: CodePiece| p@)
}

fn push_piece(out: &mut Vec<CodePiece>, p: CodePiece)
    ensures
        piece_views(final(out)@) == piece_views(old(out)@).push(p@),
{
    out.push(p);
    assert(piece_views(out@) =~= piece_views(old(out)@).push(p@));
}

fn push_text(out: &mut Vec<CodePiece>, s: &str)
    ensures
        piece_views(final(out)@) == piece_views(old(out)@).push(PieceView::Text(s@)),
{
    push_piece(out, CodePiece::Text(String::from_str(s)));
}

fn append_pieces(out: &mut Vec<CodePiece>, other: Vec<CodePiece>)
    ensures
        piece_views(final(out)@) == piece_views(old(out)@) + piece_views(other@),
{
    let mut other = other;
    let ghost o = other@;
    out.append(&mut other);
    assert(piece_views(out@) =~= piece_views(old(out)@) + piece_views(o));
}

/// Appends `s` where `cond` holds.
fn append_if(out: &mut String, cond: bool, s: &str)
    ensures
        final(out)@ == old(out)@ + (if cond {
            s@
        } else {
            Seq::empty()
        }),
{
    if cond {
        out.append(s);
    } else {
        assert(out@ + Seq::<char>::empty() =~= out@);
    }
}

// ---- Numbers ----

pub open spec fn digit_char(d: nat) -> char {
    if d == 0 {
        '0'
    } else if d == 1 {
        '1'
    } else if d == 2 {
        '2'
    } else if d == 3 {
        '3'
    } else if d == 4 {
        '4'
    } else if d == 5 {
        '5'
    } else if d == 6 {
        '6'
    } else if d == 7 {
        '7'
    } else if d == 8 {
        '8'
    } else {
        '9'
    }
}

/// The decimal digits of `n`.
pub open spec fn decimal_text(n: nat) -> Seq<char>
    decreases n,
{
    if n < 10 {
        seq![digit_char(n)]
    } else {
        decimal_text(n / 10).push(digit_char(n % 10))
    }
}

fn digit_str(d: u32) -> (s: &'static str)
    requires
        d < 10,
    ensures
        s@ == seq![digit_char(d as nat)],
{
    let s = if d == 0 {
        "0"
    } else if d == 1 {
        "1"
    } else if d == 2 {
        "2"
    } else if d == 3 {
        "3"
    } else if d == 4 {
        "4"
    } else if d == 5 {
        "5"
    } else if d == 6 {
        "6"
    } else if d == 7 {
        "7"
    } else if d == 8 {
        "8"
    } else {
        "9"
    };
    proof {
        reveal_strlit("0");
        reveal_strlit("1");
        reveal_strlit("2");
        reveal_strlit("3");
        reveal_strlit("4");
        reveal_strlit("5");
        reveal_strlit("6");
        reveal_strlit("7");
        reveal_strlit("8");
        reveal_strlit("9");
        assert(s@ =~= seq![digit_char(d as nat)]);
    }
    s
}

/// Appends the decimal digits of `n`.
fn push_decimal(out: &mut String, n: u32)
    ensures
        final(out)@ == old(out)@ + decimal_text(n as nat),
    decreases n,
{
    if n < 10 {
        out.append(digit_str(n));
    } else {
        push_decimal(out, n / 10);
        out.append(digit_str(n % 10));
        assert(old(out)@ + decimal_text((n / 10) as nat) + seq![digit_char((n % 10) as nat)]
            =~= old(out)@ + decimal_text(n as nat));
    }
}

// ---- Field access ----

/// How generated code reaches a field: `&self.name` in a struct body,
/// `name` in an enum arm that bound it.
#[derive(Clone, Copy, PartialEq, Eq, Structural, Debug)]
pub enum FieldAccess {
    SelfField,
    Binding,
}

pub open spec fn access_text(access: FieldAccess, ident: Seq<char>) -> Seq<char> {
    match access {
        FieldAccess::SelfField => "&self."@ + ident,
        FieldAccess::Binding => ident,
    }
}

fn push_access(out: &mut String, access: FieldAccess, ident: &str)
    ensures
        final(out)@ == old(out)@ + access_text(access, ident@),
{
    match access {
        FieldAccess::SelfField => {
            out.append("&self.");
            out.append(ident);
            assert(old(out)@ + "&self."@ + ident@ =~= old(out)@ + ("&self."@ + ident@));
        },
        FieldAccess::Binding => {
            out.append(ident);
        },
    }
}

// ---- Field-level code ----

/// `format!("{}", acc)` through the `alloc` crate: the `Display` text of the
/// value that the expression `acc` stands for.
pub open spec fn display_format_text(acc: Seq<char>) -> Seq<char> {
    "__sensitive_fmt_alloc::format!(\"{}\", "@ + acc + ")"@
}

fn push_display_format(out: &mut String, access: FieldAccess, ident: &str)
    ensures
        final(out)@ == old(out)@ + display_format_text(access_text(access, ident@)),
{
    out.append("__sensitive_fmt_alloc::format!(\"{}\", ");
    push_access(out, access, ident);
    out.append(")");
}



/// The `__builder.field(...)` call for one field in a `Debug` body, where the
/// expression `acc` stands for the field's value.
pub open spec fn debug_call_reaching(f: PlannedField, acc: Seq<char>) -> Seq<char> {
    match f.plan {
        FieldPlan::Plain => "__builder.field(\""@ + f.ident@ + "\", "@ + acc + "); "@,
        FieldPlan::Redact => "__builder.field(\""@ + f.ident@ + "\", &__SensitiveFmtMarkers::"@
            + "Redacted"@ + "); "@,
        FieldPlan::Skip => "__builder.field(\""@ + f.ident@ + "\", &__SensitiveFmtMarkers::"@
            + "Skipped"@ + "); "@,
        FieldPlan::Truncate(n) => "__builder.field(\""@ + f.ident@
            + "\", &__SensitiveFmtMarkers::Truncated("@ + display_format_text(acc) + ", "@
            + decimal_text(n as nat) + "u32,),); "@,
    }
}

/// The `__builder.field(...)` call for one field in a `Debug` body.
pub open spec fn debug_field_call_text(f: PlannedField, access: FieldAccess) -> Seq<char> {
    debug_call_reaching(f, access_text(access, f.ident@))
}

/// One `__builder.field(...)` call for a single field.
pub fn debug_field_call(field: &PlannedField, access: FieldAccess) -> (r: String)
    ensures
        r@ == debug_field_call_text(*field, access),
{
    let mut out = String::from_str("__builder.field(\"");
    out.append(field.ident.as_str());
    match field.plan {
        FieldPlan::Plain => {
            out.append("\", ");
            push_access(&mut out, access, field.ident.as_str());
            out.append("); ");
        },
        FieldPlan::Redact => {
            out.append("\", &__SensitiveFmtMarkers::");
            out.append("Redacted");
            out.append("); ");
        },
        FieldPlan::Skip => {
            out.append("\", &__SensitiveFmtMarkers::");
            out.append("Skipped");
            out.append("); ");
        },
        FieldPlan::Truncate(n) => {
            out.append("\", &__SensitiveFmtMarkers::Truncated(");
            push_display_format(&mut out, access, field.ident.as_str());
            out.append(", ");
            push_decimal(&mut out, n);
            out.append("u32,),); ");
        },
    }
    out
}

/// The writes for the value of one field in a `Display` body, where the
/// expression `acc` stands for the field's value.
pub open spec fn display_value_reaching(f: PlannedField, acc: Seq<char>) -> Seq<char> {
    match f.plan {
        FieldPlan::Plain => "::core::fmt::Display::fmt("@ + acc + ", __f)?; "@,
        FieldPlan::Redact => "__f.write_str(\""@ + "REDACTED"@ + "\")?; "@,
        FieldPlan::Skip => "__f.write_str(\""@ + "<skipped>"@ + "\")?; "@,
        FieldPlan::Truncate(n) => "{ let __s = "@ + display_format_text(acc)
            + "; let __count = __s.chars().count() as u64; if __count >= "@ + decimal_text(
            n as nat,
        ) + "u32 as u64 { let __nm1 = ("@ + decimal_text(n as nat)
            + "u32 as usize).saturating_sub(1); "@ + keep_tail_text() + "__f.write_str(\""@ + "****"@
            + "\")?; __f.write_str(&__s[__start..])?;"@ + " } else { __f.write_str(\""@ + "REDACTED"@
            + "\")?; } } "@,
    }
}

/// The writes for the value of one field in a `Display` body.
pub open spec fn display_value_text(f: PlannedField, access: FieldAccess) -> Seq<char> {
    display_value_reaching(f, access_text(access, f.ident@))
}

/// The writes for one field (label and value) in a `Display` body, where the
/// expression `acc` stands for the field's value.
pub open spec fn display_entry_reaching(f: PlannedField, acc: Seq<char>) -> Seq<char> {
    "__f.write_str(\""@ + f.ident@ + ": \")?; "@ + display_value_reaching(f, acc)
}

/// The writes for one field (label and value) in a `Display` body.
pub open spec fn display_field_writes_text(f: PlannedField, access: FieldAccess) -> Seq<char> {
    display_entry_reaching(f, access_text(access, f.ident@))
}

fn display_value_writes(field: &PlannedField, access: FieldAccess) -> (r: String)
    ensures
        r@ == display_value_text(*field, access),
{
    match field.plan {
        FieldPlan::Plain => {
            let mut out = String::from_str("::core::fmt::Display::fmt(");
            push_access(&mut out, access, field.ident.as_str());
            out.append(", __f)?; ");
            out
        },
        FieldPlan::Redact => {
            let mut out = String::from_str("__f.write_str(\"");
            out.append("REDACTED");
            out.append("\")?; ");
            out
        },
        FieldPlan::Skip => {
            let mut out = String::from_str("__f.write_str(\"");
            out.append("<skipped>");
            out.append("\")?; ");
            out
        },
        FieldPlan::Truncate(n) => {
            let mut out = String::from_str("{ let __s = ");
            push_display_format(&mut out, access, field.ident.as_str());
            out.append("; let __count = __s.chars().count() as u64; if __count >= ");
            push_decimal(&mut out, n);
            out.append("u32 as u64 { let __nm1 = (");
            push_decimal(&mut out, n);
            out.append("u32 as usize).saturating_sub(1); ");
            push_keep_tail(&mut out);
            out.append("__f.write_str(\"");
            out.append("****");
            out.append("\")?; __f.write_str(&__s[__start..])?;");
            out.append(" } else { __f.write_str(\"");
            out.append("REDACTED");
            out.append("\")?; } } ");
            out
        },
    }
}

/// One field's worth of Display writes (label + value).
pub fn display_field_writes(field: &PlannedField, access: FieldAccess) -> (r: String)
    ensures
        r@ == display_field_writes_text(*field, access),
{
    let mut out = String::from_str("__f.write_str(\"");
    out.append(field.ident.as_str());
    out.append(": \")?; ");
    let value = display_value_writes(field, access);
    out.append(value.as_str());
    out
}


// ---- Named-field bodies ----

pub open spec fn debug_calls(fs: Seq<PlannedField>, access: FieldAccess) -> Seq<char>
    decreases fs.len(),
{
    if fs.len() == 0 {
        Seq::empty()
    } else {
        debug_calls(fs.drop_last(), access) + debug_field_call_text(fs.last(), access)
    }
}

pub open spec fn display_writes(fs: Seq<PlannedField>, access: FieldAccess) -> Seq<char>
    decreases fs.len(),
{
    if fs.len() == 0 {
        Seq::empty()
    } else {
        display_writes(fs.drop_last(), access) + (if fs.len() > 1 {
            "__f.write_str(\", \")?; "@
        } else {
            Seq::empty()
        }) + display_field_writes_text(fs.last(), access)
    }
}

/// `Name {}` for a group without fields.
pub open spec fn empty_group_text(name: Seq<char>) -> Seq<char> {
    "__f.write_str(\""@ + name + " {}\")"@
}

/// The body for one named-field group: `Name {}` when empty; otherwise a
/// `debug_struct` chain (`Debug`), or `Name { a: .., b: .. }` written field by
/// field (`Display`).
pub open spec fn named_body_text(
    derive: Derive,
    name: Seq<char>,
    fs: Seq<PlannedField>,
    access: FieldAccess,
) -> Seq<char> {
    if fs.len() == 0 {
        empty_group_text(name)
    } else {
        match derive {
            Derive::DebugDerive => "let mut __builder = __f.debug_struct(\""@ + name + "\"); "@
                + debug_calls(fs, access) + "__builder.finish()"@,
            Derive::DisplayDerive => "__f.write_str(\""@ + name + " { \")?; "@ + display_writes(
                fs,
                access,
            ) + "__f.write_str(\" }\")"@,
        }
    }
}

/// The expressions by which a body reaches each of the fields `fs`.
pub open spec fn accesses(fs: Seq<PlannedField>, access: FieldAccess) -> Seq<Seq<char>> {
    fs.map_values(|f: PlannedField| access_text(access, f.ident@))
}

/// `debug_calls`, where `accs[i]` stands for the value of field `i`.
pub open spec fn debug_calls_reaching(fs: Seq<PlannedField>, accs: Seq<Seq<char>>) -> Seq<char>
    decreases fs.len(),
{
    if fs.len() == 0 {
        Seq::empty()
    } else {
        debug_calls_reaching(fs.drop_last(), accs.drop_last()) + debug_call_reaching(
            fs.last(),
            accs.last(),
        )
    }
}

/// `display_writes`, where `accs[i]` stands for the value of field `i`.
pub open spec fn display_writes_reaching(fs: Seq<PlannedField>, accs: Seq<Seq<char>>) -> Seq<char>
    decreases fs.len(),
{
    if fs.len() == 0 {
        Seq::empty()
    } else {
        display_writes_reaching(fs.drop_last(), accs.drop_last()) + (if fs.len() > 1 {
            "__f.write_str(\", \")?; "@
        } else {
            Seq::empty()
        }) + display_entry_reaching(fs.last(), accs.last())
    }
}

/// `named_body_text`, where `accs[i]` stands for the value of field `i`.
pub open spec fn named_body_reaching(
    derive: Derive,
    name: Seq<char>,
    fs: Seq<PlannedField>,
    accs: Seq<Seq<char>>,
) -> Seq<char> {
    if fs.len() == 0 {
        empty_group_text(name)
    } else {
        match derive {
            Derive::DebugDerive => "let mut __builder = __f.debug_struct(\""@ + name + "\"); "@
                + debug_calls_reaching(fs, accs) + "__builder.finish()"@,
            Derive::DisplayDerive => "__f.write_str(\""@ + name + " { \")?; "@
                + display_writes_reaching(fs, accs) + "__f.write_str(\" }\")"@,
        }
    }
}

/// A redacted or skipped field.
pub open spec fn is_hidden(p: FieldPlan) -> bool {
    p == FieldPlan::Redact || p == FieldPlan::Skip
}

proof fn lemma_calls_reaching(fs: Seq<PlannedField>, access: FieldAccess)
    ensures
        debug_calls(fs, access) == debug_calls_reaching(fs, accesses(fs, access)),
        display_writes(fs, access) == display_writes_reaching(fs, accesses(fs, access)),
    decreases fs.len(),
{
    if fs.len() > 0 {
        lemma_calls_reaching(fs.drop_last(), access);
        assert(accesses(fs, access).drop_last() =~= accesses(fs.drop_last(), access));
        assert(accesses(fs, access).last() == access_text(access, fs.last().ident@));
    }
}

proof fn lemma_reaching_ignores_hidden(fs: Seq<PlannedField>, accs1: Seq<Seq<char>>, accs2: Seq<Seq<char>>)
    requires
        accs1.len() == fs.len(),
        accs2.len() == fs.len(),
        forall|i: int| 0 <= i < fs.len() && !is_hidden(#[trigger] fs[i].plan) ==> accs1[i] == accs2[i],
    ensures
        debug_calls_reaching(fs, accs1) == debug_calls_reaching(fs, accs2),
        display_writes_reaching(fs, accs1) == display_writes_reaching(fs, accs2),
    decreases fs.len(),
{
    if fs.len() > 0 {
        let k = fs.len() - 1;
        assert(fs.last() == fs[k]);
        assert(!is_hidden(fs[k].plan) ==> accs1[k] == accs2[k]);
        assert forall|i: int| 0 <= i < fs.drop_last().len() && !is_hidden(
            #[trigger] fs.drop_last()[i].plan,
        ) implies accs1.drop_last()[i] == accs2.drop_last()[i] by {
            assert(fs.drop_last()[i] == fs[i]);
        }
        lemma_reaching_ignores_hidden(fs.drop_last(), accs1.drop_last(), accs2.drop_last());
        assert(debug_call_reaching(fs.last(), accs1.last()) == debug_call_reaching(
            fs.last(),
            accs2.last(),
        ));
        assert(display_entry_reaching(fs.last(), accs1.last()) == display_entry_reaching(
            fs.last(),
            accs2.last(),
        ));
    }
}

/// The generated code never reads a redacted or skipped field: the body that
/// either derive writes for a group of fields (a struct, reaching its fields as
/// `&self.name`, or an enum arm, reaching them by the names it binds) is the
/// same text whatever expression stands for the value of such a field. Only
/// plain and truncated fields are reached.
pub proof fn law_hidden_fields_are_never_read(
    derive: Derive,
    name: Seq<char>,
    fs: Seq<PlannedField>,
    access: FieldAccess,
    accs: Seq<Seq<char>>,
)
    requires
        accs.len() == fs.len(),
        forall|i: int|
            0 <= i < fs.len() && !is_hidden(#[trigger] fs[i].plan) ==> accs[i] == access_text(
                access,
                fs[i].ident@,
            ),
    ensures
        named_body_text(derive, name, fs, access) == named_body_reaching(derive, name, fs, accs),
{
    lemma_calls_reaching(fs, access);
    let own = accesses(fs, access);
    assert forall|i: int| 0 <= i < fs.len() && !is_hidden(#[trigger] fs[i].plan) implies own[i]
        == accs[i] by {
        assert(own[i] == access_text(access, fs[i].ident@));
    }
    lemma_reaching_ignores_hidden(fs, own, accs);
}

fn empty_group(name: &str) -> (r: String)
    ensures
        r@ == empty_group_text(name@),
{
    let mut out = String::from_str("__f.write_str(\"");
    out.append(name);
    out.append(" {}\")");
    out
}

/// Body for one named-field group, `Debug` flavor.
pub fn emit_debug_named_body(name_str: &str, fields: &Vec<PlannedField>, access: FieldAccess) -> (r:
    String)
    ensures
        r@ == named_body_text(Derive::DebugDerive, name_str@, fields@, access),
{
    if fields.len() == 0 {
        return empty_group(name_str);
    }
    let mut out = String::from_str("let mut __builder = __f.debug_struct(\"");
    out.append(name_str);
    out.append("\"); ");
    let ghost head = out@;
    let mut i: usize = 0;
    assert(head + debug_calls(fields@.take(0), access) =~= head);
    while i < fields.len()
        invariant
            i <= fields@.len(),
            out@ == head + debug_calls(fields@.take(i as int), access),
        decreases fields@.len() - i,
    {
        let call = debug_field_call(&fields[i], access);
        out.append(call.as_str());
        assert(fields@.take(i + 1).drop_last() =~= fields@.take(i as int));
        assert(out@ =~= head + debug_calls(fields@.take(i + 1), access));
        i = i + 1;
    }
    assert(fields@.take(i as int) =~= fields@);
    out.append("__builder.finish()");
    out
}

/// Body for one named-field group, `Display` flavor.
pub fn emit_display_named_body(name_str: &str, fields: &Vec<PlannedField>, access: FieldAccess) -> (r:
    String)
    ensures
        r@ == named_body_text(Derive::DisplayDerive, name_str@, fields@, access),
{
    if fields.len() == 0 {
        return empty_group(name_str);
    }
    let mut out = String::from_str("__f.write_str(\"");
    out.append(name_str);
    out.append(" { \")?; ");
    let ghost head = out@;
    let mut i: usize = 0;
    assert(head + display_writes(fields@.take(0), access) =~= head);
    while i < fields.len()
        invariant
            i <= fields@.len(),
            out@ == head + display_writes(fields@.take(i as int), access),
        decreases fields@.len() - i,
    {
        append_if(&mut out, i > 0, "__f.write_str(\", \")?; ");
        let w = display_field_writes(&fields[i], access);
        out.append(w.as_str());
        assert(fields@.take(i + 1).drop_last() =~= fields@.take(i as int));
        assert(out@ =~= head + display_writes(fields@.take(i + 1), access));
        i = i + 1;
    }
    assert(fields@.take(i as int) =~= fields@);
    out.append("__f.write_str(\" }\")");
    out
}

// ---- Enum arms ----

/// The field names of a variant, as its match pattern binds them.
pub open spec fn pattern_text(fs: Seq<PlannedField>) -> Seq<char>
    decreases fs.len(),
{
    if fs.len() == 0 {
        Seq::empty()
    } else if fs.len() == 1 {
        fs[0].ident@
    } else {
        pattern_text(fs.drop_last()) + ", "@ + fs.last().ident@
    }
}

/// The match arm for one variant.
pub open spec fn arm_text(derive: Derive, v: VariantView) -> Seq<char> {
    match v.shape {
        ShapeView::Unit => "Self::"@ + v.ident@ + " => __f.write_str(\""@ + v.ident@ + "\"), "@,
        ShapeView::Struct(fs) => if fs.len() == 0 {
            "Self::"@ + v.ident@ + " {} => __f.write_str(\""@ + v.ident@ + " {}\"), "@
        } else {
            "Self::"@ + v.ident@ + " { "@ + pattern_text(fs) + " } => { "@ + named_body_text(
                derive,
                v.ident@,
                fs,
                FieldAccess::Binding,
            ) + " }, "@
        },
    }
}

fn push_pattern(out: &mut String, fields: &Vec<PlannedField>)
    ensures
        final(out)@ == old(out)@ + pattern_text(fields@),
{
    let ghost start = out@;
    let mut i: usize = 0;
    assert(start + pattern_text(fields@.take(0)) =~= start);
    while i < fields.len()
        invariant
            i <= fields@.len(),
            out@ == start + pattern_text(fields@.take(i as int)),
        decreases fields@.len() - i,
    {
        assert(fields@.take(i + 1).drop_last() =~= fields@.take(i as int));
        if i > 0 {
            out.append(", ");
        } else {
            assert(start + pattern_text(fields@.take(1)) =~= start + fields@[0].ident@);
        }
        out.append(fields[i].ident.as_str());
        assert(out@ =~= start + pattern_text(fields@.take(i + 1)));
        i = i + 1;
    }
    assert(fields@.take(i as int) =~= fields@);
}

fn emit_variant_arm(variant: &PlannedVariant, derive: Derive) -> (r: String)
    ensures
        r@ == arm_text(derive, variant@),
{
    let v_str = variant.ident.as_str();
    let mut out = String::from_str("Self::");
    out.append(v_str);
    match &variant.shape {
        VariantShape::Unit => {
            out.append(" => __f.write_str(\"");
            out.append(v_str);
            out.append("\"), ");
        },
        VariantShape::Struct(fields) => {
            if fields.len() == 0 {
                out.append(" {} => __f.write_str(\"");
                out.append(v_str);
                out.append(" {}\"), ");
            } else {
                out.append(" { ");
                push_pattern(&mut out, fields);
                out.append(" } => { ");
                let body = match derive {
                    Derive::DebugDerive => emit_debug_named_body(v_str, fields, FieldAccess::Binding),
                    Derive::DisplayDerive => emit_display_named_body(
                        v_str,
                        fields,
                        FieldAccess::Binding,
                    ),
                };
                out.append(body.as_str());
                out.append(" }, ");
            }
        },
    }
    out
}

/// Single arm for an enum variant in a Debug match.
pub fn emit_debug_variant_arm(variant: &PlannedVariant) -> (r: String)
    ensures
        r@ == arm_text(Derive::DebugDerive, variant@),
{
    emit_variant_arm(variant, Derive::DebugDerive)
}

/// Single arm for an enum variant in a Display match.
pub fn emit_display_variant_arm(variant: &PlannedVariant) -> (r: String)
    ensures
        r@ == arm_text(Derive::DisplayDerive, variant@),
{
    emit_variant_arm(variant, Derive::DisplayDerive)
}


pub open spec fn arms_text(derive: Derive, vs: Seq<VariantView>) -> Seq<char>
    decreases vs.len(),
{
    if vs.len() == 0 {
        Seq::empty()
    } else {
        arms_text(derive, vs.drop_last()) + arm_text(derive, vs.last())
    }
}

/// The body of `fmt`: the named-field group of a struct, or a `match` over
/// the variants of an enum (`match *self {}` for an enum without variants).
pub open spec fn body_text(derive: Derive, name: Seq<char>, plan: PlanView) -> Seq<char> {
    match plan {
        PlanView::Struct(fs) => named_body_text(derive, name, fs, FieldAccess::SelfField),
        PlanView::Enum(vs) => if vs.len() == 0 {
            "match *self {}"@
        } else {
            "match self { "@ + arms_text(derive, vs) + "}"@
        },
    }
}

fn emit_body(name_str: &str, plan: &Plan, derive: Derive) -> (r: String)
    ensures
        r@ == body_text(derive, name_str@, plan@),
{
    match plan {
        Plan::Struct(fields) => match derive {
            Derive::DebugDerive => emit_debug_named_body(name_str, fields, FieldAccess::SelfField),
            Derive::DisplayDerive => emit_display_named_body(
                name_str,
                fields,
                FieldAccess::SelfField,
            ),
        },
        Plan::Enum(variants) => {
            if variants.len() == 0 {
                return String::from_str("match *self {}");
            }
            let ghost vs = variants@.map_values(|v: PlannedVariant| v@);
            let mut out = String::from_str("match self { ");
            let ghost head = out@;
            let mut i: usize = 0;
            assert(head + arms_text(derive, vs.take(0)) =~= head);
            while i < variants.len()
                invariant
                    i <= variants@.len(),
                    vs == variants@.map_values(|v: PlannedVariant| v@),
                    out@ == head + arms_text(derive, vs.take(i as int)),
                decreases variants@.len() - i,
            {
                let arm = emit_variant_arm(&variants[i], derive);
                out.append(arm.as_str());
                assert(vs.take(i + 1).drop_last() =~= vs.take(i as int));
                assert(vs.take(i + 1).last() == variants@[i as int]@);
                assert(out@ =~= head + arms_text(derive, vs.take(i + 1)));
                i = i + 1;
            }
            assert(vs.take(i as int) =~= vs);
            out.append("}");
            out
        },
    }
}

// ---- The fields of a plan ----

/// All fields of the plan, across struct and enum variants, in order.
pub open spec fn plan_fields(plan: PlanView) -> Seq<PlannedField> {
    match plan {
        PlanView::Struct(fs) => fs,
        PlanView::Enum(vs) => variant_fields(vs),
    }
}

pub open spec fn variant_fields(vs: Seq<VariantView>) -> Seq<PlannedField>
    decreases vs.len(),
{
    if vs.len() == 0 {
        Seq::empty()
    } else {
        variant_fields(vs.drop_last()) + match vs.last().shape {
            ShapeView::Unit => Seq::empty(),
            ShapeView::Struct(fs) => fs,
        }
    }
}

fn duplicate_planned_field(f: &PlannedField) -> (r: PlannedField)
    ensures
        r == *f,
{
    PlannedField { ident: f.ident.clone(), ty: duplicate_field_type(&f.ty), plan: f.plan }
}

fn push_fields(out: &mut Vec<PlannedField>, fields: &Vec<PlannedField>)
    ensures
        final(out)@ == old(out)@ + fields@,
{
    let mut j: usize = 0;
    while j < fields.len()
        invariant
            j <= fields@.len(),
            out@ == old(out)@ + fields@.take(j as int),
        decreases fields@.len() - j,
    {
        out.push(duplicate_planned_field(&fields[j]));
        assert(old(out)@ + fields@.take(j + 1) =~= (old(out)@ + fields@.take(j as int)).push(
            fields@[j as int],
        ));
        j = j + 1;
    }
    assert(fields@.take(j as int) =~= fields@);
}

/// Flatten the plan into a single list of fields, whether they live in a
/// struct or in enum variants. Bound synthesis treats the input uniformly:
/// duplicate predicates are harmless.
pub fn collect_field_types(plan: &Plan) -> (r: Vec<PlannedField>)
    ensures
        r@ == plan_fields(plan@),
{
    let mut out: Vec<PlannedField> = Vec::new();
    match plan {
        Plan::Struct(fields) => {
            push_fields(&mut out, fields);
            assert(out@ =~= fields@);
        },
        Plan::Enum(variants) => {
            let ghost vs = variants@.map_values(|v: PlannedVariant| v@);
            let mut i: usize = 0;
            assert(out@ =~= variant_fields(vs.take(0)));
            while i < variants.len()
                invariant
                    i <= variants@.len(),
                    vs == variants@.map_values(|v: PlannedVariant| v@),
                    out@ == variant_fields(vs.take(i as int)),
                decreases variants@.len() - i,
            {
                assert(vs.take(i + 1).drop_last() =~= vs.take(i as int));
                assert(vs.take(i + 1).last() == variants@[i as int]@);
                match &variants[i].shape {
                    VariantShape::Unit => {
                        assert(out@ + Seq::<PlannedField>::empty() =~= out@);
                    },
                    VariantShape::Struct(fields) => {
                        push_fields(&mut out, fields);
                    },
                }
                i = i + 1;
            }
            assert(vs.take(i as int) =~= vs);
        },
    }
    out
}

/// Some field is redacted, skipped or truncated.
pub open spec fn any_marked(fs: Seq<PlannedField>) -> bool {
    exists|i: int| 0 <= i < fs.len() && #[trigger] fs[i].plan != FieldPlan::Plain
}

/// Some field is truncated.
pub open spec fn any_truncate(fs: Seq<PlannedField>) -> bool {
    exists|i: int| 0 <= i < fs.len() && #[trigger] fs[i].plan is Truncate
}

fn find_marked(fields: &Vec<PlannedField>) -> (r: (bool, bool))
    ensures
        r.0 == any_marked(fields@),
        r.1 == any_truncate(fields@),
{
    let mut marked = false;
    let mut truncate = false;
    let mut i: usize = 0;
    while i < fields.len()
        invariant
            i <= fields@.len(),
            marked == exists|j: int| 0 <= j < i && #[trigger] fields@[j].plan != FieldPlan::Plain,
            truncate == exists|j: int| 0 <= j < i && #[trigger] fields@[j].plan is Truncate,
        decreases fields@.len() - i,
    {
        if fields[i].plan != FieldPlan::Plain {
            marked = true;
        }
        if let FieldPlan::Truncate(_) = fields[i].plan {
            truncate = true;
        }
        i = i + 1;
    }
    (marked, truncate)
}

// ---- The marker enum ----

/// Where a truncated text keeps its tail: the byte index at which
/// `__s.char_indices().nth_back(__nm1)` stands, the start of the last
/// `__nm1 + 1` code points of `__s`.
pub open spec fn keep_tail_text() -> Seq<char> {
    "let __start = __s.char_indices().nth_back(__nm1).map(|(__i, _)| __i).unwrap_or(0); "@
}

/// The arm of the marker's `Debug` impl for a marker without payload.
pub open spec fn marker_arm(name: Seq<char>, text: Seq<char>) -> Seq<char> {
    "__SensitiveFmtMarkers::"@ + name + " => __mf.write_str(\""@ + text + "\"), "@
}

/// The arm of the marker's `Debug` impl for a truncated value `__s` and its
/// count `__n`.
pub open spec fn truncated_arm() -> Seq<char> {
    "__SensitiveFmtMarkers::Truncated(__s, __n) => { let __count = __s.chars().count(); if __count >= *__n as usize { "@
        + "let __nm1 = (*__n as usize) - 1; "@ + keep_tail_text() + "__mf.write_str(\""@ + "****"@
        + "\")?; __mf.write_str(&__s[__start..])"@ + " } else { __mf.write_str(\""@ + "REDACTED"@
        + "\") } } "@
}

/// The local marker enum of a `Debug` body and its `Debug` impl, which writes
/// bare strings or truncated tails.
pub open spec fn marker_text(any_truncate: bool) -> Seq<char> {
    "enum __SensitiveFmtMarkers { Redacted, Skipped, "@ + (if any_truncate {
        "Truncated(__sensitive_fmt_alloc::string::String, u32), "@
    } else {
        Seq::empty()
    })
        + "} impl ::core::fmt::Debug for __SensitiveFmtMarkers { fn fmt(&self, __mf: &mut ::core::fmt::Formatter<'_>) -> ::core::fmt::Result { match self { "@
        + marker_arm("Redacted"@, "REDACTED"@) + marker_arm("Skipped"@, "<skipped>"@) + (if any_truncate {
        truncated_arm()
    } else {
        Seq::empty()
    }) + "} } } "@
}

fn push_marker_arm(out: &mut String, name: &str, text: &str)
    ensures
        final(out)@ == old(out)@ + marker_arm(name@, text@),
{
    out.append("__SensitiveFmtMarkers::");
    out.append(name);
    out.append(" => __mf.write_str(\"");
    out.append(text);
    out.append("\"), ");
    assert(final(out)@ =~= old(out)@ + marker_arm(name@, text@));
}

fn push_keep_tail(out: &mut String)
    ensures
        final(out)@ == old(out)@ + keep_tail_text(),
{
    out.append("let __start = __s.char_indices().nth_back(__nm1).map(|(__i, _)| __i).unwrap_or(0); ");
}

fn push_truncated_arm(out: &mut String)
    ensures
        final(out)@ == old(out)@ + truncated_arm(),
{
    out.append(
        "__SensitiveFmtMarkers::Truncated(__s, __n) => { let __count = __s.chars().count(); if __count >= *__n as usize { ",
    );
    out.append("let __nm1 = (*__n as usize) - 1; ");
    push_keep_tail(out);
    out.append("__mf.write_str(\"");
    out.append("****");
    out.append("\")?; __mf.write_str(&__s[__start..])");
    out.append(" } else { __mf.write_str(\"");
    out.append("REDACTED");
    out.append("\") } } ");
    assert(final(out)@ =~= old(out)@ + truncated_arm());
}

/// The marker declarations: nothing when no field is marked; otherwise the
/// marker enum, preceded by the `alloc` import when a field is truncated.
pub open spec fn marker_pieces(any_marked: bool, any_truncate: bool) -> Seq<PieceView> {
    if !any_marked {
        Seq::empty()
    } else if any_truncate {
        seq![PieceView::AllocCrate, PieceView::Text(marker_text(true))]
    } else {
        seq![PieceView::Text(marker_text(false))]
    }
}

/// Build the marker declaration block; nothing when no field uses
/// redact/skip/truncate.
pub fn build_marker_decl(any_marked: bool, any_truncate: bool) -> (r: Vec<CodePiece>)
    ensures
        piece_views(r@) == marker_pieces(any_marked, any_truncate),
{
    let mut out: Vec<CodePiece> = Vec::new();
    if !any_marked {
        assert(piece_views(out@) =~= Seq::<PieceView>::empty());
        return out;
    }
    if any_truncate {
        out.push(CodePiece::AllocCrate);
    }
    let mut text = String::from_str("enum __SensitiveFmtMarkers { Redacted, Skipped, ");
    append_if(&mut text, any_truncate, "Truncated(__sensitive_fmt_alloc::string::String, u32), ");
    text.append(
        "} impl ::core::fmt::Debug for __SensitiveFmtMarkers { fn fmt(&self, __mf: &mut ::core::fmt::Formatter<'_>) -> ::core::fmt::Result { match self { ",
    );
    push_marker_arm(&mut text, "Redacted", "REDACTED");
    push_marker_arm(&mut text, "Skipped", "<skipped>");
    if any_truncate {
        push_truncated_arm(&mut text);
    } else {
        assert(text@ + Seq::<char>::empty() =~= text@);
    }
    text.append("} } } ");
    assert(text@ =~= marker_text(any_truncate));
    out.push(CodePiece::Text(text));
    assert(piece_views(out@) =~= marker_pieces(any_marked, any_truncate));
    out
}

// ---- The `where` clause as pieces ----

pub open spec fn bound_path(b: NeededBound) -> Seq<char> {
    match b {
        NeededBound::Debug => "::core::fmt::Debug"@,
        NeededBound::Display => "::core::fmt::Display"@,
        NeededBound::Nothing => Seq::empty(),
    }
}

pub open spec fn predicate_pieces(p: PredicateView) -> Seq<PieceView> {
    match p.target {
        TargetView::FieldType(n) => seq![
            PieceView::Tokens(n),
            PieceView::Text(": "@ + bound_path(p.bound)),
        ],
        TargetView::TypeParam(name) => seq![PieceView::Text(name + ": "@ + bound_path(p.bound))],
    }
}

/// The predicates of the `where` clause, each as pieces: the input's own,
/// then the added ones.
pub open spec fn where_items(existing: Seq<usize>, added: Seq<PredicateView>) -> Seq<
    Seq<PieceView>,
> {
    existing.map_values(|n: usize| seq![PieceView::Tokens(n)]) + added.map_values(
        |p: PredicateView| predicate_pieces(p),
    )
}

/// Items separated by commas.
pub open spec fn joined_items(items: Seq<Seq<PieceView>>) -> Seq<PieceView>
    decreases items.len(),
{
    if items.len() == 0 {
        Seq::empty()
    } else if items.len() == 1 {
        items[0]
    } else {
        joined_items(items.drop_last()) + seq![PieceView::Text(","@)] + items.last()
    }
}

/// The printed `where` clause: nothing without predicates; otherwise `where`
/// and the predicates separated by commas, ending with a comma only where the
/// input's own clause did and nothing was added.
pub open spec fn where_pieces(existing: Seq<usize>, trailing_comma: bool, added: Seq<PredicateView>) -> Seq<
    PieceView,
> {
    if existing.len() + added.len() == 0 {
        Seq::empty()
    } else {
        seq![PieceView::Text("where"@)] + joined_items(where_items(existing, added)) + (if trailing_comma
            && added.len() == 0 {
            seq![PieceView::Text(","@)]
        } else {
            Seq::empty()
        })
    }
}

fn bound_str(b: NeededBound) -> (s: &'static str)
    ensures
        s@ == bound_path(b),
{
    match b {
        NeededBound::Debug => "::core::fmt::Debug",
        NeededBound::Display => "::core::fmt::Display",
        NeededBound::Nothing => {
            proof {
                reveal_strlit("");
            }
            assert(""@ =~= Seq::<char>::empty());
            ""
        },
    }
}

fn push_predicate(out: &mut Vec<CodePiece>, p: &AddedPredicate)
    ensures
        piece_views(final(out)@) == piece_views(old(out)@) + predicate_pieces(p@),
{
    match &p.target {
        PredicateTarget::FieldType(n) => {
            push_piece(out, CodePiece::Tokens(*n));
            let mut t = String::from_str(": ");
            t.append(bound_str(p.bound));
            push_piece(out, CodePiece::Text(t));
        },
        PredicateTarget::TypeParam(name) => {
            let mut t = name.clone();
            t.append(": ");
            t.append(bound_str(p.bound));
            push_piece(out, CodePiece::Text(t));
            assert(t@ =~= name@ + ": "@ + bound_path(p.bound));
        },
    }
    assert(piece_views(out@) =~= piece_views(old(out)@) + predicate_pieces(p@));
}

/// The pieces that print the `where` clause.
pub fn where_clause_pieces(wc: &WhereClauseModel) -> (r: Vec<CodePiece>)
    ensures
        piece_views(r@) == where_pieces(wc.existing@, wc.trailing_comma, predicate_views(wc.added@)),
{
    let mut out: Vec<CodePiece> = Vec::new();
    let e = wc.existing.len();
    let a = wc.added.len();
    if e == 0 && a == 0 {
        assert(piece_views(out@) =~= Seq::<PieceView>::empty());
        return out;
    }
    let ghost items = where_items(wc.existing@, predicate_views(wc.added@));
    push_text(&mut out, "where");
    let ghost head = piece_views(out@);
    let mut k: usize = 0;
    assert(head + joined_items(items.take(0)) =~= head);
    while k < e
        invariant
            k <= e,
            e == wc.existing@.len(),
            a == wc.added@.len(),
            items == where_items(wc.existing@, predicate_views(wc.added@)),
            items.len() == e + a,
            piece_views(out@) == head + joined_items(items.take(k as int)),
        decreases e - k,
    {
        assert(items.take(k + 1).drop_last() =~= items.take(k as int));
        assert(items.take(k + 1).last() == items[k as int]);
        if k > 0 {
            push_text(&mut out, ",");
        }
        let ghost mid = piece_views(out@);
        push_piece(&mut out, CodePiece::Tokens(wc.existing[k]));
        assert(items[k as int] == seq![PieceView::Tokens(wc.existing@[k as int])]);
        assert(piece_views(out@) =~= mid + items[k as int]);
        assert(piece_views(out@) =~= head + joined_items(items.take(k + 1)));
        k = k + 1;
    }
    let mut j: usize = 0;
    while j < a
        invariant
            j <= a,
            e == wc.existing@.len(),
            a == wc.added@.len(),
            items == where_items(wc.existing@, predicate_views(wc.added@)),
            items.len() == e + a,
            piece_views(out@) == head + joined_items(items.take(e + j)),
        decreases a - j,
    {
        let ghost idx = e + j;
        assert(items.take(idx + 1).drop_last() =~= items.take(idx));
        assert(items.take(idx + 1).last() == items[idx]);
        if e > 0 || j > 0 {
            push_text(&mut out, ",");
        }
        let ghost mid = piece_views(out@);
        push_predicate(&mut out, &wc.added[j]);
        assert(items[idx] == predicate_pieces(wc.added@[j as int]@));
        assert(piece_views(out@) =~= head + joined_items(items.take(idx + 1)));
        j = j + 1;
    }
    assert(items.take(e + j) =~= items);
    if wc.trailing_comma && a == 0 {
        push_text(&mut out, ",");
    } else {
        assert(piece_views(out@) + Seq::<PieceView>::empty() =~= piece_views(out@));
    }
    assert(piece_views(out@) =~= where_pieces(
        wc.existing@,
        wc.trailing_comma,
        predicate_views(wc.added@),
    ));
    out
}


// ---- The impls ----

pub open spec fn trait_for(derive: Derive) -> Seq<char> {
    match derive {
        Derive::DebugDerive => "::core::fmt::Debug for"@,
        Derive::DisplayDerive => "::core::fmt::Display for"@,
    }
}

/// `#[automatically_derived] impl <generics> Trait for Name<params>`.
pub open spec fn impl_head(derive: Derive, input: DeriveInputModel) -> Seq<PieceView> {
    seq![
        PieceView::Text("#[automatically_derived] impl"@),
        PieceView::Tokens(input.generics.impl_generics),
        PieceView::Text(trait_for(derive)),
        PieceView::Tokens(input.node),
        PieceView::Tokens(input.generics.ty_generics),
    ]
}

/// The `where` clause of the impl: the input's own predicates and those that
/// the plan's fields add.
pub open spec fn impl_where(derive: Derive, input: DeriveInputModel, plan: PlanView) -> Seq<
    PieceView,
> {
    where_pieces(
        input.generics.where_predicates@,
        input.generics.where_trailing_comma,
        fields_predicates(
            plan_fields(plan),
            names(input.generics.type_params@),
            input.ident@,
            derive,
        ),
    )
}

pub open spec fn fn_open() -> Seq<char> {
    "{ fn fmt(&self, __f: &mut ::core::fmt::Formatter<'_>) -> ::core::fmt::Result {"@
}

/// The `Debug` impl for a planned input.
pub open spec fn spec_debug_impl(input: DeriveInputModel, plan: PlanView) -> Seq<PieceView> {
    let fs = plan_fields(plan);
    impl_head(Derive::DebugDerive, input) + impl_where(Derive::DebugDerive, input, plan) + seq![
        PieceView::Text(fn_open()),
    ] + marker_pieces(any_marked(fs), any_truncate(fs)) + seq![
        PieceView::Text(body_text(Derive::DebugDerive, input.ident@, plan)),
        PieceView::Text("} }"@),
    ]
}

/// The `Display` impl for a planned input.
pub open spec fn spec_display_impl(input: DeriveInputModel, plan: PlanView) -> Seq<PieceView> {
    let fs = plan_fields(plan);
    impl_head(Derive::DisplayDerive, input) + impl_where(Derive::DisplayDerive, input, plan) + seq![
        PieceView::Text(fn_open()),
    ] + (if any_truncate(fs) {
        seq![PieceView::AllocCrate]
    } else {
        Seq::empty()
    }) + seq![
        PieceView::Text(body_text(Derive::DisplayDerive, input.ident@, plan)),
        PieceView::Text("} }"@),
    ]
}

fn push_impl_head(out: &mut Vec<CodePiece>, input: &DeriveInputModel, derive: Derive)
    ensures
        piece_views(final(out)@) == piece_views(old(out)@) + impl_head(derive, *input),
{
    push_text(out, "#[automatically_derived] impl");
    push_piece(out, CodePiece::Tokens(input.generics.impl_generics));
    match derive {
        Derive::DebugDerive => push_text(out, "::core::fmt::Debug for"),
        Derive::DisplayDerive => push_text(out, "::core::fmt::Display for"),
    }
    push_piece(out, CodePiece::Tokens(input.node));
    push_piece(out, CodePiece::Tokens(input.generics.ty_generics));
    assert(piece_views(out@) =~= piece_views(old(out)@) + impl_head(derive, *input));
}

fn push_impl_where(out: &mut Vec<CodePiece>, input: &DeriveInputModel, fields: &Vec<PlannedField>, derive: Derive)
    ensures
        piece_views(final(out)@) == piece_views(old(out)@) + where_pieces(
            input.generics.where_predicates@,
            input.generics.where_trailing_comma,
            fields_predicates(fields@, names(input.generics.type_params@), input.ident@, derive),
        ),
{
    let wc = synthesize_where(&input.generics, input.ident.as_str(), fields, derive);
    append_pieces(out, where_clause_pieces(&wc));
}

/// Emit `impl Debug for Name` honoring each field's `FieldPlan`.
///
/// An empty named-field group (struct or empty struct variant) prints
/// `Name {}` (with braces). Otherwise the body uses `f.debug_struct(...)` so
/// pretty-printing via `{:#?}` works. Marked fields use a local marker enum
/// whose Debug impl writes the bare marker string (e.g. `REDACTED`) without
/// quotes. Enums dispatch through a `match self` over variants; the marker
/// enum is declared once at the top of `fmt` and shared across all arms.
pub fn emit_debug_impl(input: &DeriveInputModel, plan: &Plan) -> (r: Vec<CodePiece>)
    ensures
        piece_views(r@) == spec_debug_impl(*input, plan@),
{
    let field_types = collect_field_types(plan);
    let (any_marked, any_truncate) = find_marked(&field_types);
    let mut out: Vec<CodePiece> = Vec::new();
    push_impl_head(&mut out, input, Derive::DebugDerive);
    push_impl_where(&mut out, input, &field_types, Derive::DebugDerive);
    push_text(&mut out, "{ fn fmt(&self, __f: &mut ::core::fmt::Formatter<'_>) -> ::core::fmt::Result {");
    append_pieces(&mut out, build_marker_decl(any_marked, any_truncate));
    let body = emit_body(input.ident.as_str(), plan, Derive::DebugDerive);
    push_piece(&mut out, CodePiece::Text(body));
    push_text(&mut out, "} }");
    assert(piece_views(out@) =~= spec_debug_impl(*input, plan@));
    out
}

/// Emit `impl Display for Name` honoring each field's `FieldPlan`.
///
/// An empty named-field group (struct or empty struct variant) prints
/// `Name {}` (with braces), matching the Debug derive. Enums dispatch through
/// a `match self` over variants.
pub fn emit_display_impl(input: &DeriveInputModel, plan: &Plan) -> (r: Vec<CodePiece>)
    ensures
        piece_views(r@) == spec_display_impl(*input, plan@),
{
    let field_types = collect_field_types(plan);
    let (_, any_truncate) = find_marked(&field_types);
    let mut out: Vec<CodePiece> = Vec::new();
    push_impl_head(&mut out, input, Derive::DisplayDerive);
    push_impl_where(&mut out, input, &field_types, Derive::DisplayDerive);
    push_text(&mut out, "{ fn fmt(&self, __f: &mut ::core::fmt::Formatter<'_>) -> ::core::fmt::Result {");
    let ghost before = piece_views(out@);
    if any_truncate {
        push_piece(&mut out, CodePiece::AllocCrate);
    } else {
        assert(before + Seq::<PieceView>::empty() =~= before);
    }
    let body = emit_body(input.ident.as_str(), plan, Derive::DisplayDerive);
    push_piece(&mut out, CodePiece::Text(body));
    push_text(&mut out, "} }");
    assert(piece_views(out@) =~= spec_display_impl(*input, plan@));
    out
}


// ---- Laws ----

/// Fields that are redacted or skipped put no bound on anything: a type whose
/// fields are all hidden gets only the `where` clause it was declared with.
pub proof fn law_hidden_fields_add_no_bounds(
    fs: Seq<PlannedField>,
    params: Seq<Seq<char>>,
    self_type: Seq<char>,
    derive: Derive,
)
    requires
        forall|i: int|
            0 <= i < fs.len() ==> (#[trigger] fs[i].plan == FieldPlan::Redact || fs[i].plan
                == FieldPlan::Skip),
    ensures
        fields_predicates(fs, params, self_type, derive) == Seq::<PredicateView>::empty(),
    decreases fs.len(),
{
    if fs.len() > 0 {
        assert forall|i: int| 0 <= i < fs.drop_last().len() implies (
        #[trigger] fs.drop_last()[i].plan == FieldPlan::Redact || fs.drop_last()[i].plan
            == FieldPlan::Skip) by {
            assert(fs.drop_last()[i] == fs[i]);
        }
        law_hidden_fields_add_no_bounds(fs.drop_last(), params, self_type, derive);
        assert(fs.last() == fs[fs.len() - 1]);
        assert(field_predicates(fs.last(), params, self_type, derive) =~= Seq::<PredicateView>::empty());
        assert(Seq::<PredicateView>::empty() + Seq::<PredicateView>::empty() =~= Seq::<
            PredicateView,
        >::empty());
    }
}

proof fn lemma_visit_type_in_params(ty: TypeModel, params: Seq<Seq<char>>, self_type: Seq<char>)
    ensures
        forall|y: Seq<char>| #[trigger] visit_type(ty, params, self_type).contains(y) ==> params.contains(y),
    decreases ty,
{
    let v = visit_type(ty, params, self_type);
    match ty {
        TypeModel::Path { qself, segments } => {
            let q = match qself {
                Some(b) => visit_type(*b, params, self_type),
                None => Seq::empty(),
            };
            let own = match single_segment(segments) {
                Some(name) => if qself is None && params.contains(name) {
                    seq![name]
                } else {
                    Seq::empty()
                },
                None => Seq::empty(),
            };
            let rest = visit_segments(segments, params, self_type);
            if let Some(b) = qself {
                lemma_visit_type_in_params(*b, params, self_type);
            }
            lemma_visit_segments_in_params(segments, params, self_type);
            assert(visit_type(ty, params, self_type) == q + own + rest);
            assert forall|y: Seq<char>| #[trigger] visit_type(ty, params, self_type).contains(y) implies params.contains(y) by {
                lemma_contains_concat3(q, own, rest, y);
                if own.contains(y) {
                    assert(own[0] == y);
                }
                if q.contains(y) {
                    if let Some(b) = qself {
                        assert(visit_type(*b, params, self_type).contains(y));
                    }
                }
                if rest.contains(y) {
                    assert(visit_segments(segments, params, self_type).contains(y));
                }
            }
        },
        TypeModel::Reference(e) => {
            lemma_visit_type_in_params(*e, params, self_type);
            assert(v == visit_type(*e, params, self_type));
        },
        TypeModel::Array(e) => {
            lemma_visit_type_in_params(*e, params, self_type);
            assert(v == visit_type(*e, params, self_type));
        },
        TypeModel::Slice(e) => {
            lemma_visit_type_in_params(*e, params, self_type);
            assert(v == visit_type(*e, params, self_type));
        },
        TypeModel::Tuple(l) => {
            lemma_visit_list_in_params(l, params, self_type);
            assert(v == visit_list(l, params, self_type));
        },
        TypeModel::Ptr(e) => {
            lemma_visit_type_in_params(*e, params, self_type);
            assert(v == visit_type(*e, params, self_type));
        },
        TypeModel::Paren(e) => {
            lemma_visit_type_in_params(*e, params, self_type);
            assert(v == visit_type(*e, params, self_type));
        },
        TypeModel::Group(e) => {
            lemma_visit_type_in_params(*e, params, self_type);
            assert(v == visit_type(*e, params, self_type));
        },
        TypeModel::BareFn { inputs, output } => {
            lemma_visit_list_in_params(inputs, params, self_type);
            let o = match output {
                Some(b) => visit_type(*b, params, self_type),
                None => Seq::empty(),
            };
            if let Some(b) = output {
                lemma_visit_type_in_params(*b, params, self_type);
            }
            assert forall|y: Seq<char>| #[trigger] v.contains(y) implies params.contains(y) by {
                lemma_contains_concat3(visit_list(inputs, params, self_type), o, Seq::empty(), y);
                assert(visit_list(inputs, params, self_type) + o + Seq::empty() =~= v);
            }
        },
        TypeModel::Other => {},
    }
}

proof fn lemma_contains_concat3(a: Seq<Seq<char>>, b: Seq<Seq<char>>, c: Seq<Seq<char>>, y: Seq<char>)
    ensures
        (a + b + c).contains(y) ==> (a.contains(y) || b.contains(y) || c.contains(y)),
{
    if (a + b + c).contains(y) {
        let k = choose|k: int| 0 <= k < (a + b + c).len() && (a + b + c)[k] == y;
        if k < a.len() {
            assert(a[k] == y);
        } else if k < a.len() + b.len() {
            assert(b[k - a.len()] == y);
        } else {
            assert(c[k - a.len() - b.len()] == y);
        }
    }
}

proof fn lemma_visit_list_in_params(l: TypeList, params: Seq<Seq<char>>, self_type: Seq<char>)
    ensures
        forall|y: Seq<char>| #[trigger] visit_list(l, params, self_type).contains(y) ==> params.contains(y),
    decreases l,
{
    if let TypeList::Cons(h, t) = l {
        lemma_visit_type_in_params(*h, params, self_type);
        lemma_visit_list_in_params(*t, params, self_type);
        assert forall|y: Seq<char>| #[trigger] visit_list(l, params, self_type).contains(y) implies params.contains(y) by {
            lemma_contains_concat3(
                visit_type(*h, params, self_type),
                visit_list(*t, params, self_type),
                Seq::empty(),
                y,
            );
            assert(visit_type(*h, params, self_type) + visit_list(*t, params, self_type)
                + Seq::empty() =~= visit_list(l, params, self_type));
        }
    }
}

proof fn lemma_visit_segments_in_params(
    segments: TypeSegments,
    params: Seq<Seq<char>>,
    self_type: Seq<char>,
)
    ensures
        forall|y: Seq<char>| #[trigger] visit_segments(segments, params, self_type).contains(y)
            ==> params.contains(y),
    decreases segments,
{
    if let TypeSegments::Cons(s, t) = segments {
        lemma_visit_args_in_params(s.args, params, self_type);
        lemma_visit_segments_in_params(*t, params, self_type);
        let here = if s.ident@ == self_type {
            Seq::empty()
        } else {
            visit_args(s.args, params, self_type)
        };
        assert forall|y: Seq<char>| #[trigger] visit_segments(segments, params, self_type).contains(y) implies params.contains(y) by {
            lemma_contains_concat3(here, visit_segments(*t, params, self_type), Seq::empty(), y);
            assert(here + visit_segments(*t, params, self_type) + Seq::empty() =~= visit_segments(
                segments,
                params,
                self_type,
            ));
        }
    }
}

proof fn lemma_visit_args_in_params(args: GenericArgs, params: Seq<Seq<char>>, self_type: Seq<char>)
    ensures
        forall|y: Seq<char>| #[trigger] visit_args(args, params, self_type).contains(y) ==> params.contains(y),
    decreases args,
{
    if let GenericArgs::Cons(a, t) = args {
        lemma_visit_arg_in_params(*a, params, self_type);
        lemma_visit_args_in_params(*t, params, self_type);
        assert forall|y: Seq<char>| #[trigger] visit_args(args, params, self_type).contains(y) implies params.contains(y) by {
            lemma_contains_concat3(
                visit_arg(*a, params, self_type),
                visit_args(*t, params, self_type),
                Seq::empty(),
                y,
            );
            assert(visit_arg(*a, params, self_type) + visit_args(*t, params, self_type)
                + Seq::empty() =~= visit_args(args, params, self_type));
        }
    }
}

proof fn lemma_visit_arg_in_params(a: GenericArgModel, params: Seq<Seq<char>>, self_type: Seq<char>)
    ensures
        forall|y: Seq<char>| #[trigger] visit_arg(a, params, self_type).contains(y) ==> params.contains(y),
    decreases a,
{
    match a {
        GenericArgModel::Type(ty) => {
            lemma_visit_type_in_params(ty, params, self_type);
            assert(visit_arg(a, params, self_type) == visit_type(ty, params, self_type));
        },
        GenericArgModel::AssocType(ty) => {
            lemma_visit_type_in_params(ty, params, self_type);
            assert(visit_arg(a, params, self_type) == visit_type(ty, params, self_type));
        },
        GenericArgModel::Other => {},
    }
}

/// `t` occurs in `s`.
pub open spec fn contains_text(s: Seq<char>, t: Seq<char>) -> bool {
    exists|i: int| 0 <= i && i + t.len() <= s.len() && #[trigger] s.subrange(i, i + t.len()) == t
}

proof fn lemma_contains_middle(a: Seq<char>, t: Seq<char>, b: Seq<char>)
    ensures
        contains_text(a + t + b, t),
{
    assert((a + t + b).subrange(a.len() as int, (a.len() + t.len()) as int) =~= t);
}

/// Both derives read a truncated field the same way: the `Debug` marker and
/// the `Display` writes each format the value with `Display`
/// (`format!("{}", value)`) and keep the same count `n`.
pub proof fn law_truncated_fields_are_formatted_with_display(f: PlannedField, acc: Seq<char>, n: u32)
    requires
        f.plan == FieldPlan::Truncate(n),
    ensures
        contains_text(debug_call_reaching(f, acc), display_format_text(acc)),
        contains_text(display_value_reaching(f, acc), display_format_text(acc)),
        contains_text(debug_call_reaching(f, acc), decimal_text(n as nat)),
        contains_text(display_value_reaching(f, acc), decimal_text(n as nat)),
{
    let fmt = display_format_text(acc);
    let dec = decimal_text(n as nat);
    let d1 = "__builder.field(\""@ + f.ident@ + "\", &__SensitiveFmtMarkers::Truncated("@;
    let d2 = ", "@ + dec + "u32,),); "@;
    assert(debug_call_reaching(f, acc) =~= d1 + fmt + d2);
    lemma_contains_middle(d1, fmt, d2);
    let d3 = d1 + fmt + ", "@;
    let d4 = "u32,),); "@;
    assert(debug_call_reaching(f, acc) =~= d3 + dec + d4);
    lemma_contains_middle(d3, dec, d4);
    let v = display_value_reaching(f, acc);
    let p1 = "{ let __s = "@;
    let rest = v.subrange((p1.len() + fmt.len()) as int, v.len() as int);
    assert(v =~= p1 + fmt + rest);
    lemma_contains_middle(p1, fmt, rest);
    let p2 = p1 + fmt + "; let __count = __s.chars().count() as u64; if __count >= "@;
    let rest2 = v.subrange((p2.len() + dec.len()) as int, v.len() as int);
    assert(v =~= p2 + dec + rest2);
    lemma_contains_middle(p2, dec, rest2);
}

/// Collecting the type parameters that `ty` names into a set that already
/// holds `start` keeps all of `start` and adds exactly the names that `ty`
/// names, each of them a declared type parameter, whatever `start` holds.
pub proof fn law_collecting_adds_only_declared_names(
    ty: TypeModel,
    params: Seq<Seq<char>>,
    self_type: Seq<char>,
    start: Seq<Seq<char>>,
)
    ensures
        forall|y: Seq<char>| #[trigger] name_set_insert_all(start, visit_type(ty, params, self_type)).contains(
            y,
        ) <==> (start.contains(y) || visit_type(ty, params, self_type).contains(y)),
        forall|y: Seq<char>| #[trigger] name_set_insert_all(start, visit_type(ty, params, self_type)).contains(
            y,
        ) && !start.contains(y) ==> params.contains(y),
{
    lemma_insert_all_contains(start, visit_type(ty, params, self_type));
    lemma_visit_type_in_params(ty, params, self_type);
}

/// The type parameters that a field type refers to form an ordered set (in
/// `String` order, with none twice) of the input's own type parameters:
/// exactly those that the type names.
pub proof fn law_referenced_params_are_declared(
    ty: TypeModel,
    params: Seq<Seq<char>>,
    self_type: Seq<char>,
)
    ensures
        sorted_names(spec_referenced(ty, params, self_type)),
        forall|y: Seq<char>| #[trigger] spec_referenced(ty, params, self_type).contains(y) <==> visit_type(
            ty,
            params,
            self_type,
        ).contains(y),
        forall|y: Seq<char>| #[trigger] spec_referenced(ty, params, self_type).contains(y) ==> params.contains(y),
{
    lemma_insert_all_sorted(Seq::empty(), visit_type(ty, params, self_type));
    lemma_visit_type_in_params(ty, params, self_type);
}

/// Every identifier that names a path segment anywhere in `ty`: in its
/// paths, their qualified `Self` types and generic arguments (types and
/// associated-type bindings), and in the types that references, arrays,
/// slices, tuples, pointers, parentheses, groups and function pointers hold.
pub open spec fn type_idents(ty: TypeModel) -> Seq<Seq<char>>
    decreases ty,
{
    match ty {
        TypeModel::Path { qself, segments } => (match qself {
            Some(b) => type_idents(*b),
            None => Seq::empty(),
        }) + segments_idents(segments),
        TypeModel::Reference(e) => type_idents(*e),
        TypeModel::Array(e) => type_idents(*e),
        TypeModel::Slice(e) => type_idents(*e),
        TypeModel::Tuple(l) => list_idents(l),
        TypeModel::Ptr(e) => type_idents(*e),
        TypeModel::Paren(e) => type_idents(*e),
        TypeModel::Group(e) => type_idents(*e),
        TypeModel::BareFn { inputs, output } => list_idents(inputs) + (match output {
            Some(b) => type_idents(*b),
            None => Seq::empty(),
        }),
        TypeModel::Other => Seq::empty(),
    }
}

pub open spec fn list_idents(l: TypeList) -> Seq<Seq<char>>
    decreases l,
{
    match l {
        TypeList::Nil => Seq::empty(),
        TypeList::Cons(h, t) => type_idents(*h) + list_idents(*t),
    }
}

pub open spec fn segments_idents(segments: TypeSegments) -> Seq<Seq<char>>
    decreases segments,
{
    match segments {
        TypeSegments::Nil => Seq::empty(),
        TypeSegments::Cons(s, t) => seq![s.ident@] + args_idents(s.args) + segments_idents(*t),
    }
}

pub open spec fn args_idents(args: GenericArgs) -> Seq<Seq<char>>
    decreases args,
{
    match args {
        GenericArgs::Nil => Seq::empty(),
        GenericArgs::Cons(a, t) => (match *a {
            GenericArgModel::Type(ty) => type_idents(ty),
            GenericArgModel::AssocType(ty) => type_idents(ty),
            GenericArgModel::Other => Seq::empty(),
        }) + args_idents(*t),
    }
}

proof fn lemma_contains_concat(a: Seq<Seq<char>>, b: Seq<Seq<char>>, y: Seq<char>)
    ensures
        (a + b).contains(y) <==> (a.contains(y) || b.contains(y)),
{
    if (a + b).contains(y) {
        let k = choose|k: int| 0 <= k < (a + b).len() && (a + b)[k] == y;
        if k < a.len() {
            assert(a[k] == y);
        } else {
            assert(b[k - a.len()] == y);
        }
    }
    if a.contains(y) {
        let k = choose|k: int| 0 <= k < a.len() && a[k] == y;
        assert((a + b)[k] == y);
    }
    if b.contains(y) {
        let k = choose|k: int| 0 <= k < b.len() && b[k] == y;
        assert((a + b)[k + a.len()] == y);
    }
}

/// A type refers to the input's own type exactly where the input's name
/// names some path segment anywhere in it, generic arguments included.
pub proof fn law_self_reference_is_any_occurrence(ty: TypeModel, self_type: Seq<char>)
    ensures
        mentions_self(ty, self_type) <==> type_idents(ty).contains(self_type),
    decreases ty,
{
    match ty {
        TypeModel::Path { qself, segments } => {
            let q = match qself {
                Some(b) => type_idents(*b),
                None => Seq::empty(),
            };
            if let Some(b) = qself {
                law_self_reference_is_any_occurrence(*b, self_type);
            }
            lemma_segments_self_reference(segments, self_type);
            lemma_contains_concat(q, segments_idents(segments), self_type);
        },
        TypeModel::Reference(e) => law_self_reference_is_any_occurrence(*e, self_type),
        TypeModel::Array(e) => law_self_reference_is_any_occurrence(*e, self_type),
        TypeModel::Slice(e) => law_self_reference_is_any_occurrence(*e, self_type),
        TypeModel::Tuple(l) => lemma_list_self_reference(l, self_type),
        TypeModel::Ptr(e) => law_self_reference_is_any_occurrence(*e, self_type),
        TypeModel::Paren(e) => law_self_reference_is_any_occurrence(*e, self_type),
        TypeModel::Group(e) => law_self_reference_is_any_occurrence(*e, self_type),
        TypeModel::BareFn { inputs, output } => {
            let o = match output {
                Some(b) => type_idents(*b),
                None => Seq::empty(),
            };
            lemma_list_self_reference(inputs, self_type);
            if let Some(b) = output {
                law_self_reference_is_any_occurrence(*b, self_type);
            }
            lemma_contains_concat(list_idents(inputs), o, self_type);
        },
        TypeModel::Other => {},
    }
}

proof fn lemma_list_self_reference(l: TypeList, self_type: Seq<char>)
    ensures
        list_mentions_self(l, self_type) <==> list_idents(l).contains(self_type),
    decreases l,
{
    if let TypeList::Cons(h, t) = l {
        law_self_reference_is_any_occurrence(*h, self_type);
        lemma_list_self_reference(*t, self_type);
        lemma_contains_concat(type_idents(*h), list_idents(*t), self_type);
    }
}

proof fn lemma_segments_self_reference(segments: TypeSegments, self_type: Seq<char>)
    ensures
        segments_mention_self(segments, self_type) <==> segments_idents(segments).contains(self_type),
    decreases segments,
{
    if let TypeSegments::Cons(s, t) = segments {
        lemma_args_self_reference(s.args, self_type);
        lemma_segments_self_reference(*t, self_type);
        lemma_contains_concat(seq![s.ident@], args_idents(s.args), self_type);
        lemma_contains_concat(seq![s.ident@] + args_idents(s.args), segments_idents(*t), self_type);
        assert(seq![s.ident@].contains(self_type) <==> s.ident@ == self_type) by {
            if s.ident@ == self_type {
                assert(seq![s.ident@][0] == self_type);
            }
        }
    }
}

proof fn lemma_args_self_reference(args: GenericArgs, self_type: Seq<char>)
    ensures
        args_mention_self(args, self_type) <==> args_idents(args).contains(self_type),
    decreases args,
{
    if let GenericArgs::Cons(a, t) = args {
        let here = match *a {
            GenericArgModel::Type(ty) => type_idents(ty),
            GenericArgModel::AssocType(ty) => type_idents(ty),
            GenericArgModel::Other => Seq::empty(),
        };
        match *a {
            GenericArgModel::Type(ty) => law_self_reference_is_any_occurrence(ty, self_type),
            GenericArgModel::AssocType(ty) => law_self_reference_is_any_occurrence(ty, self_type),
            GenericArgModel::Other => {},
        }
        assert(arg_mentions_self(*a, self_type) <==> here.contains(self_type));
        assert(args_idents(args) == here + args_idents(*t));
        lemma_args_self_reference(*t, self_type);
        lemma_contains_concat(here, args_idents(*t), self_type);
    }
}

/// The bound that a field puts on its type is the trait with which the
/// emitted code formats its value: `Display` for a truncated field in both
/// derives (both format it with `format!("{}", ..)`) and for a plain field of
/// `SensitiveDisplay` (`Display::fmt`); `Debug` for a plain field of
/// `SensitiveDebug` (handed to the `debug_struct` builder); nothing for a
/// redacted or skipped field, whose value the code never reads.
pub proof fn law_bound_is_the_trait_the_code_formats_with(
    f: PlannedField,
    acc: Seq<char>,
    derive: Derive,
)
    ensures
        (spec_bound_for_field(f.plan, derive) == NeededBound::Display) <==> (f.plan is Truncate || (
        f.plan == FieldPlan::Plain && derive == Derive::DisplayDerive)),
        (spec_bound_for_field(f.plan, derive) == NeededBound::Debug) <==> (f.plan == FieldPlan::Plain
            && derive == Derive::DebugDerive),
        (spec_bound_for_field(f.plan, derive) == NeededBound::Nothing) <==> is_hidden(f.plan),
        f.plan is Truncate ==> contains_text(debug_call_reaching(f, acc), display_format_text(acc))
            && contains_text(display_value_reaching(f, acc), display_format_text(acc)),
        f.plan == FieldPlan::Plain ==> contains_text(
            display_value_reaching(f, acc),
            "::core::fmt::Display::fmt("@ + acc,
        ),
{
    if let FieldPlan::Truncate(n) = f.plan {
        law_truncated_fields_are_formatted_with_display(f, acc, n);
    }
    if f.plan == FieldPlan::Plain {
        lemma_contains_middle(Seq::empty(), "::core::fmt::Display::fmt("@ + acc, ", __f)?; "@);
        assert(Seq::<char>::empty() + ("::core::fmt::Display::fmt("@ + acc) + ", __f)?; "@
            =~= display_value_reaching(f, acc));
    }
}

/// Truncation keeps the tail in both derives, by the same code: the Debug
/// marker and the Display writes each take the byte index at which
/// `char_indices().nth_back(n - 1)` stands (the start of the last `n` code
/// points), then write `****` and the text from there on; the marker computes
/// `n - 1` from its count.
pub proof fn law_truncation_keeps_the_tail(f: PlannedField, acc: Seq<char>, n: u32)
    requires
        f.plan == FieldPlan::Truncate(n),
    ensures
        contains_text(
            marker_text(true),
            "let __nm1 = (*__n as usize) - 1; "@
                + "let __start = __s.char_indices().nth_back(__nm1).map(|(__i, _)| __i).unwrap_or(0); "@
                + "__mf.write_str(\""@ + "****"@ + "\")?; __mf.write_str(&__s[__start..])"@,
        ),
        contains_text(
            display_value_reaching(f, acc),
            "let __start = __s.char_indices().nth_back(__nm1).map(|(__i, _)| __i).unwrap_or(0); "@
                + "__f.write_str(\""@ + "****"@ + "\")?; __f.write_str(&__s[__start..])?;"@,
        ),
        contains_text(marker_text(true), " } else { __mf.write_str(\""@ + "REDACTED"@ + "\") } } "@),
        contains_text(display_value_reaching(f, acc), " } else { __f.write_str(\""@ + "REDACTED"@ + "\")?; } } "@),
{
    let head = "enum __SensitiveFmtMarkers { Redacted, Skipped, "@
        + "Truncated(__sensitive_fmt_alloc::string::String, u32), "@
        + "} impl ::core::fmt::Debug for __SensitiveFmtMarkers { fn fmt(&self, __mf: &mut ::core::fmt::Formatter<'_>) -> ::core::fmt::Result { match self { "@
        + marker_arm("Redacted"@, "REDACTED"@) + marker_arm("Skipped"@, "<skipped>"@)
        + "__SensitiveFmtMarkers::Truncated(__s, __n) => { let __count = __s.chars().count(); if __count >= *__n as usize { "@;
    let keep = "let __nm1 = (*__n as usize) - 1; "@
        + "let __start = __s.char_indices().nth_back(__nm1).map(|(__i, _)| __i).unwrap_or(0); "@
        + "__mf.write_str(\""@ + "****"@ + "\")?; __mf.write_str(&__s[__start..])"@;
    let other = " } else { __mf.write_str(\""@ + "REDACTED"@ + "\") } } "@;
    let tail = "} } } "@;
    assert(marker_text(true) =~= head + keep + (other + tail));
    lemma_contains_middle(head, keep, other + tail);
    assert(marker_text(true) =~= (head + keep) + other + tail);
    lemma_contains_middle(head + keep, other, tail);
    let dec = decimal_text(n as nat);
    let dhead = "{ let __s = "@ + display_format_text(acc)
        + "; let __count = __s.chars().count() as u64; if __count >= "@ + dec
        + "u32 as u64 { let __nm1 = ("@ + dec + "u32 as usize).saturating_sub(1); "@;
    let dkeep = "let __start = __s.char_indices().nth_back(__nm1).map(|(__i, _)| __i).unwrap_or(0); "@
        + "__f.write_str(\""@ + "****"@ + "\")?; __f.write_str(&__s[__start..])?;"@;
    let dother = " } else { __f.write_str(\""@ + "REDACTED"@ + "\")?; } } "@;
    assert(display_value_reaching(f, acc) =~= dhead + dkeep + dother);
    lemma_contains_middle(dhead, dkeep, dother);
    lemma_contains_middle(dhead + dkeep, dother, Seq::empty());
    assert(dhead + dkeep + dother + Seq::<char>::empty() =~= display_value_reaching(f, acc));
}

/// A redacted or skipped field shows the same text in both derives, the text
/// its plan shows: the Debug body hands the field's marker to the builder, the
/// marker's `Debug` arm writes exactly that text, and the Display body writes
/// it directly. Neither reads the value.
pub proof fn law_markers_write_what_the_plan_shows(
    any_truncate: bool,
    f: PlannedField,
    acc: Seq<char>,
    v: Seq<char>,
)
    ensures
        contains_text(
            marker_text(any_truncate),
            "__SensitiveFmtMarkers::"@ + "Redacted"@ + " => __mf.write_str(\""@ + spec_field_text(
                FieldPlan::Redact,
                v,
            ) + "\"), "@,
        ),
        contains_text(
            marker_text(any_truncate),
            "__SensitiveFmtMarkers::"@ + "Skipped"@ + " => __mf.write_str(\""@ + spec_field_text(
                FieldPlan::Skip,
                v,
            ) + "\"), "@,
        ),
        f.plan == FieldPlan::Redact ==> debug_call_reaching(f, acc) == "__builder.field(\""@ + f.ident@
            + "\", &__SensitiveFmtMarkers::"@ + "Redacted"@ + "); "@,
        f.plan == FieldPlan::Skip ==> debug_call_reaching(f, acc) == "__builder.field(\""@ + f.ident@
            + "\", &__SensitiveFmtMarkers::"@ + "Skipped"@ + "); "@,
        is_hidden(f.plan) ==> display_value_reaching(f, acc) == "__f.write_str(\""@ + spec_field_text(
            f.plan,
            v,
        ) + "\")?; "@,
{
    let head = "enum __SensitiveFmtMarkers { Redacted, Skipped, "@ + (if any_truncate {
        "Truncated(__sensitive_fmt_alloc::string::String, u32), "@
    } else {
        Seq::empty()
    })
        + "} impl ::core::fmt::Debug for __SensitiveFmtMarkers { fn fmt(&self, __mf: &mut ::core::fmt::Formatter<'_>) -> ::core::fmt::Result { match self { "@;
    let red = marker_arm("Redacted"@, "REDACTED"@);
    let skp = marker_arm("Skipped"@, "<skipped>"@);
    let rest = (if any_truncate {
        truncated_arm()
    } else {
        Seq::empty()
    }) + "} } } "@;
    assert(marker_text(any_truncate) =~= head + red + (skp + rest));
    lemma_contains_middle(head, red, skp + rest);
    assert(marker_text(any_truncate) =~= (head + red) + skp + rest);
    lemma_contains_middle(head + red, skp, rest);
}

} // verus!
