//! Attribute and field planning: what each field of the input shows.

use vstd::prelude::*;
use vstd::string::StringExecFns;

use crate::input::{AttrModel, DataModel, DeriveInputModel, FieldModel, FieldType, FieldsModel, LitModel, MetaModel, PathModel, PathSegmentModel, ValueModel, VariantModel, duplicate_field_type};
use crate::names::str_equal;

verus! {

/// What to emit for a single field.
#[derive(Clone, Copy, PartialEq, Eq, Structural, Debug)]
pub enum FieldPlan {
    /// No `#[sensitive(...)]` attribute on this field. Emit normal
    /// Debug/Display.
    Plain,
    /// `#[sensitive(redact)]`: emit the literal `REDACTED`.
    Redact,
    /// `#[sensitive(skip)]`: emit the literal `<skipped>`.
    Skip,
    /// `#[sensitive(truncate = N)]` where N >= 1.
    Truncate(u32),
}

/// One field of the user's struct, distilled to (name, type, plan).
#[derive(Debug)]
pub struct PlannedField {
    pub ident: String,
    pub ty: FieldType,
    pub plan: FieldPlan,
}

/// One variant of an enum input, distilled to its name and shape.
#[derive(Debug)]
pub struct PlannedVariant {
    pub ident: String,
    pub shape: VariantShape,
}

/// Shape of a single enum variant. Tuple variants are rejected at planning time.
#[derive(Debug)]
pub enum VariantShape {
    /// `Variant`: no payload.
    Unit,
    /// `Variant { ... }`: named fields, possibly none.
    Struct(Vec<PlannedField>),
}

/// Top-level distilled view of the input: either a named-field struct or an
/// enum whose variants are all unit or named-field shaped.
#[derive(Debug)]
pub enum Plan {
    Struct(Vec<PlannedField>),
    Enum(Vec<PlannedVariant>),
}

/// Why the input cannot be derived for.
#[derive(Debug)]
pub enum PlanError {
    /// An error pointing at the input's node `node`.
    At { node: usize, message: String },
    /// The arguments of an attribute could not be read; the caller keeps the
    /// syntax error under the number `error`.
    Syntax { error: usize },
}

/// The model of a variant shape.
pub enum ShapeView {
    Unit,
    Struct(Seq<PlannedField>),
}

/// The model of a planned variant.
pub struct VariantView {
    pub ident: String,
    pub shape: ShapeView,
}

/// The model of a plan.
pub enum PlanView {
    Struct(Seq<PlannedField>),
    Enum(Seq<VariantView>),
}

/// The model of a planning error.
pub enum ErrorView {
    At { node: usize, message: Seq<char> },
    Syntax { error: usize },
}

impl View for VariantShape {
    type V = ShapeView;

    open spec fn view(&self) -> ShapeView {
        match self {
            VariantShape::Unit => ShapeView::Unit,
            VariantShape::Struct(fs) => ShapeView::Struct(fs@),
        }
    }
}

impl View for PlannedVariant {
    type V = VariantView;

    open spec fn view(&self) -> VariantView {
        VariantView { ident: self.ident, shape: self.shape@ }
    }
}

impl View for Plan {
    type V = PlanView;

    open spec fn view(&self) -> PlanView {
        match self {
            Plan::Struct(fs) => PlanView::Struct(fs@),
            Plan::Enum(vs) => PlanView::Enum(vs@.map_values(|v: PlannedVariant| v@)),
        }
    }
}

impl View for PlanError {
    type V = ErrorView;

    open spec fn view(&self) -> ErrorView {
        match self {
            PlanError::At { node, message } => ErrorView::At { node: *node, message: message@ },
            PlanError::Syntax { error } => ErrorView::Syntax { error: *error },
        }
    }
}

/// A result with its error taken by its model.
pub open spec fn result_view<T>(r: Result<T, PlanError>) -> Result<T, ErrorView> {
    match r {
        Ok(v) => Ok(v),
        Err(e) => Err(e@),
    }
}

/// A plan that the generated code can carry out: every truncation keeps at
/// least one code point.
pub open spec fn field_plan_wf(p: FieldPlan) -> bool {
    p matches FieldPlan::Truncate(n) ==> n >= 1
}

/// Every field of `fs` has a plan that the generated code can carry out.
pub open spec fn fields_wf(fs: Seq<PlannedField>) -> bool {
    forall|i: int| 0 <= i < fs.len() ==> field_plan_wf(#[trigger] fs[i].plan)
}

/// Every field of the plan has a plan that the generated code can carry out.
pub open spec fn plan_view_wf(p: PlanView) -> bool {
    match p {
        PlanView::Struct(fs) => fields_wf(fs),
        PlanView::Enum(vs) => forall|i: int|
            0 <= i < vs.len() ==> (#[trigger] vs[i].shape matches ShapeView::Struct(fs) ==> fields_wf(
                fs,
            )),
    }
}

// ---- Messages ----

pub open spec fn msg_expected_modifier() -> Seq<char> {
    "expected one of: redact, truncate = N, skip"@
}

pub open spec fn msg_unknown_modifier(name: Seq<char>) -> Seq<char> {
    "unknown sensitive modifier \""@ + name + "\"; expected one of: redact, truncate = N, skip"@
}

pub open spec fn msg_unknown_assignment(name: Seq<char>) -> Seq<char> {
    "unknown sensitive modifier \""@ + name + " = ...\"; expected one of: redact, truncate = N, skip"@
}

pub open spec fn msg_two_modifiers(first: Seq<char>, second: Seq<char>) -> Seq<char> {
    "at most one sensitive modifier may be applied; found "@ + first + " and "@ + second
}

pub open spec fn msg_duplicate_attribute() -> Seq<char> {
    "field already has a #[sensitive(...)] attribute"@
}

pub open spec fn msg_not_integer_literal() -> Seq<char> {
    "truncate value must be an integer literal"@
}

pub open spec fn msg_not_positive() -> Seq<char> {
    "truncate must be a positive integer"@
}

pub open spec fn msg_zero() -> Seq<char> {
    "truncate must be at least 1"@
}

pub open spec fn msg_named_fields(derive_name: Seq<char>) -> Seq<char> {
    derive_name + " requires a struct with named fields"@
}

pub open spec fn msg_tuple_variant(derive_name: Seq<char>) -> Seq<char> {
    derive_name + " does not support tuple variants; use named fields or wrap the payload in a struct"@
}

pub open spec fn msg_union(derive_name: Seq<char>) -> Seq<char> {
    derive_name + " does not support unions"@
}

fn error_at(node: usize, message: &str) -> (e: PlanError)
    ensures
        e@ == (ErrorView::At { node, message: message@ }),
{
    PlanError::At { node, message: String::from_str(message) }
}

fn error_after(node: usize, prefix: &str, message: &str) -> (e: PlanError)
    ensures
        e@ == (ErrorView::At { node, message: prefix@ + message@ }),
{
    let mut m = String::from_str(prefix);
    m.append(message);
    PlanError::At { node, message: m }
}

// ---- Paths ----

/// `path.is_ident(name)`: the path is the single identifier `name`.
pub open spec fn spec_is_ident(p: PathModel, name: Seq<char>) -> bool {
    &&& !p.leading_colon
    &&& p.segments@.len() == 1
    &&& !p.segments@[0].has_arguments
    &&& p.segments@[0].ident@ == name
}

pub fn path_is_ident(p: &PathModel, name: &str) -> (r: bool)
    ensures
        r == spec_is_ident(*p, name@),
{
    !p.leading_colon && p.segments.len() == 1 && !p.segments[0].has_arguments && str_equal(
        p.segments[0].ident.as_str(),
        name,
    )
}

/// The identifiers of the segments joined with `::`.
pub open spec fn joined_path(segs: Seq<PathSegmentModel>) -> Seq<char>
    decreases segs.len(),
{
    if segs.len() == 0 {
        Seq::empty()
    } else if segs.len() == 1 {
        segs[0].ident@
    } else {
        joined_path(segs.drop_last()) + "::"@ + segs.last().ident@
    }
}

fn path_str(p: &PathModel) -> (r: String)
    ensures
        r@ == joined_path(p.segments@),
{
    let mut out = String::new();
    let mut i: usize = 0;
    while i < p.segments.len()
        invariant
            i <= p.segments@.len(),
            out@ == joined_path(p.segments@.take(i as int)),
        decreases p.segments@.len() - i,
    {
        assert(p.segments@.take(i + 1).drop_last() =~= p.segments@.take(i as int));
        if i > 0 {
            out.append("::");
        } else {
            assert(out@ + p.segments@[0].ident@ =~= p.segments@[0].ident@);
        }
        out.append(p.segments[i].ident.as_str());
        i = i + 1;
    }
    assert(p.segments@.take(p.segments@.len() as int) =~= p.segments@);
    out
}

/// The name of a modifier, as the error for two modifiers names it.
pub open spec fn spec_modifier_name(m: MetaModel) -> Seq<char> {
    match m {
        MetaModel::Path(p) => joined_path(p.segments@),
        MetaModel::NameValue { path, .. } => joined_path(path.segments@),
        MetaModel::List { path, .. } => joined_path(path.segments@),
    }
}

fn modifier_name(m: &MetaModel) -> (r: String)
    ensures
        r@ == spec_modifier_name(*m),
{
    match m {
        MetaModel::Path(p) => path_str(p),
        MetaModel::NameValue { path, .. } => path_str(path),
        MetaModel::List { path, .. } => path_str(path),
    }
}

// ---- Integer literals ----

/// The value that `syn` reads from the integer literal written `text`, as a `u32`.
pub uninterp spec fn literal_u32_value(text: Seq<char>) -> Option<u32>;

/// `text` is a non-empty run of ASCII digits.
pub open spec fn is_decimal_digits(text: Seq<char>) -> bool {
    text.len() > 0 && forall|i: int| 0 <= i < text.len() ==> '0' <= #[trigger] text[i] <= '9'
}

/// The value of a run of ASCII digits in base ten.
pub open spec fn decimal_value(text: Seq<char>) -> int
    decreases text.len(),
{
    if text.len() == 0 {
        0
    } else {
        decimal_value(text.drop_last()) * 10 + (text.last() as int - '0' as int)
    }
}

/// What the integer literal written `text` reads as, as a `u32`: a run of
/// decimal digits reads as its value where that fits a `u32` and as nothing
/// otherwise; any other form reads as `syn` reads it.
pub open spec fn literal_read(text: Seq<char>) -> Option<u32> {
    if is_decimal_digits(text) {
        if decimal_value(text) <= u32::MAX {
            Some(decimal_value(text) as u32)
        } else {
            None
        }
    } else {
        literal_u32_value(text)
    }
}

/// Reads the integer literal written `text` as a `u32`, through
/// `syn::parse_str::<syn::LitInt>` and `syn::LitInt::base10_parse::<u32>`.
/// The contract claims that the result depends on the text alone, and that a
/// run of decimal digits reads as its value where that fits a `u32` and as
/// nothing otherwise. What other literal forms (`0x10`, `1_000`, `4u8`) read as
/// is left to `syn`.
#[verifier::external_body]
fn literal_u32(text: &str) -> (r: Option<u32>)
    ensures
        r == literal_u32_value(text@),
        is_decimal_digits(text@) ==> r == (if decimal_value(text@) <= u32::MAX {
            Some(decimal_value(text@) as u32)
        } else {
            None
        }),
{
    match syn::parse_str::<syn::LitInt>(text) {
        Ok(lit) => lit.base10_parse::<u32>().ok(),
        Err(_) => None,
    }
}

// ---- Modifiers ----

/// The count of `truncate = N` from what the integer literal `N` (the input's
/// node `node`) reads as: refused where it does not read as a `u32`, or reads
/// as 0.
pub open spec fn spec_truncate_count(node: usize, parsed: Option<u32>) -> Result<u32, ErrorView> {
    match parsed {
        None => Err(ErrorView::At { node, message: msg_not_positive() }),
        Some(n) => if n == 0 {
            Err(ErrorView::At { node, message: msg_zero() })
        } else {
            Ok(n)
        },
    }
}

pub fn truncate_count(node: usize, parsed: Option<u32>) -> (r: Result<u32, PlanError>)
    ensures
        result_view(r) == spec_truncate_count(node, parsed),
{
    match parsed {
        None => Err(error_at(node, "truncate must be a positive integer")),
        Some(n) => {
            if n == 0 {
                Err(error_at(node, "truncate must be at least 1"))
            } else {
                Ok(n)
            }
        },
    }
}

/// The count that `truncate = value` asks for, or why it is refused;
/// `nv_node` is the whole `truncate = value` item.
pub open spec fn spec_truncate_value(value: ValueModel, nv_node: usize) -> Result<u32, ErrorView> {
    match value {
        ValueModel::Lit(LitModel::Int { node, text }) => spec_truncate_count(node, literal_read(text@)),
        ValueModel::Lit(LitModel::Other { node }) => Err(
            ErrorView::At { node, message: msg_not_integer_literal() },
        ),
        ValueModel::Negation { node } => Err(ErrorView::At { node, message: msg_not_positive() }),
        ValueModel::Other => Err(ErrorView::At { node: nv_node, message: msg_not_integer_literal() }),
    }
}

fn parse_truncate_value(value: &ValueModel, nv_node: usize) -> (r: Result<u32, PlanError>)
    ensures
        result_view(r) == spec_truncate_value(*value, nv_node),
{
    match value {
        ValueModel::Lit(LitModel::Int { node, text }) => truncate_count(
            *node,
            literal_u32(text.as_str()),
        ),
        ValueModel::Lit(LitModel::Other { node }) => Err(
            error_at(*node, "truncate value must be an integer literal"),
        ),
        ValueModel::Negation { node } => Err(error_at(*node, "truncate must be a positive integer")),
        ValueModel::Other => Err(error_at(nv_node, "truncate value must be an integer literal")),
    }
}

/// The plan that a single modifier asks for.
pub open spec fn spec_one_modifier(m: MetaModel) -> Result<FieldPlan, ErrorView> {
    match m {
        MetaModel::Path(p) => if spec_is_ident(p, "redact"@) {
            Ok(FieldPlan::Redact)
        } else if spec_is_ident(p, "skip"@) {
            Ok(FieldPlan::Skip)
        } else {
            Err(ErrorView::At { node: p.node, message: msg_unknown_modifier(joined_path(p.segments@)) })
        },
        MetaModel::NameValue { node, path, value } => if spec_is_ident(path, "truncate"@) {
            match spec_truncate_value(value, node) {
                Ok(n) => Ok(FieldPlan::Truncate(n)),
                Err(e) => Err(e),
            }
        } else {
            Err(
                ErrorView::At {
                    node,
                    message: msg_unknown_assignment(joined_path(path.segments@)),
                },
            )
        },
        MetaModel::List { node, .. } => Err(ErrorView::At { node, message: msg_expected_modifier() }),
    }
}

fn parse_one_modifier(meta: &MetaModel) -> (r: Result<FieldPlan, PlanError>)
    ensures
        result_view(r) == spec_one_modifier(*meta),
{
    match meta {
        MetaModel::Path(path) => {
            if path_is_ident(path, "redact") {
                Ok(FieldPlan::Redact)
            } else if path_is_ident(path, "skip") {
                Ok(FieldPlan::Skip)
            } else {
                let mut m = String::from_str("unknown sensitive modifier \"");
                m.append(path_str(path).as_str());
                m.append("\"; expected one of: redact, truncate = N, skip");
                Err(PlanError::At { node: path.node, message: m })
            }
        },
        MetaModel::NameValue { node, path, value } => {
            if path_is_ident(path, "truncate") {
                match parse_truncate_value(value, *node) {
                    Ok(n) => Ok(FieldPlan::Truncate(n)),
                    Err(e) => Err(e),
                }
            } else {
                let mut m = String::from_str("unknown sensitive modifier \"");
                m.append(path_str(path).as_str());
                m.append(" = ...\"; expected one of: redact, truncate = N, skip");
                Err(PlanError::At { node: *node, message: m })
            }
        },
        MetaModel::List { node, .. } => Err(
            error_at(*node, "expected one of: redact, truncate = N, skip"),
        ),
    }
}

/// The plan that one `#[sensitive(...)]` attribute asks for: exactly one
/// modifier is accepted.
pub open spec fn spec_sensitive_attr(attr: AttrModel) -> Result<FieldPlan, ErrorView> {
    match attr.args {
        Err(error) => Err(ErrorView::Syntax { error }),
        Ok(metas) => if metas@.len() == 0 {
            Err(ErrorView::At { node: attr.node, message: msg_expected_modifier() })
        } else if metas@.len() > 1 {
            Err(
                ErrorView::At {
                    node: attr.node,
                    message: msg_two_modifiers(
                        spec_modifier_name(metas@[0]),
                        spec_modifier_name(metas@[1]),
                    ),
                },
            )
        } else {
            spec_one_modifier(metas@[0])
        },
    }
}

fn parse_sensitive_attr(attr: &AttrModel) -> (r: Result<FieldPlan, PlanError>)
    ensures
        result_view(r) == spec_sensitive_attr(*attr),
{
    match &attr.args {
        Err(error) => Err(PlanError::Syntax { error: *error }),
        Ok(metas) => {
            if metas.len() == 0 {
                return Err(error_at(attr.node, "expected one of: redact, truncate = N, skip"));
            }
            if metas.len() > 1 {
                let mut m = String::from_str("at most one sensitive modifier may be applied; found ");
                m.append(modifier_name(&metas[0]).as_str());
                m.append(" and ");
                m.append(modifier_name(&metas[1]).as_str());
                return Err(PlanError::At { node: attr.node, message: m });
            }
            parse_one_modifier(&metas[0])
        },
    }
}

/// The plan of a field whose remaining attributes are `attrs`, where `found` is
/// the plan of a `#[sensitive(...)]` attribute already seen: the first such
/// attribute decides, and a second one is refused.
pub open spec fn field_plan_from(attrs: Seq<AttrModel>, found: Option<FieldPlan>) -> Result<
    FieldPlan,
    ErrorView,
>
    decreases attrs.len(),
{
    if attrs.len() == 0 {
        match found {
            Some(p) => Ok(p),
            None => Ok(FieldPlan::Plain),
        }
    } else if !spec_is_ident(attrs[0].path, "sensitive"@) {
        field_plan_from(attrs.drop_first(), found)
    } else if found is Some {
        Err(ErrorView::At { node: attrs[0].node, message: msg_duplicate_attribute() })
    } else {
        match spec_sensitive_attr(attrs[0]) {
            Err(e) => Err(e),
            Ok(p) => field_plan_from(attrs.drop_first(), Some(p)),
        }
    }
}

/// The plan of a field with the attributes `attrs`.
pub open spec fn spec_field_plan(attrs: Seq<AttrModel>) -> Result<FieldPlan, ErrorView> {
    field_plan_from(attrs, None)
}

proof fn lemma_field_plan_from_wf(attrs: Seq<AttrModel>, found: Option<FieldPlan>)
    requires
        found matches Some(p) ==> field_plan_wf(p),
    ensures
        field_plan_from(attrs, found) matches Ok(p) ==> field_plan_wf(p),
    decreases attrs.len(),
{
    if attrs.len() > 0 {
        if !spec_is_ident(attrs[0].path, "sensitive"@) {
            lemma_field_plan_from_wf(attrs.drop_first(), found);
        } else if found is None {
            if let Ok(p) = spec_sensitive_attr(attrs[0]) {
                lemma_field_plan_from_wf(attrs.drop_first(), Some(p));
            }
        }
    }
}

/// Every plan that a field's attributes give can be carried out.
pub proof fn lemma_field_plan_wf(attrs: Seq<AttrModel>)
    ensures
        spec_field_plan(attrs) matches Ok(p) ==> field_plan_wf(p),
{
    lemma_field_plan_from_wf(attrs, None);
}

fn parse_field_plan(field: &FieldModel) -> (r: Result<FieldPlan, PlanError>)
    ensures
        result_view(r) == spec_field_plan(field.attrs@),
{
    let mut found: Option<FieldPlan> = None;
    let mut i: usize = 0;
    assert(field.attrs@.skip(0) =~= field.attrs@);
    while i < field.attrs.len()
        invariant
            i <= field.attrs@.len(),
            spec_field_plan(field.attrs@) == field_plan_from(field.attrs@.skip(i as int), found),
        decreases field.attrs@.len() - i,
    {
        let attr = &field.attrs[i];
        assert(field.attrs@.skip(i as int).drop_first() =~= field.attrs@.skip(i + 1));
        if path_is_ident(&attr.path, "sensitive") {
            if found.is_some() {
                return Err(error_at(attr.node, "field already has a #[sensitive(...)] attribute"));
            }
            match parse_sensitive_attr(attr) {
                Ok(plan) => {
                    found = Some(plan);
                },
                Err(e) => {
                    return Err(e);
                },
            }
        }
        i = i + 1;
    }
    match found {
        Some(p) => Ok(p),
        None => Ok(FieldPlan::Plain),
    }
}


// ---- Fields, variants and the input ----

/// The planned form of a field with the plan `p`.
pub open spec fn planned(f: FieldModel, p: FieldPlan) -> PlannedField {
    PlannedField { ident: f.ident, ty: f.ty, plan: p }
}

/// The planned fields, or the error of the first field that has one.
pub open spec fn spec_planned_fields(fs: Seq<FieldModel>) -> Result<Seq<PlannedField>, ErrorView>
    decreases fs.len(),
{
    if fs.len() == 0 {
        Ok(Seq::empty())
    } else {
        match spec_field_plan(fs[0].attrs@) {
            Err(e) => Err(e),
            Ok(p) => match spec_planned_fields(fs.drop_first()) {
                Err(e) => Err(e),
                Ok(rest) => Ok(seq![planned(fs[0], p)] + rest),
            },
        }
    }
}

/// `r` with `pre` put in front of its fields.
pub open spec fn prepend_fields(pre: Seq<PlannedField>, r: Result<Seq<PlannedField>, ErrorView>) -> Result<
    Seq<PlannedField>,
    ErrorView,
> {
    match r {
        Ok(rest) => Ok(pre + rest),
        Err(e) => Err(e),
    }
}

/// Every field plan that planning gives can be carried out.
pub proof fn lemma_planned_fields_wf(fs: Seq<FieldModel>)
    ensures
        spec_planned_fields(fs) matches Ok(pf) ==> fields_wf(pf),
    decreases fs.len(),
{
    if fs.len() > 0 {
        lemma_field_plan_wf(fs[0].attrs@);
        lemma_planned_fields_wf(fs.drop_first());
        if let Ok(pf) = spec_planned_fields(fs) {
            let p = spec_field_plan(fs[0].attrs@)->Ok_0;
            let rest = spec_planned_fields(fs.drop_first())->Ok_0;
            assert forall|i: int| 0 <= i < pf.len() implies field_plan_wf(#[trigger] pf[i].plan) by {
                if i > 0 {
                    assert(pf[i] == rest[i - 1]);
                }
            }
        }
    }
}

fn plan_named_fields(named: &Vec<FieldModel>) -> (r: Result<Vec<PlannedField>, PlanError>)
    ensures
        match r {
            Ok(v) => spec_planned_fields(named@) == Ok::<Seq<PlannedField>, ErrorView>(v@),
            Err(e) => spec_planned_fields(named@) == Err::<Seq<PlannedField>, ErrorView>(e@),
        },
{
    let mut planned_vec: Vec<PlannedField> = Vec::new();
    let mut i: usize = 0;
    assert(named@.skip(0) =~= named@);
    assert(planned_vec@ + Seq::<PlannedField>::empty() =~= planned_vec@);
    while i < named.len()
        invariant
            i <= named@.len(),
            spec_planned_fields(named@) == prepend_fields(
                planned_vec@,
                spec_planned_fields(named@.skip(i as int)),
            ),
        decreases named@.len() - i,
    {
        let field = &named[i];
        assert(named@.skip(i as int).drop_first() =~= named@.skip(i + 1));
        assert(named@.skip(i as int)[0] == named@[i as int]);
        match parse_field_plan(field) {
            Err(e) => {
                return Err(e);
            },
            Ok(plan) => {
                let pf = PlannedField {
                    ident: field.ident.clone(),
                    ty: duplicate_field_type(&field.ty),
                    plan,
                };
                let ghost before = planned_vec@;
                planned_vec.push(pf);
                proof {
                    match spec_planned_fields(named@.skip(i + 1)) {
                        Ok(rest) => {
                            assert(before + (seq![pf] + rest) =~= planned_vec@ + rest);
                        },
                        Err(_) => {},
                    }
                }
            },
        }
        i = i + 1;
    }
    assert(named@.skip(named@.len() as int) =~= Seq::<FieldModel>::empty());
    assert(planned_vec@ + Seq::<PlannedField>::empty() =~= planned_vec@);
    Ok(planned_vec)
}

/// The planned form of one variant.
pub open spec fn spec_planned_variant(v: VariantModel, derive_name: Seq<char>) -> Result<
    VariantView,
    ErrorView,
> {
    match v.fields {
        FieldsModel::Named(fs) => match spec_planned_fields(fs@) {
            Ok(pf) => Ok(VariantView { ident: v.ident, shape: ShapeView::Struct(pf) }),
            Err(e) => Err(e),
        },
        FieldsModel::Unit => Ok(VariantView { ident: v.ident, shape: ShapeView::Unit }),
        FieldsModel::Unnamed => Err(
            ErrorView::At { node: v.node, message: msg_tuple_variant(derive_name) },
        ),
    }
}

/// The planned variants, or the error of the first variant that has one.
pub open spec fn spec_planned_variants(vs: Seq<VariantModel>, derive_name: Seq<char>) -> Result<
    Seq<VariantView>,
    ErrorView,
>
    decreases vs.len(),
{
    if vs.len() == 0 {
        Ok(Seq::empty())
    } else {
        match spec_planned_variant(vs[0], derive_name) {
            Err(e) => Err(e),
            Ok(h) => match spec_planned_variants(vs.drop_first(), derive_name) {
                Err(e) => Err(e),
                Ok(rest) => Ok(seq![h] + rest),
            },
        }
    }
}

/// `r` with `pre` put in front of its variants.
pub open spec fn prepend_variants(pre: Seq<VariantView>, r: Result<Seq<VariantView>, ErrorView>) -> Result<
    Seq<VariantView>,
    ErrorView,
> {
    match r {
        Ok(rest) => Ok(pre + rest),
        Err(e) => Err(e),
    }
}

/// The plan of the derive input, or why `derive_name` cannot be derived for it:
/// a struct must have named fields, an enum's variants must be units or have
/// named fields, and a union is refused. An enum without variants is accepted.
pub open spec fn spec_plan_input(input: DeriveInputModel, derive_name: Seq<char>) -> Result<
    PlanView,
    ErrorView,
> {
    match input.data {
        DataModel::Struct(FieldsModel::Named(fs)) => match spec_planned_fields(fs@) {
            Ok(pf) => Ok(PlanView::Struct(pf)),
            Err(e) => Err(e),
        },
        DataModel::Struct(_) => Err(
            ErrorView::At { node: input.node, message: msg_named_fields(derive_name) },
        ),
        DataModel::Enum(vs) => match spec_planned_variants(vs@, derive_name) {
            Ok(pv) => Ok(PlanView::Enum(pv)),
            Err(e) => Err(e),
        },
        DataModel::Union => Err(ErrorView::At { node: input.node, message: msg_union(derive_name) }),
    }
}

proof fn lemma_planned_variants_wf(vs: Seq<VariantModel>, derive_name: Seq<char>)
    ensures
        spec_planned_variants(vs, derive_name) matches Ok(pv) ==> plan_view_wf(PlanView::Enum(pv)),
    decreases vs.len(),
{
    if vs.len() > 0 {
        lemma_planned_variants_wf(vs.drop_first(), derive_name);
        if let FieldsModel::Named(fs) = vs[0].fields {
            lemma_planned_fields_wf(fs@);
        }
        if let Ok(pv) = spec_planned_variants(vs, derive_name) {
            let rest = spec_planned_variants(vs.drop_first(), derive_name)->Ok_0;
            assert forall|i: int| 0 <= i < pv.len() implies (#[trigger] pv[i].shape matches ShapeView::Struct(fs) ==> fields_wf(fs)) by {
                if i > 0 {
                    assert(pv[i] == rest[i - 1]);
                }
            }
        }
    }
}

/// Every plan that `plan_input` gives can be carried out by the generated code:
/// each `truncate` count is at least 1.
pub proof fn lemma_plan_input_wf(input: DeriveInputModel, derive_name: Seq<char>)
    ensures
        spec_plan_input(input, derive_name) matches Ok(p) ==> plan_view_wf(p),
{
    match input.data {
        DataModel::Struct(FieldsModel::Named(fs)) => lemma_planned_fields_wf(fs@),
        DataModel::Enum(vs) => lemma_planned_variants_wf(vs@, derive_name),
        _ => {},
    }
}

/// Plans a derive input for the derive `derive_name`.
///
/// Refuses tuple structs, unit structs, unions, and tuple enum variants.
/// Empty enums (`enum Foo {}`) are accepted: codegen emits an uninhabited
/// `match *self {}` body.
pub fn plan_input(input: &DeriveInputModel, derive_name: &str) -> (r: Result<Plan, PlanError>)
    ensures
        match r {
            Ok(p) => spec_plan_input(*input, derive_name@) == Ok::<PlanView, ErrorView>(p@),
            Err(e) => spec_plan_input(*input, derive_name@) == Err::<PlanView, ErrorView>(e@),
        },
        r matches Ok(p) ==> plan_view_wf(p@),
{
    proof {
        lemma_plan_input_wf(*input, derive_name@);
    }
    match &input.data {
        DataModel::Struct(FieldsModel::Named(n)) => match plan_named_fields(n) {
            Ok(fields) => Ok(Plan::Struct(fields)),
            Err(e) => Err(e),
        },
        DataModel::Struct(_) => Err(
            error_after(input.node, derive_name, " requires a struct with named fields"),
        ),
        DataModel::Enum(e) => {
            let mut variants: Vec<PlannedVariant> = Vec::new();
            let mut i: usize = 0;
            assert(e@.skip(0) =~= e@);
            assert(variants@.map_values(|v: PlannedVariant| v@) + Seq::<VariantView>::empty()
                =~= variants@.map_values(|v: PlannedVariant| v@));
            while i < e.len()
                invariant
                    i <= e@.len(),
                    input.data == DataModel::Enum(*e),
                    spec_planned_variants(e@, derive_name@) == prepend_variants(
                        variants@.map_values(|v: PlannedVariant| v@),
                        spec_planned_variants(e@.skip(i as int), derive_name@),
                    ),
                decreases e@.len() - i,
            {
                let variant = &e[i];
                assert(e@.skip(i as int).drop_first() =~= e@.skip(i + 1));
                assert(e@.skip(i as int)[0] == e@[i as int]);
                let shape = match &variant.fields {
                    FieldsModel::Named(n) => match plan_named_fields(n) {
                        Ok(fields) => VariantShape::Struct(fields),
                        Err(err) => {
                            return Err(err);
                        },
                    },
                    FieldsModel::Unit => VariantShape::Unit,
                    FieldsModel::Unnamed => {
                        return Err(
                            error_after(
                                variant.node,
                                derive_name,
                                " does not support tuple variants; use named fields or wrap the payload in a struct",
                            ),
                        );
                    },
                };
                let pv = PlannedVariant { ident: variant.ident.clone(), shape };
                let ghost before = variants@.map_values(|v: PlannedVariant| v@);
                variants.push(pv);
                proof {
                    assert(variants@.map_values(|v: PlannedVariant| v@) =~= before.push(pv@));
                    match spec_planned_variants(e@.skip(i + 1), derive_name@) {
                        Ok(rest) => {
                            assert(before + (seq![pv@] + rest) =~= before.push(pv@) + rest);
                        },
                        Err(_) => {},
                    }
                }
                i = i + 1;
            }
            assert(e@.skip(e@.len() as int) =~= Seq::<VariantModel>::empty());
            assert(variants@.map_values(|v: PlannedVariant| v@) + Seq::<VariantView>::empty()
                =~= variants@.map_values(|v: PlannedVariant| v@));
            Ok(Plan::Enum(variants))
        },
        DataModel::Union => Err(error_after(input.node, derive_name, " does not support unions")),
    }
}


// ---- Laws ----

proof fn lemma_two_sensitive_after_found(attrs: Seq<AttrModel>, p: FieldPlan, j: int)
    requires
        0 <= j < attrs.len(),
        spec_is_ident(attrs[j].path, "sensitive"@),
    ensures
        field_plan_from(attrs, Some(p)) is Err,
    decreases attrs.len(),
{
    if !spec_is_ident(attrs[0].path, "sensitive"@) {
        assert(attrs.drop_first()[j - 1] == attrs[j]);
        lemma_two_sensitive_after_found(attrs.drop_first(), p, j - 1);
    }
}

proof fn lemma_two_sensitive(attrs: Seq<AttrModel>, i: int, j: int)
    requires
        0 <= i < j < attrs.len(),
        spec_is_ident(attrs[i].path, "sensitive"@),
        spec_is_ident(attrs[j].path, "sensitive"@),
    ensures
        field_plan_from(attrs, None) is Err,
    decreases attrs.len(),
{
    if !spec_is_ident(attrs[0].path, "sensitive"@) {
        assert(attrs.drop_first()[i - 1] == attrs[i]);
        assert(attrs.drop_first()[j - 1] == attrs[j]);
        lemma_two_sensitive(attrs.drop_first(), i - 1, j - 1);
    } else if let Ok(p) = spec_sensitive_attr(attrs[0]) {
        assert(attrs.drop_first()[j - 1] == attrs[j]);
        lemma_two_sensitive_after_found(attrs.drop_first(), p, j - 1);
    }
}

/// The modifiers are mutually exclusive: a field with two `#[sensitive(...)]`
/// attributes is refused, and so is one attribute with two modifiers.
pub proof fn law_modifiers_are_exclusive(attrs: Seq<AttrModel>, i: int, j: int)
    requires
        0 <= i < j < attrs.len(),
        spec_is_ident(attrs[i].path, "sensitive"@),
        spec_is_ident(attrs[j].path, "sensitive"@),
    ensures
        spec_field_plan(attrs) is Err,
        forall|a: AttrModel| #[trigger] spec_sensitive_attr(a) is Ok ==> (a.args matches Ok(metas)
            && metas@.len() == 1),
{
    lemma_two_sensitive(attrs, i, j);
}

/// Planning keeps every field, in order, with its name and type, and gives it
/// the plan that its own attributes ask for; it fails exactly where some
/// field's attributes are refused.
pub proof fn law_planning_keeps_every_field(fs: Seq<FieldModel>)
    ensures
        spec_planned_fields(fs) matches Ok(pf) ==> {
            &&& pf.len() == fs.len()
            &&& forall|i: int|
                0 <= i < fs.len() ==> {
                    &&& (#[trigger] pf[i]).ident == fs[i].ident
                    &&& pf[i].ty == fs[i].ty
                    &&& spec_field_plan(fs[i].attrs@) == Ok::<FieldPlan, ErrorView>(pf[i].plan)
                }
        },
        spec_planned_fields(fs) is Err <==> exists|i: int|
            0 <= i < fs.len() && spec_field_plan((#[trigger] fs[i]).attrs@) is Err,
    decreases fs.len(),
{
    if fs.len() > 0 {
        law_planning_keeps_every_field(fs.drop_first());
        if let Ok(pf) = spec_planned_fields(fs) {
            let rest = spec_planned_fields(fs.drop_first())->Ok_0;
            assert forall|i: int| 0 <= i < fs.len() implies {
                &&& (#[trigger] pf[i]).ident == fs[i].ident
                &&& pf[i].ty == fs[i].ty
                &&& spec_field_plan(fs[i].attrs@) == Ok::<FieldPlan, ErrorView>(pf[i].plan)
            } by {
                if i > 0 {
                    assert(pf[i] == rest[i - 1]);
                    assert(fs.drop_first()[i - 1] == fs[i]);
                }
            }
        }
        if spec_planned_fields(fs) is Err {
            if spec_field_plan(fs[0].attrs@) is Err {
                assert(spec_field_plan(fs[0].attrs@) is Err);
            } else {
                let k = choose|k: int|
                    0 <= k < fs.drop_first().len() && spec_field_plan(
                        (#[trigger] fs.drop_first()[k]).attrs@,
                    ) is Err;
                assert(fs[k + 1] == fs.drop_first()[k]);
            }
        }
        if exists|i: int| 0 <= i < fs.len() && spec_field_plan((#[trigger] fs[i]).attrs@) is Err {
            let k = choose|k: int| 0 <= k < fs.len() && spec_field_plan((#[trigger] fs[k]).attrs@) is Err;
            if k > 0 {
                assert(fs.drop_first()[k - 1] == fs[k]);
            }
        }
    }
}

proof fn lemma_variants_same_for_derives(vs: Seq<VariantModel>, d1: Seq<char>, d2: Seq<char>)
    ensures
        spec_planned_variants(vs, d1) is Ok <==> spec_planned_variants(vs, d2) is Ok,
        spec_planned_variants(vs, d1) is Ok ==> spec_planned_variants(vs, d1)
            == spec_planned_variants(vs, d2),
    decreases vs.len(),
{
    if vs.len() > 0 {
        lemma_variants_same_for_derives(vs.drop_first(), d1, d2);
    }
}

/// What a field shows does not depend on which derive asks: both derives
/// accept the same inputs and plan them alike (the derive's name appears only
/// in error messages).
pub proof fn law_plan_does_not_depend_on_the_derive(
    input: DeriveInputModel,
    d1: Seq<char>,
    d2: Seq<char>,
)
    ensures
        spec_plan_input(input, d1) is Ok <==> spec_plan_input(input, d2) is Ok,
        spec_plan_input(input, d1) is Ok ==> spec_plan_input(input, d1) == spec_plan_input(
            input,
            d2,
        ),
{
    if let DataModel::Enum(vs) = input.data {
        lemma_variants_same_for_derives(vs@, d1, d2);
    }
}

/// The `#[sensitive(...)]` attributes among `attrs`, in order.
pub open spec fn sensitive_attrs(attrs: Seq<AttrModel>) -> Seq<AttrModel>
    decreases attrs.len(),
{
    if attrs.len() == 0 {
        Seq::empty()
    } else {
        (if spec_is_ident(attrs[0].path, "sensitive"@) {
            seq![attrs[0]]
        } else {
            Seq::empty()
        }) + sensitive_attrs(attrs.drop_first())
    }
}

proof fn lemma_sensitive_attrs_are_sensitive(attrs: Seq<AttrModel>)
    ensures
        forall|k: int|
            0 <= k < sensitive_attrs(attrs).len() ==> spec_is_ident(
                (#[trigger] sensitive_attrs(attrs)[k]).path,
                "sensitive"@,
            ),
    decreases attrs.len(),
{
    if attrs.len() > 0 {
        lemma_sensitive_attrs_are_sensitive(attrs.drop_first());
        let rest = sensitive_attrs(attrs.drop_first());
        let ss = sensitive_attrs(attrs);
        assert forall|k: int| 0 <= k < ss.len() implies spec_is_ident(
            (#[trigger] ss[k]).path,
            "sensitive"@,
        ) by {
            if spec_is_ident(attrs[0].path, "sensitive"@) {
                if k > 0 {
                    assert(ss[k] == rest[k - 1]);
                }
            } else {
                assert(ss =~= rest);
            }
        }
    }
}

proof fn lemma_plan_from_sensitive_only(attrs: Seq<AttrModel>, found: Option<FieldPlan>)
    ensures
        field_plan_from(attrs, found) == field_plan_from(sensitive_attrs(attrs), found),
    decreases attrs.len(),
{
    if attrs.len() > 0 {
        let ss = sensitive_attrs(attrs);
        let rest = sensitive_attrs(attrs.drop_first());
        if !spec_is_ident(attrs[0].path, "sensitive"@) {
            assert(ss =~= rest);
            lemma_plan_from_sensitive_only(attrs.drop_first(), found);
        } else {
            assert(ss =~= seq![attrs[0]] + rest);
            assert(ss[0] == attrs[0]);
            assert(ss.drop_first() =~= rest);
            if found is None {
                if let Ok(p) = spec_sensitive_attr(attrs[0]) {
                    lemma_plan_from_sensitive_only(attrs.drop_first(), Some(p));
                }
            }
        }
    } else {
        assert(sensitive_attrs(attrs) =~= Seq::<AttrModel>::empty());
    }
}

/// A field's plan is decided by its `#[sensitive(...)]` attributes alone,
/// wherever they stand among its other attributes: none plans a plain field,
/// one plans what that attribute asks for, and two or more are refused.
pub proof fn law_plan_is_decided_by_the_sensitive_attributes(attrs: Seq<AttrModel>)
    ensures
        spec_field_plan(attrs) == spec_field_plan(sensitive_attrs(attrs)),
        sensitive_attrs(attrs).len() == 0 ==> spec_field_plan(attrs) == Ok::<FieldPlan, ErrorView>(
            FieldPlan::Plain,
        ),
        sensitive_attrs(attrs).len() == 1 ==> spec_field_plan(attrs) == spec_sensitive_attr(
            sensitive_attrs(attrs)[0],
        ),
        sensitive_attrs(attrs).len() >= 2 ==> spec_field_plan(attrs) is Err,
{
    let ss = sensitive_attrs(attrs);
    lemma_plan_from_sensitive_only(attrs, None);
    lemma_sensitive_attrs_are_sensitive(attrs);
    if ss.len() == 1 {
        assert(ss.drop_first() =~= Seq::<AttrModel>::empty());
        assert(spec_is_ident(ss[0].path, "sensitive"@));
        if let Ok(p) = spec_sensitive_attr(ss[0]) {
            assert(field_plan_from(ss.drop_first(), Some(p)) == Ok::<FieldPlan, ErrorView>(p));
        }
    }
    if ss.len() >= 2 {
        assert(spec_is_ident(ss[0].path, "sensitive"@));
        assert(spec_is_ident(ss[1].path, "sensitive"@));
        lemma_two_sensitive(ss, 0, 1);
    }
}

} // verus!
