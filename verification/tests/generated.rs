//! The generated implementations, piece by piece.

#![allow(dead_code, unused_imports)]

use sensitive_fmt::codegen::{CodePiece, Derive, NeededBound, bound_for_field, synthesize_where};
use sensitive_fmt::names::{insert_name, str_less};
use sensitive_fmt::input::{
    AttrModel, DataModel, DeriveInputModel, FieldModel, FieldType, FieldsModel, GenericArgModel,
    GenericArgs, GenericsModel, LitModel, MetaModel, PathModel, PathSegmentModel, TypeList, TypeModel,
    TypeSegment, TypeSegments, ValueModel, VariantModel,
};
use sensitive_fmt::parse::{
    FieldPlan, Plan, PlanError, PlannedField, PlannedVariant, VariantShape, plan_input, truncate_count,
};
use sensitive_fmt::render::{field_text, render_group, render_group_pretty, render_variant, truncated_text};
use sensitive_fmt::{derive_sensitive_debug, derive_sensitive_display};

fn path(name: &str) -> PathModel {
    PathModel {
        node: 0,
        leading_colon: false,
        segments: vec![PathSegmentModel { ident: name.to_string(), has_arguments: false }],
    }
}

fn sensitive(metas: Vec<MetaModel>) -> AttrModel {
    AttrModel { node: 0, path: path("sensitive"), args: Ok(metas) }
}

fn redact() -> AttrModel {
    sensitive(vec![MetaModel::Path(path("redact"))])
}

fn skip() -> AttrModel {
    sensitive(vec![MetaModel::Path(path("skip"))])
}

fn truncate(n: &str) -> AttrModel {
    sensitive(vec![MetaModel::NameValue {
        node: 0,
        path: path("truncate"),
        value: ValueModel::Lit(LitModel::Int { node: 0, text: n.to_string() }),
    }])
}

fn segments(names: &[(&str, Vec<GenericArgModel>)]) -> TypeSegments {
    let mut out = TypeSegments::Nil;
    for (name, args) in names.iter().rev() {
        let mut list = GenericArgs::Nil;
        for a in args.iter().rev() {
            list = GenericArgs::Cons(Box::new(copy_arg(a)), Box::new(list));
        }
        out = TypeSegments::Cons(
            Box::new(TypeSegment { ident: name.to_string(), args: list }),
            Box::new(out),
        );
    }
    out
}

fn copy_arg(a: &GenericArgModel) -> GenericArgModel {
    match a {
        GenericArgModel::Type(t) => GenericArgModel::Type(sensitive_fmt::input::duplicate_type(t)),
        GenericArgModel::AssocType(t) => {
            GenericArgModel::AssocType(sensitive_fmt::input::duplicate_type(t))
        }
        GenericArgModel::Other => GenericArgModel::Other,
    }
}

fn simple(name: &str) -> TypeModel {
    TypeModel::Path { qself: None, segments: segments(&[(name, vec![])]) }
}

fn ty(node: usize, shape: TypeModel) -> FieldType {
    FieldType { node, shape }
}

fn field(name: &str, shape: TypeModel, attrs: Vec<AttrModel>) -> FieldModel {
    FieldModel { ident: name.to_string(), ty: ty(0, shape), attrs }
}

fn generics(params: &[&str]) -> GenericsModel {
    GenericsModel {
        impl_generics: 1,
        ty_generics: 2,
        type_params: params.iter().map(|p| p.to_string()).collect(),
        where_predicates: vec![],
        where_trailing_comma: false,
    }
}

fn named_struct(name: &str, params: &[&str], fields: Vec<FieldModel>) -> DeriveInputModel {
    DeriveInputModel {
        ident: name.to_string(),
        node: 0,
        generics: generics(params),
        data: DataModel::Struct(FieldsModel::Named(fields)),
    }
}

fn enum_input(name: &str, params: &[&str], variants: Vec<VariantModel>) -> DeriveInputModel {
    DeriveInputModel {
        ident: name.to_string(),
        node: 0,
        generics: generics(params),
        data: DataModel::Enum(variants),
    }
}

fn struct_variant(name: &str, fields: Vec<FieldModel>) -> VariantModel {
    VariantModel { ident: name.to_string(), node: 0, fields: FieldsModel::Named(fields) }
}

fn unit_variant(name: &str) -> VariantModel {
    VariantModel { ident: name.to_string(), node: 0, fields: FieldsModel::Unit }
}

/// Plans the input for both derives, checks that both derives accept it, and
/// returns the plan.
fn plan(input: &DeriveInputModel) -> Plan {
    assert!(derive_sensitive_debug(input).is_ok());
    assert!(derive_sensitive_display(input).is_ok());
    let p = plan_input(input, "SensitiveDebug").expect("input is accepted");
    check_emitted(input, &p);
    p
}

/// The emitted implementation as text, with `<n>` for the tokens of node `n`
/// and `<alloc>` for the import of the `alloc` crate.
fn emitted(pieces: &[CodePiece]) -> String {
    pieces
        .iter()
        .map(|p| match p {
            CodePiece::Text(t) => t.clone(),
            CodePiece::Tokens(n) => format!("<{n}>"),
            CodePiece::AllocCrate => "<alloc>".to_string(),
        })
        .collect::<Vec<_>>()
        .join(" ")
}

/// Checks the text that both derives emit for the planned input: the impl
/// header, the marker enum and the `alloc` import where they are needed, and
/// every field's code in every group.
fn check_emitted(input: &DeriveInputModel, plan: &Plan) {
    let debug = emitted(&derive_sensitive_debug(input).unwrap());
    let display = emitted(&derive_sensitive_display(input).unwrap());
    let node = input.node;
    assert!(debug.starts_with(&format!("#[automatically_derived] impl <{}> ::core::fmt::Debug for <{node}> <{}>", input.generics.impl_generics, input.generics.ty_generics)));
    assert!(display.starts_with(&format!("#[automatically_derived] impl <{}> ::core::fmt::Display for <{node}> <{}>", input.generics.impl_generics, input.generics.ty_generics)));
    let fields = sensitive_fmt::codegen::collect_field_types(plan);
    let marked = fields.iter().any(|f| f.plan != FieldPlan::Plain);
    let truncated = fields.iter().any(|f| matches!(f.plan, FieldPlan::Truncate(_)));
    assert_eq!(debug.contains("enum __SensitiveFmtMarkers"), marked);
    assert_eq!(debug.contains("<alloc>"), truncated);
    assert_eq!(display.contains("<alloc>"), truncated);
    assert!(!display.contains("__SensitiveFmtMarkers"));
    match plan {
        Plan::Struct(fs) => expect_group(&debug, &display, &input.ident, fs, true),
        Plan::Enum(vs) => {
            if vs.is_empty() {
                assert!(debug.contains("match *self {}"));
                assert!(display.contains("match *self {}"));
            }
            for v in vs {
                let name = &v.ident;
                match &v.shape {
                    VariantShape::Unit => {
                        let arm = format!("Self::{name} => __f.write_str(\"{name}\"),");
                        assert!(debug.contains(&arm));
                        assert!(display.contains(&arm));
                    }
                    VariantShape::Struct(fs) if fs.is_empty() => {
                        let arm = format!("Self::{name} {{}} => __f.write_str(\"{name} {{}}\"),");
                        assert!(debug.contains(&arm));
                        assert!(display.contains(&arm));
                    }
                    VariantShape::Struct(fs) => {
                        let pattern = fs.iter().map(|f| f.ident.clone()).collect::<Vec<_>>().join(", ");
                        let arm = format!("Self::{name} {{ {pattern} }} => {{ ");
                        assert!(debug.contains(&arm));
                        assert!(display.contains(&arm));
                        expect_group(&debug, &display, name, fs, false);
                    }
                }
            }
        }
    }
}

/// Checks the code that both derives emit for one group of fields; `on_self`
/// where the group is a struct, which reaches its fields as `&self.name`.
fn expect_group(debug: &str, display: &str, name: &str, fields: &[PlannedField], on_self: bool) {
    if fields.is_empty() {
        let empty = format!("__f.write_str(\"{name} {{}}\")");
        assert!(debug.contains(&empty));
        assert!(display.contains(&empty));
        return;
    }
    let mut calls = String::new();
    let mut writes = String::new();
    for (i, f) in fields.iter().enumerate() {
        let id = &f.ident;
        let a = if on_self { format!("&self.{id}") } else { id.clone() };
        let (call, value) = match f.plan {
            FieldPlan::Plain => (
                format!("__builder.field(\"{id}\", {a}); "),
                format!("::core::fmt::Display::fmt({a}, __f)?; "),
            ),
            FieldPlan::Redact => (
                format!("__builder.field(\"{id}\", &__SensitiveFmtMarkers::Redacted); "),
                "__f.write_str(\"REDACTED\")?; ".to_string(),
            ),
            FieldPlan::Skip => (
                format!("__builder.field(\"{id}\", &__SensitiveFmtMarkers::Skipped); "),
                "__f.write_str(\"<skipped>\")?; ".to_string(),
            ),
            FieldPlan::Truncate(n) => (
                format!("__builder.field(\"{id}\", &__SensitiveFmtMarkers::Truncated(__sensitive_fmt_alloc::format!(\"{{}}\", {a}), {n}u32,),); "),
                format!("{{ let __s = __sensitive_fmt_alloc::format!(\"{{}}\", {a}); let __count = __s.chars().count() as u64; if __count >= {n}u32 as u64 {{ let __nm1 = ({n}u32 as usize).saturating_sub(1); let __start = __s.char_indices().nth_back(__nm1).map(|(__i, _)| __i).unwrap_or(0); __f.write_str(\"****\")?; __f.write_str(&__s[__start..])?; }} else {{ __f.write_str(\"REDACTED\")?; }} }} "),
            ),
        };
        calls.push_str(&call);
        if i > 0 {
            writes.push_str("__f.write_str(\", \")?; ");
        }
        writes.push_str(&format!("__f.write_str(\"{id}: \")?; {value}"));
        if on_self && matches!(f.plan, FieldPlan::Redact | FieldPlan::Skip) {
            for text in [debug, display] {
                for end in [")", ",", ";", " "] {
                    assert!(!text.contains(&format!("&self.{id}{end}")), "{id} is read");
                }
            }
        }
    }
    assert!(debug.contains(&format!("let mut __builder = __f.debug_struct(\"{name}\"); {calls}__builder.finish()")));
    assert!(display.contains(&format!("__f.write_str(\"{name} {{ \")?; {writes}__f.write_str(\" }}\")")));
}

fn struct_fields(plan: &Plan) -> &Vec<PlannedField> {
    match plan {
        Plan::Struct(fields) => fields,
        Plan::Enum(_) => panic!("not a struct"),
    }
}

fn variant<'a>(plan: &'a Plan, name: &str) -> &'a PlannedVariant {
    match plan {
        Plan::Enum(variants) => variants.iter().find(|v| v.ident == name).expect("variant"),
        Plan::Struct(_) => panic!("not an enum"),
    }
}

fn strings(values: &[&str]) -> Vec<String> {
    values.iter().map(|v| v.to_string()).collect()
}

/// The bounds that a derive adds to the `where` clause of the input.
fn added_bounds(input: &DeriveInputModel, plan: &Plan, derive: Derive) -> usize {
    let fields = sensitive_fmt::codegen::collect_field_types(plan);
    synthesize_where(&input.generics, &input.ident, &fields, derive).added.len()
}


fn show(pieces: &[CodePiece]) -> String {
    pieces
        .iter()
        .map(|p| match p {
            CodePiece::Text(t) => t.clone(),
            CodePiece::Tokens(n) => format!("<{n}>"),
            CodePiece::AllocCrate => "<alloc>".to_string(),
        })
        .collect::<Vec<_>>()
        .join(" ")
}

const FN_OPEN: &str = "{ fn fmt(&self, __f: &mut ::core::fmt::Formatter<'_>) -> ::core::fmt::Result {";

#[test]
fn debug_impl_for_a_plain_struct() {
    let input = named_struct("User", &[], vec![field("_id", simple("u64"), vec![]), field("_name", simple("String"), vec![])]);
    let out = show(&derive_sensitive_debug(&input).unwrap());
    let expected = format!(
        "#[automatically_derived] impl <1> ::core::fmt::Debug for <0> <2> {FN_OPEN} let mut __builder = __f.debug_struct(\"User\"); __builder.field(\"_id\", &self._id); __builder.field(\"_name\", &self._name); __builder.finish() }} }}"
    );
    assert_eq!(out, expected);
}

#[test]
fn display_impl_for_a_plain_struct() {
    let input = named_struct("User", &[], vec![field("id", simple("u64"), vec![]), field("name", simple("String"), vec![])]);
    let out = show(&derive_sensitive_display(&input).unwrap());
    let expected = format!(
        "#[automatically_derived] impl <1> ::core::fmt::Display for <0> <2> {FN_OPEN} __f.write_str(\"User {{ \")?; __f.write_str(\"id: \")?; ::core::fmt::Display::fmt(&self.id, __f)?; __f.write_str(\", \")?; __f.write_str(\"name: \")?; ::core::fmt::Display::fmt(&self.name, __f)?; __f.write_str(\" }}\") }} }}"
    );
    assert_eq!(out, expected);
}

#[test]
fn empty_struct_writes_braces() {
    let input = named_struct("Empty", &[], vec![]);
    let out = show(&derive_sensitive_debug(&input).unwrap());
    assert!(out.ends_with("__f.write_str(\"Empty {}\") } }"));
}

#[test]
fn marked_fields_declare_the_marker_enum() {
    let input = named_struct(
        "Token",
        &[],
        vec![field("a", simple("String"), vec![redact()]), field("b", simple("String"), vec![truncate("4")])],
    );
    let pieces = derive_sensitive_debug(&input).unwrap();
    assert!(pieces.iter().any(|p| matches!(p, CodePiece::AllocCrate)));
    let out = show(&pieces);
    assert!(out.contains("enum __SensitiveFmtMarkers { Redacted, Skipped, Truncated(__sensitive_fmt_alloc::string::String, u32), }"));
    assert!(out.contains("__builder.field(\"a\", &__SensitiveFmtMarkers::Redacted);"));
    assert!(out.contains(
        "__builder.field(\"b\", &__SensitiveFmtMarkers::Truncated(__sensitive_fmt_alloc::format!(\"{}\", &self.b), 4u32,),);"
    ));
}

#[test]
fn plain_fields_need_no_marker_enum() {
    let input = named_struct("User", &[], vec![field("id", simple("u64"), vec![])]);
    let out = show(&derive_sensitive_debug(&input).unwrap());
    assert!(!out.contains("__SensitiveFmtMarkers"));
    assert!(!out.contains("<alloc>"));
}

#[test]
fn redaction_without_truncation_needs_no_alloc() {
    let input = named_struct("Account", &[], vec![field("secret", simple("String"), vec![redact()])]);
    let out = show(&derive_sensitive_debug(&input).unwrap());
    assert!(out.contains("enum __SensitiveFmtMarkers { Redacted, Skipped, }"));
    assert!(!out.contains("<alloc>"));
}

#[test]
fn display_truncation_imports_alloc() {
    let input = named_struct("Token", &[], vec![field("token", simple("String"), vec![truncate("12")])]);
    let out = show(&derive_sensitive_display(&input).unwrap());
    assert!(out.contains(&format!("{FN_OPEN} <alloc> __f.write_str(\"Token {{ \")?;")));
    assert!(out.contains("if __count >= 12u32 as u64 { let __nm1 = (12u32 as usize).saturating_sub(1);"));
}

#[test]
fn generic_field_is_bounded_on_its_type() {
    let mut input = named_struct("Holder", &["T"], vec![field("value", simple("T"), vec![])]);
    if let DataModel::Struct(FieldsModel::Named(fields)) = &mut input.data {
        fields[0].ty.node = 7;
    }
    let out = show(&derive_sensitive_debug(&input).unwrap());
    assert!(out.contains("for <0> <2> where <7> : ::core::fmt::Debug {"));
    let out = show(&derive_sensitive_display(&input).unwrap());
    assert!(out.contains("where <7> : ::core::fmt::Display {"));
}

#[test]
fn own_where_clause_comes_first() {
    let mut input = named_struct("Holder", &["T"], vec![field("value", simple("T"), vec![])]);
    input.generics.where_predicates = vec![5, 6];
    input.generics.where_trailing_comma = true;
    if let DataModel::Struct(FieldsModel::Named(fields)) = &mut input.data {
        fields[0].ty.node = 7;
    }
    let out = show(&derive_sensitive_debug(&input).unwrap());
    assert!(out.contains("where <5> , <6> , <7> : ::core::fmt::Debug {"));
}

#[test]
fn own_trailing_comma_is_kept_when_nothing_is_added() {
    let mut input = named_struct("Holder", &["T"], vec![field("value", simple("T"), vec![redact()])]);
    input.generics.where_predicates = vec![5];
    input.generics.where_trailing_comma = true;
    let out = show(&derive_sensitive_debug(&input).unwrap());
    assert!(out.contains("for <0> <2> where <5> , {"));
}

#[test]
fn self_referencing_field_bounds_each_parameter_in_name_order() {
    let tuple = TypeModel::Tuple(TypeList::Cons(
        Box::new(simple("B")),
        Box::new(TypeList::Cons(
            Box::new(simple("A")),
            Box::new(TypeList::Cons(Box::new(simple("Tree")), Box::new(TypeList::Nil))),
        )),
    ));
    let input = named_struct("Tree", &["B", "A"], vec![field("pair", tuple, vec![])]);
    let out = show(&derive_sensitive_debug(&input).unwrap());
    assert!(out.contains("where A: ::core::fmt::Debug , B: ::core::fmt::Debug {"));
}

#[test]
fn enum_arms_bind_their_fields() {
    let input = enum_input(
        "Mixed",
        &[],
        vec![
            unit_variant("Empty"),
            struct_variant("EmptyBraced", vec![]),
            struct_variant("Loaded", vec![field("id", simple("u64"), vec![]), field("secret", simple("String"), vec![redact()])]),
        ],
    );
    let out = show(&derive_sensitive_debug(&input).unwrap());
    assert!(out.contains(
        "match self { Self::Empty => __f.write_str(\"Empty\"), Self::EmptyBraced {} => __f.write_str(\"EmptyBraced {}\"), Self::Loaded { id, secret } => { let mut __builder = __f.debug_struct(\"Loaded\"); __builder.field(\"id\", id); __builder.field(\"secret\", &__SensitiveFmtMarkers::Redacted); __builder.finish() }, }"
    ));
}

#[test]
fn referenced_parameters_are_sorted_and_unique() {
    let ty = TypeModel::Tuple(TypeList::Cons(
        Box::new(simple("C")),
        Box::new(TypeList::Cons(
            Box::new(simple("A")),
            Box::new(TypeList::Cons(Box::new(simple("C")), Box::new(TypeList::Nil))),
        )),
    ));
    let params = vec!["C".to_string(), "B".to_string(), "A".to_string()];
    let found = sensitive_fmt::codegen::referenced_type_params(&ty, &params, "Self");
    assert_eq!(found, vec!["A".to_string(), "C".to_string()]);
}
