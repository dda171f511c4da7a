//! Smoke test: both derives accept a named-field struct.

#![allow(dead_code, unused_imports)]

use sensitive_fmt::codegen::{CodePiece, Derive, NeededBound, bound_for_field, synthesize_where};
use sensitive_fmt::names::{insert_name, str_less};
use sensitive_fmt::input::{
    AttrModel, DataModel, DeriveInputModel, FieldModel, FieldType, FieldsModel, GenericArgModel,
    GenericArgs, GenericsModel, LitModel, MetaModel, PathModel, PathSegmentModel, TypeList, TypeModel,
    TypeSegment, TypeSegments, ValueModel, VariantModel,
};
use sensitive_fmt::parse::{
    FieldPlan, Plan, PlanError, PlannedField, PlannedVariant, VariantShape, plan_input, truncate_count,
};
use sensitive_fmt::render::{field_text, render_group, render_group_pretty, render_variant, truncated_text};
use sensitive_fmt::{derive_sensitive_debug, derive_sensitive_display};

fn path(name: &str) -> PathModel {
    PathModel {
        node: 0,
        leading_colon: false,
        segments: vec![PathSegmentModel { ident: name.to_string(), has_arguments: false }],
    }
}

fn sensitive(metas: Vec<MetaModel>) -> AttrModel {
    AttrModel { node: 0, path: path("sensitive"), args: Ok(metas) }
}

fn redact() -> AttrModel {
    sensitive(vec![MetaModel::Path(path("redact"))])
}

fn skip() -> AttrModel {
    sensitive(vec![MetaModel::Path(path("skip"))])
}

fn truncate(n: &str) -> AttrModel {
    sensitive(vec![MetaModel::NameValue {
        node: 0,
        path: path("truncate"),
        value: ValueModel::Lit(LitModel::Int { node: 0, text: n.to_string() }),
    }])
}

fn segments(names: &[(&str, Vec<GenericArgModel>)]) -> TypeSegments {
    let mut out = TypeSegments::Nil;
    for (name, args) in names.iter().rev() {
        let mut list = GenericArgs::Nil;
        for a in args.iter().rev() {
            list = GenericArgs::Cons(Box::new(copy_arg(a)), Box::new(list));
        }
        out = TypeSegments::Cons(
            Box::new(TypeSegment { ident: name.to_string(), args: list }),
            Box::new(out),
        );
    }
    out
}

fn copy_arg(a: &GenericArgModel) -> GenericArgModel {
    match a {
        GenericArgModel::Type(t) => GenericArgModel::Type(sensitive_fmt::input::duplicate_type(t)),
        GenericArgModel::AssocType(t) => {
            GenericArgModel::AssocType(sensitive_fmt::input::duplicate_type(t))
        }
        GenericArgModel::Other => GenericArgModel::Other,
    }
}

fn simple(name: &str) -> TypeModel {
    TypeModel::Path { qself: None, segments: segments(&[(name, vec![])]) }
}

fn ty(node: usize, shape: TypeModel) -> FieldType {
    FieldType { node, shape }
}

fn field(name: &str, shape: TypeModel, attrs: Vec<AttrModel>) -> FieldModel {
    FieldModel { ident: name.to_string(), ty: ty(0, shape), attrs }
}

fn generics(params: &[&str]) -> GenericsModel {
    GenericsModel {
        impl_generics: 1,
        ty_generics: 2,
        type_params: params.iter().map(|p| p.to_string()).collect(),
        where_predicates: vec![],
        where_trailing_comma: false,
    }
}

fn named_struct(name: &str, params: &[&str], fields: Vec<FieldModel>) -> DeriveInputModel {
    DeriveInputModel {
        ident: name.to_string(),
        node: 0,
        generics: generics(params),
        data: DataModel::Struct(FieldsModel::Named(fields)),
    }
}

fn enum_input(name: &str, params: &[&str], variants: Vec<VariantModel>) -> DeriveInputModel {
    DeriveInputModel {
        ident: name.to_string(),
        node: 0,
        generics: generics(params),
        data: DataModel::Enum(variants),
    }
}

fn struct_variant(name: &str, fields: Vec<FieldModel>) -> VariantModel {
    VariantModel { ident: name.to_string(), node: 0, fields: FieldsModel::Named(fields) }
}

fn unit_variant(name: &str) -> VariantModel {
    VariantModel { ident: name.to_string(), node: 0, fields: FieldsModel::Unit }
}

/// Plans the input for both derives, checks that both derives accept it, and
/// returns the plan.
fn plan(input: &DeriveInputModel) -> Plan {
    assert!(derive_sensitive_debug(input).is_ok());
    assert!(derive_sensitive_display(input).is_ok());
    let p = plan_input(input, "SensitiveDebug").expect("input is accepted");
    check_emitted(input, &p);
    p
}

/// The emitted implementation as text, with `<n>` for the tokens of node `n`
/// and `<alloc>` for the import of the `alloc` crate.
fn emitted(pieces: &[CodePiece]) -> String {
    pieces
        .iter()
        .map(|p| match p {
            CodePiece::Text(t) => t.clone(),
            CodePiece::Tokens(n) => format!("<{n}>"),
            CodePiece::AllocCrate => "<alloc>".to_string(),
        })
        .collect::<Vec<_>>()
        .join(" ")
}

/// Checks the text that both derives emit for the planned input: the impl
/// header, the marker enum and the `alloc` import where they are needed, and
/// every field's code in every group.
fn check_emitted(input: &DeriveInputModel, plan: &Plan) {
    let debug = emitted(&derive_sensitive_debug(input).unwrap());
    let display = emitted(&derive_sensitive_display(input).unwrap());
    let node = input.node;
    assert!(debug.starts_with(&format!("#[automatically_derived] impl <{}> ::core::fmt::Debug for <{node}> <{}>", input.generics.impl_generics, input.generics.ty_generics)));
    assert!(display.starts_with(&format!("#[automatically_derived] impl <{}> ::core::fmt::Display for <{node}> <{}>", input.generics.impl_generics, input.generics.ty_generics)));
    let fields = sensitive_fmt::codegen::collect_field_types(plan);
    let marked = fields.iter().any(|f| f.plan != FieldPlan::Plain);
    let truncated = fields.iter().any(|f| matches!(f.plan, FieldPlan::Truncate(_)));
    assert_eq!(debug.contains("enum __SensitiveFmtMarkers"), marked);
    assert_eq!(debug.contains("<alloc>"), truncated);
    assert_eq!(display.contains("<alloc>"), truncated);
    assert!(!display.contains("__SensitiveFmtMarkers"));
    match plan {
        Plan::Struct(fs) => expect_group(&debug, &display, &input.ident, fs, true),
        Plan::Enum(vs) => {
            if vs.is_empty() {
                assert!(debug.contains("match *self {}"));
                assert!(display.contains("match *self {}"));
            }
            for v in vs {
                let name = &v.ident;
                match &v.shape {
                    VariantShape::Unit => {
                        let arm = format!("Self::{name} => __f.write_str(\"{name}\"),");
                        assert!(debug.contains(&arm));
                        assert!(display.contains(&arm));
                    }
                    VariantShape::Struct(fs) if fs.is_empty() => {
                        let arm = format!("Self::{name} {{}} => __f.write_str(\"{name} {{}}\"),");
                        assert!(debug.contains(&arm));
                        assert!(display.contains(&arm));
                    }
                    VariantShape::Struct(fs) => {
                        let pattern = fs.iter().map(|f| f.ident.clone()).collect::<Vec<_>>().join(", ");
                        let arm = format!("Self::{name} {{ {pattern} }} => {{ ");
                        assert!(debug.contains(&arm));
                        assert!(display.contains(&arm));
                        expect_group(&debug, &display, name, fs, false);
                    }
                }
            }
        }
    }
}

/// Checks the code that both derives emit for one group of fields; `on_self`
/// where the group is a struct, which reaches its fields as `&self.name`.
fn expect_group(debug: &str, display: &str, name: &str, fields: &[PlannedField], on_self: bool) {
    if fields.is_empty() {
        let empty = format!("__f.write_str(\"{name} {{}}\")");
        assert!(debug.contains(&empty));
        assert!(display.contains(&empty));
        return;
    }
    let mut calls = String::new();
    let mut writes = String::new();
    for (i, f) in fields.iter().enumerate() {
        let id = &f.ident;
        let a = if on_self { format!("&self.{id}") } else { id.clone() };
        let (call, value) = match f.plan {
            FieldPlan::Plain => (
                format!("__builder.field(\"{id}\", {a}); "),
                format!("::core::fmt::Display::fmt({a}, __f)?; "),
            ),
            FieldPlan::Redact => (
                format!("__builder.field(\"{id}\", &__SensitiveFmtMarkers::Redacted); "),
                "__f.write_str(\"REDACTED\")?; ".to_string(),
            ),
            FieldPlan::Skip => (
                format!("__builder.field(\"{id}\", &__SensitiveFmtMarkers::Skipped); "),
                "__f.write_str(\"<skipped>\")?; ".to_string(),
            ),
            FieldPlan::Truncate(n) => (
                format!("__builder.field(\"{id}\", &__SensitiveFmtMarkers::Truncated(__sensitive_fmt_alloc::format!(\"{{}}\", {a}), {n}u32,),); "),
                format!("{{ let __s = __sensitive_fmt_alloc::format!(\"{{}}\", {a}); let __count = __s.chars().count() as u64; if __count >= {n}u32 as u64 {{ let __nm1 = ({n}u32 as usize).saturating_sub(1); let __start = __s.char_indices().nth_back(__nm1).map(|(__i, _)| __i).unwrap_or(0); __f.write_str(\"****\")?; __f.write_str(&__s[__start..])?; }} else {{ __f.write_str(\"REDACTED\")?; }} }} "),
            ),
        };
        calls.push_str(&call);
        if i > 0 {
            writes.push_str("__f.write_str(\", \")?; ");
        }
        writes.push_str(&format!("__f.write_str(\"{id}: \")?; {value}"));
        if on_self && matches!(f.plan, FieldPlan::Redact | FieldPlan::Skip) {
            for text in [debug, display] {
                for end in [")", ",", ";", " "] {
                    assert!(!text.contains(&format!("&self.{id}{end}")), "{id} is read");
                }
            }
        }
    }
    assert!(debug.contains(&format!("let mut __builder = __f.debug_struct(\"{name}\"); {calls}__builder.finish()")));
    assert!(display.contains(&format!("__f.write_str(\"{name} {{ \")?; {writes}__f.write_str(\" }}\")")));
}

fn struct_fields(plan: &Plan) -> &Vec<PlannedField> {
    match plan {
        Plan::Struct(fields) => fields,
        Plan::Enum(_) => panic!("not a struct"),
    }
}

fn variant<'a>(plan: &'a Plan, name: &str) -> &'a PlannedVariant {
    match plan {
        Plan::Enum(variants) => variants.iter().find(|v| v.ident == name).expect("variant"),
        Plan::Struct(_) => panic!("not an enum"),
    }
}

fn strings(values: &[&str]) -> Vec<String> {
    values.iter().map(|v| v.to_string()).collect()
}

/// The bounds that a derive adds to the `where` clause of the input.
fn added_bounds(input: &DeriveInputModel, plan: &Plan, derive: Derive) -> usize {
    let fields = sensitive_fmt::codegen::collect_field_types(plan);
    synthesize_where(&input.generics, &input.ident, &fields, derive).added.len()
}


#[test]
fn skeleton_compiles() {
    let input = named_struct("Smoke", &[], vec![field("id", simple("u64"), vec![]), field("name", simple("String"), vec![])]);
    assert!(derive_sensitive_debug(&input).is_ok());
    assert!(derive_sensitive_display(&input).is_ok());
    let p = plan(&input);
    assert_eq!(struct_fields(&p).len(), 2);
}
