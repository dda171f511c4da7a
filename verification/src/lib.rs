//! Planning and code generation for the `SensitiveDebug` and `SensitiveDisplay`
//! derives, which write `Debug` and `Display` implementations that keep
//! sensitive field values (PHI, PII, secrets, tokens) out of log lines.
//!
//! A field may carry one of three modifiers:
//!
//! - `#[sensitive(redact)]` writes `REDACTED`;
//! - `#[sensitive(truncate = N)]` writes `****` and the last `N` code points
//!   of the value's `Display` text, or `REDACTED` when it has fewer;
//! - `#[sensitive(skip)]` writes `<skipped>`.
//!
//! The library reads the derive input as plain values (`input`), plans what
//! each field shows (`parse`), writes the implementation (`codegen`), and
//! states what that implementation writes when it runs (`render`).

use vstd::prelude::*;

pub mod codegen;
pub mod input;
pub mod names;
pub mod parse;
pub mod render;

use crate::codegen::{CodePiece, emit_debug_impl, emit_display_impl, piece_views, spec_debug_impl, spec_display_impl};
use crate::input::DeriveInputModel;
use crate::parse::{PlanError, plan_input, spec_plan_input};

verus! {

/// `#[derive(SensitiveDebug)]`: the `Debug` impl for the input, or why the
/// input cannot have one.
pub fn derive_sensitive_debug(input: &DeriveInputModel) -> (r: Result<Vec<CodePiece>, PlanError>)
    ensures
        match spec_plan_input(*input, "SensitiveDebug"@) {
            Ok(plan) => r matches Ok(out) && piece_views(out@) == spec_debug_impl(*input, plan),
            Err(e) => r matches Err(err) && err@ == e,
        },
{
    match plan_input(input, "SensitiveDebug") {
        Ok(fields) => Ok(emit_debug_impl(input, &fields)),
        Err(err) => Err(err),
    }
}

/// `#[derive(SensitiveDisplay)]`: the `Display` impl for the input, or why
/// the input cannot have one.
pub fn derive_sensitive_display(input: &DeriveInputModel) -> (r: Result<Vec<CodePiece>, PlanError>)
    ensures
        match spec_plan_input(*input, "SensitiveDisplay"@) {
            Ok(plan) => r matches Ok(out) && piece_views(out@) == spec_display_impl(*input, plan),
            Err(e) => r matches Err(err) && err@ == e,
        },
{
    match plan_input(input, "SensitiveDisplay") {
        Ok(fields) => Ok(emit_display_impl(input, &fields)),
        Err(err) => Err(err),
    }
}

} // verus!
