//! A model of what the generated implementations write when they run.
//!
//! The model is a separate statement of the runtime output: Verus cannot state
//! what the emitted Rust text does when it is compiled and run, so nothing here
//! is proved of that text. The tests tie the two together by checking the
//! emitted code and this model on the same inputs; the emitted text's own laws
//! (which fields it reads, how it formats a truncated value) stand in `codegen`.
//!
//! A field's own formatting is the user's code, so these functions take the
//! text that it produces: for a plain field, the text of the derived trait
//! (`Debug` or `Display`); for a truncated field, its `Display` text; for a
//! redacted or skipped field nothing is read, and any text may be passed.

use vstd::prelude::*;
use vstd::string::{StrSliceExecFns, StringExecFns};

use crate::codegen::Derive;
use crate::names::names;
use crate::parse::{FieldPlan, PlannedField, PlannedVariant, VariantShape, field_plan_wf, fields_wf};

verus! {

/// `****` and the last `n` code points of `value`, or `REDACTED` where it
/// has fewer than `n` code points.
pub open spec fn spec_truncated(value: Seq<char>, n: nat) -> Seq<char> {
    if value.len() >= n {
        "****"@ + value.subrange(value.len() - n, value.len() as int)
    } else {
        "REDACTED"@
    }
}

/// What `#[sensitive(truncate = n)]` writes for a value whose `Display` text
/// is `value`.
pub fn truncated_text(value: &str, n: u32) -> (r: String)
    requires
        n >= 1,
    ensures
        r@ == spec_truncated(value@, n as nat),
{
    let count = value.unicode_len();
    let n = n as usize;
    if count >= n {
        let tail = value.substring_char(count - n, count);
        let mut out = String::from_str("****");
        out.append(tail);
        out
    } else {
        String::from_str("REDACTED")
    }
}

/// What a field with the plan `plan` shows, where `value` is the text of its
/// own formatting.
pub open spec fn spec_field_text(plan: FieldPlan, value: Seq<char>) -> Seq<char> {
    match plan {
        FieldPlan::Plain => value,
        FieldPlan::Redact => "REDACTED"@,
        FieldPlan::Skip => "<skipped>"@,
        FieldPlan::Truncate(n) => spec_truncated(value, n as nat),
    }
}

pub fn field_text(plan: &FieldPlan, value: &str) -> (r: String)
    requires
        field_plan_wf(*plan),
    ensures
        r@ == spec_field_text(*plan, value@),
{
    match plan {
        FieldPlan::Plain => String::from_str(value),
        FieldPlan::Redact => String::from_str("REDACTED"),
        FieldPlan::Skip => String::from_str("<skipped>"),
        FieldPlan::Truncate(n) => truncated_text(value, *n),
    }
}

/// `label: text` for one field.
pub open spec fn entry_text(f: PlannedField, value: Seq<char>) -> Seq<char> {
    f.ident@ + ": "@ + spec_field_text(f.plan, value)
}

/// The entries of a group, separated by `, `.
pub open spec fn entries_text(fs: Seq<PlannedField>, values: Seq<Seq<char>>) -> Seq<char>
    decreases fs.len(),
{
    if fs.len() == 0 {
        Seq::empty()
    } else {
        entries_text(fs.drop_last(), values.drop_last()) + (if fs.len() > 1 {
            ", "@
        } else {
            Seq::empty()
        }) + entry_text(fs.last(), values.last())
    }
}

/// What a named-field group writes on one line, in `Debug` and in `Display`
/// alike: `Name {}` without fields, `Name { a: .., b: .. }` with them.
pub open spec fn spec_render_group(name: Seq<char>, fs: Seq<PlannedField>, values: Seq<Seq<char>>) -> Seq<
    char,
> {
    if fs.len() == 0 {
        name + " {}"@
    } else {
        name + " { "@ + entries_text(fs, values) + " }"@
    }
}

/// The text of a struct or struct variant named `name` with the fields
/// `fields`, where `values[i]` is the text of field `i`'s own formatting.
pub fn render_group(name: &str, fields: &Vec<PlannedField>, values: &Vec<String>) -> (r: String)
    requires
        values@.len() == fields@.len(),
        fields_wf(fields@),
    ensures
        r@ == spec_render_group(name@, fields@, names(values@)),
{
    let mut out = String::from_str(name);
    if fields.len() == 0 {
        out.append(" {}");
        return out;
    }
    out.append(" { ");
    let ghost head = out@;
    let ghost vs = names(values@);
    let mut i: usize = 0;
    assert(head + entries_text(fields@.take(0), vs.take(0)) =~= head);
    while i < fields.len()
        invariant
            i <= fields@.len(),
            values@.len() == fields@.len(),
            fields_wf(fields@),
            vs == names(values@),
            out@ == head + entries_text(fields@.take(i as int), vs.take(i as int)),
        decreases fields@.len() - i,
    {
        let f = &fields[i];
        assert(field_plan_wf(fields@[i as int].plan));
        if i > 0 {
            out.append(", ");
        } else {
            assert(out@ =~= out@ + Seq::<char>::empty());
        }
        out.append(f.ident.as_str());
        out.append(": ");
        let t = field_text(&f.plan, values[i].as_str());
        out.append(t.as_str());
        assert(fields@.take(i + 1).drop_last() =~= fields@.take(i as int));
        assert(vs.take(i + 1).drop_last() =~= vs.take(i as int));
        assert(vs.take(i + 1).last() == values@[i as int]@);
        assert(out@ =~= head + entries_text(fields@.take(i + 1), vs.take(i + 1)));
        i = i + 1;
    }
    assert(fields@.take(i as int) =~= fields@);
    assert(vs.take(i as int) =~= vs);
    out.append(" }");
    out
}

/// `s` with four spaces in front of every line, as `{:#?}` indents a field.
pub open spec fn pad_text(s: Seq<char>) -> Seq<char>
    decreases s.len(),
{
    if s.len() == 0 {
        Seq::empty()
    } else {
        pad_text(s.drop_last()) + (if s.len() == 1 || s[s.len() - 2] == '\n' {
            "    "@
        } else {
            Seq::empty()
        }) + seq![s.last()]
    }
}

/// One field of a `{:#?}` group, on lines of its own.
pub open spec fn pretty_entry(f: PlannedField, value: Seq<char>) -> Seq<char> {
    pad_text(entry_text(f, value) + ",\n"@)
}

pub open spec fn pretty_entries(fs: Seq<PlannedField>, values: Seq<Seq<char>>) -> Seq<char>
    decreases fs.len(),
{
    if fs.len() == 0 {
        Seq::empty()
    } else {
        pretty_entries(fs.drop_last(), values.drop_last()) + pretty_entry(fs.last(), values.last())
    }
}

/// What a named-field group writes under `{:#?}`: `Name {}` without fields;
/// with them, `Name {` and a line per field, indented, ending with `,`, then `}`.
pub open spec fn spec_render_group_pretty(
    name: Seq<char>,
    fs: Seq<PlannedField>,
    values: Seq<Seq<char>>,
) -> Seq<char> {
    if fs.len() == 0 {
        name + " {}"@
    } else {
        name + " {\n"@ + pretty_entries(fs, values) + "}"@
    }
}

fn push_padded(out: &mut String, s: &str)
    ensures
        final(out)@ == old(out)@ + pad_text(s@),
{
    let len = s.unicode_len();
    let ghost start = out@;
    let mut i: usize = 0;
    assert(start + pad_text(s@.take(0)) =~= start);
    while i < len
        invariant
            len == s@.len(),
            i <= len,
            out@ == start + pad_text(s@.take(i as int)),
        decreases len - i,
    {
        let ghost t = s@.take(i + 1);
        assert(t.drop_last() =~= s@.take(i as int));
        assert(t.last() == s@[i as int]);
        let indent = i == 0 || s.get_char(i - 1) == '\n';
        if indent {
            out.append("    ");
        } else {
            assert(out@ =~= out@ + Seq::<char>::empty());
        }
        assert(i > 0 ==> t[t.len() - 2] == s@[i - 1]);
        let c = s.substring_char(i, i + 1);
        assert(c@ =~= seq![s@[i as int]]);
        out.append(c);
        assert(out@ =~= start + pad_text(t));
        i = i + 1;
    }
    assert(s@.take(len as int) =~= s@);
}

/// The `{:#?}` text of a struct or struct variant named `name`, where
/// `values[i]` is the `{:#?}` text of field `i`'s own formatting.
pub fn render_group_pretty(name: &str, fields: &Vec<PlannedField>, values: &Vec<String>) -> (r:
    String)
    requires
        values@.len() == fields@.len(),
        fields_wf(fields@),
    ensures
        r@ == spec_render_group_pretty(name@, fields@, names(values@)),
{
    let mut out = String::from_str(name);
    if fields.len() == 0 {
        out.append(" {}");
        return out;
    }
    out.append(" {\n");
    let ghost head = out@;
    let ghost vs = names(values@);
    let mut i: usize = 0;
    assert(head + pretty_entries(fields@.take(0), vs.take(0)) =~= head);
    while i < fields.len()
        invariant
            i <= fields@.len(),
            values@.len() == fields@.len(),
            fields_wf(fields@),
            vs == names(values@),
            out@ == head + pretty_entries(fields@.take(i as int), vs.take(i as int)),
        decreases fields@.len() - i,
    {
        let f = &fields[i];
        assert(field_plan_wf(fields@[i as int].plan));
        let mut entry = f.ident.clone();
        entry.append(": ");
        let t = field_text(&f.plan, values[i].as_str());
        entry.append(t.as_str());
        entry.append(",\n");
        push_padded(&mut out, entry.as_str());
        assert(fields@.take(i + 1).drop_last() =~= fields@.take(i as int));
        assert(vs.take(i + 1).drop_last() =~= vs.take(i as int));
        assert(vs.take(i + 1).last() == values@[i as int]@);
        assert(out@ =~= head + pretty_entries(fields@.take(i + 1), vs.take(i + 1)));
        i = i + 1;
    }
    assert(fields@.take(i as int) =~= fields@);
    assert(vs.take(i as int) =~= vs);
    out.append("}");
    out
}

/// What a variant writes: its bare name for a unit variant, its group otherwise.
pub open spec fn spec_render_variant(v: PlannedVariant, values: Seq<Seq<char>>, pretty: bool) -> Seq<
    char,
> {
    match v.shape {
        VariantShape::Unit => v.ident@,
        VariantShape::Struct(fs) => if pretty {
            spec_render_group_pretty(v.ident@, fs@, values)
        } else {
            spec_render_group(v.ident@, fs@, values)
        },
    }
}

/// The number of fields of a variant.
pub open spec fn variant_len(v: PlannedVariant) -> nat {
    match v.shape {
        VariantShape::Unit => 0,
        VariantShape::Struct(fs) => fs@.len(),
    }
}

pub open spec fn variant_wf(v: PlannedVariant) -> bool {
    v.shape matches VariantShape::Struct(fs) ==> fields_wf(fs@)
}

/// The text of the variant `variant`, on one line (`pretty == false`) or
/// under `{:#?}`.
pub fn render_variant(variant: &PlannedVariant, values: &Vec<String>, pretty: bool) -> (r: String)
    requires
        values@.len() == variant_len(*variant),
        variant_wf(*variant),
    ensures
        r@ == spec_render_variant(*variant, names(values@), pretty),
{
    match &variant.shape {
        VariantShape::Unit => variant.ident.clone(),
        VariantShape::Struct(fields) => {
            if pretty {
                render_group_pretty(variant.ident.as_str(), fields, values)
            } else {
                render_group(variant.ident.as_str(), fields, values)
            }
        },
    }
}


// ---- Laws ----

/// Two texts of a field's own formatting that its plan shows alike: plain
/// fields show all of it; redacted and skipped ones nothing; truncated ones
/// whether it has `n` code points, and if so its last `n`.
pub open spec fn shown_alike(p: FieldPlan, v1: Seq<char>, v2: Seq<char>) -> bool {
    match p {
        FieldPlan::Plain => v1 == v2,
        FieldPlan::Redact => true,
        FieldPlan::Skip => true,
        FieldPlan::Truncate(n) => (v1.len() >= n) == (v2.len() >= n) && (v1.len() >= n ==> v1.subrange(
            v1.len() - n,
            v1.len() as int,
        ) == v2.subrange(v2.len() - n, v2.len() as int)),
    }
}

proof fn lemma_entries_alike(fs: Seq<PlannedField>, v1: Seq<Seq<char>>, v2: Seq<Seq<char>>)
    requires
        v1.len() == fs.len(),
        v2.len() == fs.len(),
        forall|i: int| 0 <= i < fs.len() ==> shown_alike(#[trigger] fs[i].plan, v1[i], v2[i]),
    ensures
        entries_text(fs, v1) == entries_text(fs, v2),
        pretty_entries(fs, v1) == pretty_entries(fs, v2),
    decreases fs.len(),
{
    if fs.len() > 0 {
        let k = fs.len() - 1;
        assert(shown_alike(fs[k].plan, v1[k], v2[k]));
        assert forall|i: int| 0 <= i < fs.drop_last().len() implies shown_alike(
            #[trigger] fs.drop_last()[i].plan,
            v1.drop_last()[i],
            v2.drop_last()[i],
        ) by {
            assert(fs.drop_last()[i] == fs[i]);
        }
        lemma_entries_alike(fs.drop_last(), v1.drop_last(), v2.drop_last());
        assert(spec_field_text(fs.last().plan, v1.last()) == spec_field_text(
            fs.last().plan,
            v2.last(),
        ));
    }
}

/// The central promise: what a redacted or skipped field holds never reaches
/// the output, and of a truncated field only whether it has `n` code points
/// and its last `n` do. Two values of a type whose fields are shown alike
/// write the same text, on one line and under `{:#?}`.
pub proof fn law_hidden_text_is_never_shown(
    name: Seq<char>,
    fs: Seq<PlannedField>,
    values1: Seq<Seq<char>>,
    values2: Seq<Seq<char>>,
)
    requires
        values1.len() == fs.len(),
        values2.len() == fs.len(),
        forall|i: int| 0 <= i < fs.len() ==> shown_alike(#[trigger] fs[i].plan, values1[i], values2[i]),
    ensures
        spec_render_group(name, fs, values1) == spec_render_group(name, fs, values2),
        spec_render_group_pretty(name, fs, values1) == spec_render_group_pretty(name, fs, values2),
{
    lemma_entries_alike(fs, values1, values2);
}

/// Truncation writes `REDACTED`, or `****` and then exactly the last `n` code
/// points of the value: never more of it, and never anything else.
pub proof fn law_truncation_shows_at_most_the_tail(value: Seq<char>, n: nat)
    ensures
        spec_truncated(value, n) == "REDACTED"@ || (value.len() >= n && spec_truncated(value, n)
            == "****"@ + value.subrange(value.len() - n, value.len() as int)),
{
}

/// The text that a field's own formatting hands to `derive`, from the texts
/// of its `Debug` and `Display` formatting: a plain field is formatted with
/// the derived trait; every other field with `Display` (a truncated field is
/// formatted with `Display` in both derives, and a hidden one is not read).
pub open spec fn derived_value(derive: Derive, p: FieldPlan, debug: Seq<char>, display: Seq<char>) -> Seq<
    char,
> {
    match derive {
        Derive::DebugDerive => if p == FieldPlan::Plain {
            debug
        } else {
            display
        },
        Derive::DisplayDerive => display,
    }
}

/// The texts handed to `derive` by each field of `fs`.
pub open spec fn derived_values(
    derive: Derive,
    fs: Seq<PlannedField>,
    debug_texts: Seq<Seq<char>>,
    display_texts: Seq<Seq<char>>,
) -> Seq<Seq<char>> {
    Seq::new(fs.len(), |i: int| derived_value(derive, fs[i].plan, debug_texts[i], display_texts[i]))
}

/// What `derive` writes on one line for a group named `name` with the fields
/// `fs`, where `debug_texts[i]` and `display_texts[i]` are the texts of field
/// `i`'s own `Debug` and `Display` formatting.
pub open spec fn spec_render_derived(
    derive: Derive,
    name: Seq<char>,
    fs: Seq<PlannedField>,
    debug_texts: Seq<Seq<char>>,
    display_texts: Seq<Seq<char>>,
) -> Seq<char> {
    spec_render_group(name, fs, derived_values(derive, fs, debug_texts, display_texts))
}

/// Both derives write the same braces, labels, separators and markers: where
/// every plain field's `Debug` and `Display` texts agree, the `Display` output
/// of a value is its `Debug` output.
pub proof fn law_display_matches_debug(
    name: Seq<char>,
    fs: Seq<PlannedField>,
    debug_texts: Seq<Seq<char>>,
    display_texts: Seq<Seq<char>>,
)
    requires
        debug_texts.len() == fs.len(),
        display_texts.len() == fs.len(),
        forall|i: int|
            0 <= i < fs.len() && #[trigger] fs[i].plan == FieldPlan::Plain ==> debug_texts[i]
                == display_texts[i],
    ensures
        spec_render_derived(Derive::DisplayDerive, name, fs, debug_texts, display_texts)
            == spec_render_derived(Derive::DebugDerive, name, fs, debug_texts, display_texts),
{
    let d1 = derived_values(Derive::DebugDerive, fs, debug_texts, display_texts);
    let d2 = derived_values(Derive::DisplayDerive, fs, debug_texts, display_texts);
    assert forall|i: int| 0 <= i < fs.len() implies d1[i] == d2[i] by {
        if fs[i].plan == FieldPlan::Plain {
            assert(debug_texts[i] == display_texts[i]);
        }
    }
    assert(d1 =~= d2);
}

/// A truncated field shows the same text in both derives: `****` and the
/// tail of its `Display` text, or `REDACTED`.
pub proof fn law_truncation_is_the_same_in_both_derives(
    n: u32,
    debug: Seq<char>,
    display: Seq<char>,
)
    ensures
        spec_field_text(
            FieldPlan::Truncate(n),
            derived_value(Derive::DebugDerive, FieldPlan::Truncate(n), debug, display),
        ) == spec_field_text(
            FieldPlan::Truncate(n),
            derived_value(Derive::DisplayDerive, FieldPlan::Truncate(n), debug, display),
        ),
        spec_field_text(
            FieldPlan::Truncate(n),
            derived_value(Derive::DisplayDerive, FieldPlan::Truncate(n), debug, display),
        ) == spec_truncated(display, n as nat),
{
}

/// What std's `#[derive(Debug)]` writes on one line for a struct whose fields
/// are labelled `labels` and whose values' `Debug` texts are `texts`, as std
/// documents it: `label: text` for each field, separated by `, `.
pub open spec fn std_debug_fields(labels: Seq<Seq<char>>, texts: Seq<Seq<char>>) -> Seq<char>
    decreases labels.len(),
{
    if labels.len() == 0 {
        Seq::empty()
    } else {
        std_debug_fields(labels.drop_last(), texts.drop_last()) + (if labels.len() > 1 {
            ", "@
        } else {
            Seq::empty()
        }) + labels.last() + ": "@ + texts.last()
    }
}

/// What std's `#[derive(Debug)]` writes on one line for a struct with at
/// least one field: the name, ` { `, the fields, ` }`.
pub open spec fn std_struct_debug(name: Seq<char>, labels: Seq<Seq<char>>, texts: Seq<Seq<char>>) -> Seq<
    char,
> {
    name + " { "@ + std_debug_fields(labels, texts) + " }"@
}

/// The labels of the fields `fs`.
pub open spec fn labels(fs: Seq<PlannedField>) -> Seq<Seq<char>> {
    fs.map_values(|f: PlannedField| f.ident@)
}

proof fn lemma_plain_entries(fs: Seq<PlannedField>, texts: Seq<Seq<char>>)
    requires
        texts.len() == fs.len(),
        forall|i: int| 0 <= i < fs.len() ==> #[trigger] fs[i].plan == FieldPlan::Plain,
    ensures
        entries_text(fs, texts) == std_debug_fields(labels(fs), texts),
    decreases fs.len(),
{
    if fs.len() > 0 {
        assert forall|i: int| 0 <= i < fs.drop_last().len() implies #[trigger] fs.drop_last()[i].plan
            == FieldPlan::Plain by {
            assert(fs.drop_last()[i] == fs[i]);
        }
        lemma_plain_entries(fs.drop_last(), texts.drop_last());
        assert(labels(fs).drop_last() =~= labels(fs.drop_last()));
        assert(fs.last() == fs[fs.len() - 1]);
        assert(labels(fs).last() == fs.last().ident@);
        assert(entry_text(fs.last(), texts.last()) =~= fs.last().ident@ + ": "@ + texts.last());
    }
}

/// Without markers, `SensitiveDebug` writes what std's `#[derive(Debug)]`
/// writes for a struct with at least one field. (For a struct without fields
/// it writes `Name {}`, where std writes `Name`.)
pub proof fn law_plain_debug_is_std_debug(
    name: Seq<char>,
    fs: Seq<PlannedField>,
    debug_texts: Seq<Seq<char>>,
    display_texts: Seq<Seq<char>>,
)
    requires
        fs.len() >= 1,
        debug_texts.len() == fs.len(),
        display_texts.len() == fs.len(),
        forall|i: int| 0 <= i < fs.len() ==> #[trigger] fs[i].plan == FieldPlan::Plain,
    ensures
        spec_render_derived(Derive::DebugDerive, name, fs, debug_texts, display_texts)
            == std_struct_debug(name, labels(fs), debug_texts),
{
    let d = derived_values(Derive::DebugDerive, fs, debug_texts, display_texts);
    assert forall|i: int| 0 <= i < fs.len() implies d[i] == debug_texts[i] by {
        assert(fs[i].plan == FieldPlan::Plain);
    }
    assert(d =~= debug_texts);
    lemma_plain_entries(fs, debug_texts);
}

/// The code point at which `s.char_indices().nth_back(k)` stands in a text of
/// `len` code points: std's `nth_back(k)` yields the `k + 1`-th item counted
/// from the back.
pub open spec fn nth_back_position(len: nat, k: nat) -> int {
    len - 1 - k
}

/// Truncating to `n` keeps exactly the code points from the one at which
/// `char_indices().nth_back(n - 1)` stands, the code the emitted truncation
/// runs: the last `n`, behind `****`; a shorter text shows `REDACTED`.
pub proof fn law_truncation_keeps_from_nth_back(s: Seq<char>, n: nat)
    requires
        n >= 1,
    ensures
        s.len() >= n ==> spec_truncated(s, n) == "****"@ + s.subrange(
            nth_back_position(s.len(), (n - 1) as nat),
            s.len() as int,
        ),
        s.len() >= n ==> s.subrange(nth_back_position(s.len(), (n - 1) as nat), s.len() as int).len()
            == n,
        s.len() < n ==> spec_truncated(s, n) == "REDACTED"@,
{
}

} // verus!
