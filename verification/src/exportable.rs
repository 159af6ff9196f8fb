use vstd::prelude::*;

use crate::text::str_eq;

verus! {

/// The type of a struct field, as far as deriving exported metrics looks at
/// it.
pub enum FieldType {
    /// A type path. `ident` is its identifier where the path is a single bare
    /// identifier; `last` is the identifier of its last segment; `first_arg`
    /// is, where the last segment's first generic argument is a type path,
    /// the identifier of that path's last segment.
    Path { ident: Option<String>, last: String, first_arg: Option<String> },
    /// Any type that is not a path.
    Other,
}

/// A named struct field and its `#[prometheus(...)]` settings.
pub struct FieldSpec {
    pub name: String,
    pub ty: FieldType,
    /// The help text given with `description(...)`; empty where none was.
    pub description: String,
    pub ignore: bool,
    pub counter: bool,
}

/// How a plain field is exported.
pub enum MetricKind {
    /// A gauge set to 1 under a label holding the field's text.
    LabelGauge { label_key: String },
    /// A counter increased by the field's value.
    Counter,
    /// A gauge set to the field's value.
    Gauge,
    /// A gauge set to 1 or 0.
    FlagGauge,
}

/// What deriving exported metrics makes of one field.
pub enum FieldPlan {
    /// The field is marked `ignore`.
    Skip,
    /// A metric of its own: its name, the holder field that keeps it, its help
    /// text and its kind.
    Metric { name: String, holder_field: String, description: String, kind: MetricKind },
    /// The metrics of a nested exportable struct, kept in `holder_field` of
    /// type `holder_type`; `optional` where the field is an `Option`.
    Nested { holder_type: String, holder_field: String, optional: bool },
    /// An `Option` whose argument is not a type path: nothing is made.
    Nothing,
    /// A type that is not handled: nothing is made, and a warning is due.
    Unhandled,
}

/// The snake-case form that `heck::ToSnakeCase` gives of `s`.
pub uninterp spec fn snake_case_of(s: Seq<char>) -> Seq<char>;

/// Trusted: calls `heck::ToSnakeCase::to_snake_case`; its result is named,
/// not stated.
#[verifier::external_body]
fn snake_case(s: &str) -> (r: String)
    ensures
        r@ == snake_case_of(s@),
{
    heck::ToSnakeCase::to_snake_case(s)
}

/// The name of the metric of a field: the struct's and the field's snake-case
/// names joined by `_`.
pub open spec fn metric_name(struct_snake: Seq<char>, field_snake: Seq<char>) -> Seq<char> {
    struct_snake + "_"@ + field_snake
}

/// The help text of a metric: the given description, or a default naming
/// the metric where none was given.
pub open spec fn metric_help(description: Seq<char>, name: Seq<char>) -> Seq<char> {
    if description.len() == 0 {
        "Metrics for "@ + name + "."@
    } else {
        description
    }
}

/// Whether a type identifier is one of the integers exported as numbers.
pub open spec fn is_number_ident(i: Seq<char>) -> bool {
    i == "u64"@ || i == "u32"@ || i == "i64"@ || i == "i32"@
}

/// A plan for a metric of its own.
pub open spec fn is_metric_plan(p: FieldPlan, name: Seq<char>, help: Seq<char>, kind: MetricKind) -> bool {
    p matches FieldPlan::Metric { name: n, holder_field: h, description: d, kind: k } && n@ == name
        && h@ == name + "_metric"@ && d@ == help && k == kind
}

/// The plan for a field, given the snake-case names of its struct and of the
/// field itself.
pub open spec fn field_plan_ok(struct_snake: Seq<char>, f: FieldSpec, field_snake: Seq<char>, p: FieldPlan) -> bool {
    let name = metric_name(struct_snake, field_snake);
    let help = metric_help(f.description@, name);
    if f.ignore {
        p is Skip
    } else {
        match f.ty {
            FieldType::Path { ident, last, first_arg } => {
                if ident matches Some(i) && i@ == "String"@ {
                    p matches FieldPlan::Metric { name: n, holder_field: h, description: d, kind: k } && n@
                        == name && h@ == name + "_metric"@ && d@ == help
                        && (k matches MetricKind::LabelGauge { label_key } && label_key@ == field_snake)
                } else if ident matches Some(i) && is_number_ident(i@) {
                    if f.counter {
                        is_metric_plan(p, name, help, MetricKind::Counter)
                    } else {
                        is_metric_plan(p, name, help, MetricKind::Gauge)
                    }
                } else if ident matches Some(i) && i@ == "bool"@ {
                    is_metric_plan(p, name, help, MetricKind::FlagGauge)
                } else if last@ == "Option"@ {
                    match first_arg {
                        Some(inner) => p matches FieldPlan::Nested { holder_type, holder_field, optional }
                            && holder_type@ == inner@ + "MetricsHolder"@ && holder_field@ == f.name@
                            + "_metrics_holder"@ && optional,
                        None => p is Nothing,
                    }
                } else {
                    p matches FieldPlan::Nested { holder_type, holder_field, optional } && holder_type@
                        == last@ + "MetricsHolder"@ && holder_field@ == f.name@ + "_metrics_holder"@
                        && !optional
                }
            },
            FieldType::Other => p is Unhandled,
        }
    }
}

fn concat3(a: &str, b: &str, c: &str) -> (r: String)
    ensures
        r@ == a@ + b@ + c@,
{
    let mut s = String::from_str(a);
    s.append(b);
    s.append(c);
    s
}

fn concat2(a: &str, b: &str) -> (r: String)
    ensures
        r@ == a@ + b@,
{
    let mut s = String::from_str(a);
    s.append(b);
    s
}

fn metric_plan(name: &String, help: &String, kind: MetricKind) -> (r: FieldPlan)
    ensures
        r matches FieldPlan::Metric { name: n, holder_field: h, description: d, kind: k } && n@
            == name@ && h@ == name@ + "_metric"@ && d@ == help@ && k == kind,
{
    let holder = concat2(name.as_str(), "_metric");
    FieldPlan::Metric { name: name.clone(), holder_field: holder, description: help.clone(), kind }
}

/// The plan for the field `f` of a struct, given the snake-case names of the
/// struct and of the field.
pub fn plan_field(struct_snake: &str, f: &FieldSpec, field_snake: &str) -> (r: FieldPlan)
    ensures
        field_plan_ok(struct_snake@, *f, field_snake@, r),
{
    if f.ignore {
        return FieldPlan::Skip;
    }
    let name = concat3(struct_snake, "_", field_snake);
    let help = if f.description.as_str().unicode_len() == 0 {
        concat3("Metrics for ", name.as_str(), ".")
    } else {
        f.description.clone()
    };
    match &f.ty {
        FieldType::Path { ident, last, first_arg } => {
            let (is_string, is_number, is_bool) = match ident {
                Some(i) => {
                    let i = i.as_str();
                    (
                        str_eq(i, "String"),
                        str_eq(i, "u64") || str_eq(i, "u32") || str_eq(i, "i64") || str_eq(i, "i32"),
                        str_eq(i, "bool"),
                    )
                },
                None => (false, false, false),
            };
            if is_string {
                let kind = MetricKind::LabelGauge { label_key: String::from_str(field_snake) };
                metric_plan(&name, &help, kind)
            } else if is_number {
                if f.counter {
                    metric_plan(&name, &help, MetricKind::Counter)
                } else {
                    metric_plan(&name, &help, MetricKind::Gauge)
                }
            } else if is_bool {
                metric_plan(&name, &help, MetricKind::FlagGauge)
            } else if str_eq(last.as_str(), "Option") {
                match first_arg {
                    Some(inner) => FieldPlan::Nested {
                        holder_type: concat2(inner.as_str(), "MetricsHolder"),
                        holder_field: concat2(f.name.as_str(), "_metrics_holder"),
                        optional: true,
                    },
                    None => FieldPlan::Nothing,
                }
            } else {
                FieldPlan::Nested {
                    holder_type: concat2(last.as_str(), "MetricsHolder"),
                    holder_field: concat2(f.name.as_str(), "_metrics_holder"),
                    optional: false,
                }
            }
        },
        FieldType::Other => FieldPlan::Unhandled,
    }
}

/// What deriving exported metrics makes of a struct: the name of its metrics
/// holder and the plan of each field, in order.
pub struct ExportPlan {
    pub holder_name: String,
    pub fields: Vec<FieldPlan>,
}

/// Whether `plans` plans the fields of the struct `struct_name`: one plan
/// per field, in order, each made with the snake-case names of the struct
/// and of the field.
pub open spec fn export_plan_ok(struct_name: Seq<char>, fields: Seq<FieldSpec>, plans: Seq<FieldPlan>) -> bool {
    &&& plans.len() == fields.len()
    &&& forall|i: int|
        0 <= i < fields.len() ==> field_plan_ok(
            snake_case_of(struct_name),
            fields[i],
            snake_case_of(fields[i].name@),
            #[trigger] plans[i],
        )
}

/// A field marked `ignore` changes nothing: its plan is `Skip` (no metric, no
/// holder field, no warning), and without it the other fields are planned
/// exactly as they are with it.
pub proof fn lemma_ignored_field_changes_nothing(
    struct_name: Seq<char>,
    fields: Seq<FieldSpec>,
    plans: Seq<FieldPlan>,
    k: int,
)
    requires
        export_plan_ok(struct_name, fields, plans),
        0 <= k < fields.len(),
        fields[k].ignore,
    ensures
        plans[k] is Skip,
        export_plan_ok(struct_name, fields.remove(k), plans.remove(k)),
{
    assert(field_plan_ok(snake_case_of(struct_name), fields[k], snake_case_of(fields[k].name@), plans[k]));
    let f2 = fields.remove(k);
    let p2 = plans.remove(k);
    assert forall|i: int| 0 <= i < f2.len() implies field_plan_ok(
        snake_case_of(struct_name),
        f2[i],
        snake_case_of(f2[i].name@),
        #[trigger] p2[i],
    ) by {
        let j = if i < k { i } else { i + 1 };
        assert(f2[i] == fields[j] && p2[i] == plans[j]);
        assert(field_plan_ok(snake_case_of(struct_name), fields[j], snake_case_of(fields[j].name@), plans[j]));
    }
}

/// A field that is not ignored and whose type is the bare identifier `u64`,
/// `u32`, `i64` or `i32` gets a metric of its own, named after the struct
/// and the field: a counter where it is marked `counter`, a gauge otherwise.
pub proof fn lemma_integer_fields_are_metrics(struct_snake: Seq<char>, f: FieldSpec, field_snake: Seq<char>, p: FieldPlan)
    requires
        field_plan_ok(struct_snake, f, field_snake, p),
        !f.ignore,
        f.ty matches FieldType::Path { ident: Some(i), .. } && (i@ =~= "u64"@ || i@ =~= "u32"@ || i@
            =~= "i64"@ || i@ =~= "i32"@),
    ensures
        p matches FieldPlan::Metric { name, holder_field, kind, .. } && name@ == struct_snake + "_"@
            + field_snake && holder_field@ == struct_snake + "_"@ + field_snake + "_metric"@ && kind == (
        if f.counter {
            MetricKind::Counter
        } else {
            MetricKind::Gauge
        }),
{
    if let FieldType::Path { ident: Some(i), .. } = f.ty {
        assert(i@ != "String"@) by {
            reveal_strlit("String");
            reveal_strlit("u64");
            reveal_strlit("u32");
            reveal_strlit("i64");
            reveal_strlit("i32");
        }
    }
}

/// A field that is not ignored and whose type is the bare identifier
/// `String` gets a gauge labelled with its value under the field's name; one
/// of type `bool` gets a gauge of 1 or 0. An ignored field is skipped, and a
/// type that is not a path is reported as unhandled.
pub proof fn lemma_text_and_flag_fields(struct_snake: Seq<char>, f: FieldSpec, field_snake: Seq<char>, p: FieldPlan)
    requires
        field_plan_ok(struct_snake, f, field_snake, p),
    ensures
        f.ignore ==> p is Skip,
        !f.ignore && f.ty is Other ==> p is Unhandled,
        !f.ignore && (f.ty matches FieldType::Path { ident: Some(i), .. } && i@ =~= "String"@) ==> (
        p matches FieldPlan::Metric { name, kind: MetricKind::LabelGauge { label_key }, .. } && name@
            == struct_snake + "_"@ + field_snake && label_key@ == field_snake),
        !f.ignore && (f.ty matches FieldType::Path { ident: Some(i), .. } && i@ =~= "bool"@) ==> (
        p matches FieldPlan::Metric { name, kind: MetricKind::FlagGauge, .. } && name@ == struct_snake
            + "_"@ + field_snake),
{
    if let FieldType::Path { ident: Some(i), .. } = f.ty {
        if i@ =~= "bool"@ {
            assert(i@ != "String"@ && !is_number_ident(i@)) by {
                reveal_strlit("String");
                reveal_strlit("bool");
                reveal_strlit("u64");
                reveal_strlit("u32");
                reveal_strlit("i64");
                reveal_strlit("i32");
            }
        }
    }
}

/// Plans the metrics of the struct `struct_name` with the given fields: the
/// holder is named after the struct, and each field is planned with the
/// snake-case names of the struct and of the field.
pub fn plan_export(struct_name: &str, fields: &Vec<FieldSpec>) -> (r: ExportPlan)
    ensures
        r.holder_name@ == struct_name@ + "MetricsHolder"@,
        export_plan_ok(struct_name@, fields@, r.fields@),
{
    let struct_snake = snake_case(struct_name);
    let mut plans: Vec<FieldPlan> = Vec::new();
    let mut i: usize = 0;
    while i < fields.len()
        invariant
            i <= fields@.len(),
            struct_snake@ == snake_case_of(struct_name@),
            plans@.len() == i,
            forall|j: int|
                0 <= j < i ==> field_plan_ok(
                    snake_case_of(struct_name@),
                    fields@[j],
                    snake_case_of(fields@[j].name@),
                    #[trigger] plans@[j],
                ),
        decreases fields@.len() - i,
    {
        let f = &fields[i];
        let field_snake = snake_case(f.name.as_str());
        let p = plan_field(struct_snake.as_str(), f, field_snake.as_str());
        plans.push(p);
        i = i + 1;
    }
    let holder_name = concat2(struct_name, "MetricsHolder");
    ExportPlan { holder_name, fields: plans }
}

} // verus!
