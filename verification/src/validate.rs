//! The validator and its pre-standardisation rules.
//!
//! Each rule is a pure function from the schema views to a diagnostic
//! sequence; the specification function beside each rule method pins that
//! sequence down — order, messages and spans included. The two passes are
//! assembled from the rules in a fixed order.
use vstd::prelude::*;

verus! {

use crate::ast;
use crate::ast::SchemaAst;
use crate::ast::Span;
use crate::connector::ActiveConnector;
use crate::connector::ConnectorCapabilities;
use crate::connector::Datasource;
use crate::diagnostics::DatamodelError;
use crate::diagnostics::Diagnostics;
use crate::diagnostics::ErrorView;
use crate::dml;
use crate::dml::Datamodel;
use crate::dml::Field;
use crate::dml::FieldArity;
use crate::dml::FieldType;
use crate::dml::Model;
use crate::dml::ScalarField;
use crate::dml::ScalarType;
use crate::dml::auto_increment_fields_of;
use crate::dml::field_is_indexed_spec;
use crate::dml::field_name;
use crate::dml::find_enum_from;
use crate::dml::is_auto_increment_spec;
use crate::dml::loose_unique_criterias_spec;
use crate::dml::scalar_fields_of;
use crate::dml::singular_id_fields_of;
use crate::dml::strict_unique_criterias_spec;
use crate::messages;
use crate::text::string_eq_str;
use crate::text::string_views;
use vstd::pervasive::unreached;

/// Helper for validating a data model: checks the domain rules and collects a
/// diagnostic for every violation.
pub struct Validator<'a, C: ActiveConnector> {
    /// The configured datasource, if any; rules consult its capabilities and
    /// its active connector.
    pub source: Option<&'a Datasource<C>>,
}

// --- Shared helpers -----------------------------------------------------------

/// One diagnostic or none, as a sequence.
pub open spec fn one_or_none(e: Option<ErrorView>) -> Seq<ErrorView> {
    match e {
        Some(e) => seq![e],
        None => Seq::empty(),
    }
}

/// The datasource value behind the validator's optional reference.
pub open spec fn source_view<C: ActiveConnector>(source: Option<&Datasource<C>>) -> Option<
    Datasource<C>,
> {
    match source {
        Some(ds) => Some(*ds),
        None => None,
    }
}

/// The capability record, when a datasource is configured.
pub open spec fn caps_of<C: ActiveConnector>(source: Option<Datasource<C>>) -> Option<
    ConnectorCapabilities,
> {
    match source {
        Some(ds) => Some(ds.combined_connector),
        None => None,
    }
}

/// The span of the named field in the AST model; the empty span when the
/// lookup fails (well-formed inputs rule that out).
pub open spec fn ast_field_span_spec(am: ast::Model, name: Seq<char>) -> Span {
    match am.find_field_spec(name) {
        Some(f) => f.span,
        None => Span::empty_spec(),
    }
}

/// The AST declaration of the named model; arbitrary when it is missing
/// (well-formed inputs rule that out).
pub open spec fn ast_model_of(ast: SchemaAst, name: Seq<char>) -> ast::Model {
    match ast.find_model_spec(name) {
        Some(m) => m,
        None => vstd::pervasive::arbitrary(),
    }
}

/// The span of the named field in the AST model; the empty span when the
/// lookup fails.
pub fn ast_field_span(am: &ast::Model, name: &str) -> (s: Span)
    ensures
        s == ast_field_span_spec(*am, name@),
{
    match am.find_field(name) {
        Some(f) => f.span,
        None => Span::empty(),
    }
}

// --- Name validity (pass 1) -----------------------------------------------------

/// The diagnostics of a list of attributes, in order.
pub open spec fn attrs_errors(attrs: Seq<ast::Attribute>) -> Seq<ErrorView>
    decreases attrs.len(),
{
    if attrs.len() == 0 {
        Seq::empty()
    } else {
        attrs_errors(attrs.drop_last()) + one_or_none(ast::attribute_error(attrs.last()))
    }
}

/// The name diagnostics of a model's fields, each followed by its attributes'.
pub open spec fn fields_name_errors(fields: Seq<ast::Field>) -> Seq<ErrorView>
    decreases fields.len(),
{
    if fields.len() == 0 {
        Seq::empty()
    } else {
        fields_name_errors(fields.drop_last()) + one_or_none(
            ast::identifier_error(fields.last().name, "Field"@),
        ) + attrs_errors(fields.last().attributes@)
    }
}

/// The name diagnostics of one model: its own name, its attributes, then its
/// fields.
pub open spec fn model_names_errors(m: ast::Model) -> Seq<ErrorView> {
    one_or_none(ast::identifier_error(m.name, "Model"@)) + attrs_errors(m.attributes@)
        + fields_name_errors(m.fields@)
}

pub open spec fn models_names_errors(models: Seq<ast::Model>) -> Seq<ErrorView>
    decreases models.len(),
{
    if models.len() == 0 {
        Seq::empty()
    } else {
        models_names_errors(models.drop_last()) + model_names_errors(models.last())
    }
}

/// The name diagnostics of an enum's values, each followed by its attributes'.
pub open spec fn enum_values_name_errors(values: Seq<ast::EnumValue>) -> Seq<ErrorView>
    decreases values.len(),
{
    if values.len() == 0 {
        Seq::empty()
    } else {
        enum_values_name_errors(values.drop_last()) + one_or_none(
            ast::identifier_error(values.last().name, "Enum Value"@),
        ) + attrs_errors(values.last().attributes@)
    }
}

/// The name diagnostics of one enum: its own name, its attributes, then its
/// values.
pub open spec fn enum_names_errors(e: ast::Enum) -> Seq<ErrorView> {
    one_or_none(ast::identifier_error(e.name, "Enum"@)) + attrs_errors(e.attributes@)
        + enum_values_name_errors(e.values@)
}

pub open spec fn enums_names_errors(enums: Seq<ast::Enum>) -> Seq<ErrorView>
    decreases enums.len(),
{
    if enums.len() == 0 {
        Seq::empty()
    } else {
        enums_names_errors(enums.drop_last()) + enum_names_errors(enums.last())
    }
}

/// Every name diagnostic of the schema: models first, then enums, in
/// declaration order.
pub open spec fn names_errors(ast: SchemaAst) -> Seq<ErrorView> {
    models_names_errors(ast.models@) + enums_names_errors(ast.enums@)
}

/// Appends the diagnostics of a list of attributes.
fn collect_attribute_errors(attrs: &Vec<ast::Attribute>, errors: &mut Diagnostics)
    ensures
        final(errors)@ == old(errors)@ + attrs_errors(attrs@),
{
    let ghost base = errors@;
    let mut i: usize = 0;
    proof {
        assert(errors@ =~= base + attrs_errors(attrs@.take(0)));
    }
    while i < attrs.len()
        invariant
            i <= attrs@.len(),
            errors@ == base + attrs_errors(attrs@.take(i as int)),
        decreases attrs@.len() - i,
    {
        proof {
            assert(attrs@.take(i + 1).drop_last() =~= attrs@.take(i as int));
            assert(attrs@.take(i + 1).last() == attrs@[i as int]);
        }
        errors.push_opt_error(attrs[i].validate());
        proof {
            assert(errors@ =~= base + attrs_errors(attrs@.take(i + 1)));
        }
        i = i + 1;
    }
    proof {
        assert(attrs@.take(attrs@.len() as int) =~= attrs@);
    }
}

// --- Index names (pass 1) ---------------------------------------------------------

/// The span blamed for a duplicate index name: the model's first index
/// attribute, or the model itself when none is found.
pub open spec fn index_attribute_span(am: ast::Model) -> Span {
    match ast::find_index_attribute_from(am.attributes@, 0) {
        Some(a) => a.span,
        None => am.span,
    }
}

/// The index names of the model's first `n` indexes added to `seen`.
pub open spec fn index_names_after(m: Model, seen: Seq<Seq<char>>, n: int) -> Seq<Seq<char>>
    decreases n,
{
    if n <= 0 {
        seen
    } else {
        let prev = index_names_after(m, seen, n - 1);
        match m.indices@[n - 1].name {
            Some(nm) => prev.push(nm@),
            None => prev,
        }
    }
}

/// The duplicate-index-name diagnostics of the model's first `n` indexes,
/// given the names already seen.
pub open spec fn index_name_errors_in_model(
    am: ast::Model,
    m: Model,
    seen: Seq<Seq<char>>,
    multiple_ok: bool,
    n: int,
) -> Seq<ErrorView>
    decreases n,
{
    if n <= 0 {
        Seq::empty()
    } else {
        let prefix = index_name_errors_in_model(am, m, seen, multiple_ok, n - 1);
        let seen_here = index_names_after(m, seen, n - 1);
        prefix + match m.indices@[n - 1].name {
            Some(nm) => if seen_here.contains(nm@) && !multiple_ok {
                seq![
                    ErrorView::MultipleIndexesWithSameName {
                        index_name: nm@,
                        span: index_attribute_span(am),
                    },
                ]
            } else {
                Seq::empty()
            },
            None => Seq::empty(),
        }
    }
}

/// The names seen after walking the first `n` models (models without an AST
/// declaration contribute nothing).
pub open spec fn index_names_upto(ast: SchemaAst, dm: Datamodel, n: int) -> Seq<Seq<char>>
    decreases n,
{
    if n <= 0 {
        Seq::empty()
    } else {
        let prev = index_names_upto(ast, dm, n - 1);
        let m = dm.models@[n - 1];
        match ast.find_model_spec(m.name@) {
            Some(_) => index_names_after(m, prev, m.indices@.len() as int),
            None => prev,
        }
    }
}

/// The duplicate-index-name diagnostics of the first `n` models.
pub open spec fn index_name_errors_upto(
    ast: SchemaAst,
    dm: Datamodel,
    multiple_ok: bool,
    n: int,
) -> Seq<ErrorView>
    decreases n,
{
    if n <= 0 {
        Seq::empty()
    } else {
        let prefix = index_name_errors_upto(ast, dm, multiple_ok, n - 1);
        let seen = index_names_upto(ast, dm, n - 1);
        let m = dm.models@[n - 1];
        prefix + match ast.find_model_spec(m.name@) {
            Some(am) => index_name_errors_in_model(am, m, seen, multiple_ok, m.indices@.len() as int),
            None => Seq::empty(),
        }
    }
}

/// Duplicate index names across the whole schema, unless the connector
/// supports several indexes sharing a name.
pub open spec fn index_name_errors<C: ActiveConnector>(
    ast: SchemaAst,
    dm: Datamodel,
    source: Option<Datasource<C>>,
) -> Seq<ErrorView> {
    let multiple_ok = match caps_of(source) {
        Some(c) => c.supports_multiple_indexes_with_same_name,
        None => false,
    };
    index_name_errors_upto(ast, dm, multiple_ok, dm.models@.len() as int)
}

// --- Identity-field arity (pass 1) --------------------------------------------------

/// The span blamed for a non-required id field: its `@id` attribute, the
/// field, or the empty span as the lookups allow.
pub open spec fn id_arity_span(am: ast::Model, field: Seq<char>) -> Span {
    match am.find_field_spec(field) {
        Some(f) => match ast::find_attribute_spec(f.attributes@, "id"@) {
            Some(a) => a.span,
            None => f.span,
        },
        None => Span::empty_spec(),
    }
}

/// A scalar field marked `@id` must be required, unless the model is ignored.
pub open spec fn id_arity_field_error(am: ast::Model, m: Model, sf: ScalarField) -> Option<
    ErrorView,
> {
    if sf.is_id && sf.arity != FieldArity::Required && !m.is_ignored {
        Some(
            ErrorView::AttributeValidation {
                message: "Fields that are marked as id must be required."@,
                attribute: "id"@,
                span: id_arity_span(am, sf.name@),
            },
        )
    } else {
        None
    }
}

pub open spec fn id_arity_errors_rec(am: ast::Model, m: Model, scalars: Seq<ScalarField>) -> Seq<
    ErrorView,
>
    decreases scalars.len(),
{
    if scalars.len() == 0 {
        Seq::empty()
    } else {
        id_arity_errors_rec(am, m, scalars.drop_last()) + one_or_none(
            id_arity_field_error(am, m, scalars.last()),
        )
    }
}

/// One diagnostic per non-required id field of the model.
pub open spec fn id_arity_errors(am: ast::Model, m: Model) -> Seq<ErrorView> {
    id_arity_errors_rec(am, m, scalar_fields_of(m.fields@))
}

// --- Strict unique criteria (pass 1) --------------------------------------------------

/// The names of a criterion's fields.
pub open spec fn criteria_names(c: Seq<ScalarField>) -> Seq<Seq<char>> {
    c.map_values(|sf: ScalarField| sf.name@)
}

/// One `- a, b` line per loose unique criterion.
pub open spec fn criteria_descriptions(m: Model) -> Seq<Seq<char>> {
    loose_unique_criterias_spec(m).map_values(
        |c: Seq<ScalarField>| messages::msg_criteria_description(criteria_names(c)),
    )
}

/// A model must have exactly one identity criterion and at least one strict
/// unique criterion.
pub open spec fn strict_criteria_error(am: ast::Model, m: Model) -> Option<ErrorView> {
    let ids = singular_id_fields_of(m.fields@);
    if ids.len() > 1 {
        Some(
            ErrorView::ModelValidation {
                message: "At most one field must be marked as the id field with the `@id` attribute."@,
                model: m.name@,
                span: am.span,
            },
        )
    } else if ids.len() >= 1 && m.id_fields@.len() > 0 {
        Some(
            ErrorView::ModelValidation {
                message: "Each model must have at most one id criteria. You can't have `@id` and `@@id` at the same time."@,
                model: m.name@,
                span: am.span,
            },
        )
    } else if strict_unique_criterias_spec(m).len() == 0 && !m.is_ignored {
        Some(
            ErrorView::ModelValidation {
                message: messages::msg_missing_strict_criteria(criteria_descriptions(m)),
                model: m.name@,
                span: am.span,
            },
        )
    } else {
        None
    }
}

// --- Reserved names (pass 1) ------------------------------------------------------------

/// The closed set of reserved type names: the scalar type names and the
/// platform's reserved client name. Comparison is case-sensitive and exact.
pub open spec fn is_reserved_type_name(name: Seq<char>) -> bool {
    ||| name == "PrismaClient"@
    ||| name == "String"@
    ||| name == "Int"@
    ||| name == "BigInt"@
    ||| name == "Float"@
    ||| name == "Decimal"@
    ||| name == "Boolean"@
    ||| name == "DateTime"@
    ||| name == "Json"@
    ||| name == "Bytes"@
}

/// Whether the name is reserved.
pub fn reserved_type_name(name: &String) -> (r: bool)
    ensures
        r == is_reserved_type_name(name@),
{
    string_eq_str(name, "PrismaClient") || string_eq_str(name, "String") || string_eq_str(
        name,
        "Int",
    ) || string_eq_str(name, "BigInt") || string_eq_str(name, "Float") || string_eq_str(
        name,
        "Decimal",
    ) || string_eq_str(name, "Boolean") || string_eq_str(name, "DateTime") || string_eq_str(
        name,
        "Json",
    ) || string_eq_str(name, "Bytes")
}

/// A model may not carry a reserved name.
pub open spec fn model_name_error(am: ast::Model, m: Model) -> Option<ErrorView> {
    if is_reserved_type_name(m.name@) {
        Some(
            ErrorView::ModelValidation {
                message: messages::msg_reserved_model_name(m.name@),
                model: m.name@,
                span: am.span,
            },
        )
    } else {
        None
    }
}

/// An enum may not carry a reserved name.
pub open spec fn enum_name_error(ae: ast::Enum, e: dml::Enum) -> Option<ErrorView> {
    if is_reserved_type_name(e.name@) {
        Some(
            ErrorView::EnumValidation {
                message: messages::msg_reserved_enum_name(e.name@),
                enum_name: e.name@,
                span: ae.span,
            },
        )
    } else {
        None
    }
}

// --- Scalar lists and Json (pass 1) --------------------------------------------------------

/// A scalar list needs a connector that supports scalar lists.
pub open spec fn scalar_list_error(
    am: ast::Model,
    m: Model,
    lists_ok: bool,
    sf: ScalarField,
) -> Option<ErrorView> {
    if sf.arity == FieldArity::List && !lists_ok {
        Some(
            ErrorView::FieldValidation {
                message: messages::msg_scalar_list_field(sf.name@, m.name@),
                model: m.name@,
                field: sf.name@,
                span: ast_field_span_spec(am, sf.name@),
            },
        )
    } else {
        None
    }
}

pub open spec fn scalar_list_errors_rec(
    am: ast::Model,
    m: Model,
    lists_ok: bool,
    scalars: Seq<ScalarField>,
) -> Seq<ErrorView>
    decreases scalars.len(),
{
    if scalars.len() == 0 {
        Seq::empty()
    } else {
        scalar_list_errors_rec(am, m, lists_ok, scalars.drop_last()) + one_or_none(
            scalar_list_error(am, m, lists_ok, scalars.last()),
        )
    }
}

/// One diagnostic per scalar list field, when the connector lacks scalar
/// lists.
pub open spec fn scalar_list_errors<C: ActiveConnector>(
    am: ast::Model,
    m: Model,
    source: Option<Datasource<C>>,
) -> Seq<ErrorView> {
    let lists_ok = match caps_of(source) {
        Some(c) => c.supports_scalar_lists,
        None => false,
    };
    scalar_list_errors_rec(am, m, lists_ok, scalar_fields_of(m.fields@))
}

/// A `Json` field needs a connector that supports the Json type.
pub open spec fn json_field_error(
    am: ast::Model,
    m: Model,
    json_ok: bool,
    sf: ScalarField,
) -> Option<ErrorView> {
    if sf.field_type.scalar_type_spec() == Some(ScalarType::Json) && !json_ok {
        Some(
            ErrorView::FieldValidation {
                message: messages::msg_json_field(sf.name@, m.name@),
                model: m.name@,
                field: sf.name@,
                span: ast_field_span_spec(am, sf.name@),
            },
        )
    } else {
        None
    }
}

pub open spec fn json_field_errors_rec(
    am: ast::Model,
    m: Model,
    json_ok: bool,
    scalars: Seq<ScalarField>,
) -> Seq<ErrorView>
    decreases scalars.len(),
{
    if scalars.len() == 0 {
        Seq::empty()
    } else {
        json_field_errors_rec(am, m, json_ok, scalars.drop_last()) + one_or_none(
            json_field_error(am, m, json_ok, scalars.last()),
        )
    }
}

/// One diagnostic per `Json` field, when the connector lacks Json support.
pub open spec fn json_field_errors<C: ActiveConnector>(
    am: ast::Model,
    m: Model,
    source: Option<Datasource<C>>,
) -> Seq<ErrorView> {
    let json_ok = match caps_of(source) {
        Some(c) => c.supports_json,
        None => false,
    };
    json_field_errors_rec(am, m, json_ok, scalar_fields_of(m.fields@))
}

// --- Connector-specific validation (pass 1) ----------------------------------------------------

pub open spec fn connector_field_errors_rec<C: ActiveConnector>(
    am: ast::Model,
    conn: C,
    fields: Seq<Field>,
) -> Seq<ErrorView>
    decreases fields.len(),
{
    if fields.len() == 0 {
        Seq::empty()
    } else {
        connector_field_errors_rec(am, conn, fields.drop_last()) + match conn.field_error_spec(
            fields.last(),
        ) {
            Some(msg) => seq![
                ErrorView::ConnectorError {
                    message: msg,
                    span: ast_field_span_spec(am, field_name(fields.last())),
                },
            ],
            None => Seq::empty(),
        }
    }
}

/// One diagnostic per field the active connector refuses.
pub open spec fn connector_field_errors<C: ActiveConnector>(
    am: ast::Model,
    m: Model,
    source: Option<Datasource<C>>,
) -> Seq<ErrorView> {
    match source {
        Some(ds) => connector_field_errors_rec(am, ds.active_connector, m.fields@),
        None => Seq::empty(),
    }
}

/// The diagnostic the active connector raises for the model itself, if any.
pub open spec fn connector_model_error<C: ActiveConnector>(
    am: ast::Model,
    m: Model,
    source: Option<Datasource<C>>,
) -> Option<ErrorView> {
    match source {
        Some(ds) => match ds.active_connector.model_error_spec(m) {
            Some(msg) => Some(ErrorView::ConnectorError { message: msg, span: am.span }),
            None => None,
        },
        None => None,
    }
}

// --- Enum defaults (pass 1) -------------------------------------------------------------------

/// A default that names an enum value must name a declared value of the
/// field's enum. Other defaults are accepted silently.
pub open spec fn enum_default_error(dm: Datamodel, am: ast::Model, sf: ScalarField) -> Option<
    ErrorView,
> {
    match dml::enum_default_of(sf) {
        Some(v) => match sf.field_type {
            FieldType::Enum(en) => match find_enum_from(dm.enums@, en@, 0) {
                Some(e) => if !e.has_value_spec(v) {
                    Some(
                        ErrorView::AttributeValidation {
                            message: "The defined default value is not a valid value of the enum specified for the field."@,
                            attribute: "default"@,
                            span: ast_field_span_spec(am, sf.name@),
                        },
                    )
                } else {
                    None
                },
                None => None,
            },
            _ => None,
        },
        None => None,
    }
}

pub open spec fn enum_default_errors_rec(
    dm: Datamodel,
    am: ast::Model,
    scalars: Seq<ScalarField>,
) -> Seq<ErrorView>
    decreases scalars.len(),
{
    if scalars.len() == 0 {
        Seq::empty()
    } else {
        enum_default_errors_rec(dm, am, scalars.drop_last()) + one_or_none(
            enum_default_error(dm, am, scalars.last()),
        )
    }
}

/// One diagnostic per enum-typed field whose enum-literal default is not a
/// declared value.
pub open spec fn enum_default_errors(dm: Datamodel, am: ast::Model, m: Model) -> Seq<ErrorView> {
    enum_default_errors_rec(dm, am, scalar_fields_of(m.fields@))
}

// --- Auto-increment (pass 1) --------------------------------------------------------------------

/// The per-field auto-increment diagnostics: a non-id auto-increment, then a
/// non-indexed auto-increment, each only when the connector forbids it.
pub open spec fn auto_increment_field_errors(
    am: ast::Model,
    m: Model,
    caps: ConnectorCapabilities,
    sf: ScalarField,
) -> Seq<ErrorView> {
    let span = ast_field_span_spec(am, sf.name@);
    (if !sf.is_id && is_auto_increment_spec(sf) && !caps.supports_non_id_auto_increment {
        seq![
            ErrorView::AttributeValidation {
                message: "The `autoincrement()` default value is used on a non-id field even though the datasource does not support this."@,
                attribute: "default"@,
                span,
            },
        ]
    } else {
        Seq::empty()
    }) + (if is_auto_increment_spec(sf) && !field_is_indexed_spec(m, sf.name@)
        && !caps.supports_non_indexed_auto_increment {
        seq![
            ErrorView::AttributeValidation {
                message: "The `autoincrement()` default value is used on a non-indexed field even though the datasource does not support this."@,
                attribute: "default"@,
                span,
            },
        ]
    } else {
        Seq::empty()
    })
}

pub open spec fn auto_increment_errors_rec(
    am: ast::Model,
    m: Model,
    caps: ConnectorCapabilities,
    scalars: Seq<ScalarField>,
) -> Seq<ErrorView>
    decreases scalars.len(),
{
    if scalars.len() == 0 {
        Seq::empty()
    } else {
        auto_increment_errors_rec(am, m, caps, scalars.drop_last()) + auto_increment_field_errors(
            am,
            m,
            caps,
            scalars.last(),
        )
    }
}

/// With a configured datasource: at most one auto-increment per model unless
/// supported, and the per-field auto-increment rules.
pub open spec fn auto_increment_errors<C: ActiveConnector>(
    am: ast::Model,
    m: Model,
    source: Option<Datasource<C>>,
) -> Seq<ErrorView> {
    match caps_of(source) {
        Some(caps) => (if !caps.supports_multiple_auto_increment && auto_increment_fields_of(
            m.fields@,
        ).len() > 1 {
            seq![
                ErrorView::AttributeValidation {
                    message: "The `autoincrement()` default value is used multiple times on this model even though the underlying datasource only supports one instance per table."@,
                    attribute: "default"@,
                    span: am.span,
                },
            ]
        } else {
            Seq::empty()
        }) + auto_increment_errors_rec(am, m, caps, scalar_fields_of(m.fields@)),
        None => Seq::empty(),
    }
}

/// The names of a criterion's fields, as strings.
pub(crate) fn criterion_field_names(criterion: &dml::UniqueCriterion<'_>) -> (r: Vec<String>)
    ensures
        string_views(r@) == criteria_names(criterion@),
{
    let mut names: Vec<String> = Vec::new();
    let mut k: usize = 0;
    proof {
        assert(criterion@.len() == criterion.fields@.len());
        assert(string_views(names@) =~= criteria_names(criterion@).take(0));
    }
    while k < criterion.fields.len()
        invariant
            k <= criterion.fields@.len(),
            criterion@.len() == criterion.fields@.len(),
            criteria_names(criterion@).len() == criterion.fields@.len(),
            string_views(names@) == criteria_names(criterion@).take(k as int),
        decreases criterion.fields@.len() - k,
    {
        proof {
            assert(criterion@[k as int] == *criterion.fields@[k as int]);
            assert(criteria_names(criterion@)[k as int] == criterion@[k as int].name@);
        }
        let ghost nprev = string_views(names@);
        names.push(criterion.fields[k].name.clone());
        proof {
            assert(string_views(names@) =~= nprev.push(criterion.fields@[k as int].name@));
            assert(string_views(names@) =~= criteria_names(criterion@).take(k + 1));
        }
        k = k + 1;
    }
    proof {
        assert(criteria_names(criterion@).take(criteria_names(criterion@).len() as int)
            =~= criteria_names(criterion@));
    }
    names
}

/// One `- a, b` line per loose unique criterion of the model.
fn build_criteria_descriptions(model: &Model) -> (r: Vec<String>)
    requires
        model.criteria_wf(),
    ensures
        string_views(r@) == criteria_descriptions(*model),
{
    let loose = model.loose_unique_criterias();
    let ghost cands = loose_unique_criterias_spec(*model);
    let mut descriptions: Vec<String> = Vec::new();
    let mut i: usize = 0;
    proof {
        assert(criteria_descriptions(*model).len() == cands.len());
        assert(string_views(descriptions@) =~= criteria_descriptions(*model).take(0));
    }
    while i < loose.len()
        invariant
            i <= loose@.len(),
            dml::criteria_views(loose@) == cands,
            cands.len() == loose@.len(),
            criteria_descriptions(*model).len() == cands.len(),
            cands == loose_unique_criterias_spec(*model),
            string_views(descriptions@) == criteria_descriptions(*model).take(i as int),
        decreases loose@.len() - i,
    {
        proof {
            assert(loose@[i as int]@ == cands[i as int]);
        }
        let names = criterion_field_names(&loose[i]);
        let ghost dprev = string_views(descriptions@);
        descriptions.push(messages::build_criteria_description(&names));
        proof {
            assert(string_views(descriptions@) =~= dprev.push(
                messages::msg_criteria_description(criteria_names(cands[i as int])),
            ));
            assert(criteria_descriptions(*model)[i as int] == messages::msg_criteria_description(
                criteria_names(cands[i as int]),
            ));
            assert(string_views(descriptions@) =~= criteria_descriptions(*model).take(i + 1));
        }
        i = i + 1;
    }
    proof {
        assert(criteria_descriptions(*model).take(criteria_descriptions(*model).len() as int)
            =~= criteria_descriptions(*model));
    }
    descriptions
}

// --- The rule methods ----------------------------------------------------------------------------

impl<'a, C: ActiveConnector> Validator<'a, C> {
    /// Creates a new instance for the given datasource.
    pub fn new(source: Option<&'a Datasource<C>>) -> (r: Validator<'a, C>)
        ensures
            r.source == source,
    {
        Validator { source }
    }

    /// Checks every model, field, enum and enum-value name, and every
    /// attribute name, against the identifier grammar.
    fn validate_names(&self, ast_schema: &SchemaAst) -> (r: Result<(), Diagnostics>)
        ensures
            match r {
                Ok(()) => names_errors(*ast_schema).len() == 0,
                Err(d) => d@ == names_errors(*ast_schema) && d@.len() > 0,
            },
    {
        let mut errors = Diagnostics::new();
        let mut i: usize = 0;
        proof {
            assert(errors@ =~= models_names_errors(ast_schema.models@.take(0)));
        }
        while i < ast_schema.models.len()
            invariant
                i <= ast_schema.models@.len(),
                errors@ == models_names_errors(ast_schema.models@.take(i as int)),
            decreases ast_schema.models@.len() - i,
        {
            proof {
                assert(ast_schema.models@.take(i + 1).drop_last() =~= ast_schema.models@.take(
                    i as int,
                ));
                assert(ast_schema.models@.take(i + 1).last() == ast_schema.models@[i as int]);
            }
            let model = &ast_schema.models[i];
            let ghost base = errors@;
            errors.push_opt_error(model.name.validate("Model"));
            collect_attribute_errors(&model.attributes, &mut errors);
            let mut k: usize = 0;
            let ghost fbase = errors@;
            proof {
                assert(errors@ =~= fbase + fields_name_errors(model.fields@.take(0)));
            }
            while k < model.fields.len()
                invariant
                    k <= model.fields@.len(),
                    errors@ == fbase + fields_name_errors(model.fields@.take(k as int)),
                decreases model.fields@.len() - k,
            {
                proof {
                    assert(model.fields@.take(k + 1).drop_last() =~= model.fields@.take(k as int));
                    assert(model.fields@.take(k + 1).last() == model.fields@[k as int]);
                }
                let field = &model.fields[k];
                errors.push_opt_error(field.name.validate("Field"));
                collect_attribute_errors(&field.attributes, &mut errors);
                proof {
                    assert(errors@ =~= fbase + fields_name_errors(model.fields@.take(k + 1)));
                }
                k = k + 1;
            }
            proof {
                assert(model.fields@.take(model.fields@.len() as int) =~= model.fields@);
                assert(errors@ =~= models_names_errors(ast_schema.models@.take(i + 1)));
            }
            i = i + 1;
        }
        proof {
            assert(ast_schema.models@.take(ast_schema.models@.len() as int) =~= ast_schema.models@);
        }
        let ghost mbase = errors@;
        let mut j: usize = 0;
        proof {
            assert(errors@ =~= mbase + enums_names_errors(ast_schema.enums@.take(0)));
        }
        while j < ast_schema.enums.len()
            invariant
                j <= ast_schema.enums@.len(),
                errors@ == mbase + enums_names_errors(ast_schema.enums@.take(j as int)),
            decreases ast_schema.enums@.len() - j,
        {
            proof {
                assert(ast_schema.enums@.take(j + 1).drop_last() =~= ast_schema.enums@.take(
                    j as int,
                ));
                assert(ast_schema.enums@.take(j + 1).last() == ast_schema.enums@[j as int]);
            }
            let enum_decl = &ast_schema.enums[j];
            errors.push_opt_error(enum_decl.name.validate("Enum"));
            collect_attribute_errors(&enum_decl.attributes, &mut errors);
            let mut k: usize = 0;
            let ghost vbase = errors@;
            proof {
                assert(errors@ =~= vbase + enum_values_name_errors(enum_decl.values@.take(0)));
            }
            while k < enum_decl.values.len()
                invariant
                    k <= enum_decl.values@.len(),
                    errors@ == vbase + enum_values_name_errors(enum_decl.values@.take(k as int)),
                decreases enum_decl.values@.len() - k,
            {
                proof {
                    assert(enum_decl.values@.take(k + 1).drop_last() =~= enum_decl.values@.take(
                        k as int,
                    ));
                    assert(enum_decl.values@.take(k + 1).last() == enum_decl.values@[k as int]);
                }
                let value = &enum_decl.values[k];
                errors.push_opt_error(value.name.validate("Enum Value"));
                collect_attribute_errors(&value.attributes, &mut errors);
                proof {
                    assert(errors@ =~= vbase + enum_values_name_errors(
                        enum_decl.values@.take(k + 1),
                    ));
                }
                k = k + 1;
            }
            proof {
                assert(enum_decl.values@.take(enum_decl.values@.len() as int)
                    =~= enum_decl.values@);
                assert(errors@ =~= mbase + enums_names_errors(ast_schema.enums@.take(j + 1)));
            }
            j = j + 1;
        }
        proof {
            assert(ast_schema.enums@.take(ast_schema.enums@.len() as int) =~= ast_schema.enums@);
            assert(errors@ =~= names_errors(*ast_schema));
        }
        errors.to_result()
    }

    /// Accumulates named indexes across all models and reports duplicates,
    /// unless the connector supports several indexes sharing a name.
    fn validate_names_for_indexes(&self, ast_schema: &SchemaAst, schema: &Datamodel) -> (r: Result<
        (),
        Diagnostics,
    >)
        ensures
            match r {
                Ok(()) => index_name_errors(*ast_schema, *schema, source_view(self.source)).len()
                    == 0,
                Err(d) => d@ == index_name_errors(*ast_schema, *schema, source_view(self.source))
                    && d@.len() > 0,
            },
    {
        let mut errors = Diagnostics::new();
        let mut seen: Vec<String> = Vec::new();
        let multiple_ok = match self.source {
            Some(source) => source.combined_connector.supports_multiple_indexes_with_same_name,
            None => false,
        };
        let mut i: usize = 0;
        proof {
            assert(string_views(seen@) =~= index_names_upto(*ast_schema, *schema, 0));
            assert(errors@ =~= index_name_errors_upto(*ast_schema, *schema, multiple_ok, 0));
        }
        while i < schema.models.len()
            invariant
                i <= schema.models@.len(),
                multiple_ok == (match caps_of(source_view(self.source)) {
                    Some(c) => c.supports_multiple_indexes_with_same_name,
                    None => false,
                }),
                string_views(seen@) == index_names_upto(*ast_schema, *schema, i as int),
                errors@ == index_name_errors_upto(*ast_schema, *schema, multiple_ok, i as int),
            decreases schema.models@.len() - i,
        {
            let model = &schema.models[i];
            match ast_schema.find_model(model.name.as_str()) {
                Some(ast_model) => {
                    let span = match ast_model.first_index_attribute() {
                        Some(a) => a.span,
                        None => ast_model.span,
                    };
                    proof {
                        assert(span == index_attribute_span(*ast_model));
                    }
                    let ghost seen0 = string_views(seen@);
                    let ghost errs0 = errors@;
                    let mut k: usize = 0;
                    while k < model.indices.len()
                        invariant
                            k <= model.indices@.len(),
                            multiple_ok == (match caps_of(source_view(self.source)) {
                                Some(c) => c.supports_multiple_indexes_with_same_name,
                                None => false,
                            }),
                            ast_schema.find_model_spec(model.name@) == Some(*ast_model),
                            span == index_attribute_span(*ast_model),
                            string_views(seen@) == index_names_after(*model, seen0, k as int),
                            errors@ == errs0 + index_name_errors_in_model(
                                *ast_model,
                                *model,
                                seen0,
                                multiple_ok,
                                k as int,
                            ),
                        decreases model.indices@.len() - k,
                    {
                        match &model.indices[k].name {
                            Some(index_name) => {
                                if crate::text::string_vec_contains(&seen, index_name.as_str())
                                    && !multiple_ok {
                                    errors.push_error(
                                        DatamodelError::new_multiple_indexes_with_same_name_are_not_supported(
                                            index_name.as_str(),
                                            span,
                                        ),
                                    );
                                }
                                let ghost sprev = string_views(seen@);
                                seen.push(index_name.clone());
                                proof {
                                    assert(string_views(seen@) =~= sprev.push(
                                        index_name@,
                                    ));
                                }
                            },
                            None => (),
                        }
                        k = k + 1;
                    }
                    proof {
                        assert(string_views(seen@) == index_names_after(
                            *model,
                            seen0,
                            model.indices@.len() as int,
                        ));
                        assert(errors@ =~= index_name_errors_upto(
                            *ast_schema,
                            *schema,
                            multiple_ok,
                            i + 1,
                        ));
                        assert(string_views(seen@) == index_names_upto(*ast_schema, *schema, i + 1));
                    }
                },
                None => {
                    proof {
                        assert(errors@ =~= index_name_errors_upto(
                            *ast_schema,
                            *schema,
                            multiple_ok,
                            i + 1,
                        ));
                        assert(string_views(seen@) == index_names_upto(*ast_schema, *schema, i + 1));
                    }
                },
            }
            i = i + 1;
        }
        errors.to_result()
    }

    /// One diagnostic per scalar field marked `@id` whose arity is not
    /// required, unless the model is ignored.
    fn validate_id_field_arities(&self, ast_model: &ast::Model, model: &Model) -> (r: Result<
        (),
        Diagnostics,
    >)
        ensures
            match r {
                Ok(()) => id_arity_errors(*ast_model, *model).len() == 0,
                Err(d) => d@ == id_arity_errors(*ast_model, *model) && d@.len() > 0,
            },
    {
        let mut errors = Diagnostics::new();
        let scalars = model.scalar_fields();
        let ghost all = scalar_fields_of(model.fields@);
        let mut i: usize = 0;
        proof {
            assert(errors@ =~= id_arity_errors_rec(*ast_model, *model, all.take(0)));
        }
        while i < scalars.len()
            invariant
                i <= scalars@.len(),
                dml::deref_scalars(scalars@) == all,
                all.len() == scalars@.len(),
                errors@ == id_arity_errors_rec(*ast_model, *model, all.take(i as int)),
            decreases scalars@.len() - i,
        {
            proof {
                assert(all.take(i + 1).drop_last() =~= all.take(i as int));
                assert(all.take(i + 1).last() == all[i as int]);
                assert(all[i as int] == *scalars@[i as int]);
            }
            let sf = scalars[i];
            if sf.is_id && !sf.is_required() && !model.is_ignored {
                let span = match ast_model.find_field(sf.name.as_str()) {
                    Some(f) => match f.find_attribute("id") {
                        Some(a) => a.span,
                        None => f.span,
                    },
                    None => Span::empty(),
                };
                proof {
                    assert(span == id_arity_span(*ast_model, all[i as int].name@));
                }
                errors.push_error(
                    DatamodelError::new_attribute_validation_error(
                        "Fields that are marked as id must be required.",
                        "id",
                        span,
                    ),
                );
            }
            proof {
                assert(errors@ =~= id_arity_errors_rec(*ast_model, *model, all.take(i + 1)));
            }
            i = i + 1;
        }
        proof {
            assert(all.take(all.len() as int) =~= all);
        }
        errors.to_result()
    }

    /// Exactly one identity criterion, and at least one strict unique
    /// criterion, per model.
    fn validate_model_has_strict_unique_criteria(
        &self,
        ast_model: &ast::Model,
        model: &Model,
    ) -> (r: Result<(), DatamodelError>)
        requires
            model.criteria_wf(),
        ensures
            match r {
                Ok(()) => strict_criteria_error(*ast_model, *model) is None,
                Err(e) => strict_criteria_error(*ast_model, *model) == Some(e@),
            },
    {
        let ids = model.singular_id_fields();
        proof {
            assert(dml::deref_scalars(ids@).len() == ids@.len());
        }
        if ids.len() > 1 {
            return Err(
                DatamodelError::new_model_validation_error(
                    "At most one field must be marked as the id field with the `@id` attribute.",
                    model.name.as_str(),
                    ast_model.span,
                ),
            );
        }
        if ids.len() >= 1 && model.id_fields.len() > 0 {
            return Err(
                DatamodelError::new_model_validation_error(
                    "Each model must have at most one id criteria. You can't have `@id` and `@@id` at the same time.",
                    model.name.as_str(),
                    ast_model.span,
                ),
            );
        }
        let strict = model.strict_unique_criterias_disregarding_unsupported();
        proof {
            assert(dml::criteria_views(strict@).len() == strict@.len());
        }
        if strict.len() == 0 && !model.is_ignored {
            let descriptions = build_criteria_descriptions(model);
            let message = messages::build_missing_strict_criteria(&descriptions);
            return Err(
                DatamodelError::new_model_validation_error(
                    message.as_str(),
                    model.name.as_str(),
                    ast_model.span,
                ),
            );
        }
        Ok(())
    }

    /// A model may not carry a reserved name.
    fn validate_model_name(&self, ast_model: &ast::Model, model: &Model) -> (r: Result<
        (),
        DatamodelError,
    >)
        ensures
            match r {
                Ok(()) => model_name_error(*ast_model, *model) is None,
                Err(e) => model_name_error(*ast_model, *model) == Some(e@),
            },
    {
        if reserved_type_name(&model.name) {
            Err(
                DatamodelError::new_model_validation_error(
                    messages::build_reserved_model_name(model.name.as_str()).as_str(),
                    model.name.as_str(),
                    ast_model.span,
                ),
            )
        } else {
            Ok(())
        }
    }

    /// An enum may not carry a reserved name.
    fn validate_enum_name(&self, ast_enum: &ast::Enum, dml_enum: &dml::Enum) -> (r: Result<
        (),
        DatamodelError,
    >)
        ensures
            match r {
                Ok(()) => enum_name_error(*ast_enum, *dml_enum) is None,
                Err(e) => enum_name_error(*ast_enum, *dml_enum) == Some(e@),
            },
    {
        if reserved_type_name(&dml_enum.name) {
            Err(
                DatamodelError::new_enum_validation_error(
                    messages::build_reserved_enum_name(dml_enum.name.as_str()).as_str(),
                    dml_enum.name.as_str(),
                    ast_enum.span,
                ),
            )
        } else {
            Ok(())
        }
    }

    /// One diagnostic per scalar list field when the connector lacks scalar
    /// lists.
    fn validate_field_arities(&self, ast_model: &ast::Model, model: &Model) -> (r: Result<
        (),
        Diagnostics,
    >)
        ensures
            match r {
                Ok(()) => scalar_list_errors(*ast_model, *model, source_view(self.source)).len()
                    == 0,
                Err(d) => d@ == scalar_list_errors(*ast_model, *model, source_view(self.source))
                    && d@.len() > 0,
            },
    {
        let scalar_lists_are_supported = match self.source {
            Some(source) => source.combined_connector.supports_scalar_lists,
            None => false,
        };
        let mut errors = Diagnostics::new();
        let scalars = model.scalar_fields();
        let ghost all = scalar_fields_of(model.fields@);
        let mut i: usize = 0;
        proof {
            assert(errors@ =~= scalar_list_errors_rec(
                *ast_model,
                *model,
                scalar_lists_are_supported,
                all.take(0),
            ));
        }
        while i < scalars.len()
            invariant
                i <= scalars@.len(),
                dml::deref_scalars(scalars@) == all,
                all.len() == scalars@.len(),
                scalar_lists_are_supported == (match caps_of(source_view(self.source)) {
                    Some(c) => c.supports_scalar_lists,
                    None => false,
                }),
                errors@ == scalar_list_errors_rec(
                    *ast_model,
                    *model,
                    scalar_lists_are_supported,
                    all.take(i as int),
                ),
            decreases scalars@.len() - i,
        {
            proof {
                assert(all.take(i + 1).drop_last() =~= all.take(i as int));
                assert(all.take(i + 1).last() == all[i as int]);
                assert(all[i as int] == *scalars@[i as int]);
            }
            let sf = scalars[i];
            if sf.is_list() && !scalar_lists_are_supported {
                let span = ast_field_span(ast_model, sf.name.as_str());
                errors.push_error(
                    DatamodelError::new_field_validation_error(
                        messages::build_scalar_list_field(
                            sf.name.as_str(),
                            model.name.as_str(),
                        ).as_str(),
                        model.name.as_str(),
                        sf.name.as_str(),
                        span,
                    ),
                );
            }
            proof {
                assert(errors@ =~= scalar_list_errors_rec(
                    *ast_model,
                    *model,
                    scalar_lists_are_supported,
                    all.take(i + 1),
                ));
            }
            i = i + 1;
        }
        proof {
            assert(all.take(all.len() as int) =~= all);
        }
        errors.to_result()
    }

    /// One diagnostic per `Json` field when the connector lacks Json support.
    fn validate_field_types(&self, ast_model: &ast::Model, model: &Model) -> (r: Result<
        (),
        Diagnostics,
    >)
        ensures
            match r {
                Ok(()) => json_field_errors(*ast_model, *model, source_view(self.source)).len()
                    == 0,
                Err(d) => d@ == json_field_errors(*ast_model, *model, source_view(self.source))
                    && d@.len() > 0,
            },
    {
        let supports_json_type = match self.source {
            Some(source) => source.combined_connector.supports_json,
            None => false,
        };
        let mut errors = Diagnostics::new();
        let scalars = model.scalar_fields();
        let ghost all = scalar_fields_of(model.fields@);
        let mut i: usize = 0;
        proof {
            assert(errors@ =~= json_field_errors_rec(
                *ast_model,
                *model,
                supports_json_type,
                all.take(0),
            ));
        }
        while i < scalars.len()
            invariant
                i <= scalars@.len(),
                dml::deref_scalars(scalars@) == all,
                all.len() == scalars@.len(),
                supports_json_type == (match caps_of(source_view(self.source)) {
                    Some(c) => c.supports_json,
                    None => false,
                }),
                errors@ == json_field_errors_rec(
                    *ast_model,
                    *model,
                    supports_json_type,
                    all.take(i as int),
                ),
            decreases scalars@.len() - i,
        {
            proof {
                assert(all.take(i + 1).drop_last() =~= all.take(i as int));
                assert(all.take(i + 1).last() == all[i as int]);
                assert(all[i as int] == *scalars@[i as int]);
            }
            let sf = scalars[i];
            let is_json = match sf.field_type.scalar_type() {
                Some(ScalarType::Json) => true,
                _ => false,
            };
            if is_json && !supports_json_type {
                let span = ast_field_span(ast_model, sf.name.as_str());
                errors.push_error(
                    DatamodelError::new_field_validation_error(
                        messages::build_json_field(sf.name.as_str(), model.name.as_str()).as_str(),
                        model.name.as_str(),
                        sf.name.as_str(),
                        span,
                    ),
                );
            }
            proof {
                assert(errors@ =~= json_field_errors_rec(
                    *ast_model,
                    *model,
                    supports_json_type,
                    all.take(i + 1),
                ));
            }
            i = i + 1;
        }
        proof {
            assert(all.take(all.len() as int) =~= all);
        }
        errors.to_result()
    }

    /// Delegates each field to the active connector and wraps its errors with
    /// the field's span.
    fn validate_field_connector_specific(&self, ast_model: &ast::Model, model: &Model) -> (r:
        Result<(), Diagnostics>)
        ensures
            match r {
                Ok(()) => connector_field_errors(*ast_model, *model, source_view(self.source)).len()
                    == 0,
                Err(d) => d@ == connector_field_errors(
                    *ast_model,
                    *model,
                    source_view(self.source),
                ) && d@.len() > 0,
            },
    {
        let mut diagnostics = Diagnostics::new();
        match self.source {
            Some(source) => {
                let mut i: usize = 0;
                proof {
                    assert(diagnostics@ =~= connector_field_errors_rec(
                        *ast_model,
                        source.active_connector,
                        model.fields@.take(0),
                    ));
                }
                while i < model.fields.len()
                    invariant
                        i <= model.fields@.len(),
                        self.source == Some(source),
                        diagnostics@ == connector_field_errors_rec(
                            *ast_model,
                            source.active_connector,
                            model.fields@.take(i as int),
                        ),
                    decreases model.fields@.len() - i,
                {
                    proof {
                        assert(model.fields@.take(i + 1).drop_last() =~= model.fields@.take(
                            i as int,
                        ));
                        assert(model.fields@.take(i + 1).last() == model.fields@[i as int]);
                    }
                    let field = &model.fields[i];
                    let ghost before = diagnostics@;
                    match source.active_connector.validate_field(field) {
                        Err(err) => {
                            let span = ast_field_span(ast_model, field.name().as_str());
                            proof {
                                assert(source.active_connector.field_error_spec(
                                    model.fields@[i as int],
                                ) == Some(err@));
                                assert(span == ast_field_span_spec(
                                    *ast_model,
                                    field_name(model.fields@[i as int]),
                                ));
                            }
                            diagnostics.push_error(
                                DatamodelError::new_connector_error(err.as_str(), span),
                            );
                        },
                        Ok(()) => {
                            proof {
                                assert(source.active_connector.field_error_spec(
                                    model.fields@[i as int],
                                ) is None);
                            }
                        },
                    }
                    proof {
                        assert(connector_field_errors_rec(
                            *ast_model,
                            source.active_connector,
                            model.fields@.take(i + 1),
                        ) == connector_field_errors_rec(
                            *ast_model,
                            source.active_connector,
                            model.fields@.take(i as int),
                        ) + match source.active_connector.field_error_spec(
                            model.fields@[i as int],
                        ) {
                            Some(msg) => seq![
                                ErrorView::ConnectorError {
                                    message: msg,
                                    span: ast_field_span_spec(
                                        *ast_model,
                                        field_name(model.fields@[i as int]),
                                    ),
                                },
                            ],
                            None => Seq::<ErrorView>::empty(),
                        });
                        assert(diagnostics@ =~= connector_field_errors_rec(
                            *ast_model,
                            source.active_connector,
                            model.fields@.take(i + 1),
                        ));
                    }
                    i = i + 1;
                }
                proof {
                    assert(model.fields@.take(model.fields@.len() as int) =~= model.fields@);
                }
            },
            None => (),
        }
        diagnostics.to_result()
    }

    /// Delegates the model itself to the active connector.
    fn validate_model_connector_specific(&self, ast_model: &ast::Model, model: &Model) -> (r:
        Result<(), Diagnostics>)
        ensures
            match r {
                Ok(()) => connector_model_error(*ast_model, *model, source_view(self.source))
                    is None,
                Err(d) => d@ == one_or_none(
                    connector_model_error(*ast_model, *model, source_view(self.source)),
                ) && d@.len() > 0,
            },
    {
        let mut diagnostics = Diagnostics::new();
        match self.source {
            Some(source) => {
                match source.active_connector.validate_model(model) {
                    Err(err) => {
                        diagnostics.push_error(
                            DatamodelError::new_connector_error(err.as_str(), ast_model.span),
                        );
                        proof {
                            assert(diagnostics@ =~= one_or_none(
                                connector_model_error(
                                    *ast_model,
                                    *model,
                                    source_view(self.source),
                                ),
                            ));
                        }
                    },
                    Ok(()) => (),
                }
            },
            None => (),
        }
        diagnostics.to_result()
    }

    /// A default that names an enum value must name a declared value of the
    /// field's enum.
    fn validate_enum_default_values(
        &self,
        data_model: &Datamodel,
        ast_model: &ast::Model,
        model: &Model,
    ) -> (r: Result<(), Diagnostics>)
        ensures
            match r {
                Ok(()) => enum_default_errors(*data_model, *ast_model, *model).len() == 0,
                Err(d) => d@ == enum_default_errors(*data_model, *ast_model, *model) && d@.len()
                    > 0,
            },
    {
        let mut errors = Diagnostics::new();
        let scalars = model.scalar_fields();
        let ghost all = scalar_fields_of(model.fields@);
        let mut i: usize = 0;
        proof {
            assert(errors@ =~= enum_default_errors_rec(*data_model, *ast_model, all.take(0)));
        }
        while i < scalars.len()
            invariant
                i <= scalars@.len(),
                dml::deref_scalars(scalars@) == all,
                all.len() == scalars@.len(),
                errors@ == enum_default_errors_rec(*data_model, *ast_model, all.take(i as int)),
            decreases scalars@.len() - i,
        {
            proof {
                assert(all.take(i + 1).drop_last() =~= all.take(i as int));
                assert(all.take(i + 1).last() == all[i as int]);
                assert(all[i as int] == *scalars@[i as int]);
            }
            let sf = scalars[i];
            match sf.enum_default() {
                Some(value) => {
                    match &sf.field_type {
                        FieldType::Enum(enum_name) => {
                            match data_model.find_enum(enum_name.as_str()) {
                                Some(dml_enum) => {
                                    if !dml_enum.has_value(value.as_str()) {
                                        let span = ast_field_span(ast_model, sf.name.as_str());
                                        errors.push_error(
                                            DatamodelError::new_attribute_validation_error(
                                                "The defined default value is not a valid value of the enum specified for the field.",
                                                "default",
                                                span,
                                            ),
                                        );
                                    }
                                },
                                None => (),
                            }
                        },
                        _ => (),
                    }
                },
                None => (),
            }
            proof {
                assert(errors@ =~= enum_default_errors_rec(*data_model, *ast_model, all.take(i + 1)));
            }
            i = i + 1;
        }
        proof {
            assert(all.take(all.len() as int) =~= all);
        }
        errors.to_result()
    }

    /// With a configured datasource: the auto-increment restrictions.
    fn validate_auto_increment(&self, ast_model: &ast::Model, model: &Model) -> (r: Result<
        (),
        Diagnostics,
    >)
        ensures
            match r {
                Ok(()) => auto_increment_errors(*ast_model, *model, source_view(self.source)).len()
                    == 0,
                Err(d) => d@ == auto_increment_errors(*ast_model, *model, source_view(self.source))
                    && d@.len() > 0,
            },
    {
        let mut errors = Diagnostics::new();
        match self.source {
            Some(data_source) => {
                let ghost caps = data_source.combined_connector;
                let auto_fields = model.auto_increment_fields();
                proof {
                    assert(dml::deref_scalars(auto_fields@).len() == auto_fields@.len());
                }
                if !data_source.combined_connector.supports_multiple_auto_increment
                    && auto_fields.len() > 1 {
                    errors.push_error(
                        DatamodelError::new_attribute_validation_error(
                            "The `autoincrement()` default value is used multiple times on this model even though the underlying datasource only supports one instance per table.",
                            "default",
                            ast_model.span,
                        ),
                    );
                }
                let ghost head = errors@;
                let scalars = model.scalar_fields();
                let ghost all = scalar_fields_of(model.fields@);
                let mut i: usize = 0;
                proof {
                    assert(errors@ =~= head + auto_increment_errors_rec(
                        *ast_model,
                        *model,
                        caps,
                        all.take(0),
                    ));
                }
                while i < scalars.len()
                    invariant
                        i <= scalars@.len(),
                        dml::deref_scalars(scalars@) == all,
                        all.len() == scalars@.len(),
                        self.source == Some(data_source),
                        caps == data_source.combined_connector,
                        errors@ == head + auto_increment_errors_rec(
                            *ast_model,
                            *model,
                            caps,
                            all.take(i as int),
                        ),
                    decreases scalars@.len() - i,
                {
                    proof {
                        assert(all.take(i + 1).drop_last() =~= all.take(i as int));
                        assert(all.take(i + 1).last() == all[i as int]);
                        assert(all[i as int] == *scalars@[i as int]);
                    }
                    let sf = scalars[i];
                    let span = ast_field_span(ast_model, sf.name.as_str());
                    if !sf.is_id && sf.is_auto_increment()
                        && !data_source.combined_connector.supports_non_id_auto_increment {
                        errors.push_error(
                            DatamodelError::new_attribute_validation_error(
                                "The `autoincrement()` default value is used on a non-id field even though the datasource does not support this.",
                                "default",
                                span,
                            ),
                        );
                    }
                    if sf.is_auto_increment() && !model.field_is_indexed(sf.name.as_str())
                        && !data_source.combined_connector.supports_non_indexed_auto_increment {
                        errors.push_error(
                            DatamodelError::new_attribute_validation_error(
                                "The `autoincrement()` default value is used on a non-indexed field even though the datasource does not support this.",
                                "default",
                                span,
                            ),
                        );
                    }
                    proof {
                        assert(errors@ =~= head + auto_increment_errors_rec(
                            *ast_model,
                            *model,
                            caps,
                            all.take(i + 1),
                        ));
                    }
                    i = i + 1;
                }
                proof {
                    assert(all.take(all.len() as int) =~= all);
                }
            },
            None => (),
        }
        errors.to_result()
    }
}


// --- The passes -----------------------------------------------------------------

/// The AST declaration of the named enum; arbitrary when it is missing
/// (well-formed inputs rule that out).
pub open spec fn ast_enum_of(ast: SchemaAst, name: Seq<char>) -> ast::Enum {
    match ast.find_enum_spec(name) {
        Some(e) => e,
        None => vstd::pervasive::arbitrary(),
    }
}

/// The diagnostics of one model under the pre-standardisation rules, in rule
/// order: identity arity, identity and strict-uniqueness criteria, reserved
/// name, ambiguity, scalar lists, Json, the connector's field and model
/// validators, enum defaults, auto-increment, relation base fields, relation
/// referenced fields.
pub open spec fn model_errors<C: ActiveConnector>(
    ast: SchemaAst,
    dm: Datamodel,
    source: Option<Datasource<C>>,
    m: Model,
) -> Seq<ErrorView> {
    let am = ast_model_of(ast, m.name@);
    id_arity_errors(am, m) + one_or_none(strict_criteria_error(am, m)) + one_or_none(
        model_name_error(am, m),
    ) + one_or_none(crate::relations::ambiguity_error(ast, m)) + scalar_list_errors(am, m, source)
        + json_field_errors(am, m, source) + connector_field_errors(am, m, source) + one_or_none(
        connector_model_error(am, m, source),
    ) + enum_default_errors(dm, am, m) + auto_increment_errors(am, m, source)
        + crate::relations::base_fields_errors(am, m) + crate::relations::referenced_fields_errors(
        dm,
        m,
        am,
        source,
    )
}

pub open spec fn models_errors_upto<C: ActiveConnector>(
    ast: SchemaAst,
    dm: Datamodel,
    source: Option<Datasource<C>>,
    n: int,
) -> Seq<ErrorView>
    decreases n,
{
    if n <= 0 {
        Seq::empty()
    } else {
        models_errors_upto(ast, dm, source, n - 1) + model_errors(
            ast,
            dm,
            source,
            dm.models@[n - 1],
        )
    }
}

pub open spec fn enums_errors_upto(ast: SchemaAst, dm: Datamodel, n: int) -> Seq<ErrorView>
    decreases n,
{
    if n <= 0 {
        Seq::empty()
    } else {
        enums_errors_upto(ast, dm, n - 1) + one_or_none(
            enum_name_error(ast_enum_of(ast, dm.enums@[n - 1].name@), dm.enums@[n - 1]),
        )
    }
}

/// Every diagnostic of the pre-standardisation pass, in order: names, index
/// names, then each model's rule diagnostics, then each enum's.
pub open spec fn validate_spec<C: ActiveConnector>(
    ast: SchemaAst,
    dm: Datamodel,
    source: Option<Datasource<C>>,
) -> Seq<ErrorView> {
    names_errors(ast) + index_name_errors(ast, dm, source) + models_errors_upto(
        ast,
        dm,
        source,
        dm.models@.len() as int,
    ) + enums_errors_upto(ast, dm, dm.enums@.len() as int)
}

pub open spec fn post_errors_upto(ast: SchemaAst, dm: Datamodel, n: int) -> Seq<ErrorView>
    decreases n,
{
    if n <= 0 {
        Seq::empty()
    } else {
        post_errors_upto(ast, dm, n - 1) + crate::relations::relation_arguments_errors(
            dm,
            dm.models@[n - 1],
            ast_model_of(ast, dm.models@[n - 1].name@),
        )
    }
}

/// Every diagnostic of the post-standardisation pass, in order.
pub open spec fn post_validate_spec(ast: SchemaAst, dm: Datamodel) -> Seq<ErrorView> {
    post_errors_upto(ast, dm, dm.models@.len() as int)
}

/// What the validator owes its caller: every model and enum of the data model
/// has an AST declaration of the same name, composite-id and unique-index
/// names resolve to scalar fields, and every relation points at a model of
/// the data model. The external standardiser establishes this; a breach is an
/// internal state error, not a diagnostic.
pub open spec fn inputs_wf(ast: SchemaAst, dm: Datamodel) -> bool {
    &&& forall|i: int|
        0 <= i < dm.models@.len() ==> ast.find_model_spec(
            (#[trigger] dm.models@[i]).name@,
        ) is Some
    &&& forall|i: int|
        0 <= i < dm.enums@.len() ==> ast.find_enum_spec((#[trigger] dm.enums@[i]).name@) is Some
    &&& crate::relations::all_models_criteria_wf(dm)
    &&& forall|i: int|
        0 <= i < dm.models@.len() ==> crate::relations::relation_targets_exist(
            dm,
            #[trigger] dm.models@[i],
        )
}

impl<'a, C: ActiveConnector> Validator<'a, C> {
    /// The pre-standardisation diagnostics of one model, in rule order.
    #[verifier::rlimit(100)]
    fn model_rule_errors(
        &self,
        ast_schema: &SchemaAst,
        datamodel: &Datamodel,
        ast_model: &ast::Model,
        model: &Model,
    ) -> (r: Diagnostics)
        requires
            model.criteria_wf(),
            crate::relations::relation_targets_exist(*datamodel, *model),
            crate::relations::all_models_criteria_wf(*datamodel),
            ast_model_of(*ast_schema, model.name@) == *ast_model,
        ensures
            r@ == model_errors(*ast_schema, *datamodel, source_view(self.source), *model),
    {
        let ghost am = *ast_model;
        let ghost m = *model;
        let ghost src = source_view(self.source);
        let mut collected = Diagnostics::new();
        match self.validate_id_field_arities(ast_model, model) {
            Err(mut errs) => collected.append(&mut errs),
            Ok(()) => (),
        }
        proof {
            assert(collected@ =~= id_arity_errors(am, m));
        }
        match self.validate_model_has_strict_unique_criteria(ast_model, model) {
            Err(err) => collected.push_error(err),
            Ok(()) => (),
        }
        proof {
            assert(collected@ =~= id_arity_errors(am, m) + one_or_none(
                strict_criteria_error(am, m),
            ));
        }
        match self.validate_model_name(ast_model, model) {
            Err(err) => collected.push_error(err),
            Ok(()) => (),
        }
        let ghost seg2 = id_arity_errors(am, m) + one_or_none(strict_criteria_error(am, m))
            + one_or_none(model_name_error(am, m));
        proof {
            assert(collected@ =~= seg2);
        }
        match self.validate_relations_not_ambiguous(ast_schema, model) {
            Err(err) => collected.push_error(err),
            Ok(()) => (),
        }
        proof {
            assert(collected@ =~= seg2 + one_or_none(
                crate::relations::ambiguity_error(*ast_schema, m),
            ));
        }
        match self.validate_field_arities(ast_model, model) {
            Err(mut errs) => collected.append(&mut errs),
            Ok(()) => (),
        }
        let ghost seg4 = seg2 + one_or_none(crate::relations::ambiguity_error(*ast_schema, m))
            + scalar_list_errors(am, m, src);
        proof {
            assert(collected@ =~= seg4);
        }
        match self.validate_field_types(ast_model, model) {
            Err(mut errs) => collected.append(&mut errs),
            Ok(()) => (),
        }
        proof {
            assert(collected@ =~= seg4 + json_field_errors(am, m, src));
        }
        match self.validate_field_connector_specific(ast_model, model) {
            Err(mut errs) => collected.append(&mut errs),
            Ok(()) => (),
        }
        let ghost seg6 = seg4 + json_field_errors(am, m, src) + connector_field_errors(am, m, src);
        proof {
            assert(collected@ =~= seg6);
        }
        match self.validate_model_connector_specific(ast_model, model) {
            Err(mut errs) => collected.append(&mut errs),
            Ok(()) => (),
        }
        proof {
            assert(collected@ =~= seg6 + one_or_none(connector_model_error(am, m, src)));
        }
        match self.validate_enum_default_values(datamodel, ast_model, model) {
            Err(mut errs) => collected.append(&mut errs),
            Ok(()) => (),
        }
        let ghost seg8 = seg6 + one_or_none(connector_model_error(am, m, src))
            + enum_default_errors(*datamodel, am, m);
        proof {
            assert(collected@ =~= seg8);
        }
        match self.validate_auto_increment(ast_model, model) {
            Err(mut errs) => collected.append(&mut errs),
            Ok(()) => (),
        }
        proof {
            assert(collected@ =~= seg8 + auto_increment_errors(am, m, src));
        }
        match self.validate_base_fields_for_relation(datamodel, ast_model, model) {
            Err(mut errs) => collected.append(&mut errs),
            Ok(()) => (),
        }
        let ghost seg10 = seg8 + auto_increment_errors(am, m, src)
            + crate::relations::base_fields_errors(am, m);
        proof {
            assert(collected@ =~= seg10);
        }
        match self.validate_referenced_fields_for_relation(datamodel, ast_model, model) {
            Err(mut errs) => collected.append(&mut errs),
            Ok(()) => (),
        }
        proof {
            assert(collected@ =~= seg10 + crate::relations::referenced_fields_errors(
                *datamodel,
                m,
                am,
                src,
            ));
            assert(collected@ =~= model_errors(*ast_schema, *datamodel, src, m));
        }
        collected
    }

    /// The pre-standardisation pass: checks names, index names, and every
    /// model and enum against the pre-standardisation rules, and returns
    /// `Ok(())` exactly when no rule produced an error. The data model is
    /// taken mutably only so the caller can standardise it between the two
    /// passes; this pass never changes it.
    #[verifier::rlimit(100)]
    pub fn validate(&self, ast_schema: &SchemaAst, schema: &mut Datamodel) -> (r: Result<
        (),
        Diagnostics,
    >)
        requires
            inputs_wf(*ast_schema, *old(schema)),
        ensures
            *final(schema) == *old(schema),
            match r {
                Ok(()) => validate_spec(*ast_schema, *old(schema), source_view(self.source)).len()
                    == 0,
                Err(d) => d@ == validate_spec(*ast_schema, *old(schema), source_view(self.source))
                    && d@.len() > 0,
            },
    {
        let mut all_errors = Diagnostics::new();
        match self.validate_names(ast_schema) {
            Err(mut errs) => all_errors.append(&mut errs),
            Ok(()) => (),
        }
        proof {
            assert(all_errors@ =~= names_errors(*ast_schema));
        }
        match self.validate_names_for_indexes(ast_schema, &*schema) {
            Err(mut errs) => all_errors.append(&mut errs),
            Ok(()) => (),
        }
        let ghost base = names_errors(*ast_schema) + index_name_errors(
            *ast_schema,
            *schema,
            source_view(self.source),
        );
        proof {
            assert(all_errors@ =~= base);
            assert(all_errors@ =~= base + models_errors_upto(
                *ast_schema,
                *schema,
                source_view(self.source),
                0,
            ));
        }
        let mut i: usize = 0;
        while i < schema.models.len()
            invariant
                i <= schema.models@.len(),
                *schema == *old(schema),
                inputs_wf(*ast_schema, *schema),
                base == names_errors(*ast_schema) + index_name_errors(
                    *ast_schema,
                    *schema,
                    source_view(self.source),
                ),
                all_errors@ == base + models_errors_upto(
                    *ast_schema,
                    *schema,
                    source_view(self.source),
                    i as int,
                ),
            decreases schema.models@.len() - i,
        {
            let ghost m = schema.models@[i as int];
            let model = &schema.models[i];
            let ast_model = match ast_schema.find_model(model.name.as_str()) {
                Some(am) => am,
                None => unreached(),
            };
            proof {
                assert(*ast_model == ast_model_of(*ast_schema, m.name@));
                assert(m.criteria_wf());
                assert(crate::relations::relation_targets_exist(*schema, m));
            }
            let mut per_model = self.model_rule_errors(ast_schema, &*schema, ast_model, model);
            all_errors.append(&mut per_model);
            proof {
                assert(all_errors@ =~= base + models_errors_upto(
                    *ast_schema,
                    *schema,
                    source_view(self.source),
                    i + 1,
                ));
            }
            i = i + 1;
        }
        let ghost upto_models = base + models_errors_upto(
            *ast_schema,
            *schema,
            source_view(self.source),
            schema.models@.len() as int,
        );
        proof {
            assert(all_errors@ =~= upto_models);
            assert(all_errors@ =~= upto_models + enums_errors_upto(*ast_schema, *schema, 0));
        }
        let mut j: usize = 0;
        while j < schema.enums.len()
            invariant
                j <= schema.enums@.len(),
                *schema == *old(schema),
                inputs_wf(*ast_schema, *schema),
                all_errors@ == upto_models + enums_errors_upto(*ast_schema, *schema, j as int),
            decreases schema.enums@.len() - j,
        {
            let ghost e = schema.enums@[j as int];
            let declared_enum = &schema.enums[j];
            let ast_enum = match ast_schema.find_enum(declared_enum.name.as_str()) {
                Some(ae) => ae,
                None => unreached(),
            };
            proof {
                assert(*ast_enum == ast_enum_of(*ast_schema, e.name@));
            }
            let mut errors_for_enum = Diagnostics::new();
            match self.validate_enum_name(ast_enum, declared_enum) {
                Err(err) => errors_for_enum.push_error(err),
                Ok(()) => (),
            }
            all_errors.append(&mut errors_for_enum);
            proof {
                assert(all_errors@ =~= upto_models + enums_errors_upto(
                    *ast_schema,
                    *schema,
                    j + 1,
                ));
            }
            j = j + 1;
        }
        proof {
            assert(all_errors@ =~= validate_spec(
                *ast_schema,
                *schema,
                source_view(self.source),
            ));
        }
        if all_errors.has_errors() {
            Err(all_errors)
        } else {
            Ok(())
        }
    }

    /// The post-standardisation pass: with back-relation fields filled in,
    /// checks every relation field's opposite field and the placement of its
    /// `fields` and `references` arguments. Returns `Ok(())` exactly when no
    /// rule produced an error. This pass never changes the data model.
    pub fn post_standardisation_validate(
        &self,
        ast_schema: &SchemaAst,
        schema: &mut Datamodel,
    ) -> (r: Result<(), Diagnostics>)
        requires
            inputs_wf(*ast_schema, *old(schema)),
        ensures
            *final(schema) == *old(schema),
            match r {
                Ok(()) => post_validate_spec(*ast_schema, *old(schema)).len() == 0,
                Err(d) => d@ == post_validate_spec(*ast_schema, *old(schema)) && d@.len() > 0,
            },
    {
        let mut all_errors = Diagnostics::new();
        let mut i: usize = 0;
        proof {
            assert(all_errors@ =~= post_errors_upto(*ast_schema, *schema, 0));
        }
        while i < schema.models.len()
            invariant
                i <= schema.models@.len(),
                *schema == *old(schema),
                inputs_wf(*ast_schema, *schema),
                all_errors@ == post_errors_upto(*ast_schema, *schema, i as int),
            decreases schema.models@.len() - i,
        {
            let ghost m = schema.models@[i as int];
            let model = &schema.models[i];
            let ast_model = match ast_schema.find_model(model.name.as_str()) {
                Some(am) => am,
                None => unreached(),
            };
            proof {
                assert(*ast_model == ast_model_of(*ast_schema, m.name@));
                assert(crate::relations::relation_targets_exist(*schema, m));
            }
            let mut errors_for_model = Diagnostics::new();
            if !errors_for_model.has_errors() {
                let mut new_errors = self.validate_relation_arguments_bla(
                    &*schema,
                    ast_model,
                    model,
                );
                errors_for_model.append(&mut new_errors);
            }
            all_errors.append(&mut errors_for_model);
            proof {
                assert(all_errors@ =~= post_errors_upto(*ast_schema, *schema, i + 1));
            }
            i = i + 1;
        }
        proof {
            assert(all_errors@ =~= post_validate_spec(*ast_schema, *schema));
        }
        if all_errors.has_errors() {
            Err(all_errors)
        } else {
            Ok(())
        }
    }
}

// --- Laws -----------------------------------------------------------------------

/// Law: validation is deterministic. The pre-standardisation pass is a pure
/// function of the schema views and the datasource: any two diagnostic
/// sequences that satisfy its contract for the same inputs are identical —
/// same messages, same spans, same order — so diagnostics also compare equal
/// across runs.
pub proof fn lemma_validate_deterministic<C: ActiveConnector>(
    ast: SchemaAst,
    dm: Datamodel,
    source: Option<Datasource<C>>,
    r1: Seq<ErrorView>,
    r2: Seq<ErrorView>,
)
    requires
        r1 == validate_spec(ast, dm, source),
        r2 == validate_spec(ast, dm, source),
    ensures
        r1 == r2,
{
}

/// Law: the post-standardisation pass is deterministic in the same sense.
pub proof fn lemma_post_validate_deterministic(
    ast: SchemaAst,
    dm: Datamodel,
    r1: Seq<ErrorView>,
    r2: Seq<ErrorView>,
)
    requires
        r1 == post_validate_spec(ast, dm),
        r2 == post_validate_spec(ast, dm),
    ensures
        r1 == r2,
{
}

/// The diagnostics of models `i` to `n` (exclusive), in order.
pub open spec fn models_errors_range<C: ActiveConnector>(
    ast: SchemaAst,
    dm: Datamodel,
    source: Option<Datasource<C>>,
    i: int,
    n: int,
) -> Seq<ErrorView>
    decreases n - i,
{
    if i >= n {
        Seq::empty()
    } else {
        model_errors(ast, dm, source, dm.models@[i]) + models_errors_range(
            ast,
            dm,
            source,
            i + 1,
            n,
        )
    }
}

#[verifier::rlimit(100)]
proof fn lemma_models_upto_split<C: ActiveConnector>(
    ast: SchemaAst,
    dm: Datamodel,
    source: Option<Datasource<C>>,
    i: int,
    n: int,
)
    requires
        0 <= i <= n,
    ensures
        models_errors_upto(ast, dm, source, n) == models_errors_upto(ast, dm, source, i)
            + models_errors_range(ast, dm, source, i, n),
    decreases n - i,
{
    if i == n {
        assert(models_errors_upto(ast, dm, source, n) =~= models_errors_upto(ast, dm, source, i)
            + models_errors_range(ast, dm, source, i, n));
    } else {
        lemma_models_upto_split(ast, dm, source, i + 1, n);
        assert(models_errors_upto(ast, dm, source, i + 1) == models_errors_upto(
            ast,
            dm,
            source,
            i,
        ) + model_errors(ast, dm, source, dm.models@[i]));
        assert(models_errors_upto(ast, dm, source, n) =~= models_errors_upto(ast, dm, source, i)
            + models_errors_range(ast, dm, source, i, n));
    }
}

/// Law: completeness of independent errors across models. Each model's rule
/// diagnostics appear in the pass's output as one contiguous block, whatever
/// diagnostics the other models and enums produce: no model's errors can mask
/// another's.
#[verifier::rlimit(100)]
pub proof fn lemma_every_model_reported<C: ActiveConnector>(
    ast: SchemaAst,
    dm: Datamodel,
    source: Option<Datasource<C>>,
    i: int,
)
    requires
        0 <= i < dm.models@.len(),
    ensures
        exists|off: int|
            0 <= off && off + model_errors(ast, dm, source, dm.models@[i]).len()
                <= validate_spec(ast, dm, source).len() && (#[trigger] validate_spec(
                ast,
                dm,
                source,
            ).subrange(off, off + model_errors(ast, dm, source, dm.models@[i]).len() as int))
                == model_errors(ast, dm, source, dm.models@[i]),
{
    let seg = model_errors(ast, dm, source, dm.models@[i]);
    let head = names_errors(ast) + index_name_errors(ast, dm, source);
    let off = head.len() + models_errors_upto(ast, dm, source, i).len();
    let n = dm.models@.len() as int;
    let whole = validate_spec(ast, dm, source);
    lemma_models_upto_split(ast, dm, source, i, n);
    assert(models_errors_range(ast, dm, source, i, n) == seg + models_errors_range(
        ast,
        dm,
        source,
        i + 1,
        n,
    ));
    assert(whole =~= (head + models_errors_upto(ast, dm, source, i)) + (seg + (models_errors_range(
        ast,
        dm,
        source,
        i + 1,
        n,
    ) + enums_errors_upto(ast, dm, dm.enums@.len() as int))));
    assert(whole.subrange(off as int, off + seg.len() as int) =~= seg);
    assert(0 <= off && off + seg.len() <= whole.len() && whole.subrange(
        off as int,
        off + seg.len() as int,
    ) == seg);
}


// --- Locality of spans (pre-standardisation pass) ----------------------------------

use crate::relations::ast_model_nested;
use crate::relations::lemma_spans_within_concat;
use crate::relations::span_within;
use crate::relations::spans_within;

/// A sequence of at most one diagnostic within the outer range.
proof fn lemma_one_within(e: Option<ErrorView>, outer: ast::Span)
    requires
        e matches Some(x) ==> span_within(x.span(), outer),
    ensures
        spans_within(one_or_none(e), outer),
{
}

/// The span blamed for a non-required id field lies within the model.
proof fn lemma_id_arity_span_within(am: ast::Model, name: Seq<char>)
    requires
        ast_model_nested(am),
        am.find_field_spec(name) is Some,
    ensures
        span_within(id_arity_span(am, name), am.span),
{
    crate::relations::lemma_find_ast_field_is_element(am.fields@, name, 0);
    let f = am.find_field_spec(name)->Some_0;
    let j = choose|j: int| 0 <= j < am.fields@.len() && am.fields@[j] == f;
    assert(span_within(am.fields@[j].span, am.span));
    match ast::find_attribute_spec(f.attributes@, "id"@) {
        Some(a) => {
            crate::relations::lemma_find_attribute_is_element(f.attributes@, "id"@, 0);
            let t = choose|t: int| 0 <= t < f.attributes@.len() && f.attributes@[t] == a;
            assert(span_within(f.attributes@[t].span, f.span));
        },
        None => (),
    }
}

proof fn lemma_id_arity_errors_spans(am: ast::Model, m: Model, scalars: Seq<ScalarField>)
    requires
        ast_model_nested(am),
        forall|t: int|
            0 <= t < scalars.len() ==> am.find_field_spec((#[trigger] scalars[t]).name@) is Some,
    ensures
        spans_within(id_arity_errors_rec(am, m, scalars), am.span),
    decreases scalars.len(),
{
    if scalars.len() > 0 {
        lemma_id_arity_errors_spans(am, m, scalars.drop_last());
        if id_arity_field_error(am, m, scalars.last()) is Some {
            lemma_id_arity_span_within(am, scalars.last().name@);
        }
        lemma_one_within(id_arity_field_error(am, m, scalars.last()), am.span);
        lemma_spans_within_concat(
            id_arity_errors_rec(am, m, scalars.drop_last()),
            one_or_none(id_arity_field_error(am, m, scalars.last())),
            am.span,
        );
    }
}

proof fn lemma_scalar_list_errors_spans(
    am: ast::Model,
    m: Model,
    lists_ok: bool,
    scalars: Seq<ScalarField>,
)
    requires
        ast_model_nested(am),
        forall|t: int|
            0 <= t < scalars.len() ==> am.find_field_spec((#[trigger] scalars[t]).name@) is Some,
    ensures
        spans_within(scalar_list_errors_rec(am, m, lists_ok, scalars), am.span),
    decreases scalars.len(),
{
    if scalars.len() > 0 {
        lemma_scalar_list_errors_spans(am, m, lists_ok, scalars.drop_last());
        if scalar_list_error(am, m, lists_ok, scalars.last()) is Some {
            crate::relations::lemma_ast_field_span_within(am, scalars.last().name@);
        }
        lemma_one_within(scalar_list_error(am, m, lists_ok, scalars.last()), am.span);
        lemma_spans_within_concat(
            scalar_list_errors_rec(am, m, lists_ok, scalars.drop_last()),
            one_or_none(scalar_list_error(am, m, lists_ok, scalars.last())),
            am.span,
        );
    }
}

proof fn lemma_json_errors_spans(am: ast::Model, m: Model, json_ok: bool, scalars: Seq<ScalarField>)
    requires
        ast_model_nested(am),
        forall|t: int|
            0 <= t < scalars.len() ==> am.find_field_spec((#[trigger] scalars[t]).name@) is Some,
    ensures
        spans_within(json_field_errors_rec(am, m, json_ok, scalars), am.span),
    decreases scalars.len(),
{
    if scalars.len() > 0 {
        lemma_json_errors_spans(am, m, json_ok, scalars.drop_last());
        if json_field_error(am, m, json_ok, scalars.last()) is Some {
            crate::relations::lemma_ast_field_span_within(am, scalars.last().name@);
        }
        lemma_one_within(json_field_error(am, m, json_ok, scalars.last()), am.span);
        lemma_spans_within_concat(
            json_field_errors_rec(am, m, json_ok, scalars.drop_last()),
            one_or_none(json_field_error(am, m, json_ok, scalars.last())),
            am.span,
        );
    }
}

proof fn lemma_connector_field_errors_spans<C: ActiveConnector>(
    am: ast::Model,
    conn: C,
    fields: Seq<Field>,
)
    requires
        ast_model_nested(am),
        forall|t: int|
            0 <= t < fields.len() ==> am.find_field_spec(field_name(#[trigger] fields[t])) is Some,
    ensures
        spans_within(connector_field_errors_rec(am, conn, fields), am.span),
    decreases fields.len(),
{
    if fields.len() > 0 {
        lemma_connector_field_errors_spans(am, conn, fields.drop_last());
        let seg = match conn.field_error_spec(fields.last()) {
            Some(msg) => seq![
                ErrorView::ConnectorError {
                    message: msg,
                    span: ast_field_span_spec(am, field_name(fields.last())),
                },
            ],
            None => Seq::<ErrorView>::empty(),
        };
        if conn.field_error_spec(fields.last()) is Some {
            crate::relations::lemma_ast_field_span_within(am, field_name(fields.last()));
        }
        assert(spans_within(seg, am.span));
        lemma_spans_within_concat(
            connector_field_errors_rec(am, conn, fields.drop_last()),
            seg,
            am.span,
        );
    }
}

proof fn lemma_enum_default_errors_spans(
    dm: Datamodel,
    am: ast::Model,
    scalars: Seq<ScalarField>,
)
    requires
        ast_model_nested(am),
        forall|t: int|
            0 <= t < scalars.len() ==> am.find_field_spec((#[trigger] scalars[t]).name@) is Some,
    ensures
        spans_within(enum_default_errors_rec(dm, am, scalars), am.span),
    decreases scalars.len(),
{
    if scalars.len() > 0 {
        lemma_enum_default_errors_spans(dm, am, scalars.drop_last());
        if enum_default_error(dm, am, scalars.last()) is Some {
            crate::relations::lemma_ast_field_span_within(am, scalars.last().name@);
        }
        lemma_one_within(enum_default_error(dm, am, scalars.last()), am.span);
        lemma_spans_within_concat(
            enum_default_errors_rec(dm, am, scalars.drop_last()),
            one_or_none(enum_default_error(dm, am, scalars.last())),
            am.span,
        );
    }
}

proof fn lemma_auto_increment_errors_spans(
    am: ast::Model,
    m: Model,
    caps: ConnectorCapabilities,
    scalars: Seq<ScalarField>,
)
    requires
        ast_model_nested(am),
        forall|t: int|
            0 <= t < scalars.len() ==> am.find_field_spec((#[trigger] scalars[t]).name@) is Some,
    ensures
        spans_within(auto_increment_errors_rec(am, m, caps, scalars), am.span),
    decreases scalars.len(),
{
    if scalars.len() > 0 {
        lemma_auto_increment_errors_spans(am, m, caps, scalars.drop_last());
        if am.find_field_spec(scalars.last().name@) is Some {
            crate::relations::lemma_ast_field_span_within(am, scalars.last().name@);
        }
        assert(spans_within(auto_increment_field_errors(am, m, caps, scalars.last()), am.span));
        lemma_spans_within_concat(
            auto_increment_errors_rec(am, m, caps, scalars.drop_last()),
            auto_increment_field_errors(am, m, caps, scalars.last()),
            am.span,
        );
    }
}

/// Law (locality, pre-standardisation pass): with an AST whose spans nest and
/// a declaration for every field, every diagnostic the per-model rules
/// produce points within the byte range of the blamed model's AST
/// declaration; the rules that blame a specific field or attribute use its
/// narrower span inside that range.
#[verifier::rlimit(100)]
pub proof fn lemma_model_errors_spans_within_model<C: ActiveConnector>(
    ast: SchemaAst,
    dm: Datamodel,
    source: Option<Datasource<C>>,
    m: Model,
    am: ast::Model,
)
    requires
        ast.find_model_spec(m.name@) == Some(am),
        ast_model_nested(am),
        forall|t: int|
            0 <= t < scalar_fields_of(m.fields@).len() ==> am.find_field_spec(
                (#[trigger] scalar_fields_of(m.fields@)[t]).name@,
            ) is Some,
        forall|t: int|
            0 <= t < crate::dml::relation_fields_of(m.fields@).len() ==> am.find_field_spec(
                (#[trigger] crate::dml::relation_fields_of(m.fields@)[t]).name@,
            ) is Some,
        forall|t: int|
            0 <= t < m.fields@.len() ==> am.find_field_spec(
                field_name(#[trigger] m.fields@[t]),
            ) is Some,
    ensures
        spans_within(model_errors(ast, dm, source, m), am.span),
{
    assert(ast_model_of(ast, m.name@) == am);
    let scalars = scalar_fields_of(m.fields@);
    lemma_id_arity_errors_spans(am, m, scalars);
    let s1 = id_arity_errors(am, m);
    lemma_one_within(strict_criteria_error(am, m), am.span);
    lemma_spans_within_concat(s1, one_or_none(strict_criteria_error(am, m)), am.span);
    let s2 = s1 + one_or_none(strict_criteria_error(am, m));
    lemma_one_within(model_name_error(am, m), am.span);
    lemma_spans_within_concat(s2, one_or_none(model_name_error(am, m)), am.span);
    let s3 = s2 + one_or_none(model_name_error(am, m));
    crate::relations::lemma_ambiguity_span_within(ast, m, am);
    lemma_one_within(crate::relations::ambiguity_error(ast, m), am.span);
    lemma_spans_within_concat(s3, one_or_none(crate::relations::ambiguity_error(ast, m)), am.span);
    let s4 = s3 + one_or_none(crate::relations::ambiguity_error(ast, m));
    let lists_ok = match caps_of(source) {
        Some(c) => c.supports_scalar_lists,
        None => false,
    };
    lemma_scalar_list_errors_spans(am, m, lists_ok, scalars);
    lemma_spans_within_concat(s4, scalar_list_errors(am, m, source), am.span);
    let s5 = s4 + scalar_list_errors(am, m, source);
    let json_ok = match caps_of(source) {
        Some(c) => c.supports_json,
        None => false,
    };
    lemma_json_errors_spans(am, m, json_ok, scalars);
    lemma_spans_within_concat(s5, json_field_errors(am, m, source), am.span);
    let s6 = s5 + json_field_errors(am, m, source);
    match source {
        Some(ds) => lemma_connector_field_errors_spans(am, ds.active_connector, m.fields@),
        None => (),
    }
    lemma_spans_within_concat(s6, connector_field_errors(am, m, source), am.span);
    let s7 = s6 + connector_field_errors(am, m, source);
    lemma_one_within(connector_model_error(am, m, source), am.span);
    lemma_spans_within_concat(s7, one_or_none(connector_model_error(am, m, source)), am.span);
    let s8 = s7 + one_or_none(connector_model_error(am, m, source));
    lemma_enum_default_errors_spans(dm, am, scalars);
    lemma_spans_within_concat(s8, enum_default_errors(dm, am, m), am.span);
    let s9 = s8 + enum_default_errors(dm, am, m);
    match caps_of(source) {
        Some(caps) => lemma_auto_increment_errors_spans(am, m, caps, scalars),
        None => (),
    }
    lemma_spans_within_concat(s9, auto_increment_errors(am, m, source), am.span);
    let s10 = s9 + auto_increment_errors(am, m, source);
    crate::relations::lemma_base_fields_spans(am, m, crate::dml::relation_fields_of(m.fields@));
    lemma_spans_within_concat(s10, crate::relations::base_fields_errors(am, m), am.span);
    let s11 = s10 + crate::relations::base_fields_errors(am, m);
    crate::relations::lemma_referenced_fields_spans(
        dm,
        m,
        am,
        source,
        crate::dml::relation_fields_of(m.fields@).len() as int,
    );
    lemma_spans_within_concat(
        s11,
        crate::relations::referenced_fields_errors(dm, m, am, source),
        am.span,
    );
    assert(model_errors(ast, dm, source, m) == s11 + crate::relations::referenced_fields_errors(
        dm,
        m,
        am,
        source,
    ));
}


/// Law (locality, enum rules): a reserved-name diagnostic for an enum points
/// exactly at the blamed enum's AST declaration.
pub proof fn lemma_enum_name_error_span(ae: ast::Enum, e: dml::Enum)
    ensures
        enum_name_error(ae, e) matches Some(x) ==> x.span() == ae.span,
{
}

/// Whether every attribute of the AST model lies within the model's own byte
/// range.
pub open spec fn ast_model_attrs_nested(am: ast::Model) -> bool {
    forall|k: int|
        0 <= k < am.attributes@.len() ==> span_within((#[trigger] am.attributes@[k]).span, am.span)
}

proof fn lemma_find_index_attribute_is_element(attrs: Seq<ast::Attribute>, i: int)
    ensures
        ast::find_index_attribute_from(attrs, i) matches Some(a) ==> exists|j: int|
            0 <= j < attrs.len() && attrs[j] == a,
    decreases attrs.len() - i,
{
    if 0 <= i < attrs.len() {
        if attrs[i].is_index_spec() {
            assert(attrs[i] == ast::find_index_attribute_from(attrs, i)->Some_0);
        } else {
            lemma_find_index_attribute_is_element(attrs, i + 1);
        }
    }
}

proof fn lemma_index_attribute_span_within(am: ast::Model)
    requires
        ast_model_attrs_nested(am),
    ensures
        span_within(index_attribute_span(am), am.span),
{
    match ast::find_index_attribute_from(am.attributes@, 0) {
        Some(a) => {
            lemma_find_index_attribute_is_element(am.attributes@, 0);
            let j = choose|j: int| 0 <= j < am.attributes@.len() && am.attributes@[j] == a;
            assert(span_within(am.attributes@[j].span, am.span));
        },
        None => (),
    }
}

/// Law (locality, index names): every duplicate-index diagnostic of a model
/// points within the byte range of the AST declaration of the model that
/// declares the duplicate, at its index attribute when one is found.
pub proof fn lemma_index_name_errors_spans_within_model(
    am: ast::Model,
    m: Model,
    seen: Seq<Seq<char>>,
    multiple_ok: bool,
    n: int,
)
    requires
        ast_model_attrs_nested(am),
    ensures
        spans_within(index_name_errors_in_model(am, m, seen, multiple_ok, n), am.span),
    decreases n,
{
    if n > 0 {
        lemma_index_name_errors_spans_within_model(am, m, seen, multiple_ok, n - 1);
        lemma_index_attribute_span_within(am);
        let seg = match m.indices@[n - 1].name {
            Some(nm) => if index_names_after(m, seen, n - 1).contains(nm@) && !multiple_ok {
                seq![
                    (ErrorView::MultipleIndexesWithSameName {
                        index_name: nm@,
                        span: index_attribute_span(am),
                    }),
                ]
            } else {
                Seq::<ErrorView>::empty()
            },
            None => Seq::<ErrorView>::empty(),
        };
        assert(spans_within(seg, am.span));
        lemma_spans_within_concat(
            index_name_errors_in_model(am, m, seen, multiple_ok, n - 1),
            seg,
            am.span,
        );
    }
}

} // verus!
