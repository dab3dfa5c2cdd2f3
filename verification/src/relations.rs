//! The relation rules: base fields, referenced fields, argument placement and
//! ambiguity.
//!
//! These rules cross model boundaries: they resolve the related model, compare
//! field types across the relation, hold the referenced fields against the
//! related model's unique criteria, and check on which side the `fields` and
//! `references` arguments sit. Some diagnostics are suppressed when the local
//! bag already holds errors; the specification functions thread that state
//! explicitly.
use vstd::prelude::*;

verus! {

use crate::ast;
use crate::ast::SchemaAst;
use crate::ast::Span;
use crate::connector::ActiveConnector;
use crate::connector::Datasource;
use crate::diagnostics::DatamodelError;
use crate::diagnostics::Diagnostics;
use crate::diagnostics::ErrorView;
use crate::diagnostics::error_views;
use crate::dml;
use crate::dml::Datamodel;
use crate::dml::Field;
use crate::dml::FieldArity;
use crate::dml::FieldType;
use crate::dml::Model;
use crate::dml::RelationField;
use crate::dml::RelationInfo;
use crate::dml::ScalarType;
use crate::dml::field_name;
use crate::dml::field_type_of;
use crate::dml::find_field_from;
use crate::dml::find_model_from;
use crate::dml::find_related_field_spec;
use crate::dml::find_relation_field_from;
use crate::dml::find_scalar_field_from;
use crate::dml::loose_unique_criterias_spec;
use crate::dml::rel_info_eq;
use crate::dml::relation_fields_of;
use crate::dml::singular_id_fields_of;
use crate::messages;
use crate::text::same_names_any_order;
use crate::text::str_eq;
use crate::text::string_views;
use crate::validate::Validator;
use crate::validate::ast_field_span;
use crate::validate::ast_field_span_spec;
use crate::validate::caps_of;
use crate::validate::criteria_names;
use crate::validate::criterion_field_names;
use crate::validate::source_view;
use vstd::pervasive::unreached;

// --- Shared helpers ---------------------------------------------------------

/// The named model of the data model; arbitrary when it is missing
/// (well-formed inputs rule that out).
pub open spec fn model_of(dm: Datamodel, name: Seq<char>) -> Model {
    match find_model_from(dm.models@, name, 0) {
        Some(m) => m,
        None => vstd::pervasive::arbitrary(),
    }
}

/// Every model's composite-id and unique-index names resolve to its scalar
/// fields.
pub open spec fn all_models_criteria_wf(dm: Datamodel) -> bool {
    forall|i: int| 0 <= i < dm.models@.len() ==> (#[trigger] dm.models@[i]).criteria_wf()
}

/// Every relation field of the model points at a model of the data model.
pub open spec fn relation_targets_exist(dm: Datamodel, m: Model) -> bool {
    forall|k: int|
        0 <= k < relation_fields_of(m.fields@).len() ==> find_model_from(
            dm.models@,
            (#[trigger] relation_fields_of(m.fields@)[k]).relation_info.to@,
            0,
        ) is Some
}

/// A found model is an element of the list it was found in.
pub proof fn lemma_find_model_is_element(models: Seq<Model>, name: Seq<char>, i: int)
    ensures
        find_model_from(models, name, i) matches Some(m) ==> exists|j: int|
            0 <= j < models.len() && models[j] == m,
    decreases models.len() - i,
{
    if 0 <= i < models.len() {
        if models[i].name@ == name {
            assert(models[i] == find_model_from(models, name, i)->Some_0);
        } else {
            lemma_find_model_is_element(models, name, i + 1);
        }
    }
}

/// Value equality of two relation fields.
pub open spec fn rf_value_eq(a: RelationField, b: RelationField) -> bool {
    &&& a.name@ == b.name@
    &&& a.arity == b.arity
    &&& a.is_ignored == b.is_ignored
    &&& rel_info_eq(a.relation_info, b.relation_info)
}

/// Value equality of two relation declarations.
fn rel_info_equal(a: &RelationInfo, b: &RelationInfo) -> (r: bool)
    ensures
        r == rel_info_eq(*a, *b),
{
    str_eq(a.to.as_str(), b.to.as_str()) && str_eq(a.name.as_str(), b.name.as_str())
        && crate::text::string_vec_eq(&a.fields, &b.fields) && crate::text::string_vec_eq(
        &a.references,
        &b.references,
    )
}

/// Value equality of two relation fields.
fn rf_equal(a: &RelationField, b: &RelationField) -> (r: bool)
    ensures
        r == rf_value_eq(*a, *b),
{
    str_eq(a.name.as_str(), b.name.as_str()) && matches!((a.arity, b.arity), (FieldArity::Required, FieldArity::Required) | (FieldArity::Optional, FieldArity::Optional) | (FieldArity::List, FieldArity::List)) && (a.is_ignored
        == b.is_ignored) && rel_info_equal(&a.relation_info, &b.relation_info)
}

/// The names among `names` that do not resolve to any field of the model.
pub open spec fn missing_field_names(m: Model, names: Seq<String>) -> Seq<Seq<char>>
    decreases names.len(),
{
    if names.len() == 0 {
        Seq::empty()
    } else {
        let rest = missing_field_names(m, names.drop_last());
        if find_field_from(m.fields@, names.last()@, 0) is None {
            rest.push(names.last()@)
        } else {
            rest
        }
    }
}

/// The names among `names` that resolve to a relation field of the model.
pub open spec fn relation_field_names(m: Model, names: Seq<String>) -> Seq<Seq<char>>
    decreases names.len(),
{
    if names.len() == 0 {
        Seq::empty()
    } else {
        let rest = relation_field_names(m, names.drop_last());
        if find_relation_field_from(m.fields@, names.last()@, 0) is Some {
            rest.push(names.last()@)
        } else {
            rest
        }
    }
}

/// The names among `names` that do not resolve to any field of the model.
fn collect_missing_field_names(m: &Model, names: &Vec<String>) -> (r: Vec<String>)
    ensures
        string_views(r@) == missing_field_names(*m, names@),
{
    let mut out: Vec<String> = Vec::new();
    let mut i: usize = 0;
    proof {
        assert(string_views(out@) =~= missing_field_names(*m, names@.take(0)));
    }
    while i < names.len()
        invariant
            i <= names@.len(),
            string_views(out@) == missing_field_names(*m, names@.take(i as int)),
        decreases names@.len() - i,
    {
        proof {
            assert(names@.take(i + 1).drop_last() =~= names@.take(i as int));
            assert(names@.take(i + 1).last() == names@[i as int]);
        }
        let found = m.find_field(names[i].as_str());
        if found.is_none() {
            let ghost prev = string_views(out@);
            out.push(names[i].clone());
            proof {
                assert(string_views(out@) =~= prev.push(names@[i as int]@));
            }
        }
        proof {
            assert(string_views(out@) =~= missing_field_names(*m, names@.take(i + 1)));
        }
        i = i + 1;
    }
    proof {
        assert(names@.take(names@.len() as int) =~= names@);
    }
    out
}

/// The names among `names` that resolve to a relation field of the model.
fn collect_relation_field_names(m: &Model, names: &Vec<String>) -> (r: Vec<String>)
    ensures
        string_views(r@) == relation_field_names(*m, names@),
{
    let mut out: Vec<String> = Vec::new();
    let mut i: usize = 0;
    proof {
        assert(string_views(out@) =~= relation_field_names(*m, names@.take(0)));
    }
    while i < names.len()
        invariant
            i <= names@.len(),
            string_views(out@) == relation_field_names(*m, names@.take(i as int)),
        decreases names@.len() - i,
    {
        proof {
            assert(names@.take(i + 1).drop_last() =~= names@.take(i as int));
            assert(names@.take(i + 1).last() == names@[i as int]);
        }
        let found = m.find_relation_field(names[i].as_str());
        if found.is_some() {
            let ghost prev = string_views(out@);
            out.push(names[i].clone());
            proof {
                assert(string_views(out@) =~= prev.push(names@[i as int]@));
            }
        }
        proof {
            assert(string_views(out@) =~= relation_field_names(*m, names@.take(i + 1)));
        }
        i = i + 1;
    }
    proof {
        assert(names@.take(names@.len() as int) =~= names@);
    }
    out
}

// --- Relation base fields (pass 1) ---------------------------------------------

/// Whether some name resolves to a scalar field of the model that is not
/// required.
pub open spec fn any_base_not_required(m: Model, names: Seq<String>) -> bool {
    exists|k: int|
        0 <= k < names.len() && (find_scalar_field_from(m.fields@, (#[trigger] names[k])@, 0)
            matches Some(f) && f.arity != FieldArity::Required)
}

/// Whether every name resolves to an optional scalar field of the model.
pub open spec fn all_base_optional(m: Model, names: Seq<String>) -> bool {
    forall|k: int|
        0 <= k < names.len() ==> (find_scalar_field_from(m.fields@, (#[trigger] names[k])@, 0)
            matches Some(f) && f.arity == FieldArity::Optional)
}

/// The base-field diagnostics of one relation field: unknown names, names of
/// relation fields, an optional member under a required relation, and all
/// members optional under a required relation.
pub open spec fn base_field_errors(am: ast::Model, m: Model, rf: RelationField) -> Seq<ErrorView> {
    let span = ast_field_span_spec(am, rf.name@);
    let names = rf.relation_info.fields@;
    let unknown = missing_field_names(m, names);
    let relnames = relation_field_names(m, names);
    (if unknown.len() > 0 {
        seq![
            ErrorView::Validation { message: messages::msg_unknown_base_fields(unknown), span },
        ]
    } else {
        Seq::empty()
    }) + (if relnames.len() > 0 {
        seq![
            ErrorView::Validation { message: messages::msg_base_fields_relation(relnames), span },
        ]
    } else {
        Seq::empty()
    }) + (if any_base_not_required(m, names) && rf.arity == FieldArity::Required {
        seq![
            ErrorView::Validation {
                message: messages::msg_base_fields_optional(rf.name@, string_views(names)),
                span,
            },
        ]
    } else {
        Seq::empty()
    }) + (if all_base_optional(m, names) && names.len() > 0 && rf.arity == FieldArity::Required {
        seq![
            ErrorView::Validation {
                message: messages::msg_base_fields_all_optional(rf.name@, string_views(names)),
                span,
            },
        ]
    } else {
        Seq::empty()
    })
}

pub open spec fn base_fields_errors_rec(am: ast::Model, m: Model, rfs: Seq<RelationField>) -> Seq<
    ErrorView,
>
    decreases rfs.len(),
{
    if rfs.len() == 0 {
        Seq::empty()
    } else {
        base_fields_errors_rec(am, m, rfs.drop_last()) + base_field_errors(am, m, rfs.last())
    }
}

/// The base-field diagnostics of every relation field of the model, in order.
pub open spec fn base_fields_errors(am: ast::Model, m: Model) -> Seq<ErrorView> {
    base_fields_errors_rec(am, m, relation_fields_of(m.fields@))
}

/// Whether some name resolves to a scalar field that is not required.
fn any_field_not_required(m: &Model, names: &Vec<String>) -> (r: bool)
    ensures
        r == any_base_not_required(*m, names@),
{
    let mut i: usize = 0;
    while i < names.len()
        invariant
            i <= names@.len(),
            forall|k: int|
                0 <= k < i ==> !(find_scalar_field_from(
                    m.fields@,
                    (#[trigger] names@[k])@,
                    0,
                ) matches Some(f) && f.arity != FieldArity::Required),
        decreases names@.len() - i,
    {
        match m.find_scalar_field(names[i].as_str()) {
            Some(f) => {
                if !f.is_required() {
                    proof {
                        assert(find_scalar_field_from(m.fields@, names@[i as int]@, 0)
                            matches Some(g) && g.arity != FieldArity::Required);
                    }
                    return true;
                }
            },
            None => (),
        }
        i = i + 1;
    }
    false
}

/// Whether every name resolves to an optional scalar field.
fn all_fields_optional(m: &Model, names: &Vec<String>) -> (r: bool)
    ensures
        r == all_base_optional(*m, names@),
{
    let mut i: usize = 0;
    while i < names.len()
        invariant
            i <= names@.len(),
            forall|k: int|
                0 <= k < i ==> (find_scalar_field_from(m.fields@, (#[trigger] names@[k])@, 0)
                    matches Some(f) && f.arity == FieldArity::Optional),
        decreases names@.len() - i,
    {
        let ok = match m.find_scalar_field(names[i].as_str()) {
            Some(f) => f.is_optional(),
            None => false,
        };
        if !ok {
            proof {
                assert(!(find_scalar_field_from(m.fields@, names@[i as int]@, 0) matches Some(f)
                    && f.arity == FieldArity::Optional));
            }
            return false;
        }
        i = i + 1;
    }
    true
}

// --- Relation referenced fields (pass 1) ------------------------------------------

/// The serialized native type a field compares under: its declared native
/// type, or the connector's default for its base scalar.
pub open spec fn native_pair_of<C: ActiveConnector>(conn: C, t: FieldType) -> Option<
    (ScalarType, Seq<char>),
> {
    match t {
        FieldType::NativeType(s, n) => Some((s, n@)),
        FieldType::Base(s) => Some((s, conn.default_native_type_spec(s))),
        _ => None,
    }
}

/// The type-mismatch diagnostic of one `fields[i]`/`references[i]` pair, when
/// both resolve, the types are incompatible, and the native types do not
/// reconcile them.
pub open spec fn pair_type_error<C: ActiveConnector>(
    m: Model,
    related: Model,
    source: Option<Datasource<C>>,
    span: Span,
    base_name: Seq<char>,
    ref_name: Seq<char>,
) -> Seq<ErrorView> {
    match find_field_from(m.fields@, base_name, 0) {
        None => Seq::empty(),
        Some(bf) => match find_field_from(related.fields@, ref_name, 0) {
            None => Seq::empty(),
            Some(rfld) => if dml::compatible_spec(field_type_of(bf), field_type_of(rfld)) {
                Seq::empty()
            } else {
                let natives_equal = match source {
                    Some(ds) => {
                        let bn = native_pair_of(ds.active_connector, field_type_of(bf));
                        bn is Some && bn == native_pair_of(
                            ds.active_connector,
                            field_type_of(rfld),
                        )
                    },
                    None => false,
                };
                if natives_equal {
                    Seq::empty()
                } else {
                    seq![
                        ErrorView::AttributeValidation {
                            message: messages::msg_type_mismatch(
                                field_name(bf),
                                m.name@,
                                field_name(rfld),
                                related.name@,
                            ),
                            attribute: "relation"@,
                            span,
                        },
                    ]
                }
            },
        },
    }
}

pub open spec fn wrong_type_errors_rec<C: ActiveConnector>(
    m: Model,
    related: Model,
    source: Option<Datasource<C>>,
    span: Span,
    fields: Seq<String>,
    references: Seq<String>,
    n: int,
) -> Seq<ErrorView>
    decreases n,
{
    if n <= 0 {
        Seq::empty()
    } else {
        wrong_type_errors_rec(m, related, source, span, fields, references, n - 1)
            + pair_type_error(m, related, source, span, fields[n - 1]@, references[n - 1]@)
    }
}

/// The type-mismatch diagnostics of the paired base and referenced fields.
pub open spec fn wrong_type_errors<C: ActiveConnector>(
    m: Model,
    related: Model,
    source: Option<Datasource<C>>,
    span: Span,
    fields: Seq<String>,
    references: Seq<String>,
) -> Seq<ErrorView> {
    let n = if fields.len() <= references.len() {
        fields.len() as int
    } else {
        references.len() as int
    };
    wrong_type_errors_rec(m, related, source, span, fields, references, n)
}

/// Whether the referenced names form a loose unique criterion of the related
/// model, as a set.
pub open spec fn references_unique_criteria(related: Model, refs: Seq<Seq<char>>) -> bool {
    exists|k: int|
        0 <= k < loose_unique_criterias_spec(related).len() && same_names_any_order(
            criteria_names(#[trigger] loose_unique_criterias_spec(related)[k]),
            refs,
        )
}

/// Whether the referenced names equal a loose unique criterion of the related
/// model in the exact order given.
pub open spec fn reference_order_matches(related: Model, refs: Seq<Seq<char>>) -> bool {
    exists|k: int|
        0 <= k < loose_unique_criterias_spec(related).len() && criteria_names(
            #[trigger] loose_unique_criterias_spec(related)[k],
        ) == refs
}

/// The diagnostics of the checks that run only when the references are
/// non-empty and the local bag is still clean: unique criterion, field order,
/// and the many-to-many id rule.
pub open spec fn gated_reference_errors<C: ActiveConnector>(
    dm: Datamodel,
    related: Model,
    rf: RelationField,
    source: Option<Datasource<C>>,
    span: Span,
) -> Seq<ErrorView> {
    let refs = string_views(rf.relation_info.references@);
    let strict_order = match caps_of(source) {
        Some(c) => !c.allows_relation_fields_in_arbitrary_order,
        None => false,
    };
    let must_reference_unique = match caps_of(source) {
        Some(c) => !c.supports_relations_over_non_unique_criteria,
        None => true,
    };
    let refs_unique = references_unique_criteria(related, refs);
    let order_correct = if strict_order && refs.len() > 1 {
        reference_order_matches(related, refs)
    } else {
        true
    };
    let references_singular_id = refs.len() == 1 && (find_scalar_field_from(
        related.fields@,
        refs[0],
        0,
    ) matches Some(f) && f.is_id);
    let is_many_to_many = rf.arity == FieldArity::List && (find_related_field_spec(dm, rf)
        matches Some(p) && p.1.arity == FieldArity::List);
    (if !refs_unique && must_reference_unique {
        seq![
            ErrorView::Validation {
                message: messages::msg_not_unique_criteria(related.name@, refs),
                span,
            },
        ]
    } else if !order_correct {
        seq![
            ErrorView::Validation {
                message: messages::msg_wrong_reference_order(related.name@, refs),
                span,
            },
        ]
    } else {
        Seq::empty()
    }) + (if is_many_to_many && !references_singular_id && singular_id_fields_of(
        related.fields@,
    ).len() == 1 {
        seq![
            ErrorView::Validation {
                message: messages::msg_many_to_many_non_id(related.name@, refs),
                span,
            },
        ]
    } else {
        Seq::empty()
    })
}

/// The referenced-field diagnostics of one relation field, given the errors
/// the rule has already collected for this model (`prior`): unknown names,
/// names of relation fields, the gated checks, the length mismatch, and —
/// only into a clean bag — the type mismatches.
pub open spec fn referenced_field_errors<C: ActiveConnector>(
    dm: Datamodel,
    m: Model,
    am: ast::Model,
    source: Option<Datasource<C>>,
    rf: RelationField,
    prior: Seq<ErrorView>,
) -> Seq<ErrorView> {
    let span = ast_field_span_spec(am, rf.name@);
    let related = model_of(dm, rf.relation_info.to@);
    let unknown = missing_field_names(related, rf.relation_info.references@);
    let relnames = relation_field_names(related, rf.relation_info.references@);
    let e1 = if unknown.len() > 0 {
        seq![
            ErrorView::Validation {
                message: messages::msg_unknown_referenced_fields(related.name@, unknown),
                span,
            },
        ]
    } else {
        Seq::empty()
    };
    let e2 = if relnames.len() > 0 {
        seq![
            ErrorView::Validation {
                message: messages::msg_referenced_relation_fields(related.name@, relnames),
                span,
            },
        ]
    } else {
        Seq::empty()
    };
    let bag1 = prior + e1 + e2;
    let e3 = if rf.relation_info.references@.len() > 0 && bag1.len() == 0 {
        gated_reference_errors(dm, related, rf, source, span)
    } else {
        Seq::empty()
    };
    let e4 = if rf.relation_info.fields@.len() > 0 && rf.relation_info.references@.len() > 0
        && rf.relation_info.fields@.len() != rf.relation_info.references@.len() {
        seq![
            ErrorView::AttributeValidation {
                message: "You must specify the same number of fields in `fields` and `references`."@,
                attribute: "relation"@,
                span,
            },
        ]
    } else {
        Seq::empty()
    };
    let wrong = wrong_type_errors(
        m,
        related,
        source,
        span,
        rf.relation_info.fields@,
        rf.relation_info.references@,
    );
    let e5 = if wrong.len() > 0 && (bag1 + e3 + e4).len() == 0 {
        wrong
    } else {
        Seq::empty()
    };
    e1 + e2 + e3 + e4 + e5
}

pub open spec fn referenced_fields_errors_upto<C: ActiveConnector>(
    dm: Datamodel,
    m: Model,
    am: ast::Model,
    source: Option<Datasource<C>>,
    n: int,
) -> Seq<ErrorView>
    decreases n,
{
    if n <= 0 {
        Seq::empty()
    } else {
        let prior = referenced_fields_errors_upto(dm, m, am, source, n - 1);
        prior + referenced_field_errors(
            dm,
            m,
            am,
            source,
            relation_fields_of(m.fields@)[n - 1],
            prior,
        )
    }
}

/// The referenced-field diagnostics of every relation field of the model, in
/// order.
pub open spec fn referenced_fields_errors<C: ActiveConnector>(
    dm: Datamodel,
    m: Model,
    am: ast::Model,
    source: Option<Datasource<C>>,
) -> Seq<ErrorView> {
    referenced_fields_errors_upto(dm, m, am, source, relation_fields_of(m.fields@).len() as int)
}

/// Whether the two fields' types are compatible.
fn fields_compatible(a: &Field, b: &Field) -> (r: bool)
    ensures
        r == dml::compatible_spec(field_type_of(*a), field_type_of(*b)),
{
    match (a, b) {
        (Field::ScalarField(x), Field::ScalarField(y)) => x.field_type.is_compatible_with(
            &y.field_type,
        ),
        (Field::ScalarField(x), Field::RelationField(y)) => {
            match &x.field_type {
                FieldType::Relation(ix) => rel_info_equal(ix, &y.relation_info),
                _ => false,
            }
        },
        (Field::RelationField(x), Field::ScalarField(y)) => {
            match &y.field_type {
                FieldType::Relation(iy) => rel_info_equal(&x.relation_info, iy),
                _ => false,
            }
        },
        (Field::RelationField(x), Field::RelationField(y)) => rel_info_equal(
            &x.relation_info,
            &y.relation_info,
        ),
    }
}


/// Whether the references form a loose unique criterion of the related model,
/// as a set.
fn references_unique_criteria_check(related: &Model, references: &Vec<String>) -> (r: bool)
    requires
        related.criteria_wf(),
    ensures
        r == references_unique_criteria(*related, string_views(references@)),
{
    let loose = related.loose_unique_criterias();
    let ghost cands = loose_unique_criterias_spec(*related);
    let mut k: usize = 0;
    while k < loose.len()
        invariant
            k <= loose@.len(),
            dml::criteria_views(loose@) == cands,
            cands.len() == loose@.len(),
            cands == loose_unique_criterias_spec(*related),
            forall|t: int|
                0 <= t < k ==> !same_names_any_order(
                    criteria_names(#[trigger] cands[t]),
                    string_views(references@),
                ),
        decreases loose@.len() - k,
    {
        proof {
            assert(loose@[k as int]@ == cands[k as int]);
        }
        let names = criterion_field_names(&loose[k]);
        if crate::text::same_names_check(&names, references) {
            proof {
                assert(same_names_any_order(
                    criteria_names(loose_unique_criterias_spec(*related)[k as int]),
                    string_views(references@),
                ));
            }
            return true;
        }
        k = k + 1;
    }
    proof {
        assert forall|t: int|
            0 <= t < loose_unique_criterias_spec(*related).len() implies !same_names_any_order(
            criteria_names(#[trigger] loose_unique_criterias_spec(*related)[t]),
            string_views(references@),
        ) by {
            assert(!same_names_any_order(criteria_names(cands[t]), string_views(references@)));
        }
    }
    false
}

/// Whether the references equal a loose unique criterion of the related model
/// in the exact order given.
fn reference_order_check(related: &Model, references: &Vec<String>) -> (r: bool)
    requires
        related.criteria_wf(),
    ensures
        r == reference_order_matches(*related, string_views(references@)),
{
    let loose = related.loose_unique_criterias();
    let ghost cands = loose_unique_criterias_spec(*related);
    let mut k: usize = 0;
    while k < loose.len()
        invariant
            k <= loose@.len(),
            dml::criteria_views(loose@) == cands,
            cands.len() == loose@.len(),
            cands == loose_unique_criterias_spec(*related),
            forall|t: int|
                0 <= t < k ==> criteria_names(#[trigger] cands[t]) != string_views(references@),
        decreases loose@.len() - k,
    {
        proof {
            assert(loose@[k as int]@ == cands[k as int]);
        }
        let names = criterion_field_names(&loose[k]);
        if crate::text::string_vec_eq(&names, references) {
            proof {
                assert(criteria_names(loose_unique_criterias_spec(*related)[k as int])
                    == string_views(references@));
            }
            return true;
        }
        k = k + 1;
    }
    proof {
        assert forall|t: int|
            0 <= t < loose_unique_criterias_spec(*related).len() implies criteria_names(
            #[trigger] loose_unique_criterias_spec(*related)[t],
        ) != string_views(references@) by {
            assert(criteria_names(cands[t]) != string_views(references@));
        }
    }
    false
}

/// The field's native-type pair: the declared native type, or the connector's
/// default for the base scalar.
fn native_pair_exec<C: ActiveConnector>(conn: &C, f: &Field) -> (r: Option<(ScalarType, String)>)
    ensures
        match r {
            Some(p) => native_pair_of(*conn, field_type_of(*f)) == Some((p.0, p.1@)),
            None => native_pair_of(*conn, field_type_of(*f)) is None,
        },
{
    match f {
        Field::ScalarField(sf) => match &sf.field_type {
            FieldType::NativeType(s, n) => Some((*s, n.clone())),
            FieldType::Base(s) => Some((*s, conn.default_native_type_for_scalar_type(s))),
            _ => None,
        },
        Field::RelationField(_) => None,
    }
}

impl<'a, C: ActiveConnector> Validator<'a, C> {
    /// The type-mismatch diagnostics of the paired base and referenced fields.
    fn collect_wrong_type_errors(
        &self,
        model: &Model,
        related: &Model,
        span: Span,
        fields: &Vec<String>,
        references: &Vec<String>,
    ) -> (r: Vec<DatamodelError>)
        ensures
            error_views(r@) == wrong_type_errors(
                *model,
                *related,
                source_view(self.source),
                span,
                fields@,
                references@,
            ),
    {
        let mut out: Vec<DatamodelError> = Vec::new();
        let n = if fields.len() <= references.len() {
            fields.len()
        } else {
            references.len()
        };
        let mut k: usize = 0;
        proof {
            assert(error_views(out@) =~= wrong_type_errors_rec(
                *model,
                *related,
                source_view(self.source),
                span,
                fields@,
                references@,
                0,
            ));
        }
        while k < n
            invariant
                k <= n,
                n == (if fields@.len() <= references@.len() {
                    fields@.len() as int
                } else {
                    references@.len() as int
                }),
                error_views(out@) == wrong_type_errors_rec(
                    *model,
                    *related,
                    source_view(self.source),
                    span,
                    fields@,
                    references@,
                    k as int,
                ),
            decreases n - k,
        {
            match model.find_field(fields[k].as_str()) {
                Some(bf) => {
                    match related.find_field(references[k].as_str()) {
                        Some(rfld) => {
                            if !fields_compatible(bf, rfld) {
                                let natives_equal = match self.source {
                                    Some(ds) => {
                                        let bn = native_pair_exec(&ds.active_connector, bf);
                                        let rn = native_pair_exec(&ds.active_connector, rfld);
                                        match (bn, rn) {
                                            (Some(bp), Some(rp)) => bp.0 == rp.0 && str_eq(
                                                bp.1.as_str(),
                                                rp.1.as_str(),
                                            ),
                                            _ => false,
                                        }
                                    },
                                    None => false,
                                };
                                if !natives_equal {
                                    let message = messages::build_type_mismatch(
                                        bf.name().as_str(),
                                        model.name.as_str(),
                                        rfld.name().as_str(),
                                        related.name.as_str(),
                                    );
                                    let ghost prev = error_views(out@);
                                    out.push(
                                        DatamodelError::new_attribute_validation_error(
                                            message.as_str(),
                                            "relation",
                                            span,
                                        ),
                                    );
                                    proof {
                                        assert(error_views(out@) =~= prev.push(
                                            ErrorView::AttributeValidation {
                                                message: messages::msg_type_mismatch(
                                                    field_name(*bf),
                                                    model.name@,
                                                    field_name(*rfld),
                                                    related.name@,
                                                ),
                                                attribute: "relation"@,
                                                span,
                                            },
                                        ));
                                    }
                                }
                            }
                        },
                        None => (),
                    }
                },
                None => (),
            }
            proof {
                assert(error_views(out@) =~= wrong_type_errors_rec(
                    *model,
                    *related,
                    source_view(self.source),
                    span,
                    fields@,
                    references@,
                    k + 1,
                ));
            }
            k = k + 1;
        }
        out
    }

    /// Every name in a relation's `fields` argument must resolve to an
    /// existing scalar field of the owning model, and a required relation may
    /// not rest on optional fields.
    pub(crate) fn validate_base_fields_for_relation(
        &self,
        _datamodel: &Datamodel,
        ast_model: &ast::Model,
        model: &Model,
    ) -> (r: Result<(), Diagnostics>)
        ensures
            match r {
                Ok(()) => base_fields_errors(*ast_model, *model).len() == 0,
                Err(d) => d@ == base_fields_errors(*ast_model, *model) && d@.len() > 0,
            },
    {
        let mut errors = Diagnostics::new();
        let rfs = model.relation_fields();
        let ghost rel_seq = relation_fields_of(model.fields@);
        let mut i: usize = 0;
        proof {
            assert(dml::deref_relations(rfs@).len() == rfs@.len());
            assert(errors@ =~= base_fields_errors_rec(*ast_model, *model, rel_seq.take(0)));
        }
        while i < rfs.len()
            invariant
                i <= rfs@.len(),
                dml::deref_relations(rfs@) == rel_seq,
                rel_seq.len() == rfs@.len(),
                errors@ == base_fields_errors_rec(*ast_model, *model, rel_seq.take(i as int)),
            decreases rfs@.len() - i,
        {
            proof {
                assert(rel_seq.take(i + 1).drop_last() =~= rel_seq.take(i as int));
                assert(rel_seq.take(i + 1).last() == rel_seq[i as int]);
                assert(rel_seq[i as int] == *rfs@[i as int]);
            }
            self.base_errors_for_field(ast_model, model, rfs[i], &mut errors);
            proof {
                assert(errors@ =~= base_fields_errors_rec(*ast_model, *model, rel_seq.take(i + 1)));
            }
            i = i + 1;
        }
        proof {
            assert(rel_seq.take(rel_seq.len() as int) =~= rel_seq);
        }
        errors.to_result()
    }

    /// The base-field diagnostics of one relation field.
    fn base_errors_for_field(
        &self,
        ast_model: &ast::Model,
        model: &Model,
        field: &RelationField,
        errors: &mut Diagnostics,
    )
        ensures
            final(errors)@ == old(errors)@ + base_field_errors(*ast_model, *model, *field),
    {
        let span = ast_field_span(ast_model, field.name.as_str());
        let rel_info = &field.relation_info;
        let unknown_fields = collect_missing_field_names(model, &rel_info.fields);
        let referenced_relation_fields = collect_relation_field_names(model, &rel_info.fields);
        let at_least_one_underlying_field_is_optional = any_field_not_required(
            model,
            &rel_info.fields,
        );
        let all_underlying_fields_are_optional = all_fields_optional(model, &rel_info.fields)
            && rel_info.fields.len() > 0;
        let ghost base = errors@;
        let ghost names = field.relation_info.fields@;
        let ghost e1 = if missing_field_names(*model, names).len() > 0 {
            seq![
                (ErrorView::Validation {
                    message: messages::msg_unknown_base_fields(missing_field_names(*model, names)),
                    span,
                }),
            ]
        } else {
            Seq::<ErrorView>::empty()
        };
        let ghost e2 = if relation_field_names(*model, names).len() > 0 {
            seq![
                (ErrorView::Validation {
                    message: messages::msg_base_fields_relation(
                        relation_field_names(*model, names),
                    ),
                    span,
                }),
            ]
        } else {
            Seq::<ErrorView>::empty()
        };
        proof {
            assert(string_views(unknown_fields@).len() == unknown_fields@.len());
            assert(string_views(referenced_relation_fields@).len()
                == referenced_relation_fields@.len());
        }
        if unknown_fields.len() > 0 {
            errors.push_error(
                DatamodelError::new_validation_error(
                    messages::build_unknown_base_fields(&unknown_fields).as_str(),
                    span,
                ),
            );
        }
        proof {
            assert(errors@ =~= base + e1);
        }
        if referenced_relation_fields.len() > 0 {
            errors.push_error(
                DatamodelError::new_validation_error(
                    messages::build_base_fields_relation(&referenced_relation_fields).as_str(),
                    span,
                ),
            );
        }
        proof {
            assert(errors@ =~= base + e1 + e2);
        }
        if at_least_one_underlying_field_is_optional && field.is_required() {
            errors.push_error(
                DatamodelError::new_validation_error(
                    messages::build_base_fields_optional(
                        field.name.as_str(),
                        &rel_info.fields,
                    ).as_str(),
                    span,
                ),
            );
        }
        if all_underlying_fields_are_optional && field.is_required() {
            errors.push_error(
                DatamodelError::new_validation_error(
                    messages::build_base_fields_all_optional(
                        field.name.as_str(),
                        &rel_info.fields,
                    ).as_str(),
                    span,
                ),
            );
        }
        proof {
            assert(errors@ =~= base + base_field_errors(*ast_model, *model, *field));
        }
    }

    /// Every name in a relation's `references` argument must resolve to an
    /// existing scalar field of the related model that forms a unique
    /// criterion, with matching types and matching argument lengths.
    pub(crate) fn validate_referenced_fields_for_relation(
        &self,
        datamodel: &Datamodel,
        ast_model: &ast::Model,
        model: &Model,
    ) -> (r: Result<(), Diagnostics>)
        requires
            relation_targets_exist(*datamodel, *model),
            all_models_criteria_wf(*datamodel),
        ensures
            match r {
                Ok(()) => referenced_fields_errors(
                    *datamodel,
                    *model,
                    *ast_model,
                    source_view(self.source),
                ).len() == 0,
                Err(d) => d@ == referenced_fields_errors(
                    *datamodel,
                    *model,
                    *ast_model,
                    source_view(self.source),
                ) && d@.len() > 0,
            },
    {
        let mut errors = Diagnostics::new();
        let rfs = model.relation_fields();
        let ghost rel_seq = relation_fields_of(model.fields@);
        let mut i: usize = 0;
        proof {
            assert(dml::deref_relations(rfs@).len() == rfs@.len());
        }
        while i < rfs.len()
            invariant
                i <= rfs@.len(),
                dml::deref_relations(rfs@) == rel_seq,
                rel_seq.len() == rfs@.len(),
                rel_seq == relation_fields_of(model.fields@),
                relation_targets_exist(*datamodel, *model),
                all_models_criteria_wf(*datamodel),
                errors@ == referenced_fields_errors_upto(
                    *datamodel,
                    *model,
                    *ast_model,
                    source_view(self.source),
                    i as int,
                ),
            decreases rfs@.len() - i,
        {
            proof {
                assert(rel_seq[i as int] == *rfs@[i as int]);
                assert(find_model_from(
                    datamodel.models@,
                    rel_seq[i as int].relation_info.to@,
                    0,
                ) is Some);
            }
            self.referenced_errors_for_field(datamodel, ast_model, model, rfs[i], &mut errors);
            i = i + 1;
        }
        proof {
            assert(errors@ == referenced_fields_errors(
                *datamodel,
                *model,
                *ast_model,
                source_view(self.source),
            ));
        }
        errors.to_result()
    }

    /// The referenced-field diagnostics of one relation field, appended to the
    /// rule's running bag (later checks are suppressed once the bag holds
    /// errors).
    fn referenced_errors_for_field(
        &self,
        datamodel: &Datamodel,
        ast_model: &ast::Model,
        model: &Model,
        field: &RelationField,
        errors: &mut Diagnostics,
    )
        requires
            find_model_from(datamodel.models@, field.relation_info.to@, 0) is Some,
            all_models_criteria_wf(*datamodel),
        ensures
            final(errors)@ == old(errors)@ + referenced_field_errors(
                *datamodel,
                *model,
                *ast_model,
                source_view(self.source),
                *field,
                old(errors)@,
            ),
    {
        let span = ast_field_span(ast_model, field.name.as_str());
        let rel_info = &field.relation_info;
        let related_model = match datamodel.find_model(rel_info.to.as_str()) {
            Some(m) => m,
            None => unreached(),
        };
        proof {
            lemma_find_model_is_element(datamodel.models@, field.relation_info.to@, 0);
            let j = choose|j: int|
                0 <= j < datamodel.models@.len() && datamodel.models@[j] == *related_model;
            assert(datamodel.models@[j].criteria_wf());
            assert(*related_model == model_of(*datamodel, field.relation_info.to@));
        }
        let unknown_fields = collect_missing_field_names(related_model, &rel_info.references);
        let referenced_relation_fields = collect_relation_field_names(
            related_model,
            &rel_info.references,
        );
        let ghost prior = errors@;
        let ghost refs = field.relation_info.references@;
        let ghost related = *related_model;
        let ghost e1 = if missing_field_names(related, refs).len() > 0 {
            seq![
                (ErrorView::Validation {
                    message: messages::msg_unknown_referenced_fields(
                        related.name@,
                        missing_field_names(related, refs),
                    ),
                    span,
                }),
            ]
        } else {
            Seq::<ErrorView>::empty()
        };
        let ghost e2 = if relation_field_names(related, refs).len() > 0 {
            seq![
                (ErrorView::Validation {
                    message: messages::msg_referenced_relation_fields(
                        related.name@,
                        relation_field_names(related, refs),
                    ),
                    span,
                }),
            ]
        } else {
            Seq::<ErrorView>::empty()
        };
        proof {
            assert(string_views(unknown_fields@).len() == unknown_fields@.len());
            assert(string_views(referenced_relation_fields@).len()
                == referenced_relation_fields@.len());
        }
        if unknown_fields.len() > 0 {
            errors.push_error(
                DatamodelError::new_validation_error(
                    messages::build_unknown_referenced_fields(
                        related_model.name.as_str(),
                        &unknown_fields,
                    ).as_str(),
                    span,
                ),
            );
        }
        proof {
            assert(errors@ =~= prior + e1);
        }
        if referenced_relation_fields.len() > 0 {
            errors.push_error(
                DatamodelError::new_validation_error(
                    messages::build_referenced_relation_fields(
                        related_model.name.as_str(),
                        &referenced_relation_fields,
                    ).as_str(),
                    span,
                ),
            );
        }
        proof {
            assert(errors@ =~= prior + e1 + e2);
        }
        let ghost bag1 = prior + e1 + e2;
        let ghost e3 = if refs.len() > 0 && bag1.len() == 0 {
            gated_reference_errors(*datamodel, related, *field, source_view(self.source), span)
        } else {
            Seq::<ErrorView>::empty()
        };
        if rel_info.references.len() > 0 && !errors.has_errors() {
            let strict_relation_field_order = match self.source {
                Some(s) => !s.combined_connector.allows_relation_fields_in_arbitrary_order,
                None => false,
            };
            let references_unique_criteria_holds = references_unique_criteria_check(
                related_model,
                &rel_info.references,
            );
            let reference_order_correct = if strict_relation_field_order
                && rel_info.references.len() > 1 {
                reference_order_check(related_model, &rel_info.references)
            } else {
                true
            };
            let references_singular_id_field = if rel_info.references.len() == 1 {
                match related_model.find_scalar_field(rel_info.references[0].as_str()) {
                    Some(f) => f.is_id,
                    None => false,
                }
            } else {
                false
            };
            let is_many_to_many = match datamodel.find_related_field(field) {
                Some((_rel_field_idx, related_field)) => field.is_list()
                    && related_field.is_list(),
                None => false,
            };
            let must_reference_unique_criteria = match self.source {
                Some(
                    source,
                ) => !source.combined_connector.supports_relations_over_non_unique_criteria,
                None => true,
            };
            if !references_unique_criteria_holds && must_reference_unique_criteria {
                errors.push_error(
                    DatamodelError::new_validation_error(
                        messages::build_not_unique_criteria(
                            related_model.name.as_str(),
                            &rel_info.references,
                        ).as_str(),
                        span,
                    ),
                );
            } else if !reference_order_correct {
                errors.push_error(
                    DatamodelError::new_validation_error(
                        messages::build_wrong_reference_order(
                            related_model.name.as_str(),
                            &rel_info.references,
                        ).as_str(),
                        span,
                    ),
                );
            }
            if is_many_to_many && !references_singular_id_field
                && related_model.has_single_id_field() {
                errors.push_error(
                    DatamodelError::new_validation_error(
                        messages::build_many_to_many_non_id(
                            related_model.name.as_str(),
                            &rel_info.references,
                        ).as_str(),
                        span,
                    ),
                );
            }
        }
        proof {
            assert(errors@ =~= prior + e1 + e2 + e3);
        }
        let ghost e4 = if field.relation_info.fields@.len() > 0 && refs.len() > 0
            && field.relation_info.fields@.len() != refs.len() {
            seq![
                (ErrorView::AttributeValidation {
                    message: "You must specify the same number of fields in `fields` and `references`."@,
                    attribute: "relation"@,
                    span,
                }),
            ]
        } else {
            Seq::<ErrorView>::empty()
        };
        if rel_info.fields.len() > 0 && rel_info.references.len() > 0 && rel_info.fields.len()
            != rel_info.references.len() {
            errors.push_error(
                DatamodelError::new_attribute_validation_error(
                    "You must specify the same number of fields in `fields` and `references`.",
                    "relation",
                    span,
                ),
            );
        }
        proof {
            assert(errors@ =~= prior + e1 + e2 + e3 + e4);
        }
        let fields_with_wrong_type = self.collect_wrong_type_errors(
            model,
            related_model,
            span,
            &rel_info.fields,
            &rel_info.references,
        );
        let ghost wrong = wrong_type_errors(
            *model,
            related,
            source_view(self.source),
            span,
            field.relation_info.fields@,
            refs,
        );
        proof {
            assert(error_views(fields_with_wrong_type@).len() == fields_with_wrong_type@.len());
        }
        if fields_with_wrong_type.len() > 0 && !errors.has_errors() {
            errors.append_error_vec(fields_with_wrong_type);
        }
        proof {
            let e5 = if wrong.len() > 0 && (bag1 + e3 + e4).len() == 0 {
                wrong
            } else {
                Seq::<ErrorView>::empty()
            };
            assert(errors@ =~= prior + e1 + e2 + e3 + e4 + e5);
            assert(e1 + e2 + e3 + e4 + e5 =~= referenced_field_errors(
                *datamodel,
                *model,
                *ast_model,
                source_view(self.source),
                *field,
                prior,
            ));
            assert(errors@ =~= prior + (e1 + e2 + e3 + e4 + e5));
        }
    }
}


// --- Relation arguments (pass 2) ------------------------------------------------

/// The argument-placement diagnostics of one relation field, given the errors
/// the pass has already collected for this model (`prior`). Requires the
/// opposite relation fields to have been standardised in.
pub open spec fn relation_argument_field_errors(
    dm: Datamodel,
    m: Model,
    am: ast::Model,
    rf: RelationField,
    prior: Seq<ErrorView>,
) -> Seq<ErrorView> {
    let span = ast_field_span_spec(am, rf.name@);
    let related = model_of(dm, rf.relation_info.to@);
    match find_related_field_spec(dm, rf) {
        None => seq![
            (ErrorView::FieldValidation {
                message: messages::msg_missing_opposite_field(rf.name@, m.name@, related.name@),
                model: m.name@,
                field: rf.name@,
                span,
            }),
        ],
        Some(p) => {
            let other = p.1;
            let e_ignore = if related.is_ignored && !rf.is_ignored && !m.is_ignored {
                seq![
                    (ErrorView::AttributeValidation {
                        message: messages::msg_must_ignore(rf.name@, m.name@, related.name@),
                        attribute: "ignore"@,
                        span,
                    }),
                ]
            } else {
                Seq::<ErrorView>::empty()
            };
            let one_to_many = rf.arity != FieldArity::List && other.arity == FieldArity::List;
            let e_fields_arg = if one_to_many && rf.relation_info.fields@.len() == 0 {
                seq![
                    (ErrorView::AttributeValidation {
                        message: messages::msg_missing_fields_argument(rf.name@, m.name@),
                        attribute: "relation"@,
                        span,
                    }),
                ]
            } else {
                Seq::<ErrorView>::empty()
            };
            let e_refs_arg = if one_to_many && rf.relation_info.references@.len() == 0 {
                seq![
                    (ErrorView::AttributeValidation {
                        message: messages::msg_missing_references_argument(rf.name@, m.name@),
                        attribute: "relation"@,
                        span,
                    }),
                ]
            } else {
                Seq::<ErrorView>::empty()
            };
            let e_wrong_side = if rf.arity == FieldArity::List && other.arity != FieldArity::List
                && (rf.relation_info.fields@.len() > 0 || rf.relation_info.references@.len() > 0) {
                seq![
                    (ErrorView::AttributeValidation {
                        message: messages::msg_arguments_on_wrong_side(
                            rf.name@,
                            m.name@,
                            other.name@,
                            related.name@,
                        ),
                        attribute: "relation"@,
                        span,
                    }),
                ]
            } else {
                Seq::<ErrorView>::empty()
            };
            let one_to_one = rf.arity != FieldArity::List && other.arity != FieldArity::List;
            let e1 = if one_to_one && rf.relation_info.fields@.len() == 0
                && other.relation_info.fields@.len() == 0 {
                seq![
                    (ErrorView::AttributeValidation {
                        message: messages::msg_fields_missing_on_both(
                            rf.name@,
                            m.name@,
                            other.name@,
                            related.name@,
                        ),
                        attribute: "relation"@,
                        span,
                    }),
                ]
            } else {
                Seq::<ErrorView>::empty()
            };
            let e2 = if one_to_one && rf.relation_info.references@.len() == 0
                && other.relation_info.references@.len() == 0 {
                seq![
                    (ErrorView::AttributeValidation {
                        message: messages::msg_references_missing_on_both(
                            rf.name@,
                            m.name@,
                            other.name@,
                            related.name@,
                        ),
                        attribute: "relation"@,
                        span,
                    }),
                ]
            } else {
                Seq::<ErrorView>::empty()
            };
            let e3 = if one_to_one && rf.relation_info.references@.len() > 0
                && other.relation_info.references@.len() > 0 {
                seq![
                    (ErrorView::AttributeValidation {
                        message: messages::msg_references_on_both(
                            rf.name@,
                            m.name@,
                            other.name@,
                            related.name@,
                        ),
                        attribute: "relation"@,
                        span,
                    }),
                ]
            } else {
                Seq::<ErrorView>::empty()
            };
            let e4 = if one_to_one && rf.relation_info.fields@.len() > 0
                && other.relation_info.fields@.len() > 0 {
                seq![
                    (ErrorView::AttributeValidation {
                        message: messages::msg_fields_on_both(
                            rf.name@,
                            m.name@,
                            other.name@,
                            related.name@,
                        ),
                        attribute: "relation"@,
                        span,
                    }),
                ]
            } else {
                Seq::<ErrorView>::empty()
            };
            let bag1 = prior + e_ignore + e_fields_arg + e_refs_arg + e_wrong_side + e1 + e2 + e3
                + e4;
            let e5 = if one_to_one && bag1.len() == 0 && rf.relation_info.fields@.len() > 0
                && other.relation_info.references@.len() > 0 {
                seq![
                    (ErrorView::AttributeValidation {
                        message: messages::msg_fields_references_crossed(
                            rf.name@,
                            m.name@,
                            other.name@,
                            related.name@,
                        ),
                        attribute: "relation"@,
                        span,
                    }),
                ]
            } else {
                Seq::<ErrorView>::empty()
            };
            let e6 = if one_to_one && bag1.len() == 0 && rf.relation_info.references@.len() > 0
                && other.relation_info.fields@.len() > 0 {
                seq![
                    (ErrorView::AttributeValidation {
                        message: messages::msg_references_fields_crossed(
                            rf.name@,
                            m.name@,
                            other.name@,
                            related.name@,
                        ),
                        attribute: "relation"@,
                        span,
                    }),
                ]
            } else {
                Seq::<ErrorView>::empty()
            };
            let bag2 = bag1 + e5 + e6;
            let e7 = if one_to_one && bag2.len() == 0 && rf.arity == FieldArity::Required
                && other.relation_info.references@.len() > 0 {
                seq![
                    (ErrorView::AttributeValidation {
                        message: messages::msg_required_one_to_one(rf.name@, m.name@, related.name@),
                        attribute: "relation"@,
                        span,
                    }),
                ]
            } else {
                Seq::<ErrorView>::empty()
            };
            let e_many = if rf.arity == FieldArity::List && other.arity == FieldArity::List
                && singular_id_fields_of(related.fields@).len() != 1 {
                seq![
                    (ErrorView::FieldValidation {
                        message: messages::msg_many_to_many_missing_id(
                            rf.name@,
                            m.name@,
                            related.name@,
                        ),
                        model: m.name@,
                        field: rf.name@,
                        span,
                    }),
                ]
            } else {
                Seq::<ErrorView>::empty()
            };
            e_ignore + e_fields_arg + e_refs_arg + e_wrong_side + e1 + e2 + e3 + e4 + e5 + e6 + e7
                + e_many
        },
    }
}

pub open spec fn relation_arguments_errors_upto(
    dm: Datamodel,
    m: Model,
    am: ast::Model,
    n: int,
) -> Seq<ErrorView>
    decreases n,
{
    if n <= 0 {
        Seq::empty()
    } else {
        let prior = relation_arguments_errors_upto(dm, m, am, n - 1);
        prior + relation_argument_field_errors(
            dm,
            m,
            am,
            relation_fields_of(m.fields@)[n - 1],
            prior,
        )
    }
}

/// The argument-placement diagnostics of every relation field of the model,
/// in order.
pub open spec fn relation_arguments_errors(dm: Datamodel, m: Model, am: ast::Model) -> Seq<
    ErrorView,
> {
    relation_arguments_errors_upto(dm, m, am, relation_fields_of(m.fields@).len() as int)
}

impl<'a, C: ActiveConnector> Validator<'a, C> {
    /// After standardisation: each relation field must have an opposite field,
    /// point at a live model, and carry its `fields` and `references`
    /// arguments on the right side.
    pub(crate) fn validate_relation_arguments_bla(
        &self,
        datamodel: &Datamodel,
        ast_model: &ast::Model,
        model: &Model,
    ) -> (r: Diagnostics)
        requires
            relation_targets_exist(*datamodel, *model),
        ensures
            r@ == relation_arguments_errors(*datamodel, *model, *ast_model),
    {
        let mut errors = Diagnostics::new();
        let rfs = model.relation_fields();
        let ghost rel_seq = relation_fields_of(model.fields@);
        let mut i: usize = 0;
        proof {
            assert(dml::deref_relations(rfs@).len() == rfs@.len());
        }
        while i < rfs.len()
            invariant
                i <= rfs@.len(),
                dml::deref_relations(rfs@) == rel_seq,
                rel_seq.len() == rfs@.len(),
                rel_seq == relation_fields_of(model.fields@),
                relation_targets_exist(*datamodel, *model),
                errors@ == relation_arguments_errors_upto(*datamodel, *model, *ast_model, i as int),
            decreases rfs@.len() - i,
        {
            proof {
                assert(rel_seq[i as int] == *rfs@[i as int]);
                assert(find_model_from(
                    datamodel.models@,
                    rel_seq[i as int].relation_info.to@,
                    0,
                ) is Some);
            }
            self.relation_argument_errors_for_field(
                datamodel,
                ast_model,
                model,
                rfs[i],
                &mut errors,
            );
            i = i + 1;
        }
        proof {
            assert(errors@ == relation_arguments_errors(*datamodel, *model, *ast_model));
        }
        errors
    }

    /// The argument-placement diagnostics of one relation field, appended to
    /// the pass's running bag.
    #[verifier::rlimit(100)]
    fn relation_argument_errors_for_field(
        &self,
        datamodel: &Datamodel,
        ast_model: &ast::Model,
        model: &Model,
        field: &RelationField,
        errors: &mut Diagnostics,
    )
        requires
            find_model_from(datamodel.models@, field.relation_info.to@, 0) is Some,
        ensures
            final(errors)@ == old(errors)@ + relation_argument_field_errors(
                *datamodel,
                *model,
                *ast_model,
                *field,
                old(errors)@,
            ),
    {
        let field_span = ast_field_span(ast_model, field.name.as_str());
        let rel_info = &field.relation_info;
        let related_model = match datamodel.find_model(rel_info.to.as_str()) {
            Some(m) => m,
            None => unreached(),
        };
        proof {
            assert(*related_model == model_of(*datamodel, field.relation_info.to@));
        }
        let ghost prior = errors@;
        let ghost related = *related_model;
        match datamodel.find_related_field(field) {
            Some((_rel_field_idx, related_field)) => {
                let ghost other = *related_field;
                let related_field_rel_info = &related_field.relation_info;
                let ghost e_ignore = if related.is_ignored && !field.is_ignored
                    && !model.is_ignored {
                    seq![
                        (ErrorView::AttributeValidation {
                            message: messages::msg_must_ignore(
                                field.name@,
                                model.name@,
                                related.name@,
                            ),
                            attribute: "ignore"@,
                            span: field_span,
                        }),
                    ]
                } else {
                    Seq::<ErrorView>::empty()
                };
                if related_model.is_ignored && !field.is_ignored && !model.is_ignored {
                    errors.push_error(
                        DatamodelError::new_attribute_validation_error(
                            messages::build_must_ignore(
                                field.name.as_str(),
                                model.name.as_str(),
                                related_model.name.as_str(),
                            ).as_str(),
                            "ignore",
                            field_span,
                        ),
                    );
                }
                proof {
                    assert(errors@ =~= prior + e_ignore);
                }
                let ghost one_to_many = field.arity != FieldArity::List && other.arity
                    == FieldArity::List;
                let ghost e_fields_arg = if one_to_many && field.relation_info.fields@.len()
                    == 0 {
                    seq![
                        (ErrorView::AttributeValidation {
                            message: messages::msg_missing_fields_argument(
                                field.name@,
                                model.name@,
                            ),
                            attribute: "relation"@,
                            span: field_span,
                        }),
                    ]
                } else {
                    Seq::<ErrorView>::empty()
                };
                let ghost e_refs_arg = if one_to_many && field.relation_info.references@.len()
                    == 0 {
                    seq![
                        (ErrorView::AttributeValidation {
                            message: messages::msg_missing_references_argument(
                                field.name@,
                                model.name@,
                            ),
                            attribute: "relation"@,
                            span: field_span,
                        }),
                    ]
                } else {
                    Seq::<ErrorView>::empty()
                };
                if field.is_singular() && related_field.is_list() {
                    if rel_info.fields.len() == 0 {
                        errors.push_error(
                            DatamodelError::new_attribute_validation_error(
                                messages::build_missing_fields_argument(
                                    field.name.as_str(),
                                    model.name.as_str(),
                                ).as_str(),
                                "relation",
                                field_span,
                            ),
                        );
                    }
                    if rel_info.references.len() == 0 {
                        errors.push_error(
                            DatamodelError::new_attribute_validation_error(
                                messages::build_missing_references_argument(
                                    field.name.as_str(),
                                    model.name.as_str(),
                                ).as_str(),
                                "relation",
                                field_span,
                            ),
                        );
                    }
                }
                proof {
                    assert(errors@ =~= prior + e_ignore + e_fields_arg + e_refs_arg);
                }
                let ghost e_wrong_side = if field.arity == FieldArity::List && other.arity
                    != FieldArity::List && (field.relation_info.fields@.len() > 0
                    || field.relation_info.references@.len() > 0) {
                    seq![
                        (ErrorView::AttributeValidation {
                            message: messages::msg_arguments_on_wrong_side(
                                field.name@,
                                model.name@,
                                other.name@,
                                related.name@,
                            ),
                            attribute: "relation"@,
                            span: field_span,
                        }),
                    ]
                } else {
                    Seq::<ErrorView>::empty()
                };
                if field.is_list() && !related_field.is_list() && (rel_info.fields.len() > 0
                    || rel_info.references.len() > 0) {
                    errors.push_error(
                        DatamodelError::new_attribute_validation_error(
                            messages::build_arguments_on_wrong_side(
                                field.name.as_str(),
                                model.name.as_str(),
                                related_field.name.as_str(),
                                related_model.name.as_str(),
                            ).as_str(),
                            "relation",
                            field_span,
                        ),
                    );
                }
                proof {
                    assert(errors@ =~= prior + e_ignore + e_fields_arg + e_refs_arg + e_wrong_side);
                }
                let ghost one_to_one = field.arity != FieldArity::List && other.arity
                    != FieldArity::List;
                let ghost e1 = if one_to_one && field.relation_info.fields@.len() == 0
                    && other.relation_info.fields@.len() == 0 {
                    seq![
                        (ErrorView::AttributeValidation {
                            message: messages::msg_fields_missing_on_both(
                                field.name@,
                                model.name@,
                                other.name@,
                                related.name@,
                            ),
                            attribute: "relation"@,
                            span: field_span,
                        }),
                    ]
                } else {
                    Seq::<ErrorView>::empty()
                };
                let ghost e2 = if one_to_one && field.relation_info.references@.len() == 0
                    && other.relation_info.references@.len() == 0 {
                    seq![
                        (ErrorView::AttributeValidation {
                            message: messages::msg_references_missing_on_both(
                                field.name@,
                                model.name@,
                                other.name@,
                                related.name@,
                            ),
                            attribute: "relation"@,
                            span: field_span,
                        }),
                    ]
                } else {
                    Seq::<ErrorView>::empty()
                };
                let ghost e3 = if one_to_one && field.relation_info.references@.len() > 0
                    && other.relation_info.references@.len() > 0 {
                    seq![
                        (ErrorView::AttributeValidation {
                            message: messages::msg_references_on_both(
                                field.name@,
                                model.name@,
                                other.name@,
                                related.name@,
                            ),
                            attribute: "relation"@,
                            span: field_span,
                        }),
                    ]
                } else {
                    Seq::<ErrorView>::empty()
                };
                let ghost e4 = if one_to_one && field.relation_info.fields@.len() > 0
                    && other.relation_info.fields@.len() > 0 {
                    seq![
                        (ErrorView::AttributeValidation {
                            message: messages::msg_fields_on_both(
                                field.name@,
                                model.name@,
                                other.name@,
                                related.name@,
                            ),
                            attribute: "relation"@,
                            span: field_span,
                        }),
                    ]
                } else {
                    Seq::<ErrorView>::empty()
                };
                let ghost bag1 = prior + e_ignore + e_fields_arg + e_refs_arg + e_wrong_side + e1
                    + e2 + e3 + e4;
                let ghost e5 = if one_to_one && bag1.len() == 0
                    && field.relation_info.fields@.len() > 0
                    && other.relation_info.references@.len() > 0 {
                    seq![
                        (ErrorView::AttributeValidation {
                            message: messages::msg_fields_references_crossed(
                                field.name@,
                                model.name@,
                                other.name@,
                                related.name@,
                            ),
                            attribute: "relation"@,
                            span: field_span,
                        }),
                    ]
                } else {
                    Seq::<ErrorView>::empty()
                };
                let ghost e6 = if one_to_one && bag1.len() == 0
                    && field.relation_info.references@.len() > 0
                    && other.relation_info.fields@.len() > 0 {
                    seq![
                        (ErrorView::AttributeValidation {
                            message: messages::msg_references_fields_crossed(
                                field.name@,
                                model.name@,
                                other.name@,
                                related.name@,
                            ),
                            attribute: "relation"@,
                            span: field_span,
                        }),
                    ]
                } else {
                    Seq::<ErrorView>::empty()
                };
                let ghost bag2 = bag1 + e5 + e6;
                let ghost e7 = if one_to_one && bag2.len() == 0 && field.arity
                    == FieldArity::Required && other.relation_info.references@.len() > 0 {
                    seq![
                        (ErrorView::AttributeValidation {
                            message: messages::msg_required_one_to_one(
                                field.name@,
                                model.name@,
                                related.name@,
                            ),
                            attribute: "relation"@,
                            span: field_span,
                        }),
                    ]
                } else {
                    Seq::<ErrorView>::empty()
                };
                if field.is_singular() && related_field.is_singular() {
                    if rel_info.fields.len() == 0 && related_field_rel_info.fields.len() == 0 {
                        errors.push_error(
                            DatamodelError::new_attribute_validation_error(
                                messages::build_fields_missing_on_both(
                                    field.name.as_str(),
                                    model.name.as_str(),
                                    related_field.name.as_str(),
                                    related_model.name.as_str(),
                                ).as_str(),
                                "relation",
                                field_span,
                            ),
                        );
                    }
                    if rel_info.references.len() == 0 && related_field_rel_info.references.len()
                        == 0 {
                        errors.push_error(
                            DatamodelError::new_attribute_validation_error(
                                messages::build_references_missing_on_both(
                                    field.name.as_str(),
                                    model.name.as_str(),
                                    related_field.name.as_str(),
                                    related_model.name.as_str(),
                                ).as_str(),
                                "relation",
                                field_span,
                            ),
                        );
                    }
                    if rel_info.references.len() > 0 && related_field_rel_info.references.len()
                        > 0 {
                        errors.push_error(
                            DatamodelError::new_attribute_validation_error(
                                messages::build_references_on_both(
                                    field.name.as_str(),
                                    model.name.as_str(),
                                    related_field.name.as_str(),
                                    related_model.name.as_str(),
                                ).as_str(),
                                "relation",
                                field_span,
                            ),
                        );
                    }
                    if rel_info.fields.len() > 0 && related_field_rel_info.fields.len() > 0 {
                        errors.push_error(
                            DatamodelError::new_attribute_validation_error(
                                messages::build_fields_on_both(
                                    field.name.as_str(),
                                    model.name.as_str(),
                                    related_field.name.as_str(),
                                    related_model.name.as_str(),
                                ).as_str(),
                                "relation",
                                field_span,
                            ),
                        );
                    }
                    proof {
                        assert(errors@ =~= bag1);
                    }
                    if !errors.has_errors() {
                        if rel_info.fields.len() > 0 && related_field_rel_info.references.len()
                            > 0 {
                            errors.push_error(
                                DatamodelError::new_attribute_validation_error(
                                    messages::build_fields_references_crossed(
                                        field.name.as_str(),
                                        model.name.as_str(),
                                        related_field.name.as_str(),
                                        related_model.name.as_str(),
                                    ).as_str(),
                                    "relation",
                                    field_span,
                                ),
                            );
                        }
                        if rel_info.references.len() > 0 && related_field_rel_info.fields.len()
                            > 0 {
                            errors.push_error(
                                DatamodelError::new_attribute_validation_error(
                                    messages::build_references_fields_crossed(
                                        field.name.as_str(),
                                        model.name.as_str(),
                                        related_field.name.as_str(),
                                        related_model.name.as_str(),
                                    ).as_str(),
                                    "relation",
                                    field_span,
                                ),
                            );
                        }
                    }
                    proof {
                        assert(errors@ =~= bag2);
                    }
                    if !errors.has_errors() && field.is_required()
                        && related_field_rel_info.references.len() > 0 {
                        errors.push_error(
                            DatamodelError::new_attribute_validation_error(
                                messages::build_required_one_to_one(
                                    field.name.as_str(),
                                    model.name.as_str(),
                                    related_model.name.as_str(),
                                ).as_str(),
                                "relation",
                                field_span,
                            ),
                        );
                    }
                    proof {
                        assert(errors@ =~= bag2 + e7);
                    }
                } else {
                    proof {
                        assert(errors@ =~= bag2 + e7);
                    }
                }
                let ghost e_many = if field.arity == FieldArity::List && other.arity
                    == FieldArity::List && singular_id_fields_of(related.fields@).len() != 1 {
                    seq![
                        (ErrorView::FieldValidation {
                            message: messages::msg_many_to_many_missing_id(
                                field.name@,
                                model.name@,
                                related.name@,
                            ),
                            model: model.name@,
                            field: field.name@,
                            span: field_span,
                        }),
                    ]
                } else {
                    Seq::<ErrorView>::empty()
                };
                if field.is_list() && related_field.is_list()
                    && !related_model.has_single_id_field() {
                    errors.push_error(
                        DatamodelError::new_field_validation_error(
                            messages::build_many_to_many_missing_id(
                                field.name.as_str(),
                                model.name.as_str(),
                                related_model.name.as_str(),
                            ).as_str(),
                            model.name.as_str(),
                            field.name.as_str(),
                            field_span,
                        ),
                    );
                }
                proof {
                    assert(errors@ =~= bag2 + e7 + e_many);
                    assert(errors@ =~= prior + (e_ignore + e_fields_arg + e_refs_arg + e_wrong_side
                        + e1 + e2 + e3 + e4 + e5 + e6 + e7 + e_many));
                    assert(e_ignore + e_fields_arg + e_refs_arg + e_wrong_side + e1 + e2 + e3 + e4
                        + e5 + e6 + e7 + e_many =~= relation_argument_field_errors(
                        *datamodel,
                        *model,
                        *ast_model,
                        *field,
                        prior,
                    ));
                }
            },
            None => {
                errors.push_error(
                    DatamodelError::new_field_validation_error(
                        messages::build_missing_opposite_field(
                            field.name.as_str(),
                            model.name.as_str(),
                            related_model.name.as_str(),
                        ).as_str(),
                        model.name.as_str(),
                        field.name.as_str(),
                        field_span,
                    ),
                );
                proof {
                    assert(errors@ =~= prior + relation_argument_field_errors(
                        *datamodel,
                        *model,
                        *ast_model,
                        *field,
                        prior,
                    ));
                }
            },
        }
    }
}


// --- Ambiguous relations (pass 1) ------------------------------------------------

/// The span of the named field of the named model in the AST; the empty span
/// when the lookup fails (well-formed inputs rule that out).
pub open spec fn ambiguity_field_span(ast: SchemaAst, model_name: Seq<char>, field: Seq<char>) -> Span {
    match ast.find_field_in_model_spec(model_name, field) {
        Some(f) => f.span,
        None => Span::empty_spec(),
    }
}

/// For a self-relation pair `(i, j)`: the first third field, from position `k`
/// on, that also targets the owning model under the same relation name.
pub open spec fn self_relation_third_error_from(
    ast: SchemaAst,
    m: Model,
    rfs: Seq<RelationField>,
    i: int,
    j: int,
    k: int,
) -> Option<ErrorView>
    decreases rfs.len() - k,
{
    if k < 0 || k >= rfs.len() {
        None
    } else {
        let a = rfs[i];
        let b = rfs[j];
        let c = rfs[k];
        if !rf_value_eq(a, c) && !rf_value_eq(b, c) && c.relation_info.to@ == m.name@
            && a.relation_info.name@ == b.relation_info.name@ && a.relation_info.name@
            == c.relation_info.name@ {
            if a.relation_info.name@.len() == 0 {
                Some(
                    ErrorView::ModelValidation {
                        message: messages::msg_unnamed_self_relation(
                            a.name@,
                            b.name@,
                            c.name@,
                            m.name@,
                        ),
                        model: m.name@,
                        span: ambiguity_field_span(ast, m.name@, a.name@),
                    },
                )
            } else {
                Some(
                    ErrorView::ModelValidation {
                        message: messages::msg_wrongly_named_self_relation(
                            a.name@,
                            b.name@,
                            c.name@,
                            m.name@,
                        ),
                        model: m.name@,
                        span: ambiguity_field_span(ast, m.name@, a.name@),
                    },
                )
            }
        } else {
            self_relation_third_error_from(ast, m, rfs, i, j, k + 1)
        }
    }
}

/// The ambiguity diagnostic of the ordered pair `(i, j)` of distinct relation
/// fields, if any: two fields of one relation name targeting the same other
/// model conflict; so do self-relations without names or shared by a third
/// field.
pub open spec fn ambiguity_pair_error(
    ast: SchemaAst,
    m: Model,
    rfs: Seq<RelationField>,
    i: int,
    j: int,
) -> Option<ErrorView> {
    let a = rfs[i];
    let b = rfs[j];
    if rf_value_eq(a, b) {
        None
    } else if a.relation_info.to@ != m.name@ && b.relation_info.to@ != m.name@ {
        if a.relation_info.to@ == b.relation_info.to@ && a.relation_info.name@
            == b.relation_info.name@ {
            if a.relation_info.name@.len() == 0 {
                Some(
                    ErrorView::ModelValidation {
                        message: messages::msg_ambiguous_relation(
                            a.name@,
                            b.name@,
                            m.name@,
                            a.relation_info.to@,
                        ),
                        model: m.name@,
                        span: ambiguity_field_span(ast, m.name@, a.name@),
                    },
                )
            } else {
                Some(
                    ErrorView::ModelValidation {
                        message: messages::msg_wrongly_named_relation(a.name@, b.name@, m.name@),
                        model: m.name@,
                        span: ambiguity_field_span(ast, m.name@, a.name@),
                    },
                )
            }
        } else {
            None
        }
    } else if a.relation_info.to@ == m.name@ && b.relation_info.to@ == m.name@ {
        match self_relation_third_error_from(ast, m, rfs, i, j, 0) {
            Some(e) => Some(e),
            None => if a.relation_info.name@.len() == 0 && b.relation_info.name@.len() == 0 {
                Some(
                    ErrorView::ModelValidation {
                        message: messages::msg_ambiguous_self_relation(
                            a.name@,
                            b.name@,
                            m.name@,
                            a.relation_info.to@,
                        ),
                        model: m.name@,
                        span: ambiguity_field_span(ast, m.name@, a.name@),
                    },
                )
            } else {
                None
            },
        }
    } else {
        None
    }
}

/// The first ambiguity diagnostic of row `i`, scanning partners from `j` on.
pub open spec fn ambiguity_row_from(
    ast: SchemaAst,
    m: Model,
    rfs: Seq<RelationField>,
    i: int,
    j: int,
) -> Option<ErrorView>
    decreases rfs.len() - j,
{
    if j < 0 || j >= rfs.len() {
        None
    } else {
        match ambiguity_pair_error(ast, m, rfs, i, j) {
            Some(e) => Some(e),
            None => ambiguity_row_from(ast, m, rfs, i, j + 1),
        }
    }
}

/// The first ambiguity diagnostic among pairs whose first member is at
/// position `i` or later.
pub open spec fn ambiguity_error_from(
    ast: SchemaAst,
    m: Model,
    rfs: Seq<RelationField>,
    i: int,
) -> Option<ErrorView>
    decreases rfs.len() - i,
{
    if i < 0 || i >= rfs.len() {
        None
    } else {
        match ambiguity_row_from(ast, m, rfs, i, 0) {
            Some(e) => Some(e),
            None => ambiguity_error_from(ast, m, rfs, i + 1),
        }
    }
}

/// The first ambiguity diagnostic of the model's relation fields, if any. The
/// search stops at the first violation: later ones would only cascade.
pub open spec fn ambiguity_error(ast: SchemaAst, m: Model) -> Option<ErrorView> {
    ambiguity_error_from(ast, m, relation_fields_of(m.fields@), 0)
}

/// The span of the named field of the named model; the empty span when the
/// lookup fails.
fn ambiguity_span(ast_schema: &SchemaAst, model_name: &str, field_name_str: &str) -> (s: Span)
    ensures
        s == ambiguity_field_span(*ast_schema, model_name@, field_name_str@),
{
    match ast_schema.find_field(model_name, field_name_str) {
        Some(f) => f.span,
        None => Span::empty(),
    }
}

impl<'a, C: ActiveConnector> Validator<'a, C> {
    /// Checks that no two relation fields of the model are ambiguous, and
    /// returns at the first violation.
    pub(crate) fn validate_relations_not_ambiguous(
        &self,
        ast_schema: &SchemaAst,
        model: &Model,
    ) -> (r: Result<(), DatamodelError>)
        ensures
            match r {
                Ok(()) => ambiguity_error(*ast_schema, *model) is None,
                Err(e) => ambiguity_error(*ast_schema, *model) == Some(e@),
            },
    {
        let rfs = model.relation_fields();
        let ghost rel_seq = relation_fields_of(model.fields@);
        proof {
            assert(dml::deref_relations(rfs@).len() == rfs@.len());
        }
        let mut i: usize = 0;
        while i < rfs.len()
            invariant
                i <= rfs@.len(),
                dml::deref_relations(rfs@) == rel_seq,
                rel_seq.len() == rfs@.len(),
                rel_seq == relation_fields_of(model.fields@),
                ambiguity_error_from(*ast_schema, *model, rel_seq, 0) == ambiguity_error_from(
                    *ast_schema,
                    *model,
                    rel_seq,
                    i as int,
                ),
            decreases rfs@.len() - i,
        {
            let field_a = rfs[i];
            proof {
                assert(rel_seq[i as int] == *rfs@[i as int]);
            }
            let mut j: usize = 0;
            while j < rfs.len()
                invariant
                    i < rfs@.len(),
                    j <= rfs@.len(),
                    dml::deref_relations(rfs@) == rel_seq,
                    rel_seq.len() == rfs@.len(),
                    rel_seq == relation_fields_of(model.fields@),
                    field_a == rfs@[i as int],
                    rel_seq[i as int] == *rfs@[i as int],
                    ambiguity_error_from(*ast_schema, *model, rel_seq, 0) == ambiguity_error_from(
                        *ast_schema,
                        *model,
                        rel_seq,
                        i as int,
                    ),
                    ambiguity_row_from(*ast_schema, *model, rel_seq, i as int, 0)
                        == ambiguity_row_from(*ast_schema, *model, rel_seq, i as int, j as int),
                decreases rfs@.len() - j,
            {
                let field_b = rfs[j];
                proof {
                    assert(rel_seq[j as int] == *rfs@[j as int]);
                }
                if !rf_equal(field_a, field_b) {
                    let rel_a = &field_a.relation_info;
                    let rel_b = &field_b.relation_info;
                    let a_is_self = str_eq(rel_a.to.as_str(), model.name.as_str());
                    let b_is_self = str_eq(rel_b.to.as_str(), model.name.as_str());
                    if !a_is_self && !b_is_self {
                        if str_eq(rel_a.to.as_str(), rel_b.to.as_str()) && str_eq(
                            rel_a.name.as_str(),
                            rel_b.name.as_str(),
                        ) {
                            let span = ambiguity_span(
                                ast_schema,
                                model.name.as_str(),
                                field_a.name.as_str(),
                            );
                            let e = if rel_a.name.as_str().is_empty() {
                                DatamodelError::new_model_validation_error(
                                    messages::build_ambiguous_relation(
                                        field_a.name.as_str(),
                                        field_b.name.as_str(),
                                        model.name.as_str(),
                                        rel_a.to.as_str(),
                                    ).as_str(),
                                    model.name.as_str(),
                                    span,
                                )
                            } else {
                                DatamodelError::new_model_validation_error(
                                    messages::build_wrongly_named_relation(
                                        field_a.name.as_str(),
                                        field_b.name.as_str(),
                                        model.name.as_str(),
                                    ).as_str(),
                                    model.name.as_str(),
                                    span,
                                )
                            };
                            proof {
                                assert(ambiguity_pair_error(
                                    *ast_schema,
                                    *model,
                                    rel_seq,
                                    i as int,
                                    j as int,
                                ) == Some(e@));
                                assert(ambiguity_error(*ast_schema, *model) == Some(e@));
                            }
                            return Err(e);
                        }
                    } else if a_is_self && b_is_self {
                        let mut k: usize = 0;
                        while k < rfs.len()
                            invariant
                                i < rfs@.len(),
                                j < rfs@.len(),
                                k <= rfs@.len(),
                                dml::deref_relations(rfs@) == rel_seq,
                                rel_seq.len() == rfs@.len(),
                                rel_seq == relation_fields_of(model.fields@),
                                field_a == rfs@[i as int],
                                field_b == rfs@[j as int],
                                ambiguity_error_from(*ast_schema, *model, rel_seq, 0)
                                    == ambiguity_error_from(
                                    *ast_schema,
                                    *model,
                                    rel_seq,
                                    i as int,
                                ),
                                ambiguity_row_from(*ast_schema, *model, rel_seq, i as int, 0)
                                    == ambiguity_row_from(
                                    *ast_schema,
                                    *model,
                                    rel_seq,
                                    i as int,
                                    j as int,
                                ),
                                !rf_value_eq(rel_seq[i as int], rel_seq[j as int]),
                                rel_seq[i as int].relation_info.to@ == model.name@,
                                rel_seq[j as int].relation_info.to@ == model.name@,
                                self_relation_third_error_from(
                                    *ast_schema,
                                    *model,
                                    rel_seq,
                                    i as int,
                                    j as int,
                                    0,
                                ) == self_relation_third_error_from(
                                    *ast_schema,
                                    *model,
                                    rel_seq,
                                    i as int,
                                    j as int,
                                    k as int,
                                ),
                            decreases rfs@.len() - k,
                        {
                            let field_c = rfs[k];
                            proof {
                                assert(rel_seq[k as int] == *rfs@[k as int]);
                            }
                            if !rf_equal(field_a, field_c) && !rf_equal(field_b, field_c) {
                                let rel_c = &field_c.relation_info;
                                if str_eq(rel_c.to.as_str(), model.name.as_str()) && str_eq(
                                    field_a.relation_info.name.as_str(),
                                    field_b.relation_info.name.as_str(),
                                ) && str_eq(
                                    field_a.relation_info.name.as_str(),
                                    rel_c.name.as_str(),
                                ) {
                                    let span = ambiguity_span(
                                        ast_schema,
                                        model.name.as_str(),
                                        field_a.name.as_str(),
                                    );
                                    let e = if field_a.relation_info.name.as_str().is_empty() {
                                        DatamodelError::new_model_validation_error(
                                            messages::build_unnamed_self_relation(
                                                field_a.name.as_str(),
                                                field_b.name.as_str(),
                                                field_c.name.as_str(),
                                                model.name.as_str(),
                                            ).as_str(),
                                            model.name.as_str(),
                                            span,
                                        )
                                    } else {
                                        DatamodelError::new_model_validation_error(
                                            messages::build_wrongly_named_self_relation(
                                                field_a.name.as_str(),
                                                field_b.name.as_str(),
                                                field_c.name.as_str(),
                                                model.name.as_str(),
                                            ).as_str(),
                                            model.name.as_str(),
                                            span,
                                        )
                                    };
                                    proof {
                                        assert(self_relation_third_error_from(
                                            *ast_schema,
                                            *model,
                                            rel_seq,
                                            i as int,
                                            j as int,
                                            k as int,
                                        ) == Some(e@));
                                        assert(ambiguity_pair_error(
                                            *ast_schema,
                                            *model,
                                            rel_seq,
                                            i as int,
                                            j as int,
                                        ) == Some(e@));
                                        assert(ambiguity_error(*ast_schema, *model) == Some(e@));
                                    }
                                    return Err(e);
                                }
                            }
                            k = k + 1;
                        }
                        if field_a.relation_info.name.as_str().is_empty()
                            && field_b.relation_info.name.as_str().is_empty() {
                            let span = ambiguity_span(
                                ast_schema,
                                model.name.as_str(),
                                field_a.name.as_str(),
                            );
                            let e = DatamodelError::new_model_validation_error(
                                messages::build_ambiguous_self_relation(
                                    field_a.name.as_str(),
                                    field_b.name.as_str(),
                                    model.name.as_str(),
                                    field_a.relation_info.to.as_str(),
                                ).as_str(),
                                model.name.as_str(),
                                span,
                            );
                            proof {
                                assert(ambiguity_pair_error(
                                    *ast_schema,
                                    *model,
                                    rel_seq,
                                    i as int,
                                    j as int,
                                ) == Some(e@));
                                assert(ambiguity_error(*ast_schema, *model) == Some(e@));
                            }
                            return Err(e);
                        }
                        proof {
                            assert(ambiguity_pair_error(
                                *ast_schema,
                                *model,
                                rel_seq,
                                i as int,
                                j as int,
                            ) is None);
                        }
                    }
                }
                proof {
                    assert(ambiguity_pair_error(*ast_schema, *model, rel_seq, i as int, j as int)
                        is None);
                    assert(ambiguity_row_from(*ast_schema, *model, rel_seq, i as int, j as int)
                        == ambiguity_row_from(*ast_schema, *model, rel_seq, i as int, j + 1));
                }
                j = j + 1;
            }
            proof {
                assert(ambiguity_row_from(*ast_schema, *model, rel_seq, i as int, 0) is None);
                assert(ambiguity_error_from(*ast_schema, *model, rel_seq, i as int)
                    == ambiguity_error_from(*ast_schema, *model, rel_seq, i + 1));
            }
            i = i + 1;
        }
        proof {
            assert(ambiguity_error(*ast_schema, *model) is None);
        }
        Ok(())
    }
}


// --- Locality of spans --------------------------------------------------------------

/// Whether the inner byte range lies within the outer one.
pub open spec fn span_within(inner: Span, outer: Span) -> bool {
    outer.start <= inner.start && inner.end <= outer.end
}

/// Whether every field declaration of the AST model lies within the model's
/// own byte range. Parsers produce nested spans; the locality law rests on it.
pub open spec fn ast_model_spans_nested(am: ast::Model) -> bool {
    forall|k: int|
        0 <= k < am.fields@.len() ==> span_within((#[trigger] am.fields@[k]).span, am.span)
}

/// A found AST field is an element of the field list it was found in.
pub(crate) proof fn lemma_find_ast_field_is_element(fields: Seq<ast::Field>, name: Seq<char>, i: int)
    ensures
        ast::find_field_from(fields, name, i) matches Some(f) ==> exists|j: int|
            0 <= j < fields.len() && fields[j] == f,
    decreases fields.len() - i,
{
    if 0 <= i < fields.len() {
        if fields[i].name.name@ == name {
            assert(fields[i] == ast::find_field_from(fields, name, i)->Some_0);
        } else {
            lemma_find_ast_field_is_element(fields, name, i + 1);
        }
    }
}

/// Every diagnostic of one relation field's argument checks points at that
/// field's declaration.
#[verifier::rlimit(100)]
proof fn lemma_pass2_field_spans(
    dm: Datamodel,
    m: Model,
    am: ast::Model,
    rf: RelationField,
    prior: Seq<ErrorView>,
)
    ensures
        forall|k: int|
            0 <= k < relation_argument_field_errors(dm, m, am, rf, prior).len() ==> (
            #[trigger] relation_argument_field_errors(dm, m, am, rf, prior)[k]).span()
                == ast_field_span_spec(am, rf.name@),
{
}

/// Law (locality, post-standardisation pass): with an AST whose field spans
/// lie within their model's byte range, and a declaration for every relation
/// field, every diagnostic the pass produces for a model points within the
/// byte range of that model's AST declaration — the entity the diagnostic
/// blames.
pub proof fn lemma_post_pass_spans_within_model(dm: Datamodel, m: Model, am: ast::Model)
    requires
        forall|k: int|
            0 <= k < relation_fields_of(m.fields@).len() ==> am.find_field_spec(
                (#[trigger] relation_fields_of(m.fields@)[k]).name@,
            ) is Some,
        ast_model_spans_nested(am),
    ensures
        forall|k: int|
            0 <= k < relation_arguments_errors(dm, m, am).len() ==> span_within(
                (#[trigger] relation_arguments_errors(dm, m, am)[k]).span(),
                am.span,
            ),
{
    lemma_post_upto_spans_within_model(dm, m, am, relation_fields_of(m.fields@).len() as int);
}

proof fn lemma_post_upto_spans_within_model(dm: Datamodel, m: Model, am: ast::Model, n: int)
    requires
        n <= relation_fields_of(m.fields@).len(),
        forall|k: int|
            0 <= k < relation_fields_of(m.fields@).len() ==> am.find_field_spec(
                (#[trigger] relation_fields_of(m.fields@)[k]).name@,
            ) is Some,
        ast_model_spans_nested(am),
    ensures
        forall|k: int|
            0 <= k < relation_arguments_errors_upto(dm, m, am, n).len() ==> span_within(
                (#[trigger] relation_arguments_errors_upto(dm, m, am, n)[k]).span(),
                am.span,
            ),
    decreases n,
{
    if n > 0 {
        lemma_post_upto_spans_within_model(dm, m, am, n - 1);
        let rf = relation_fields_of(m.fields@)[n - 1];
        let prior = relation_arguments_errors_upto(dm, m, am, n - 1);
        lemma_pass2_field_spans(dm, m, am, rf, prior);
        assert(am.find_field_spec(rf.name@) is Some);
        lemma_find_ast_field_is_element(am.fields@, rf.name@, 0);
        let f = am.find_field_spec(rf.name@)->Some_0;
        let j = choose|j: int| 0 <= j < am.fields@.len() && am.fields@[j] == f;
        assert(span_within(am.fields@[j].span, am.span));
        assert(span_within(ast_field_span_spec(am, rf.name@), am.span));
        assert forall|k: int|
            0 <= k < relation_arguments_errors_upto(dm, m, am, n).len() implies span_within(
            (#[trigger] relation_arguments_errors_upto(dm, m, am, n)[k]).span(),
            am.span,
        ) by {
            let whole = relation_arguments_errors_upto(dm, m, am, n);
            if k < prior.len() {
                assert(whole[k] == prior[k]);
            } else {
                let seg = relation_argument_field_errors(dm, m, am, rf, prior);
                assert(whole[k] == seg[k - prior.len()]);
            }
        }
    }
}


/// Whether every diagnostic of the sequence points within the outer range.
pub open spec fn spans_within(errs: Seq<ErrorView>, outer: Span) -> bool {
    forall|k: int| 0 <= k < errs.len() ==> span_within((#[trigger] errs[k]).span(), outer)
}

/// Concatenation preserves span containment.
pub proof fn lemma_spans_within_concat(a: Seq<ErrorView>, b: Seq<ErrorView>, outer: Span)
    requires
        spans_within(a, outer),
        spans_within(b, outer),
    ensures
        spans_within(a + b, outer),
{
    assert forall|k: int| 0 <= k < (a + b).len() implies span_within(
        (#[trigger] (a + b)[k]).span(),
        outer,
    ) by {
        if k < a.len() {
            assert((a + b)[k] == a[k]);
        } else {
            assert((a + b)[k] == b[k - a.len()]);
        }
    }
}

/// Whether every attribute of the AST field lies within the field's own byte
/// range.
pub open spec fn ast_field_attrs_nested(f: ast::Field) -> bool {
    forall|k: int|
        0 <= k < f.attributes@.len() ==> span_within((#[trigger] f.attributes@[k]).span, f.span)
}

/// Whether the AST model's spans nest: each field within the model, and each
/// field attribute within its field.
pub open spec fn ast_model_nested(am: ast::Model) -> bool {
    &&& ast_model_spans_nested(am)
    &&& forall|k: int| 0 <= k < am.fields@.len() ==> ast_field_attrs_nested(#[trigger] am.fields@[k])
}

/// A found attribute is an element of the attribute list it was found in.
pub(crate) proof fn lemma_find_attribute_is_element(
    attrs: Seq<ast::Attribute>,
    name: Seq<char>,
    i: int,
)
    ensures
        ast::find_attribute_from(attrs, name, i) matches Some(a) ==> exists|j: int|
            0 <= j < attrs.len() && attrs[j] == a,
    decreases attrs.len() - i,
{
    if 0 <= i < attrs.len() {
        if attrs[i].name.name@ == name {
            assert(attrs[i] == ast::find_attribute_from(attrs, name, i)->Some_0);
        } else {
            lemma_find_attribute_is_element(attrs, name, i + 1);
        }
    }
}

/// The span of a declared field lies within its model's byte range.
pub(crate) proof fn lemma_ast_field_span_within(am: ast::Model, name: Seq<char>)
    requires
        ast_model_spans_nested(am),
        am.find_field_spec(name) is Some,
    ensures
        span_within(ast_field_span_spec(am, name), am.span),
{
    lemma_find_ast_field_is_element(am.fields@, name, 0);
    let f = am.find_field_spec(name)->Some_0;
    let j = choose|j: int| 0 <= j < am.fields@.len() && am.fields@[j] == f;
    assert(span_within(am.fields@[j].span, am.span));
}

/// Every base-field diagnostic of the model's relation fields points within
/// the model's byte range.
pub(crate) proof fn lemma_base_fields_spans(am: ast::Model, m: Model, rfs: Seq<RelationField>)
    requires
        ast_model_spans_nested(am),
        forall|t: int|
            0 <= t < rfs.len() ==> am.find_field_spec((#[trigger] rfs[t]).name@) is Some,
    ensures
        spans_within(base_fields_errors_rec(am, m, rfs), am.span),
    decreases rfs.len(),
{
    if rfs.len() > 0 {
        lemma_base_fields_spans(am, m, rfs.drop_last());
        lemma_ast_field_span_within(am, rfs.last().name@);
        assert(spans_within(base_field_errors(am, m, rfs.last()), am.span));
        lemma_spans_within_concat(
            base_fields_errors_rec(am, m, rfs.drop_last()),
            base_field_errors(am, m, rfs.last()),
            am.span,
        );
    }
}

proof fn lemma_wrong_type_spans<C: ActiveConnector>(
    m: Model,
    related: Model,
    source: Option<Datasource<C>>,
    span: Span,
    fields: Seq<String>,
    references: Seq<String>,
    n: int,
)
    ensures
        forall|k: int|
            0 <= k < wrong_type_errors_rec(m, related, source, span, fields, references, n).len()
                ==> (#[trigger] wrong_type_errors_rec(
                m,
                related,
                source,
                span,
                fields,
                references,
                n,
            )[k]).span() == span,
    decreases n,
{
    if n > 0 {
        lemma_wrong_type_spans(m, related, source, span, fields, references, n - 1);
        let prefix = wrong_type_errors_rec(m, related, source, span, fields, references, n - 1);
        let pair = pair_type_error(m, related, source, span, fields[n - 1]@, references[n - 1]@);
        assert forall|k: int|
            0 <= k < wrong_type_errors_rec(m, related, source, span, fields, references, n).len()
            implies (#[trigger] wrong_type_errors_rec(
            m,
            related,
            source,
            span,
            fields,
            references,
            n,
        )[k]).span() == span by {
            if k < prefix.len() {
                assert(wrong_type_errors_rec(m, related, source, span, fields, references, n)[k]
                    == prefix[k]);
            } else {
                assert(wrong_type_errors_rec(m, related, source, span, fields, references, n)[k]
                    == pair[k - prefix.len()]);
            }
        }
    }
}

/// Every referenced-field diagnostic of one relation field points at that
/// field's declaration.
#[verifier::rlimit(100)]
proof fn lemma_referenced_field_spans<C: ActiveConnector>(
    dm: Datamodel,
    m: Model,
    am: ast::Model,
    source: Option<Datasource<C>>,
    rf: RelationField,
    prior: Seq<ErrorView>,
)
    ensures
        forall|k: int|
            0 <= k < referenced_field_errors(dm, m, am, source, rf, prior).len() ==> (
            #[trigger] referenced_field_errors(dm, m, am, source, rf, prior)[k]).span()
                == ast_field_span_spec(am, rf.name@),
{
    let span = ast_field_span_spec(am, rf.name@);
    let related = model_of(dm, rf.relation_info.to@);
    lemma_wrong_type_spans(
        m,
        related,
        source,
        span,
        rf.relation_info.fields@,
        rf.relation_info.references@,
        if rf.relation_info.fields@.len() <= rf.relation_info.references@.len() {
            rf.relation_info.fields@.len() as int
        } else {
            rf.relation_info.references@.len() as int
        },
    );
}

/// Every referenced-field diagnostic of the model points within the model's
/// byte range.
pub(crate) proof fn lemma_referenced_fields_spans<C: ActiveConnector>(
    dm: Datamodel,
    m: Model,
    am: ast::Model,
    source: Option<Datasource<C>>,
    n: int,
)
    requires
        n <= relation_fields_of(m.fields@).len(),
        ast_model_spans_nested(am),
        forall|t: int|
            0 <= t < relation_fields_of(m.fields@).len() ==> am.find_field_spec(
                (#[trigger] relation_fields_of(m.fields@)[t]).name@,
            ) is Some,
    ensures
        spans_within(referenced_fields_errors_upto(dm, m, am, source, n), am.span),
    decreases n,
{
    if n > 0 {
        lemma_referenced_fields_spans(dm, m, am, source, n - 1);
        let rf = relation_fields_of(m.fields@)[n - 1];
        let prior = referenced_fields_errors_upto(dm, m, am, source, n - 1);
        lemma_referenced_field_spans(dm, m, am, source, rf, prior);
        lemma_ast_field_span_within(am, rf.name@);
        assert(spans_within(referenced_field_errors(dm, m, am, source, rf, prior), am.span));
        lemma_spans_within_concat(
            prior,
            referenced_field_errors(dm, m, am, source, rf, prior),
            am.span,
        );
    }
}

proof fn lemma_amb_third_span_within(
    ast: SchemaAst,
    m: Model,
    am: ast::Model,
    rfs: Seq<RelationField>,
    i: int,
    j: int,
    k: int,
)
    requires
        rfs == relation_fields_of(m.fields@),
        0 <= i < rfs.len(),
        ast.find_model_spec(m.name@) == Some(am),
        ast_model_spans_nested(am),
        forall|t: int|
            0 <= t < rfs.len() ==> am.find_field_spec((#[trigger] rfs[t]).name@) is Some,
    ensures
        self_relation_third_error_from(ast, m, rfs, i, j, k) matches Some(e) ==> span_within(
            e.span(),
            am.span,
        ),
    decreases rfs.len() - k,
{
    if 0 <= k < rfs.len() {
        lemma_amb_third_span_within(ast, m, am, rfs, i, j, k + 1);
        if self_relation_third_error_from(ast, m, rfs, i, j, k) is Some {
            assert(ambiguity_field_span(ast, m.name@, rfs[i].name@) == ast_field_span_spec(
                am,
                rfs[i].name@,
            ));
            lemma_ast_field_span_within(am, rfs[i].name@);
        }
    }
}

proof fn lemma_amb_pair_span_within(
    ast: SchemaAst,
    m: Model,
    am: ast::Model,
    rfs: Seq<RelationField>,
    i: int,
    j: int,
)
    requires
        rfs == relation_fields_of(m.fields@),
        0 <= i < rfs.len(),
        ast.find_model_spec(m.name@) == Some(am),
        ast_model_spans_nested(am),
        forall|t: int|
            0 <= t < rfs.len() ==> am.find_field_spec((#[trigger] rfs[t]).name@) is Some,
    ensures
        ambiguity_pair_error(ast, m, rfs, i, j) matches Some(e) ==> span_within(e.span(), am.span),
{
    lemma_amb_third_span_within(ast, m, am, rfs, i, j, 0);
    if ambiguity_pair_error(ast, m, rfs, i, j) is Some {
        assert(ambiguity_field_span(ast, m.name@, rfs[i].name@) == ast_field_span_spec(
            am,
            rfs[i].name@,
        ));
        lemma_ast_field_span_within(am, rfs[i].name@);
    }
}

proof fn lemma_amb_row_span_within(
    ast: SchemaAst,
    m: Model,
    am: ast::Model,
    rfs: Seq<RelationField>,
    i: int,
    j: int,
)
    requires
        rfs == relation_fields_of(m.fields@),
        0 <= i < rfs.len(),
        ast.find_model_spec(m.name@) == Some(am),
        ast_model_spans_nested(am),
        forall|t: int|
            0 <= t < rfs.len() ==> am.find_field_spec((#[trigger] rfs[t]).name@) is Some,
    ensures
        ambiguity_row_from(ast, m, rfs, i, j) matches Some(e) ==> span_within(e.span(), am.span),
    decreases rfs.len() - j,
{
    if 0 <= j < rfs.len() {
        lemma_amb_pair_span_within(ast, m, am, rfs, i, j);
        lemma_amb_row_span_within(ast, m, am, rfs, i, j + 1);
    }
}

proof fn lemma_amb_from_span_within(
    ast: SchemaAst,
    m: Model,
    am: ast::Model,
    rfs: Seq<RelationField>,
    i: int,
)
    requires
        rfs == relation_fields_of(m.fields@),
        ast.find_model_spec(m.name@) == Some(am),
        ast_model_spans_nested(am),
        forall|t: int|
            0 <= t < rfs.len() ==> am.find_field_spec((#[trigger] rfs[t]).name@) is Some,
    ensures
        ambiguity_error_from(ast, m, rfs, i) matches Some(e) ==> span_within(e.span(), am.span),
    decreases rfs.len() - i,
{
    if 0 <= i < rfs.len() {
        lemma_amb_row_span_within(ast, m, am, rfs, i, 0);
        lemma_amb_from_span_within(ast, m, am, rfs, i + 1);
    }
}

/// An ambiguity diagnostic of the model points within the model's byte range.
pub(crate) proof fn lemma_ambiguity_span_within(ast: SchemaAst, m: Model, am: ast::Model)
    requires
        ast.find_model_spec(m.name@) == Some(am),
        ast_model_spans_nested(am),
        forall|t: int|
            0 <= t < relation_fields_of(m.fields@).len() ==> am.find_field_spec(
                (#[trigger] relation_fields_of(m.fields@)[t]).name@,
            ) is Some,
    ensures
        ambiguity_error(ast, m) matches Some(e) ==> span_within(e.span(), am.span),
{
    lemma_amb_from_span_within(ast, m, am, relation_fields_of(m.fields@), 0);
}

} // verus!
