//! Tests for the non-relation rules — names, index names, identity arity,
//! unique criteria, reserved names, connector capabilities, enum defaults,
//! auto-increment — and for the validator's universal properties:
//! determinism, locality of spans, completeness of independent errors, and
//! the separation of the two passes.
use datamodel::ast;
use datamodel::ast::Span;
use datamodel::connector::ConnectorCapabilities;
use datamodel::connector::Datasource;
use datamodel::connector::DenyListConnector;
use datamodel::connector::PermissiveConnector;
use datamodel::diagnostics::DatamodelError;
use datamodel::diagnostics::Diagnostics;
use datamodel::dml;
use datamodel::validate::Validator;

fn ident_at(name: &str, span: Span) -> ast::Identifier {
    ast::Identifier { name: name.to_string(), span }
}

fn ident(name: &str) -> ast::Identifier {
    ident_at(name, Span::new(0, 0))
}

fn attribute(name: &str, span: Span) -> ast::Attribute {
    ast::Attribute { name: ident_at(name, span), span }
}

fn ast_field(name: &str, span: Span) -> ast::Field {
    ast::Field { name: ident(name), attributes: Vec::new(), span }
}

fn ast_model_at(name: &str, fields: Vec<ast::Field>, span: Span) -> ast::Model {
    ast::Model { name: ident(name), fields, attributes: Vec::new(), span }
}

fn ast_model(name: &str, fields: Vec<ast::Field>) -> ast::Model {
    ast_model_at(name, fields, Span::new(0, 0))
}

fn schema_ast(models: Vec<ast::Model>) -> ast::SchemaAst {
    ast::SchemaAst { models, enums: Vec::new() }
}

fn scalar(name: &str, tpe: dml::ScalarType, arity: dml::FieldArity) -> dml::Field {
    dml::Field::ScalarField(dml::ScalarField {
        name: name.to_string(),
        field_type: dml::FieldType::Base(tpe),
        arity,
        default_value: None,
        is_unique: false,
        is_id: false,
    })
}

fn scalar_id(name: &str, tpe: dml::ScalarType) -> dml::Field {
    match scalar(name, tpe, dml::FieldArity::Required) {
        dml::Field::ScalarField(mut sf) => {
            sf.is_id = true;
            dml::Field::ScalarField(sf)
        },
        other => other,
    }
}

fn relation(
    name: &str,
    arity: dml::FieldArity,
    to: &str,
    rel_name: &str,
    fields: &[&str],
    references: &[&str],
) -> dml::Field {
    dml::Field::RelationField(dml::RelationField {
        name: name.to_string(),
        arity,
        relation_info: dml::RelationInfo {
            to: to.to_string(),
            name: rel_name.to_string(),
            fields: fields.iter().map(|n| n.to_string()).collect(),
            references: references.iter().map(|n| n.to_string()).collect(),
        },
        is_ignored: false,
    })
}

fn model(name: &str, fields: Vec<dml::Field>) -> dml::Model {
    dml::Model {
        name: name.to_string(),
        fields,
        id_fields: Vec::new(),
        indices: Vec::new(),
        is_ignored: false,
    }
}

fn datamodel_of(models: Vec<dml::Model>) -> dml::Datamodel {
    dml::Datamodel { models, enums: Vec::new() }
}

fn plain_connector() -> PermissiveConnector {
    PermissiveConnector {
        int_type: "INTEGER".to_string(),
        bigint_type: "BIGINT".to_string(),
        decimal_type: "DECIMAL".to_string(),
        boolean_type: "BOOLEAN".to_string(),
        string_type: "TEXT".to_string(),
        datetime_type: "TIMESTAMP".to_string(),
        json_type: "JSONB".to_string(),
        bytes_type: "BYTEA".to_string(),
    }
}

fn no_source_validator<'a>() -> Validator<'a, PermissiveConnector> {
    Validator::new(None)
}

fn expect_errors(result: Result<(), Diagnostics>) -> Diagnostics {
    match result {
        Err(d) => d,
        Ok(()) => panic!("expected validation errors"),
    }
}

// --- Name validity -------------------------------------------------------------

#[test]
fn invalid_names_are_rejected_with_one_error_each() {
    let mut bad_field = ast_field("my-field", Span::new(0, 0));
    bad_field.name.span = Span::new(30, 38);
    bad_field.attributes.push(attribute("db..Int", Span::new(40, 47)));
    let mut bad_model = ast_model("1stModel", vec![bad_field]);
    bad_model.name.span = Span::new(10, 18);
    let ast = schema_ast(vec![bad_model]);
    let mut dm = datamodel_of(vec![]);
    let validator = no_source_validator();
    let errors = expect_errors(validator.validate(&ast, &mut dm));
    assert_eq!(errors.errors.len(), 3);
    assert_eq!(errors.errors[0], DatamodelError::new_validation_error(
        "The name of a Model must be a valid identifier: it must start with a letter or an underscore and may contain only letters, digits and underscores.",
        Span::new(10, 18),
    ));
    assert_eq!(errors.errors[1], DatamodelError::new_validation_error(
        "The name of a Field must be a valid identifier: it must start with a letter or an underscore and may contain only letters, digits and underscores.",
        Span::new(30, 38),
    ));
    assert_eq!(errors.errors[2], DatamodelError::new_validation_error(
        "The name of a Attribute must be one or more valid identifiers separated by dots.",
        Span::new(40, 47),
    ));
}

#[test]
fn namespaced_attribute_names_are_accepted() {
    let mut field = ast_field("id", Span::new(0, 0));
    field.attributes.push(attribute("db.Int", Span::new(5, 11)));
    let ast = schema_ast(vec![ast_model("User", vec![field])]);
    let mut dm = datamodel_of(vec![model("User", vec![scalar_id("id", dml::ScalarType::Int)])]);
    let validator = no_source_validator();
    assert!(validator.validate(&ast, &mut dm).is_ok());
}

#[test]
fn enum_value_names_are_checked() {
    let bad_value = ast::EnumValue {
        name: ident_at("red-ish", Span::new(21, 28)),
        attributes: Vec::new(),
        span: Span::new(21, 28),
    };
    let ast_enum = ast::Enum {
        name: ident("Color"),
        values: vec![bad_value],
        attributes: Vec::new(),
        span: Span::new(0, 30),
    };
    let ast = ast::SchemaAst { models: Vec::new(), enums: vec![ast_enum] };
    let mut dm = dml::Datamodel {
        models: Vec::new(),
        enums: vec![
            dml::Enum {
                name: "Color".to_string(),
                values: vec![dml::EnumValue { name: "red-ish".to_string() }],
            },
        ],
    };
    let validator = no_source_validator();
    let errors = expect_errors(validator.validate(&ast, &mut dm));
    assert_eq!(errors.errors[0], DatamodelError::new_validation_error(
        "The name of a Enum Value must be a valid identifier: it must start with a letter or an underscore and may contain only letters, digits and underscores.",
        Span::new(21, 28),
    ));
}

// --- Index names ------------------------------------------------------------------

#[test]
fn duplicate_index_names_are_reported_at_the_second_index() {
    let index_attr_span = Span::new(80, 100);
    let mut ast_b = ast_model("B", vec![ast_field("id", Span::new(0, 0))]);
    ast_b.attributes.push(attribute("index", index_attr_span));
    let ast = schema_ast(vec![ast_model("A", vec![ast_field("id", Span::new(0, 0))]), ast_b]);
    let mut model_a = model("A", vec![scalar_id("id", dml::ScalarType::Int)]);
    model_a.indices.push(dml::IndexDefinition {
        name: Some("myIndex".to_string()),
        fields: vec!["id".to_string()],
        tpe: dml::IndexType::Normal,
    });
    let mut model_b = model("B", vec![scalar_id("id", dml::ScalarType::Int)]);
    model_b.indices.push(dml::IndexDefinition {
        name: Some("myIndex".to_string()),
        fields: vec!["id".to_string()],
        tpe: dml::IndexType::Normal,
    });
    let mut dm = datamodel_of(vec![model_a, model_b]);
    let validator = no_source_validator();
    let errors = expect_errors(validator.validate(&ast, &mut dm));
    assert_eq!(errors.errors.len(), 1);
    assert_eq!(errors.errors[0],
        DatamodelError::new_multiple_indexes_with_same_name_are_not_supported("myIndex", index_attr_span));
}

#[test]
fn duplicate_index_names_are_accepted_when_the_connector_supports_them() {
    let ast = schema_ast(vec![
        ast_model("A", vec![ast_field("id", Span::new(0, 0))]),
        ast_model("B", vec![ast_field("id", Span::new(0, 0))]),
    ]);
    let mut model_a = model("A", vec![scalar_id("id", dml::ScalarType::Int)]);
    model_a.indices.push(dml::IndexDefinition {
        name: Some("myIndex".to_string()),
        fields: vec!["id".to_string()],
        tpe: dml::IndexType::Normal,
    });
    let mut model_b = model("B", vec![scalar_id("id", dml::ScalarType::Int)]);
    model_b.indices.push(dml::IndexDefinition {
        name: Some("myIndex".to_string()),
        fields: vec!["id".to_string()],
        tpe: dml::IndexType::Normal,
    });
    let mut dm = datamodel_of(vec![model_a, model_b]);
    let mut caps = ConnectorCapabilities::none();
    caps.supports_multiple_indexes_with_same_name = true;
    let source = Datasource { combined_connector: caps, active_connector: plain_connector() };
    let validator = Validator::new(Some(&source));
    assert!(validator.validate(&ast, &mut dm).is_ok());
}

// --- Identity-field arity ------------------------------------------------------------

#[test]
fn optional_id_fields_must_be_required() {
    let id_attr_span = Span::new(25, 28);
    let mut id_field = ast_field("id", Span::new(10, 30));
    id_field.attributes.push(attribute("id", id_attr_span));
    let ast = schema_ast(vec![ast_model("User", vec![id_field])]);
    let user_id = dml::Field::ScalarField(dml::ScalarField {
        name: "id".to_string(),
        field_type: dml::FieldType::Base(dml::ScalarType::Int),
        arity: dml::FieldArity::Optional,
        default_value: None,
        is_unique: false,
        is_id: true,
    });
    let mut dm = datamodel_of(vec![model("User", vec![user_id])]);
    let validator = no_source_validator();
    let errors = expect_errors(validator.validate(&ast, &mut dm));
    assert_eq!(errors.errors[0], DatamodelError::new_attribute_validation_error(
        "Fields that are marked as id must be required.",
        "id",
        id_attr_span,
    ));
}

// --- Identity and strict unique criteria -------------------------------------------------

#[test]
fn model_without_any_unique_criterion_is_rejected() {
    let model_span = Span::new(5, 60);
    let ast = schema_ast(vec![ast_model_at("Post", vec![ast_field("text", Span::new(0, 0))], model_span)]);
    let mut dm = datamodel_of(vec![model("Post", vec![
        scalar("text", dml::ScalarType::String, dml::FieldArity::Required),
    ])]);
    let validator = no_source_validator();
    let errors = expect_errors(validator.validate(&ast, &mut dm));
    assert_eq!(errors.errors[0], DatamodelError::new_model_validation_error(
        "Each model must have at least one unique criteria that has only required fields. Either mark a single field with `@id`, `@unique` or add a multi field criterion with `@@id([])` or `@@unique([])` to the model.",
        "Post",
        model_span,
    ));
}

#[test]
fn loose_criteria_are_listed_when_no_strict_criterion_exists() {
    let model_span = Span::new(5, 80);
    let ast = schema_ast(vec![ast_model_at(
        "Post",
        vec![ast_field("slug", Span::new(0, 0)), ast_field("tag", Span::new(0, 0))],
        model_span,
    )]);
    let slug = dml::Field::ScalarField(dml::ScalarField {
        name: "slug".to_string(),
        field_type: dml::FieldType::Base(dml::ScalarType::String),
        arity: dml::FieldArity::Optional,
        default_value: None,
        is_unique: true,
        is_id: false,
    });
    let mut post = model("Post", vec![
        slug,
        scalar("tag", dml::ScalarType::String, dml::FieldArity::Optional),
    ]);
    post.indices.push(dml::IndexDefinition {
        name: None,
        fields: vec!["slug".to_string(), "tag".to_string()],
        tpe: dml::IndexType::Unique,
    });
    let mut dm = datamodel_of(vec![post]);
    let validator = no_source_validator();
    let errors = expect_errors(validator.validate(&ast, &mut dm));
    assert_eq!(errors.errors[0], DatamodelError::new_model_validation_error(
        "Each model must have at least one unique criteria that has only required fields. Either mark a single field with `@id`, `@unique` or add a multi field criterion with `@@id([])` or `@@unique([])` to the model. The following unique criterias were not considered as they contain fields that are not required:\n- slug\n- slug, tag",
        "Post",
        model_span,
    ));
}

#[test]
fn two_singular_id_fields_are_rejected() {
    let model_span = Span::new(5, 90);
    let ast = schema_ast(vec![ast_model_at(
        "User",
        vec![ast_field("a", Span::new(0, 0)), ast_field("b", Span::new(0, 0))],
        model_span,
    )]);
    let mut dm = datamodel_of(vec![model("User", vec![
        scalar_id("a", dml::ScalarType::Int),
        scalar_id("b", dml::ScalarType::Int),
    ])]);
    let validator = no_source_validator();
    let errors = expect_errors(validator.validate(&ast, &mut dm));
    assert_eq!(errors.errors[0], DatamodelError::new_model_validation_error(
        "At most one field must be marked as the id field with the `@id` attribute.",
        "User",
        model_span,
    ));
}

#[test]
fn singular_and_composite_id_together_are_rejected() {
    let model_span = Span::new(5, 90);
    let ast = schema_ast(vec![ast_model_at(
        "User",
        vec![ast_field("a", Span::new(0, 0)), ast_field("b", Span::new(0, 0))],
        model_span,
    )]);
    let mut user = model("User", vec![
        scalar_id("a", dml::ScalarType::Int),
        scalar("b", dml::ScalarType::Int, dml::FieldArity::Required),
    ]);
    user.id_fields = vec!["a".to_string(), "b".to_string()];
    let mut dm = datamodel_of(vec![user]);
    let validator = no_source_validator();
    let errors = expect_errors(validator.validate(&ast, &mut dm));
    assert_eq!(errors.errors[0], DatamodelError::new_model_validation_error(
        "Each model must have at most one id criteria. You can't have `@id` and `@@id` at the same time.",
        "User",
        model_span,
    ));
}

#[test]
fn ignored_models_need_no_unique_criterion() {
    let ast = schema_ast(vec![ast_model("Draft", vec![ast_field("text", Span::new(0, 0))])]);
    let mut draft = model("Draft", vec![
        scalar("text", dml::ScalarType::String, dml::FieldArity::Required),
    ]);
    draft.is_ignored = true;
    let mut dm = datamodel_of(vec![draft]);
    let validator = no_source_validator();
    assert!(validator.validate(&ast, &mut dm).is_ok());
}

// --- Reserved names ---------------------------------------------------------------------

#[test]
fn reserved_model_names_are_rejected() {
    let model_span = Span::new(5, 40);
    let ast = schema_ast(vec![ast_model_at("PrismaClient", vec![ast_field("id", Span::new(0, 0))], model_span)]);
    let mut dm = datamodel_of(vec![model("PrismaClient", vec![scalar_id("id", dml::ScalarType::Int)])]);
    let validator = no_source_validator();
    let errors = expect_errors(validator.validate(&ast, &mut dm));
    assert_eq!(errors.errors[0], DatamodelError::new_model_validation_error(
        "The model name `PrismaClient` is invalid. It is a reserved name. Please change it. Read more at https://pris.ly/d/naming-models",
        "PrismaClient",
        model_span,
    ));
}

#[test]
fn reserved_enum_names_are_rejected() {
    let enum_span = Span::new(5, 40);
    let ast_enum = ast::Enum {
        name: ident("String"),
        values: vec![
            ast::EnumValue { name: ident("A"), attributes: Vec::new(), span: Span::new(0, 0) },
        ],
        attributes: Vec::new(),
        span: enum_span,
    };
    let ast = ast::SchemaAst { models: Vec::new(), enums: vec![ast_enum] };
    let mut dm = dml::Datamodel {
        models: Vec::new(),
        enums: vec![
            dml::Enum {
                name: "String".to_string(),
                values: vec![dml::EnumValue { name: "A".to_string() }],
            },
        ],
    };
    let validator = no_source_validator();
    let errors = expect_errors(validator.validate(&ast, &mut dm));
    assert_eq!(errors.errors[0], DatamodelError::new_enum_validation_error(
        "The enum name `String` is invalid. It is a reserved name. Please change it. Read more at https://www.prisma.io/docs/reference/tools-and-interfaces/prisma-schema/data-model#naming-enums",
        "String",
        enum_span,
    ));
}

// --- Scalar lists and Json ---------------------------------------------------------------

#[test]
fn scalar_lists_need_a_supporting_connector() {
    let field_span = Span::new(20, 35);
    let ast = schema_ast(vec![ast_model("User", vec![
        ast_field("id", Span::new(0, 0)),
        ast_field("tags", field_span),
    ])]);
    let mut dm = datamodel_of(vec![model("User", vec![
        scalar_id("id", dml::ScalarType::Int),
        scalar("tags", dml::ScalarType::String, dml::FieldArity::List),
    ])]);
    let validator = no_source_validator();
    let errors = expect_errors(validator.validate(&ast, &mut dm));
    assert_eq!(errors.errors[0], DatamodelError::new_field_validation_error(
        "Field `tags` in model `User` can't be a list. The current connector does not support lists of primitive types.",
        "User",
        "tags",
        field_span,
    ));
}

#[test]
fn json_fields_need_a_supporting_connector() {
    let field_span = Span::new(20, 35);
    let ast = schema_ast(vec![ast_model("User", vec![
        ast_field("id", Span::new(0, 0)),
        ast_field("payload", field_span),
    ])]);
    let mut dm = datamodel_of(vec![model("User", vec![
        scalar_id("id", dml::ScalarType::Int),
        scalar("payload", dml::ScalarType::Json, dml::FieldArity::Required),
    ])]);
    let mut caps = ConnectorCapabilities::none();
    caps.supports_scalar_lists = true;
    let source = Datasource { combined_connector: caps, active_connector: plain_connector() };
    let validator = Validator::new(Some(&source));
    let errors = expect_errors(validator.validate(&ast, &mut dm));
    assert_eq!(errors.errors[0], DatamodelError::new_field_validation_error(
        "Field `payload` in model `User` can't be of type Json. The current connector does not support the Json type.",
        "User",
        "payload",
        field_span,
    ));
}

#[test]
fn json_fields_pass_on_a_supporting_connector() {
    let ast = schema_ast(vec![ast_model("User", vec![
        ast_field("id", Span::new(0, 0)),
        ast_field("payload", Span::new(0, 0)),
    ])]);
    let mut dm = datamodel_of(vec![model("User", vec![
        scalar_id("id", dml::ScalarType::Int),
        scalar("payload", dml::ScalarType::Json, dml::FieldArity::Required),
    ])]);
    let mut caps = ConnectorCapabilities::none();
    caps.supports_json = true;
    let source = Datasource { combined_connector: caps, active_connector: plain_connector() };
    let validator = Validator::new(Some(&source));
    assert!(validator.validate(&ast, &mut dm).is_ok());
}

// --- Connector-specific validation ----------------------------------------------------------

#[test]
fn connector_field_and_model_errors_carry_the_right_spans() {
    let field_span = Span::new(20, 40);
    let model_span = Span::new(5, 60);
    let ast = schema_ast(vec![ast_model_at(
        "Evil",
        vec![ast_field("id", Span::new(0, 0)), ast_field("forbidden", field_span)],
        model_span,
    )]);
    let mut dm = datamodel_of(vec![model("Evil", vec![
        scalar_id("id", dml::ScalarType::Int),
        scalar("forbidden", dml::ScalarType::Int, dml::FieldArity::Required),
    ])]);
    let connector = DenyListConnector {
        denied_field_name: "forbidden".to_string(),
        field_message: "The connector does not accept this field.".to_string(),
        denied_model_name: "Evil".to_string(),
        model_message: "The connector does not accept this model.".to_string(),
        native_type: "ANY".to_string(),
    };
    let source = Datasource {
        combined_connector: ConnectorCapabilities::none(),
        active_connector: connector,
    };
    let validator = Validator::new(Some(&source));
    let errors = expect_errors(validator.validate(&ast, &mut dm));
    assert_eq!(errors.errors.len(), 2);
    assert_eq!(errors.errors[0], DatamodelError::new_connector_error(
        "The connector does not accept this field.",
        field_span,
    ));
    assert_eq!(errors.errors[1], DatamodelError::new_connector_error(
        "The connector does not accept this model.",
        model_span,
    ));
}

// --- Enum defaults ----------------------------------------------------------------------------

fn enum_default_setup(default_value: &str) -> (ast::SchemaAst, dml::Datamodel, Span) {
    let field_span = Span::new(30, 55);
    let ast = ast::SchemaAst {
        models: vec![ast_model("User", vec![
            ast_field("id", Span::new(0, 0)),
            ast_field("color", field_span),
        ])],
        enums: vec![
            ast::Enum {
                name: ident("Color"),
                values: vec![
                    ast::EnumValue { name: ident("RED"), attributes: Vec::new(), span: Span::new(0, 0) },
                    ast::EnumValue { name: ident("GREEN"), attributes: Vec::new(), span: Span::new(0, 0) },
                ],
                attributes: Vec::new(),
                span: Span::new(0, 0),
            },
        ],
    };
    let color_field = dml::Field::ScalarField(dml::ScalarField {
        name: "color".to_string(),
        field_type: dml::FieldType::Enum("Color".to_string()),
        arity: dml::FieldArity::Required,
        default_value: Some(dml::DefaultValue::Single(dml::ScalarValue::Enum(default_value.to_string()))),
        is_unique: false,
        is_id: false,
    });
    let dm = dml::Datamodel {
        models: vec![model("User", vec![scalar_id("id", dml::ScalarType::Int), color_field])],
        enums: vec![
            dml::Enum {
                name: "Color".to_string(),
                values: vec![
                    dml::EnumValue { name: "RED".to_string() },
                    dml::EnumValue { name: "GREEN".to_string() },
                ],
            },
        ],
    };
    (ast, dm, field_span)
}

#[test]
fn enum_defaults_must_name_a_declared_value() {
    let (ast, mut dm, field_span) = enum_default_setup("BLUE");
    let validator = no_source_validator();
    let errors = expect_errors(validator.validate(&ast, &mut dm));
    assert_eq!(errors.errors[0], DatamodelError::new_attribute_validation_error(
        "The defined default value is not a valid value of the enum specified for the field.",
        "default",
        field_span,
    ));
}

#[test]
fn enum_defaults_naming_a_declared_value_pass() {
    let (ast, mut dm, _) = enum_default_setup("GREEN");
    let validator = no_source_validator();
    assert!(validator.validate(&ast, &mut dm).is_ok());
}

// --- Auto-increment ------------------------------------------------------------------------------

#[test]
fn auto_increment_restrictions_are_enforced() {
    let model_span = Span::new(5, 120);
    let num_span = Span::new(60, 100);
    let ast = schema_ast(vec![ast_model_at(
        "Counter",
        vec![ast_field("id", Span::new(20, 50)), ast_field("num", num_span)],
        model_span,
    )]);
    let auto = |name: &str, is_id: bool| {
        dml::Field::ScalarField(dml::ScalarField {
            name: name.to_string(),
            field_type: dml::FieldType::Base(dml::ScalarType::Int),
            arity: dml::FieldArity::Required,
            default_value: Some(dml::DefaultValue::Expression("autoincrement".to_string())),
            is_unique: false,
            is_id,
        })
    };
    let mut dm = datamodel_of(vec![model("Counter", vec![auto("id", true), auto("num", false)])]);
    let source = Datasource {
        combined_connector: ConnectorCapabilities::none(),
        active_connector: plain_connector(),
    };
    let validator = Validator::new(Some(&source));
    let errors = expect_errors(validator.validate(&ast, &mut dm));
    assert_eq!(errors.errors.len(), 3);
    assert_eq!(errors.errors[0], DatamodelError::new_attribute_validation_error(
        "The `autoincrement()` default value is used multiple times on this model even though the underlying datasource only supports one instance per table.",
        "default",
        model_span,
    ));
    assert_eq!(errors.errors[1], DatamodelError::new_attribute_validation_error(
        "The `autoincrement()` default value is used on a non-id field even though the datasource does not support this.",
        "default",
        num_span,
    ));
    assert_eq!(errors.errors[2], DatamodelError::new_attribute_validation_error(
        "The `autoincrement()` default value is used on a non-indexed field even though the datasource does not support this.",
        "default",
        num_span,
    ));
}

#[test]
fn auto_increment_passes_when_the_connector_supports_everything() {
    let ast = schema_ast(vec![ast_model(
        "Counter",
        vec![ast_field("id", Span::new(0, 0)), ast_field("num", Span::new(0, 0))],
    )]);
    let auto = |name: &str, is_id: bool| {
        dml::Field::ScalarField(dml::ScalarField {
            name: name.to_string(),
            field_type: dml::FieldType::Base(dml::ScalarType::Int),
            arity: dml::FieldArity::Required,
            default_value: Some(dml::DefaultValue::Expression("autoincrement".to_string())),
            is_unique: false,
            is_id,
        })
    };
    let mut dm = datamodel_of(vec![model("Counter", vec![auto("id", true), auto("num", false)])]);
    let mut caps = ConnectorCapabilities::none();
    caps.supports_multiple_auto_increment = true;
    caps.supports_non_id_auto_increment = true;
    caps.supports_non_indexed_auto_increment = true;
    let source = Datasource { combined_connector: caps, active_connector: plain_connector() };
    let validator = Validator::new(Some(&source));
    assert!(validator.validate(&ast, &mut dm).is_ok());
}

// --- Ambiguous relations ---------------------------------------------------------------------------

fn two_models_with_relations(fields_a: Vec<dml::Field>) -> (ast::SchemaAst, dml::Datamodel) {
    let mut ast_fields = vec![ast_field("id", Span::new(0, 0))];
    for f in &fields_a {
        let name = match f {
            dml::Field::ScalarField(sf) => sf.name.clone(),
            dml::Field::RelationField(rf) => rf.name.clone(),
        };
        ast_fields.push(ast_field(&name, Span::new(100, 120)));
    }
    let ast = schema_ast(vec![
        ast_model("User", ast_fields),
        ast_model("Post", vec![ast_field("id", Span::new(0, 0)), ast_field("back", Span::new(0, 0))]),
    ]);
    let mut user_fields = vec![scalar_id("id", dml::ScalarType::Int)];
    user_fields.extend(fields_a);
    let dm = datamodel_of(vec![
        model("User", user_fields),
        model("Post", vec![
            scalar_id("id", dml::ScalarType::Int),
            relation("back", dml::FieldArity::List, "User", "", &[], &[]),
        ]),
    ]);
    (ast, dm)
}

#[test]
fn two_unnamed_relations_to_the_same_model_are_ambiguous() {
    let (ast, mut dm) = two_models_with_relations(vec![
        relation("posts", dml::FieldArity::List, "Post", "", &[], &[]),
        relation("morePosts", dml::FieldArity::List, "Post", "", &[], &[]),
    ]);
    let validator = no_source_validator();
    let errors = expect_errors(validator.validate(&ast, &mut dm));
    assert_eq!(errors.errors[0], DatamodelError::new_model_validation_error(
        "Ambiguous relation detected. The fields `posts` and `morePosts` in model `User` both refer to `Post`. Please provide different relation names for them by adding `@relation(<name>).",
        "User",
        Span::new(100, 120),
    ));
}

#[test]
fn two_equally_named_relations_to_the_same_model_are_wrongly_named() {
    let (ast, mut dm) = two_models_with_relations(vec![
        relation("posts", dml::FieldArity::List, "Post", "PostRel", &[], &[]),
        relation("morePosts", dml::FieldArity::List, "Post", "PostRel", &[], &[]),
    ]);
    let validator = no_source_validator();
    let errors = expect_errors(validator.validate(&ast, &mut dm));
    assert_eq!(errors.errors[0], DatamodelError::new_model_validation_error(
        "Wrongly named relation detected. The fields `posts` and `morePosts` in model `User` both use the same relation name. Please provide different relation names for them through `@relation(<name>).",
        "User",
        Span::new(100, 120),
    ));
}

#[test]
fn two_unnamed_self_relations_are_ambiguous() {
    let ast = schema_ast(vec![ast_model("User", vec![
        ast_field("id", Span::new(0, 0)),
        ast_field("invitedBy", Span::new(100, 120)),
        ast_field("invited", Span::new(130, 150)),
    ])]);
    let mut dm = datamodel_of(vec![model("User", vec![
        scalar_id("id", dml::ScalarType::Int),
        relation("invitedBy", dml::FieldArity::Optional, "User", "", &[], &[]),
        relation("invited", dml::FieldArity::List, "User", "", &[], &[]),
    ])]);
    let validator = no_source_validator();
    let errors = expect_errors(validator.validate(&ast, &mut dm));
    assert_eq!(errors.errors[0], DatamodelError::new_model_validation_error(
        "Ambiguous self relation detected. The fields `invitedBy` and `invited` in model `User` both refer to `User`. If they are part of the same relation add the same relation name for them with `@relation(<name>)`.",
        "User",
        Span::new(100, 120),
    ));
}

#[test]
fn three_unnamed_self_relation_fields_are_reported_together() {
    let ast = schema_ast(vec![ast_model("User", vec![
        ast_field("id", Span::new(0, 0)),
        ast_field("a", Span::new(100, 110)),
        ast_field("b", Span::new(120, 130)),
        ast_field("c", Span::new(140, 150)),
    ])]);
    let mut dm = datamodel_of(vec![model("User", vec![
        scalar_id("id", dml::ScalarType::Int),
        relation("a", dml::FieldArity::Optional, "User", "", &[], &[]),
        relation("b", dml::FieldArity::Optional, "User", "", &[], &[]),
        relation("c", dml::FieldArity::Optional, "User", "", &[], &[]),
    ])]);
    let validator = no_source_validator();
    let errors = expect_errors(validator.validate(&ast, &mut dm));
    assert_eq!(errors.errors[0], DatamodelError::new_model_validation_error(
        "Unnamed self relation detected. The fields `a`, `b` and `c` in model `User` have no relation name. Please provide a relation name for one of them by adding `@relation(<name>).",
        "User",
        Span::new(100, 110),
    ));
}

#[test]
fn three_equally_named_self_relation_fields_are_rejected() {
    let ast = schema_ast(vec![ast_model("User", vec![
        ast_field("id", Span::new(0, 0)),
        ast_field("a", Span::new(100, 110)),
        ast_field("b", Span::new(120, 130)),
        ast_field("c", Span::new(140, 150)),
    ])]);
    let mut dm = datamodel_of(vec![model("User", vec![
        scalar_id("id", dml::ScalarType::Int),
        relation("a", dml::FieldArity::Optional, "User", "Tree", &[], &[]),
        relation("b", dml::FieldArity::Optional, "User", "Tree", &[], &[]),
        relation("c", dml::FieldArity::Optional, "User", "Tree", &[], &[]),
    ])]);
    let validator = no_source_validator();
    let errors = expect_errors(validator.validate(&ast, &mut dm));
    assert_eq!(errors.errors[0], DatamodelError::new_model_validation_error(
        "Wrongly named self relation detected. The fields `a`, `b` and `c` in model `User` have the same relation name. At most two relation fields can belong to the same relation and therefore have the same name. Please assign a different relation name to one of them.",
        "User",
        Span::new(100, 110),
    ));
}

// --- Universal properties ------------------------------------------------------------------------

fn broken_schema() -> (ast::SchemaAst, dml::Datamodel) {
    let ast = schema_ast(vec![
        ast_model("User", vec![ast_field("id", Span::new(10, 20)), ast_field("posts", Span::new(30, 45))]),
        ast_model("Post", vec![ast_field("id", Span::new(60, 70)), ast_field("user", Span::new(80, 130))]),
    ]);
    let dm = datamodel_of(vec![
        model("User", vec![
            scalar_id("id", dml::ScalarType::Int),
            relation("posts", dml::FieldArity::List, "Post", "", &[], &[]),
        ]),
        model("Post", vec![
            scalar_id("id", dml::ScalarType::Int),
            relation("user", dml::FieldArity::Required, "User", "", &["userId"], &["id"]),
        ]),
    ]);
    (ast, dm)
}

#[test]
fn validation_is_deterministic_across_runs() {
    let (ast, mut dm1) = broken_schema();
    let (_, mut dm2) = broken_schema();
    let validator = no_source_validator();
    let first = expect_errors(validator.validate(&ast, &mut dm1));
    let second = expect_errors(validator.validate(&ast, &mut dm2));
    assert_eq!(first.errors, second.errors);
}

#[test]
fn diagnostic_spans_lie_within_the_blamed_entity() {
    let (ast, mut dm) = broken_schema();
    let validator = no_source_validator();
    let errors = expect_errors(validator.validate(&ast, &mut dm));
    // The only diagnostic blames the `user` field; its span is exactly the
    // field's AST span, which lies inside the model's byte range.
    let field_span = ast.models[1].fields[1].span;
    let got = errors.errors[0].span();
    assert!(field_span.start <= got.start && got.end <= field_span.end);
}

#[test]
fn independent_errors_on_two_models_both_appear() {
    let ast = schema_ast(vec![
        ast_model_at("A", vec![ast_field("text", Span::new(0, 0))], Span::new(5, 30)),
        ast_model_at("B", vec![ast_field("text", Span::new(0, 0))], Span::new(40, 70)),
    ]);
    let mut dm = datamodel_of(vec![
        model("A", vec![scalar("text", dml::ScalarType::String, dml::FieldArity::Required)]),
        model("B", vec![scalar("text", dml::ScalarType::String, dml::FieldArity::Required)]),
    ]);
    let validator = no_source_validator();
    let errors = expect_errors(validator.validate(&ast, &mut dm));
    assert_eq!(errors.errors.len(), 2);
    assert_eq!(errors.errors[0], DatamodelError::new_model_validation_error(
        "Each model must have at least one unique criteria that has only required fields. Either mark a single field with `@id`, `@unique` or add a multi field criterion with `@@id([])` or `@@unique([])` to the model.",
        "A",
        Span::new(5, 30),
    ));
    assert_eq!(errors.errors[1], DatamodelError::new_model_validation_error(
        "Each model must have at least one unique criteria that has only required fields. Either mark a single field with `@id`, `@unique` or add a multi field criterion with `@@id([])` or `@@unique([])` to the model.",
        "B",
        Span::new(40, 70),
    ));
}

#[test]
fn pre_standardisation_violations_surface_in_the_first_pass_only() {
    // The missing base field needs no back-relation data: the first pass
    // reports it and the second pass has nothing to add.
    let (ast, mut dm) = broken_schema();
    let validator = no_source_validator();
    assert!(validator.validate(&ast, &mut dm).is_err());
    assert!(validator.post_standardisation_validate(&ast, &mut dm).is_ok());
}

#[test]
fn back_relation_violations_surface_in_the_second_pass_only() {
    // A one-to-many without arguments is fine before standardisation — only
    // the second pass, which sees both relation ends, reports it.
    let ast = schema_ast(vec![
        ast_model("User", vec![ast_field("id", Span::new(0, 0)), ast_field("posts", Span::new(0, 0))]),
        ast_model("Post", vec![ast_field("id", Span::new(0, 0)), ast_field("user", Span::new(0, 0))]),
    ]);
    let mut dm = datamodel_of(vec![
        model("User", vec![
            scalar_id("id", dml::ScalarType::Int),
            relation("posts", dml::FieldArity::List, "Post", "", &[], &[]),
        ]),
        model("Post", vec![
            scalar_id("id", dml::ScalarType::Int),
            relation("user", dml::FieldArity::Required, "User", "", &[], &[]),
        ]),
    ]);
    let validator = no_source_validator();
    assert!(validator.validate(&ast, &mut dm).is_ok());
    assert!(validator.post_standardisation_validate(&ast, &mut dm).is_err());
}

#[test]
fn empty_schemas_validate_cleanly() {
    let ast = ast::SchemaAst { models: Vec::new(), enums: Vec::new() };
    let mut dm = dml::Datamodel { models: Vec::new(), enums: Vec::new() };
    let validator = no_source_validator();
    assert!(validator.validate(&ast, &mut dm).is_ok());
    assert!(validator.post_standardisation_validate(&ast, &mut dm).is_ok());
}

#[test]
fn missing_opposite_relation_fields_are_reported() {
    let field_span = Span::new(80, 130);
    let ast = schema_ast(vec![
        ast_model("User", vec![ast_field("id", Span::new(0, 0))]),
        ast_model("Post", vec![
            ast_field("id", Span::new(0, 0)),
            ast_field("userId", Span::new(0, 0)),
            ast_field("user", field_span),
        ]),
    ]);
    let mut dm = datamodel_of(vec![
        model("User", vec![scalar_id("id", dml::ScalarType::Int)]),
        model("Post", vec![
            scalar_id("id", dml::ScalarType::Int),
            scalar("userId", dml::ScalarType::Int, dml::FieldArity::Required),
            relation("user", dml::FieldArity::Required, "User", "", &["userId"], &["id"]),
        ]),
    ]);
    let validator = no_source_validator();
    assert!(validator.validate(&ast, &mut dm).is_ok());
    let errors = expect_errors(validator.post_standardisation_validate(&ast, &mut dm));
    assert_eq!(errors.errors[0], DatamodelError::new_field_validation_error(
        "The relation field `user` on Model `Post` is missing an opposite relation field on the model `User`. Either run `prisma format` or add it manually.",
        "Post",
        "user",
        field_span,
    ));
}

#[test]
fn relations_to_ignored_models_must_be_ignored() {
    let post_user_span = Span::new(200, 260);
    let ast = schema_ast(vec![
        ast_model("User", vec![ast_field("id", Span::new(0, 0)), ast_field("posts", Span::new(0, 0))]),
        ast_model("Post", vec![
            ast_field("id", Span::new(0, 0)),
            ast_field("userId", Span::new(0, 0)),
            ast_field("user", post_user_span),
        ]),
    ]);
    let mut user = model("User", vec![
        scalar_id("id", dml::ScalarType::Int),
        relation("posts", dml::FieldArity::List, "Post", "", &[], &[]),
    ]);
    user.is_ignored = true;
    let mut dm = datamodel_of(vec![
        user,
        model("Post", vec![
            scalar_id("id", dml::ScalarType::Int),
            scalar("userId", dml::ScalarType::Int, dml::FieldArity::Required),
            relation("user", dml::FieldArity::Required, "User", "", &["userId"], &["id"]),
        ]),
    ]);
    // `Post` is live, `User` is ignored: `Post.user` must carry `@ignore`.
    let validator = no_source_validator();
    assert!(validator.validate(&ast, &mut dm).is_ok());
    let errors = expect_errors(validator.post_standardisation_validate(&ast, &mut dm));
    assert_eq!(errors.errors[0], DatamodelError::new_attribute_validation_error(
        "The relation field `user` on Model `Post` must specify the `@ignore` attribute, because the model User it is pointing to is marked ignored.",
        "ignore",
        post_user_span,
    ));
}
