//! Relation-rule tests: each builds the schema views a parser would produce
//! for the schema text and holds the validator's diagnostics against exact
//! messages and byte spans.
use datamodel::ast;
use datamodel::ast::Span;
use datamodel::connector::ConnectorCapabilities;
use datamodel::connector::Datasource;
use datamodel::connector::PermissiveConnector;
use datamodel::diagnostics::DatamodelError;
use datamodel::diagnostics::Diagnostics;
use datamodel::dml;
use datamodel::validate::Validator;

// --- Builders for the AST view -------------------------------------------------

fn ident(name: &str) -> ast::Identifier {
    ast::Identifier { name: name.to_string(), span: Span::new(0, 0) }
}

fn ast_field(name: &str, span: Span) -> ast::Field {
    ast::Field { name: ident(name), attributes: Vec::new(), span }
}

fn ast_model(name: &str, fields: Vec<ast::Field>) -> ast::Model {
    ast::Model { name: ident(name), fields, attributes: Vec::new(), span: Span::new(0, 0) }
}

fn schema_ast(models: Vec<ast::Model>) -> ast::SchemaAst {
    ast::SchemaAst { models, enums: Vec::new() }
}

/// The span the parser assigns to a field declaration: from the start of the
/// declaration to the end of its line, newline included.
fn span_of(dml_text: &str, declaration: &str) -> Span {
    let start = dml_text.find(declaration).expect("declaration not found in schema text");
    Span::new(start, start + declaration.len() + 1)
}

fn zero() -> Span {
    Span::new(0, 0)
}

// --- Builders for the data-model view --------------------------------------------

fn scalar(name: &str, tpe: dml::ScalarType, arity: dml::FieldArity) -> dml::Field {
    dml::Field::ScalarField(dml::ScalarField {
        name: name.to_string(),
        field_type: dml::FieldType::Base(tpe),
        arity,
        default_value: None,
        is_unique: false,
        is_id: false,
    })
}

fn scalar_id(name: &str, tpe: dml::ScalarType) -> dml::Field {
    match scalar(name, tpe, dml::FieldArity::Required) {
        dml::Field::ScalarField(mut sf) => {
            sf.is_id = true;
            dml::Field::ScalarField(sf)
        },
        other => other,
    }
}

fn scalar_unique(name: &str, tpe: dml::ScalarType) -> dml::Field {
    match scalar(name, tpe, dml::FieldArity::Required) {
        dml::Field::ScalarField(mut sf) => {
            sf.is_unique = true;
            dml::Field::ScalarField(sf)
        },
        other => other,
    }
}

fn scalar_native(name: &str, tpe: dml::ScalarType, native: &str, arity: dml::FieldArity) -> dml::Field {
    dml::Field::ScalarField(dml::ScalarField {
        name: name.to_string(),
        field_type: dml::FieldType::NativeType(tpe, native.to_string()),
        arity,
        default_value: None,
        is_unique: false,
        is_id: false,
    })
}

fn strings(names: &[&str]) -> Vec<String> {
    names.iter().map(|n| n.to_string()).collect()
}

fn relation(
    name: &str,
    arity: dml::FieldArity,
    to: &str,
    rel_name: &str,
    fields: &[&str],
    references: &[&str],
) -> dml::Field {
    dml::Field::RelationField(dml::RelationField {
        name: name.to_string(),
        arity,
        relation_info: dml::RelationInfo {
            to: to.to_string(),
            name: rel_name.to_string(),
            fields: strings(fields),
            references: strings(references),
        },
        is_ignored: false,
    })
}

fn model(name: &str, fields: Vec<dml::Field>) -> dml::Model {
    dml::Model {
        name: name.to_string(),
        fields,
        id_fields: Vec::new(),
        indices: Vec::new(),
        is_ignored: false,
    }
}

fn datamodel_of(models: Vec<dml::Model>) -> dml::Datamodel {
    dml::Datamodel { models, enums: Vec::new() }
}

fn unique_index(fields: &[&str]) -> dml::IndexDefinition {
    dml::IndexDefinition { name: None, fields: strings(fields), tpe: dml::IndexType::Unique }
}

fn mysql_connector() -> PermissiveConnector {
    PermissiveConnector {
        int_type: "Int".to_string(),
        bigint_type: "BigInt".to_string(),
        decimal_type: "Decimal".to_string(),
        boolean_type: "TinyInt".to_string(),
        string_type: "VarChar".to_string(),
        datetime_type: "DateTime".to_string(),
        json_type: "Json".to_string(),
        bytes_type: "LongBlob".to_string(),
    }
}

fn no_source_validator<'a>() -> Validator<'a, PermissiveConnector> {
    Validator::new(None)
}

// --- Assertions -------------------------------------------------------------------

fn assert_is_at(diagnostics: &Diagnostics, index: usize, expected: DatamodelError) {
    assert_eq!(diagnostics.errors[index], expected);
}

fn assert_is(diagnostics: &Diagnostics, expected: DatamodelError) {
    assert!(
        diagnostics.errors.iter().any(|e| e == &expected),
        "expected diagnostic not found: {:?}\namong: {:?}",
        expected,
        diagnostics.errors,
    );
}

fn expect_errors(result: Result<(), Diagnostics>) -> Diagnostics {
    match result {
        Err(d) => d,
        Ok(()) => panic!("expected validation errors"),
    }
}

// --- The tests ----------------------------------------------------------------------

#[test]
fn relation_happy_path() {
    let ast = schema_ast(vec![
        ast_model("User", vec![ast_field("id", zero()), ast_field("firstName", zero()), ast_field("posts", zero())]),
        ast_model("Post", vec![ast_field("id", zero()), ast_field("text", zero()), ast_field("userId", zero()), ast_field("user", zero())]),
    ]);
    let mut dm = datamodel_of(vec![
        model("User", vec![
            scalar_id("id", dml::ScalarType::Int),
            scalar("firstName", dml::ScalarType::String, dml::FieldArity::Required),
            relation("posts", dml::FieldArity::List, "Post", "", &[], &[]),
        ]),
        model("Post", vec![
            scalar_id("id", dml::ScalarType::Int),
            scalar("text", dml::ScalarType::String, dml::FieldArity::Required),
            scalar("userId", dml::ScalarType::Int, dml::FieldArity::Required),
            relation("user", dml::FieldArity::Required, "User", "", &["userId"], &["id"]),
        ]),
    ]);
    let validator = no_source_validator();
    assert!(validator.validate(&ast, &mut dm).is_ok());
    assert!(validator.post_standardisation_validate(&ast, &mut dm).is_ok());

    let user_model = dm.find_model("User").unwrap();
    let posts = user_model.find_relation_field("posts").unwrap();
    assert!(matches!(posts.arity, dml::FieldArity::List));
    assert_eq!(posts.relation_info.to, "Post");
    assert!(posts.relation_info.fields.is_empty());
    assert!(posts.relation_info.references.is_empty());

    let post_model = dm.find_model("Post").unwrap();
    let user = post_model.find_relation_field("user").unwrap();
    assert!(matches!(user.arity, dml::FieldArity::Required));
    assert_eq!(user.relation_info.to, "User");
    assert_eq!(user.relation_info.fields, vec!["userId".to_string()]);
    assert_eq!(user.relation_info.references, vec!["id".to_string()]);
}

#[test]
fn relation_must_error_when_base_field_does_not_exist() {
    let dml_text = r#"
    model User {
        id Int @id
        firstName String
        posts Post[]
    }

    model Post {
        id Int @id
        text String
        user User @relation(fields: [userId], references: [id])
    }
    "#;
    let user_span = span_of(dml_text, "user User @relation(fields: [userId], references: [id])");
    let ast = schema_ast(vec![
        ast_model("User", vec![ast_field("id", zero()), ast_field("firstName", zero()), ast_field("posts", zero())]),
        ast_model("Post", vec![ast_field("id", zero()), ast_field("text", zero()), ast_field("user", user_span)]),
    ]);
    let mut dm = datamodel_of(vec![
        model("User", vec![
            scalar_id("id", dml::ScalarType::Int),
            scalar("firstName", dml::ScalarType::String, dml::FieldArity::Required),
            relation("posts", dml::FieldArity::List, "Post", "", &[], &[]),
        ]),
        model("Post", vec![
            scalar_id("id", dml::ScalarType::Int),
            scalar("text", dml::ScalarType::String, dml::FieldArity::Required),
            relation("user", dml::FieldArity::Required, "User", "", &["userId"], &["id"]),
        ]),
    ]);
    let validator = no_source_validator();
    let errors = expect_errors(validator.validate(&ast, &mut dm));
    assert_is(&errors, DatamodelError::new_validation_error("The argument fields must refer only to existing fields. The following fields do not exist in this model: userId", Span::new(154, 210)));
}

#[test]
fn relation_must_error_when_base_field_is_not_scalar() {
    let dml_text = r#"
    model User {
        id Int @id
        firstName String
        posts Post[]
    }

    model Post {
        id Int @id
        text String
        userId Int
        otherId Int

        user User @relation(fields: [other], references: [id])
        other OtherModel @relation(fields: [otherId], references: [id])
    }

    model OtherModel {
        id Int @id
        posts Post[]
    }
    "#;
    let user_span = span_of(dml_text, "user User @relation(fields: [other], references: [id])");
    let ast = schema_ast(vec![
        ast_model("User", vec![ast_field("id", zero()), ast_field("firstName", zero()), ast_field("posts", zero())]),
        ast_model("Post", vec![
            ast_field("id", zero()),
            ast_field("text", zero()),
            ast_field("userId", zero()),
            ast_field("otherId", zero()),
            ast_field("user", user_span),
            ast_field("other", zero()),
        ]),
        ast_model("OtherModel", vec![ast_field("id", zero()), ast_field("posts", zero())]),
    ]);
    let mut dm = datamodel_of(vec![
        model("User", vec![
            scalar_id("id", dml::ScalarType::Int),
            scalar("firstName", dml::ScalarType::String, dml::FieldArity::Required),
            relation("posts", dml::FieldArity::List, "Post", "", &[], &[]),
        ]),
        model("Post", vec![
            scalar_id("id", dml::ScalarType::Int),
            scalar("text", dml::ScalarType::String, dml::FieldArity::Required),
            scalar("userId", dml::ScalarType::Int, dml::FieldArity::Required),
            scalar("otherId", dml::ScalarType::Int, dml::FieldArity::Required),
            relation("user", dml::FieldArity::Required, "User", "", &["other"], &["id"]),
            relation("other", dml::FieldArity::Required, "OtherModel", "", &["otherId"], &["id"]),
        ]),
        model("OtherModel", vec![
            scalar_id("id", dml::ScalarType::Int),
            relation("posts", dml::FieldArity::List, "Post", "", &[], &[]),
        ]),
    ]);
    let validator = no_source_validator();
    let errors = expect_errors(validator.validate(&ast, &mut dm));
    assert_is_at(&errors, 0, DatamodelError::new_validation_error("The argument fields must refer only to scalar fields. But it is referencing the following relation fields: other", Span::new(194, 249)));
    assert_is_at(&errors, 1, DatamodelError::new_attribute_validation_error("The type of the field `other` in the model `Post` is not matching the type of the referenced field `id` in model `User`.", "relation", Span::new(194, 249)));
}

fn user_post_with_optional_bases(
    first_name_arity: dml::FieldArity,
    last_name_arity: dml::FieldArity,
    user_first_arity: dml::FieldArity,
    user_last_arity: dml::FieldArity,
    user_field_arity: dml::FieldArity,
) -> (ast::SchemaAst, dml::Datamodel, Span) {
    // The `user … @relation(…)` declaration sits at the same offset in each of
    // the schema fixtures of this family; its exact span comes from the text.
    let ast = schema_ast(vec![
        ast_model("User", vec![
            ast_field("id", zero()),
            ast_field("firstName", zero()),
            ast_field("lastName", zero()),
            ast_field("posts", zero()),
        ]),
        ast_model("Post", vec![
            ast_field("id", zero()),
            ast_field("text", zero()),
            ast_field("userFirstName", zero()),
            ast_field("userLastName", zero()),
            ast_field("user", zero()),
        ]),
    ]);
    let mut user = model("User", vec![
        scalar_id("id", dml::ScalarType::Int),
        scalar("firstName", dml::ScalarType::String, first_name_arity),
        scalar("lastName", dml::ScalarType::String, last_name_arity),
        relation("posts", dml::FieldArity::List, "Post", "", &[], &[]),
    ]);
    user.indices.push(unique_index(&["firstName", "lastName"]));
    let post = model("Post", vec![
        scalar_id("id", dml::ScalarType::Int),
        scalar("text", dml::ScalarType::String, dml::FieldArity::Required),
        scalar("userFirstName", dml::ScalarType::String, user_first_arity),
        scalar("userLastName", dml::ScalarType::String, user_last_arity),
        relation(
            "user",
            user_field_arity,
            "User",
            "",
            &["userFirstName", "userLastName"],
            &["firstName", "lastName"],
        ),
    ]);
    let dm = datamodel_of(vec![user, post]);
    (ast, dm, zero())
}

#[test]
fn optional_relation_field_must_succeed_when_all_underlying_fields_are_optional() {
    let (ast, mut dm, _) = user_post_with_optional_bases(
        dml::FieldArity::Optional,
        dml::FieldArity::Optional,
        dml::FieldArity::Optional,
        dml::FieldArity::Optional,
        dml::FieldArity::Optional,
    );
    let validator = no_source_validator();
    assert!(validator.validate(&ast, &mut dm).is_ok());
}

#[test]
fn required_relation_field_must_error_when_one_underlying_field_is_optional() {
    let dml_text = r#"
    model User {
        id        Int     @id
        firstName String
        lastName  String?
        posts     Post[]

        @@unique([firstName, lastName])
    }

    model Post {
        id            Int     @id
        text          String
        userFirstName String
        userLastName  String?

        user          User    @relation(fields: [userFirstName, userLastName], references: [firstName, lastName])
    }
    "#;
    let user_span = span_of(dml_text, "user          User    @relation(fields: [userFirstName, userLastName], references: [firstName, lastName])");
    let (mut ast, mut dm, _) = user_post_with_optional_bases(
        dml::FieldArity::Required,
        dml::FieldArity::Optional,
        dml::FieldArity::Required,
        dml::FieldArity::Optional,
        dml::FieldArity::Required,
    );
    ast.models[1].fields[4].span = user_span;
    let validator = no_source_validator();
    let errors = expect_errors(validator.validate(&ast, &mut dm));
    assert_is(&errors, DatamodelError::new_validation_error("The relation field `user` uses the scalar fields userFirstName, userLastName. At least one of those fields is optional. Hence the relation field must be optional as well.", Span::new(320, 426)));
}

#[test]
fn required_relation_field_must_succeed_when_at_least_one_underlying_fields_is_required() {
    let (ast, mut dm, _) = user_post_with_optional_bases(
        dml::FieldArity::Required,
        dml::FieldArity::Optional,
        dml::FieldArity::Required,
        dml::FieldArity::Optional,
        dml::FieldArity::Optional,
    );
    let validator = no_source_validator();
    assert!(validator.validate(&ast, &mut dm).is_ok());
}

#[test]
fn required_relation_field_must_error_when_all_underlying_fields_are_optional() {
    let dml_text = r#"
    model User {
        id        Int     @id
        firstName String?
        lastName  String?
        posts     Post[]

        @@unique([firstName, lastName])
    }

    model Post {
        id            Int     @id
        text          String
        userFirstName String?
        userLastName  String?

        user          User    @relation(fields: [userFirstName, userLastName], references: [firstName, lastName])
    }
    "#;
    let user_span = span_of(dml_text, "user          User    @relation(fields: [userFirstName, userLastName], references: [firstName, lastName])");
    let (mut ast, mut dm, _) = user_post_with_optional_bases(
        dml::FieldArity::Optional,
        dml::FieldArity::Optional,
        dml::FieldArity::Optional,
        dml::FieldArity::Optional,
        dml::FieldArity::Required,
    );
    ast.models[1].fields[4].span = user_span;
    let validator = no_source_validator();
    let errors = expect_errors(validator.validate(&ast, &mut dm));
    assert_is(&errors, DatamodelError::new_validation_error("The relation field `user` uses the scalar fields userFirstName, userLastName. All those fields are optional. Hence the relation field must be optional as well.", Span::new(322, 428)));
}

#[test]
fn required_relation_field_must_error_if_it_is_virtual() {
    let dml_text = r#"
    model User {
        id      Int     @id
        address Address
    }

    model Address {
        id     Int     @id
        userId Int
        user   User    @relation(fields: [userId], references: [id])
    }
    "#;
    let address_span = span_of(dml_text, "address Address");
    let ast = schema_ast(vec![
        ast_model("User", vec![ast_field("id", zero()), ast_field("address", address_span)]),
        ast_model("Address", vec![ast_field("id", zero()), ast_field("userId", zero()), ast_field("user", zero())]),
    ]);
    let mut dm = datamodel_of(vec![
        model("User", vec![
            scalar_id("id", dml::ScalarType::Int),
            relation("address", dml::FieldArity::Required, "Address", "", &[], &[]),
        ]),
        model("Address", vec![
            scalar_id("id", dml::ScalarType::Int),
            scalar("userId", dml::ScalarType::Int, dml::FieldArity::Required),
            relation("user", dml::FieldArity::Required, "User", "", &["userId"], &["id"]),
        ]),
    ]);
    let validator = no_source_validator();
    assert!(validator.validate(&ast, &mut dm).is_ok());
    let errors = expect_errors(validator.post_standardisation_validate(&ast, &mut dm));
    assert_is(&errors, DatamodelError::new_attribute_validation_error(
        "The relation field `address` on Model `User` is required. This is no longer valid because it's not possible to enforce this constraint on the database level. Please change the field type from `Address` to `Address?` to fix this.",
        "relation",
        Span::new(54, 70),
    ));
}

#[test]
fn relation_must_error_when_referenced_field_does_not_exist() {
    let dml_text = r#"
    model User {
        id Int @id
        firstName String
        posts Post[]
    }

    model Post {
        id Int @id
        text String
        userId Int
        user User @relation(fields: [userId], references: [fooBar])
    }
    "#;
    let user_span = span_of(dml_text, "user User @relation(fields: [userId], references: [fooBar])");
    let ast = schema_ast(vec![
        ast_model("User", vec![ast_field("id", zero()), ast_field("firstName", zero()), ast_field("posts", zero())]),
        ast_model("Post", vec![ast_field("id", zero()), ast_field("text", zero()), ast_field("userId", zero()), ast_field("user", user_span)]),
    ]);
    let mut dm = datamodel_of(vec![
        model("User", vec![
            scalar_id("id", dml::ScalarType::Int),
            scalar("firstName", dml::ScalarType::String, dml::FieldArity::Required),
            relation("posts", dml::FieldArity::List, "Post", "", &[], &[]),
        ]),
        model("Post", vec![
            scalar_id("id", dml::ScalarType::Int),
            scalar("text", dml::ScalarType::String, dml::FieldArity::Required),
            scalar("userId", dml::ScalarType::Int, dml::FieldArity::Required),
            relation("user", dml::FieldArity::Required, "User", "", &["userId"], &["fooBar"]),
        ]),
    ]);
    let validator = no_source_validator();
    let errors = expect_errors(validator.validate(&ast, &mut dm));
    assert_is(&errors, DatamodelError::new_validation_error("The argument `references` must refer only to existing fields in the related model `User`. The following fields do not exist in the related model: fooBar", Span::new(173, 233)));
}

#[test]
fn relation_must_error_when_referenced_field_is_not_scalar() {
    let dml_text = r#"
    model User {
        id Int @id
        firstName String
        posts Post[]
    }

    model Post {
        id Int @id
        text String
        userId Int
        user User @relation(fields: [userId], references: [posts])
    }
    "#;
    let user_span = span_of(dml_text, "user User @relation(fields: [userId], references: [posts])");
    let ast = schema_ast(vec![
        ast_model("User", vec![ast_field("id", zero()), ast_field("firstName", zero()), ast_field("posts", zero())]),
        ast_model("Post", vec![ast_field("id", zero()), ast_field("text", zero()), ast_field("userId", zero()), ast_field("user", user_span)]),
    ]);
    let mut dm = datamodel_of(vec![
        model("User", vec![
            scalar_id("id", dml::ScalarType::Int),
            scalar("firstName", dml::ScalarType::String, dml::FieldArity::Required),
            relation("posts", dml::FieldArity::List, "Post", "", &[], &[]),
        ]),
        model("Post", vec![
            scalar_id("id", dml::ScalarType::Int),
            scalar("text", dml::ScalarType::String, dml::FieldArity::Required),
            scalar("userId", dml::ScalarType::Int, dml::FieldArity::Required),
            relation("user", dml::FieldArity::Required, "User", "", &["userId"], &["posts"]),
        ]),
    ]);
    let validator = no_source_validator();
    let errors = expect_errors(validator.validate(&ast, &mut dm));
    assert_is(&errors, DatamodelError::new_validation_error("The argument `references` must refer only to scalar fields in the related model `User`. But it is referencing the following relation fields: posts", Span::new(173, 232)));
}

#[test]
fn relation_must_error_when_referenced_fields_are_not_a_unique_criteria() {
    let dml_text = r#"
    model User {
        id        Int    @id
        firstName String
        posts     Post[]
    }

    model Post {
        id       Int    @id
        text     String
        userName String
        user     User   @relation(fields: [userName], references: [firstName])
    }
    "#;
    let user_span = span_of(dml_text, "user     User   @relation(fields: [userName], references: [firstName])");
    let ast = schema_ast(vec![
        ast_model("User", vec![ast_field("id", zero()), ast_field("firstName", zero()), ast_field("posts", zero())]),
        ast_model("Post", vec![ast_field("id", zero()), ast_field("text", zero()), ast_field("userName", zero()), ast_field("user", user_span)]),
    ]);
    let mut dm = datamodel_of(vec![
        model("User", vec![
            scalar_id("id", dml::ScalarType::Int),
            scalar("firstName", dml::ScalarType::String, dml::FieldArity::Required),
            relation("posts", dml::FieldArity::List, "Post", "", &[], &[]),
        ]),
        model("Post", vec![
            scalar_id("id", dml::ScalarType::Int),
            scalar("text", dml::ScalarType::String, dml::FieldArity::Required),
            scalar("userName", dml::ScalarType::String, dml::FieldArity::Required),
            relation("user", dml::FieldArity::Required, "User", "", &["userName"], &["firstName"]),
        ]),
    ]);
    let validator = no_source_validator();
    let errors = expect_errors(validator.validate(&ast, &mut dm));
    assert_is(&errors, DatamodelError::new_validation_error("The argument `references` must refer to a unique criteria in the related model `User`. But it is referencing the following fields that are not a unique criteria: firstName", Span::new(205, 276)));
}

#[allow(non_snake_case)]
#[test]
fn relation_must_NOT_error_when_referenced_fields_are_not_a_unique_criteria_on_mysql() {
    // MySQL allows a foreign key to reference a non-unique criterion.
    let ast = schema_ast(vec![
        ast_model("User", vec![ast_field("id", zero()), ast_field("firstName", zero()), ast_field("posts", zero())]),
        ast_model("Post", vec![ast_field("id", zero()), ast_field("text", zero()), ast_field("userName", zero()), ast_field("user", zero())]),
    ]);
    let mut dm = datamodel_of(vec![
        model("User", vec![
            scalar_id("id", dml::ScalarType::Int),
            scalar("firstName", dml::ScalarType::String, dml::FieldArity::Required),
            relation("posts", dml::FieldArity::List, "Post", "", &[], &[]),
        ]),
        model("Post", vec![
            scalar_id("id", dml::ScalarType::Int),
            scalar("text", dml::ScalarType::String, dml::FieldArity::Required),
            scalar("userName", dml::ScalarType::String, dml::FieldArity::Required),
            relation("user", dml::FieldArity::Required, "User", "", &["userName"], &["firstName"]),
        ]),
    ]);
    let mut caps = ConnectorCapabilities::none();
    caps.supports_relations_over_non_unique_criteria = true;
    let source = Datasource { combined_connector: caps, active_connector: mysql_connector() };
    let validator = Validator::new(Some(&source));
    assert!(validator.validate(&ast, &mut dm).is_ok());
    assert!(validator.post_standardisation_validate(&ast, &mut dm).is_ok());
}

#[test]
fn relation_must_error_when_referenced_fields_are_multiple_uniques() {
    let dml_text = r#"
    model User {
        id Int @id
        firstName String @unique
        posts Post[]
    }

    model Post {
        id       Int    @id
        text     String
        userId   Int
        userName String
        // the relation is referencing two uniques. That is too much.
        user User @relation(fields: [userId, userName], references: [id, firstName])
    }
    "#;
    let user_span = span_of(dml_text, "user User @relation(fields: [userId, userName], references: [id, firstName])");
    let ast = schema_ast(vec![
        ast_model("User", vec![ast_field("id", zero()), ast_field("firstName", zero()), ast_field("posts", zero())]),
        ast_model("Post", vec![
            ast_field("id", zero()),
            ast_field("text", zero()),
            ast_field("userId", zero()),
            ast_field("userName", zero()),
            ast_field("user", user_span),
        ]),
    ]);
    let mut dm = datamodel_of(vec![
        model("User", vec![
            scalar_id("id", dml::ScalarType::Int),
            scalar_unique("firstName", dml::ScalarType::String),
            relation("posts", dml::FieldArity::List, "Post", "", &[], &[]),
        ]),
        model("Post", vec![
            scalar_id("id", dml::ScalarType::Int),
            scalar("text", dml::ScalarType::String, dml::FieldArity::Required),
            scalar("userId", dml::ScalarType::Int, dml::FieldArity::Required),
            scalar("userName", dml::ScalarType::String, dml::FieldArity::Required),
            relation("user", dml::FieldArity::Required, "User", "", &["userId", "userName"], &["id", "firstName"]),
        ]),
    ]);
    let validator = no_source_validator();
    let errors = expect_errors(validator.validate(&ast, &mut dm));
    assert_is(&errors, DatamodelError::new_validation_error("The argument `references` must refer to a unique criteria in the related model `User`. But it is referencing the following fields that are not a unique criteria: id, firstName", Span::new(290, 367)));
}

#[test]
fn relation_must_error_when_types_of_base_field_and_referenced_field_do_not_match() {
    let dml_text = r#"
    model User {
        id        Int @id
        firstName String
        posts     Post[]
    }

    model Post {
        id     Int     @id
        userId String  // this type does not match
        user   User    @relation(fields: [userId], references: [id])
    }
    "#;
    let user_span = span_of(dml_text, "user   User    @relation(fields: [userId], references: [id])");
    let ast = schema_ast(vec![
        ast_model("User", vec![ast_field("id", zero()), ast_field("firstName", zero()), ast_field("posts", zero())]),
        ast_model("Post", vec![ast_field("id", zero()), ast_field("userId", zero()), ast_field("user", user_span)]),
    ]);
    let mut dm = datamodel_of(vec![
        model("User", vec![
            scalar_id("id", dml::ScalarType::Int),
            scalar("firstName", dml::ScalarType::String, dml::FieldArity::Required),
            relation("posts", dml::FieldArity::List, "Post", "", &[], &[]),
        ]),
        model("Post", vec![
            scalar_id("id", dml::ScalarType::Int),
            scalar("userId", dml::ScalarType::String, dml::FieldArity::Required),
            relation("user", dml::FieldArity::Required, "User", "", &["userId"], &["id"]),
        ]),
    ]);
    let validator = no_source_validator();
    let errors = expect_errors(validator.validate(&ast, &mut dm));
    assert_is(&errors, DatamodelError::new_attribute_validation_error("The type of the field `userId` in the model `Post` is not matching the type of the referenced field `id` in model `User`.", "relation", Span::new(204, 265)));
}

#[test]
fn relation_must_error_when_number_of_fields_and_references_is_not_equal() {
    let dml_text = r#"
    model User {
        id        Int @id
        firstName String
        posts     Post[]
    }

    model Post {
        id       Int     @id
        userId   Int
        userName String
        user     User    @relation(fields: [userId, userName], references: [id])
    }
    "#;
    let user_span = span_of(dml_text, "user     User    @relation(fields: [userId, userName], references: [id])");
    let ast = schema_ast(vec![
        ast_model("User", vec![ast_field("id", zero()), ast_field("firstName", zero()), ast_field("posts", zero())]),
        ast_model("Post", vec![
            ast_field("id", zero()),
            ast_field("userId", zero()),
            ast_field("userName", zero()),
            ast_field("user", user_span),
        ]),
    ]);
    let mut dm = datamodel_of(vec![
        model("User", vec![
            scalar_id("id", dml::ScalarType::Int),
            scalar("firstName", dml::ScalarType::String, dml::FieldArity::Required),
            relation("posts", dml::FieldArity::List, "Post", "", &[], &[]),
        ]),
        model("Post", vec![
            scalar_id("id", dml::ScalarType::Int),
            scalar("userId", dml::ScalarType::Int, dml::FieldArity::Required),
            scalar("userName", dml::ScalarType::String, dml::FieldArity::Required),
            relation("user", dml::FieldArity::Required, "User", "", &["userId", "userName"], &["id"]),
        ]),
    ]);
    let validator = no_source_validator();
    let errors = expect_errors(validator.validate(&ast, &mut dm));
    assert_is(&errors, DatamodelError::new_attribute_validation_error(
        "You must specify the same number of fields in `fields` and `references`.",
        "relation",
        Span::new(200, 273),
    ));
}

#[test]
fn relation_must_succeed_when_type_alias_is_used_for_referenced_field() {
    // The alias `CustomId` resolves to `Int @id @default(autoincrement())`.
    let ast = schema_ast(vec![
        ast_model("User", vec![ast_field("id", zero()), ast_field("firstName", zero()), ast_field("posts", zero())]),
        ast_model("Post", vec![ast_field("id", zero()), ast_field("userId", zero()), ast_field("user", zero())]),
    ]);
    let alias_id = dml::Field::ScalarField(dml::ScalarField {
        name: "id".to_string(),
        field_type: dml::FieldType::Base(dml::ScalarType::Int),
        arity: dml::FieldArity::Required,
        default_value: Some(dml::DefaultValue::Expression("autoincrement".to_string())),
        is_unique: false,
        is_id: true,
    });
    let mut dm = datamodel_of(vec![
        model("User", vec![
            alias_id,
            scalar("firstName", dml::ScalarType::String, dml::FieldArity::Required),
            relation("posts", dml::FieldArity::List, "Post", "", &[], &[]),
        ]),
        model("Post", vec![
            scalar_id("id", dml::ScalarType::Int),
            scalar("userId", dml::ScalarType::Int, dml::FieldArity::Required),
            relation("user", dml::FieldArity::Required, "User", "", &["userId"], &["id"]),
        ]),
    ]);
    let validator = no_source_validator();
    assert!(validator.validate(&ast, &mut dm).is_ok());
    assert!(validator.post_standardisation_validate(&ast, &mut dm).is_ok());
}

#[test]
fn must_error_when_references_argument_is_missing_for_one_to_many() {
    let dml_text = r#"
    model User {
        id        Int @id
        firstName String
        posts     Post[]
    }

    model Post {
        id     Int     @id
        userId Int
        user   User    @relation(fields: [userId])
    }
    "#;
    let user_span = span_of(dml_text, "user   User    @relation(fields: [userId])");
    let ast = schema_ast(vec![
        ast_model("User", vec![ast_field("id", zero()), ast_field("firstName", zero()), ast_field("posts", zero())]),
        ast_model("Post", vec![ast_field("id", zero()), ast_field("userId", zero()), ast_field("user", user_span)]),
    ]);
    let mut dm = datamodel_of(vec![
        model("User", vec![
            scalar_id("id", dml::ScalarType::Int),
            scalar("firstName", dml::ScalarType::String, dml::FieldArity::Required),
            relation("posts", dml::FieldArity::List, "Post", "", &[], &[]),
        ]),
        model("Post", vec![
            scalar_id("id", dml::ScalarType::Int),
            scalar("userId", dml::ScalarType::Int, dml::FieldArity::Required),
            relation("user", dml::FieldArity::Required, "User", "", &["userId"], &[]),
        ]),
    ]);
    let validator = no_source_validator();
    assert!(validator.validate(&ast, &mut dm).is_ok());
    let errors = expect_errors(validator.post_standardisation_validate(&ast, &mut dm));
    assert_is(&errors, DatamodelError::new_attribute_validation_error(
        "The relation field `user` on Model `Post` must specify the `references` argument in the @relation attribute.",
        "relation",
        Span::new(172, 215),
    ));
}

#[test]
fn must_error_fields_or_references_argument_is_placed_on_wrong_side_for_one_to_many() {
    let dml_text = r#"
        datasource pg {
            provider = "postgres"
            url = "postgresql://localhost:5432"
        }

        model User {
          id     Int    @id
          postId Int[]
          posts  Post[] @relation(fields: [postId], references: [id])
        }

        model Post {
          id     Int   @id
          userId Int?
          user   User? @relation(fields: [userId], references: [id])
        }
    "#;
    let posts_span = span_of(dml_text, "posts  Post[] @relation(fields: [postId], references: [id])");
    let ast = schema_ast(vec![
        ast_model("User", vec![ast_field("id", zero()), ast_field("postId", zero()), ast_field("posts", posts_span)]),
        ast_model("Post", vec![ast_field("id", zero()), ast_field("userId", zero()), ast_field("user", zero())]),
    ]);
    let mut dm = datamodel_of(vec![
        model("User", vec![
            scalar_id("id", dml::ScalarType::Int),
            scalar("postId", dml::ScalarType::Int, dml::FieldArity::List),
            relation("posts", dml::FieldArity::List, "Post", "", &["postId"], &["id"]),
        ]),
        model("Post", vec![
            scalar_id("id", dml::ScalarType::Int),
            scalar("userId", dml::ScalarType::Int, dml::FieldArity::Optional),
            relation("user", dml::FieldArity::Optional, "User", "", &["userId"], &["id"]),
        ]),
    ]);
    let mut caps = ConnectorCapabilities::none();
    caps.supports_scalar_lists = true;
    let source = Datasource { combined_connector: caps, active_connector: mysql_connector() };
    let validator = Validator::new(Some(&source));
    assert!(validator.validate(&ast, &mut dm).is_ok());
    let errors = expect_errors(validator.post_standardisation_validate(&ast, &mut dm));
    assert_is(&errors, DatamodelError::new_attribute_validation_error(
        "The relation field `posts` on Model `User` must not specify the `fields` or `references` argument in the @relation attribute. You must only specify it on the opposite field `user` on model `Post`.",
        "relation",
        Span::new(200, 260),
    ));
}

#[test]
fn must_error_when_both_arguments_are_missing_for_one_to_many() {
    let dml_text = r#"
    model User {
        id        Int @id
        firstName String
        posts     Post[]
    }

    model Post {
        id     Int     @id
        userId Int
        user   User
    }
    "#;
    let user_span = span_of(dml_text, "user   User");
    let ast = schema_ast(vec![
        ast_model("User", vec![ast_field("id", zero()), ast_field("firstName", zero()), ast_field("posts", zero())]),
        ast_model("Post", vec![ast_field("id", zero()), ast_field("userId", zero()), ast_field("user", user_span)]),
    ]);
    let mut dm = datamodel_of(vec![
        model("User", vec![
            scalar_id("id", dml::ScalarType::Int),
            scalar("firstName", dml::ScalarType::String, dml::FieldArity::Required),
            relation("posts", dml::FieldArity::List, "Post", "", &[], &[]),
        ]),
        model("Post", vec![
            scalar_id("id", dml::ScalarType::Int),
            scalar("userId", dml::ScalarType::Int, dml::FieldArity::Required),
            relation("user", dml::FieldArity::Required, "User", "", &[], &[]),
        ]),
    ]);
    let validator = no_source_validator();
    assert!(validator.validate(&ast, &mut dm).is_ok());
    let errors = expect_errors(validator.post_standardisation_validate(&ast, &mut dm));
    assert_is_at(&errors, 0, DatamodelError::new_attribute_validation_error(
        "The relation field `user` on Model `Post` must specify the `fields` argument in the @relation attribute. You can run `prisma format` to fix this automatically.",
        "relation",
        Span::new(172, 184),
    ));
    assert_is_at(&errors, 1, DatamodelError::new_attribute_validation_error(
        "The relation field `user` on Model `Post` must specify the `references` argument in the @relation attribute.",
        "relation",
        Span::new(172, 184),
    ));
}

#[test]
fn must_error_when_fields_argument_is_missing_for_one_to_one() {
    let dml_text = r#"
    model User {
        id        Int @id
        firstName String
        post      Post?
    }

    model Post {
        id     Int     @id
        userId Int
        user   User    @relation(references: [id])
    }
    "#;
    let post_span = span_of(dml_text, "post      Post?");
    let user_span = span_of(dml_text, "user   User    @relation(references: [id])");
    let ast = schema_ast(vec![
        ast_model("User", vec![ast_field("id", zero()), ast_field("firstName", zero()), ast_field("post", post_span)]),
        ast_model("Post", vec![ast_field("id", zero()), ast_field("userId", zero()), ast_field("user", user_span)]),
    ]);
    let mut dm = datamodel_of(vec![
        model("User", vec![
            scalar_id("id", dml::ScalarType::Int),
            scalar("firstName", dml::ScalarType::String, dml::FieldArity::Required),
            relation("post", dml::FieldArity::Optional, "Post", "", &[], &[]),
        ]),
        model("Post", vec![
            scalar_id("id", dml::ScalarType::Int),
            scalar("userId", dml::ScalarType::Int, dml::FieldArity::Required),
            relation("user", dml::FieldArity::Required, "User", "", &[], &["id"]),
        ]),
    ]);
    let validator = no_source_validator();
    assert!(validator.validate(&ast, &mut dm).is_ok());
    let errors = expect_errors(validator.post_standardisation_validate(&ast, &mut dm));
    assert_eq!(errors.errors.len(), 2);
    assert_is_at(&errors, 0, DatamodelError::new_attribute_validation_error("The relation fields `post` on Model `User` and `user` on Model `Post` do not provide the `fields` argument in the @relation attribute. You have to provide it on one of the two fields.", "relation", Span::new(77, 93)));
    assert_is_at(&errors, 1, DatamodelError::new_attribute_validation_error("The relation fields `user` on Model `Post` and `post` on Model `User` do not provide the `fields` argument in the @relation attribute. You have to provide it on one of the two fields.", "relation", Span::new(171, 214)));
}

#[test]
fn must_error_when_references_argument_is_missing_for_one_to_one() {
    let dml_text = r#"
    model User {
        id        Int @id
        firstName String
        post      Post
    }

    model Post {
        id     Int     @id
        userId Int
        user   User    @relation(fields: [userId])
    }
    "#;
    let post_span = span_of(dml_text, "post      Post");
    let user_span = span_of(dml_text, "user   User    @relation(fields: [userId])");
    let ast = schema_ast(vec![
        ast_model("User", vec![ast_field("id", zero()), ast_field("firstName", zero()), ast_field("post", post_span)]),
        ast_model("Post", vec![ast_field("id", zero()), ast_field("userId", zero()), ast_field("user", user_span)]),
    ]);
    let mut dm = datamodel_of(vec![
        model("User", vec![
            scalar_id("id", dml::ScalarType::Int),
            scalar("firstName", dml::ScalarType::String, dml::FieldArity::Required),
            relation("post", dml::FieldArity::Required, "Post", "", &[], &[]),
        ]),
        model("Post", vec![
            scalar_id("id", dml::ScalarType::Int),
            scalar("userId", dml::ScalarType::Int, dml::FieldArity::Required),
            relation("user", dml::FieldArity::Required, "User", "", &["userId"], &[]),
        ]),
    ]);
    let validator = no_source_validator();
    assert!(validator.validate(&ast, &mut dm).is_ok());
    let errors = expect_errors(validator.post_standardisation_validate(&ast, &mut dm));
    assert_is_at(&errors, 0, DatamodelError::new_attribute_validation_error(
        "The relation fields `post` on Model `User` and `user` on Model `Post` do not provide the `references` argument in the @relation attribute. You have to provide it on one of the two fields.",
        "relation",
        Span::new(77, 92),
    ));
    assert_is_at(&errors, 1, DatamodelError::new_attribute_validation_error(
        "The relation fields `user` on Model `Post` and `post` on Model `User` do not provide the `references` argument in the @relation attribute. You have to provide it on one of the two fields.",
        "relation",
        Span::new(170, 213),
    ));
}

#[test]
fn must_error_when_fields_and_references_argument_are_placed_on_different_sides_for_one_to_one() {
    let dml_text = r#"
    model User {
        id        Int @id
        firstName String
        postId    Int
        post      Post @relation(references: [id])
    }

    model Post {
        id     Int     @id
        userId Int
        user   User    @relation(fields: [userId])
    }
    "#;
    let post_span = span_of(dml_text, "post      Post @relation(references: [id])");
    let user_span = span_of(dml_text, "user   User    @relation(fields: [userId])");
    let ast = schema_ast(vec![
        ast_model("User", vec![
            ast_field("id", zero()),
            ast_field("firstName", zero()),
            ast_field("postId", zero()),
            ast_field("post", post_span),
        ]),
        ast_model("Post", vec![ast_field("id", zero()), ast_field("userId", zero()), ast_field("user", user_span)]),
    ]);
    let mut dm = datamodel_of(vec![
        model("User", vec![
            scalar_id("id", dml::ScalarType::Int),
            scalar("firstName", dml::ScalarType::String, dml::FieldArity::Required),
            scalar("postId", dml::ScalarType::Int, dml::FieldArity::Required),
            relation("post", dml::FieldArity::Required, "Post", "", &[], &["id"]),
        ]),
        model("Post", vec![
            scalar_id("id", dml::ScalarType::Int),
            scalar("userId", dml::ScalarType::Int, dml::FieldArity::Required),
            relation("user", dml::FieldArity::Required, "User", "", &["userId"], &[]),
        ]),
    ]);
    let validator = no_source_validator();
    assert!(validator.validate(&ast, &mut dm).is_ok());
    let errors = expect_errors(validator.post_standardisation_validate(&ast, &mut dm));
    assert_is_at(&errors, 0, DatamodelError::new_attribute_validation_error(
        "The relation field `post` on Model `User` provides the `references` argument in the @relation attribute. And the related field `user` on Model `Post` provides the `fields` argument. You must provide both arguments on the same side.",
        "relation",
        Span::new(99, 142),
    ));
    assert_is_at(&errors, 1, DatamodelError::new_attribute_validation_error(
        "The relation field `user` on Model `Post` provides the `fields` argument in the @relation attribute. And the related field `post` on Model `User` provides the `references` argument. You must provide both arguments on the same side.",
        "relation",
        Span::new(220, 263),
    ));
}

#[test]
fn must_error_when_fields_or_references_argument_is_placed_on_both_sides_for_one_to_one() {
    let dml_text = r#"
    model User {
        id        Int @id
        firstName String
        postId    Int
        post      Post @relation(fields: [postId], references: [id])
    }

    model Post {
        id     Int     @id
        userId Int
        user   User    @relation(fields: [userId], references: [id])
    }
    "#;
    let post_span = span_of(dml_text, "post      Post @relation(fields: [postId], references: [id])");
    let user_span = span_of(dml_text, "user   User    @relation(fields: [userId], references: [id])");
    let ast = schema_ast(vec![
        ast_model("User", vec![
            ast_field("id", zero()),
            ast_field("firstName", zero()),
            ast_field("postId", zero()),
            ast_field("post", post_span),
        ]),
        ast_model("Post", vec![ast_field("id", zero()), ast_field("userId", zero()), ast_field("user", user_span)]),
    ]);
    let mut dm = datamodel_of(vec![
        model("User", vec![
            scalar_id("id", dml::ScalarType::Int),
            scalar("firstName", dml::ScalarType::String, dml::FieldArity::Required),
            scalar("postId", dml::ScalarType::Int, dml::FieldArity::Required),
            relation("post", dml::FieldArity::Required, "Post", "", &["postId"], &["id"]),
        ]),
        model("Post", vec![
            scalar_id("id", dml::ScalarType::Int),
            scalar("userId", dml::ScalarType::Int, dml::FieldArity::Required),
            relation("user", dml::FieldArity::Required, "User", "", &["userId"], &["id"]),
        ]),
    ]);
    let validator = no_source_validator();
    assert!(validator.validate(&ast, &mut dm).is_ok());
    let errors = expect_errors(validator.post_standardisation_validate(&ast, &mut dm));
    assert_is_at(&errors, 0, DatamodelError::new_attribute_validation_error(
        "The relation fields `post` on Model `User` and `user` on Model `Post` both provide the `references` argument in the @relation attribute. You have to provide it only on one of the two fields.",
        "relation",
        Span::new(99, 160),
    ));
    assert_is_at(&errors, 1, DatamodelError::new_attribute_validation_error(
        "The relation fields `post` on Model `User` and `user` on Model `Post` both provide the `fields` argument in the @relation attribute. You have to provide it only on one of the two fields.",
        "relation",
        Span::new(99, 160),
    ));
    assert_is_at(&errors, 2, DatamodelError::new_attribute_validation_error(
        "The relation fields `user` on Model `Post` and `post` on Model `User` both provide the `references` argument in the @relation attribute. You have to provide it only on one of the two fields.",
        "relation",
        Span::new(238, 299),
    ));
    assert_is_at(&errors, 3, DatamodelError::new_attribute_validation_error(
        "The relation fields `user` on Model `Post` and `post` on Model `User` both provide the `fields` argument in the @relation attribute. You have to provide it only on one of the two fields.",
        "relation",
        Span::new(238, 299),
    ));
}

#[test]
fn must_error_for_required_one_to_one_self_relations() {
    let dml_text = r#"
        model User {
          id       Int  @id
          friendId Int
          friend   User @relation("Friends", fields: friendId, references: id)
          friendOf User @relation("Friends")
        }
    "#;
    let friend_of_span = span_of(dml_text, "friendOf User @relation(\"Friends\")");
    let ast = schema_ast(vec![ast_model("User", vec![
        ast_field("id", zero()),
        ast_field("friendId", zero()),
        ast_field("friend", zero()),
        ast_field("friendOf", friend_of_span),
    ])]);
    let mut dm = datamodel_of(vec![model("User", vec![
        scalar_id("id", dml::ScalarType::Int),
        scalar("friendId", dml::ScalarType::Int, dml::FieldArity::Required),
        relation("friend", dml::FieldArity::Required, "User", "Friends", &["friendId"], &["id"]),
        relation("friendOf", dml::FieldArity::Required, "User", "Friends", &[], &[]),
    ])]);
    let validator = no_source_validator();
    assert!(validator.validate(&ast, &mut dm).is_ok());
    let errors = expect_errors(validator.post_standardisation_validate(&ast, &mut dm));
    assert_is(&errors, DatamodelError::new_attribute_validation_error("The relation field `friendOf` on Model `User` is required. This is no longer valid because it's not possible to enforce this constraint on the database level. Please change the field type from `User` to `User?` to fix this.", "relation", Span::new(162, 197)));
}

#[test]
fn must_error_when_non_id_field_is_referenced_in_a_many_to_many() {
    let dml_text = r#"
    model Post {
      id         Int        @id
      slug       Int        @unique
      categories Category[] @relation(references: [id])
   }

   model Category {
     id    Int    @id @default(autoincrement())
     posts Post[] @relation(references: [slug])
   }"#;
    let posts_span = span_of(dml_text, "posts Post[] @relation(references: [slug])");
    let ast = schema_ast(vec![
        ast_model("Post", vec![ast_field("id", zero()), ast_field("slug", zero()), ast_field("categories", zero())]),
        ast_model("Category", vec![ast_field("id", zero()), ast_field("posts", posts_span)]),
    ]);
    let category_id = dml::Field::ScalarField(dml::ScalarField {
        name: "id".to_string(),
        field_type: dml::FieldType::Base(dml::ScalarType::Int),
        arity: dml::FieldArity::Required,
        default_value: Some(dml::DefaultValue::Expression("autoincrement".to_string())),
        is_unique: false,
        is_id: true,
    });
    let mut dm = datamodel_of(vec![
        model("Post", vec![
            scalar_id("id", dml::ScalarType::Int),
            scalar_unique("slug", dml::ScalarType::Int),
            relation("categories", dml::FieldArity::List, "Category", "", &[], &["id"]),
        ]),
        model("Category", vec![
            category_id,
            relation("posts", dml::FieldArity::List, "Post", "", &[], &["slug"]),
        ]),
    ]);
    let validator = no_source_validator();
    let errors = expect_errors(validator.validate(&ast, &mut dm));
    assert_is_at(&errors, 0, DatamodelError::new_validation_error(
        "Many to many relations must always reference the id field of the related model. Change the argument `references` to use the id field of the related model `Post`. But it is referencing the following fields that are not the id: slug",
        Span::new(221, 264),
    ));
}

#[test]
fn must_error_nicely_when_a_many_to_many_is_not_possible() {
    // A many-to-many needs a singular id on both sides; Post only has a
    // composite one.
    let dml_text = r#"
    model Post {
      id         Int
      slug       Int        @unique
      categories Category[] @relation(references: [id])

      @@id([id, slug])
   }

   model Category {
     id    Int    @id @default(autoincrement())
     posts Post[] @relation(references: [slug])
   }"#;
    let posts_span = span_of(dml_text, "posts Post[] @relation(references: [slug])");
    let ast = schema_ast(vec![
        ast_model("Post", vec![ast_field("id", zero()), ast_field("slug", zero()), ast_field("categories", zero())]),
        ast_model("Category", vec![ast_field("id", zero()), ast_field("posts", posts_span)]),
    ]);
    let category_id = dml::Field::ScalarField(dml::ScalarField {
        name: "id".to_string(),
        field_type: dml::FieldType::Base(dml::ScalarType::Int),
        arity: dml::FieldArity::Required,
        default_value: Some(dml::DefaultValue::Expression("autoincrement".to_string())),
        is_unique: false,
        is_id: true,
    });
    let mut post = model("Post", vec![
        scalar("id", dml::ScalarType::Int, dml::FieldArity::Required),
        scalar_unique("slug", dml::ScalarType::Int),
        relation("categories", dml::FieldArity::List, "Category", "", &[], &["id"]),
    ]);
    post.id_fields = strings(&["id", "slug"]);
    let mut dm = datamodel_of(vec![
        post,
        model("Category", vec![
            category_id,
            relation("posts", dml::FieldArity::List, "Post", "", &[], &["slug"]),
        ]),
    ]);
    let validator = no_source_validator();
    assert!(validator.validate(&ast, &mut dm).is_ok());
    let errors = expect_errors(validator.post_standardisation_validate(&ast, &mut dm));
    assert_is_at(&errors, 0, DatamodelError::new_field_validation_error(
        "The relation field `posts` on Model `Category` references `Post` which does not have an `@id` field. Models without `@id` can not be part of a many to many relation. Use an explicit intermediate Model to represent this relationship.",
        "Category",
        "posts",
        Span::new(234, 277),
    ));
}

#[test]
fn must_error_when_many_to_many_is_not_possible_due_to_missing_id() {
    let dml_text = r#"
    // Post does not have @id
    model Post {
     slug       Int        @unique
     categories Category[]
   }

   model Category {
     id    Int    @id @default(autoincrement())
     posts Post[]
   }"#;
    let posts_span = span_of(dml_text, "posts Post[]");
    let ast = schema_ast(vec![
        ast_model("Post", vec![ast_field("slug", zero()), ast_field("categories", zero())]),
        ast_model("Category", vec![ast_field("id", zero()), ast_field("posts", posts_span)]),
    ]);
    let category_id = dml::Field::ScalarField(dml::ScalarField {
        name: "id".to_string(),
        field_type: dml::FieldType::Base(dml::ScalarType::Int),
        arity: dml::FieldArity::Required,
        default_value: Some(dml::DefaultValue::Expression("autoincrement".to_string())),
        is_unique: false,
        is_id: true,
    });
    let mut dm = datamodel_of(vec![
        model("Post", vec![
            scalar_unique("slug", dml::ScalarType::Int),
            relation("categories", dml::FieldArity::List, "Category", "", &[], &[]),
        ]),
        model("Category", vec![
            category_id,
            relation("posts", dml::FieldArity::List, "Post", "", &[], &[]),
        ]),
    ]);
    let validator = no_source_validator();
    assert!(validator.validate(&ast, &mut dm).is_ok());
    let errors = expect_errors(validator.post_standardisation_validate(&ast, &mut dm));
    assert_is_at(&errors, 0, DatamodelError::new_field_validation_error(
        "The relation field `posts` on Model `Category` references `Post` which does not have an `@id` field. Models without `@id` can not be part of a many to many relation. Use an explicit intermediate Model to represent this relationship.",
        "Category",
        "posts",
        Span::new(189, 202),
    ));
}

fn native_user_id() -> dml::Field {
    dml::Field::ScalarField(dml::ScalarField {
        name: "id".to_string(),
        field_type: dml::FieldType::NativeType(dml::ScalarType::Int, "Int".to_string()),
        arity: dml::FieldArity::Required,
        default_value: None,
        is_unique: false,
        is_id: true,
    })
}

#[test]
fn must_allow_relations_with_default_native_types_with_annotation_on_one_side() {
    // Three shapes of the same one-to-many: the native type annotated on the
    // base side, on the referenced side, and on both with optional arity.
    let caps = ConnectorCapabilities {
        supports_multiple_indexes_with_same_name: true,
        supports_scalar_lists: false,
        supports_json: true,
        supports_multiple_auto_increment: false,
        supports_non_id_auto_increment: false,
        supports_non_indexed_auto_increment: false,
        supports_relations_over_non_unique_criteria: true,
        allows_relation_fields_in_arbitrary_order: true,
    };
    let source = Datasource { combined_connector: caps, active_connector: mysql_connector() };
    let validator = Validator::new(Some(&source));

    let ast = schema_ast(vec![
        ast_model("Blog", vec![ast_field("id", zero()), ast_field("authorId", zero()), ast_field("author", zero())]),
        ast_model("User", vec![ast_field("id", zero()), ast_field("blogs", zero())]),
    ]);

    // Annotation on the base side only.
    let mut dm1 = datamodel_of(vec![
        model("Blog", vec![
            scalar_id("id", dml::ScalarType::Int),
            scalar_native("authorId", dml::ScalarType::Int, "Int", dml::FieldArity::Required),
            relation("author", dml::FieldArity::Required, "User", "", &["authorId"], &["id"]),
        ]),
        model("User", vec![
            scalar_id("id", dml::ScalarType::Int),
            relation("blogs", dml::FieldArity::List, "Blog", "", &[], &[]),
        ]),
    ]);
    assert!(validator.validate(&ast, &mut dm1).is_ok(), "{:?}", validator.validate(&ast, &mut dm1));
    assert!(validator.post_standardisation_validate(&ast, &mut dm1).is_ok());

    // Annotation on the referenced side only.
    let mut dm2 = datamodel_of(vec![
        model("Blog", vec![
            scalar_id("id", dml::ScalarType::Int),
            scalar("authorId", dml::ScalarType::Int, dml::FieldArity::Required),
            relation("author", dml::FieldArity::Required, "User", "", &["authorId"], &["id"]),
        ]),
        model("User", vec![
            native_user_id(),
            relation("blogs", dml::FieldArity::List, "Blog", "", &[], &[]),
        ]),
    ]);
    assert!(validator.validate(&ast, &mut dm2).is_ok());
    assert!(validator.post_standardisation_validate(&ast, &mut dm2).is_ok());

    // Annotation on both sides, optional arity on the base side.
    let mut dm3 = datamodel_of(vec![
        model("Blog", vec![
            scalar_id("id", dml::ScalarType::Int),
            scalar_native("authorId", dml::ScalarType::Int, "Int", dml::FieldArity::Optional),
            relation("author", dml::FieldArity::Optional, "User", "", &["authorId"], &["id"]),
        ]),
        model("User", vec![
            native_user_id(),
            relation("blogs", dml::FieldArity::List, "Blog", "", &[], &[]),
        ]),
    ]);
    assert!(validator.validate(&ast, &mut dm3).is_ok());
    assert!(validator.post_standardisation_validate(&ast, &mut dm3).is_ok());
}
