//! The diagnostic messages.
//!
//! Message strings are part of the public interface: callers compare them
//! character for character. Each template is a specification function over
//! character sequences, and each builder returns exactly the template's
//! value.
use vstd::prelude::*;

verus! {

use crate::text::join;
use crate::text::join_with;
use crate::text::string_views;
use vstd::string::StringExecFns;

// --- Names ------------------------------------------------------------------

pub open spec fn msg_invalid_name(item: Seq<char>) -> Seq<char> {
    "The name of a "@ + item
        + " must be a valid identifier: it must start with a letter or an underscore and may contain only letters, digits and underscores."@
}

pub fn build_invalid_name(item: &str) -> (r: String)
    ensures
        r@ == msg_invalid_name(item@),
{
    let mut s = String::new();
    s.append("The name of a ");
    s.append(item);
    s.append(
        " must be a valid identifier: it must start with a letter or an underscore and may contain only letters, digits and underscores.",
    );
    proof {
        assert(s@ =~= msg_invalid_name(item@));
    }
    s
}

pub open spec fn msg_invalid_attribute_name() -> Seq<char> {
    "The name of a Attribute must be one or more valid identifiers separated by dots."@
}

pub fn build_invalid_attribute_name() -> (r: String)
    ensures
        r@ == msg_invalid_attribute_name(),
{
    let mut s = String::new();
    s.append("The name of a Attribute must be one or more valid identifiers separated by dots.");
    proof {
        assert(s@ =~= msg_invalid_attribute_name());
    }
    s
}

// --- Reserved names ---------------------------------------------------------

pub open spec fn msg_reserved_model_name(name: Seq<char>) -> Seq<char> {
    "The model name `"@ + name
        + "` is invalid. It is a reserved name. Please change it. Read more at https://pris.ly/d/naming-models"@
}

pub fn build_reserved_model_name(name: &str) -> (r: String)
    ensures
        r@ == msg_reserved_model_name(name@),
{
    let mut s = String::new();
    s.append("The model name `");
    s.append(name);
    s.append(
        "` is invalid. It is a reserved name. Please change it. Read more at https://pris.ly/d/naming-models",
    );
    proof {
        assert(s@ =~= msg_reserved_model_name(name@));
    }
    s
}

pub open spec fn msg_reserved_enum_name(name: Seq<char>) -> Seq<char> {
    "The enum name `"@ + name
        + "` is invalid. It is a reserved name. Please change it. Read more at https://www.prisma.io/docs/reference/tools-and-interfaces/prisma-schema/data-model#naming-enums"@
}

pub fn build_reserved_enum_name(name: &str) -> (r: String)
    ensures
        r@ == msg_reserved_enum_name(name@),
{
    let mut s = String::new();
    s.append("The enum name `");
    s.append(name);
    s.append(
        "` is invalid. It is a reserved name. Please change it. Read more at https://www.prisma.io/docs/reference/tools-and-interfaces/prisma-schema/data-model#naming-enums",
    );
    proof {
        assert(s@ =~= msg_reserved_enum_name(name@));
    }
    s
}

// --- Identity and uniqueness ------------------------------------------------

pub open spec fn msg_missing_strict_criteria(descriptions: Seq<Seq<char>>) -> Seq<char> {
    if descriptions.len() == 0 {
        "Each model must have at least one unique criteria that has only required fields. Either mark a single field with `@id`, `@unique` or add a multi field criterion with `@@id([])` or `@@unique([])` to the model."@
    } else {
        "Each model must have at least one unique criteria that has only required fields. Either mark a single field with `@id`, `@unique` or add a multi field criterion with `@@id([])` or `@@unique([])` to the model."@
            + " The following unique criterias were not considered as they contain fields that are not required:\n"@
            + join_with(descriptions, "\n"@)
    }
}

/// `descriptions` holds one line per loose unique criterion, already prefixed
/// with `- ` and joined with `, ` inside.
pub fn build_missing_strict_criteria(descriptions: &Vec<String>) -> (r: String)
    ensures
        r@ == msg_missing_strict_criteria(string_views(descriptions@)),
{
    let mut s = String::new();
    s.append(
        "Each model must have at least one unique criteria that has only required fields. Either mark a single field with `@id`, `@unique` or add a multi field criterion with `@@id([])` or `@@unique([])` to the model.",
    );
    if descriptions.len() > 0 {
        s.append(
            " The following unique criterias were not considered as they contain fields that are not required:\n",
        );
        s.append(join(descriptions, "\n").as_str());
    }
    proof {
        assert(s@ =~= msg_missing_strict_criteria(string_views(descriptions@)));
    }
    s
}

/// One line of the missing-strict-criteria enumeration.
pub open spec fn msg_criteria_description(field_names: Seq<Seq<char>>) -> Seq<char> {
    "- "@ + join_with(field_names, ", "@)
}

pub fn build_criteria_description(field_names: &Vec<String>) -> (r: String)
    ensures
        r@ == msg_criteria_description(string_views(field_names@)),
{
    let mut s = String::new();
    s.append("- ");
    s.append(join(field_names, ", ").as_str());
    proof {
        assert(s@ =~= msg_criteria_description(string_views(field_names@)));
    }
    s
}

// --- Connector capability rules ----------------------------------------------

pub open spec fn msg_scalar_list_field(field: Seq<char>, model: Seq<char>) -> Seq<char> {
    "Field `"@ + field + "` in model `"@ + model
        + "` can't be a list. The current connector does not support lists of primitive types."@
}

pub fn build_scalar_list_field(field: &str, model: &str) -> (r: String)
    ensures
        r@ == msg_scalar_list_field(field@, model@),
{
    let mut s = String::new();
    s.append("Field `");
    s.append(field);
    s.append("` in model `");
    s.append(model);
    s.append(
        "` can't be a list. The current connector does not support lists of primitive types.",
    );
    proof {
        assert(s@ =~= msg_scalar_list_field(field@, model@));
    }
    s
}

pub open spec fn msg_json_field(field: Seq<char>, model: Seq<char>) -> Seq<char> {
    "Field `"@ + field + "` in model `"@ + model
        + "` can't be of type Json. The current connector does not support the Json type."@
}

pub fn build_json_field(field: &str, model: &str) -> (r: String)
    ensures
        r@ == msg_json_field(field@, model@),
{
    let mut s = String::new();
    s.append("Field `");
    s.append(field);
    s.append("` in model `");
    s.append(model);
    s.append("` can't be of type Json. The current connector does not support the Json type.");
    proof {
        assert(s@ =~= msg_json_field(field@, model@));
    }
    s
}

// --- Ambiguous relations ------------------------------------------------------

pub open spec fn msg_ambiguous_relation(
    field_a: Seq<char>,
    field_b: Seq<char>,
    model: Seq<char>,
    to: Seq<char>,
) -> Seq<char> {
    "Ambiguous relation detected. The fields `"@ + field_a + "` and `"@ + field_b + "` in model `"@
        + model + "` both refer to `"@ + to
        + "`. Please provide different relation names for them by adding `@relation(<name>)."@
}

pub fn build_ambiguous_relation(field_a: &str, field_b: &str, model: &str, to: &str) -> (r: String)
    ensures
        r@ == msg_ambiguous_relation(field_a@, field_b@, model@, to@),
{
    let mut s = String::new();
    s.append("Ambiguous relation detected. The fields `");
    s.append(field_a);
    s.append("` and `");
    s.append(field_b);
    s.append("` in model `");
    s.append(model);
    s.append("` both refer to `");
    s.append(to);
    s.append("`. Please provide different relation names for them by adding `@relation(<name>).");
    proof {
        assert(s@ =~= msg_ambiguous_relation(field_a@, field_b@, model@, to@));
    }
    s
}

pub open spec fn msg_wrongly_named_relation(
    field_a: Seq<char>,
    field_b: Seq<char>,
    model: Seq<char>,
) -> Seq<char> {
    "Wrongly named relation detected. The fields `"@ + field_a + "` and `"@ + field_b
        + "` in model `"@ + model
        + "` both use the same relation name. Please provide different relation names for them through `@relation(<name>)."@
}

pub fn build_wrongly_named_relation(field_a: &str, field_b: &str, model: &str) -> (r: String)
    ensures
        r@ == msg_wrongly_named_relation(field_a@, field_b@, model@),
{
    let mut s = String::new();
    s.append("Wrongly named relation detected. The fields `");
    s.append(field_a);
    s.append("` and `");
    s.append(field_b);
    s.append("` in model `");
    s.append(model);
    s.append(
        "` both use the same relation name. Please provide different relation names for them through `@relation(<name>).",
    );
    proof {
        assert(s@ =~= msg_wrongly_named_relation(field_a@, field_b@, model@));
    }
    s
}

pub open spec fn msg_unnamed_self_relation(
    field_a: Seq<char>,
    field_b: Seq<char>,
    field_c: Seq<char>,
    model: Seq<char>,
) -> Seq<char> {
    "Unnamed self relation detected. The fields `"@ + field_a + "`, `"@ + field_b + "` and `"@
        + field_c + "` in model `"@ + model
        + "` have no relation name. Please provide a relation name for one of them by adding `@relation(<name>)."@
}

pub fn build_unnamed_self_relation(field_a: &str, field_b: &str, field_c: &str, model: &str) -> (r:
    String)
    ensures
        r@ == msg_unnamed_self_relation(field_a@, field_b@, field_c@, model@),
{
    let mut s = String::new();
    s.append("Unnamed self relation detected. The fields `");
    s.append(field_a);
    s.append("`, `");
    s.append(field_b);
    s.append("` and `");
    s.append(field_c);
    s.append("` in model `");
    s.append(model);
    s.append(
        "` have no relation name. Please provide a relation name for one of them by adding `@relation(<name>).",
    );
    proof {
        assert(s@ =~= msg_unnamed_self_relation(field_a@, field_b@, field_c@, model@));
    }
    s
}

pub open spec fn msg_wrongly_named_self_relation(
    field_a: Seq<char>,
    field_b: Seq<char>,
    field_c: Seq<char>,
    model: Seq<char>,
) -> Seq<char> {
    "Wrongly named self relation detected. The fields `"@ + field_a + "`, `"@ + field_b
        + "` and `"@ + field_c + "` in model `"@ + model
        + "` have the same relation name. At most two relation fields can belong to the same relation and therefore have the same name. Please assign a different relation name to one of them."@
}

pub fn build_wrongly_named_self_relation(
    field_a: &str,
    field_b: &str,
    field_c: &str,
    model: &str,
) -> (r: String)
    ensures
        r@ == msg_wrongly_named_self_relation(field_a@, field_b@, field_c@, model@),
{
    let mut s = String::new();
    s.append("Wrongly named self relation detected. The fields `");
    s.append(field_a);
    s.append("`, `");
    s.append(field_b);
    s.append("` and `");
    s.append(field_c);
    s.append("` in model `");
    s.append(model);
    s.append(
        "` have the same relation name. At most two relation fields can belong to the same relation and therefore have the same name. Please assign a different relation name to one of them.",
    );
    proof {
        assert(s@ =~= msg_wrongly_named_self_relation(field_a@, field_b@, field_c@, model@));
    }
    s
}

pub open spec fn msg_ambiguous_self_relation(
    field_a: Seq<char>,
    field_b: Seq<char>,
    model: Seq<char>,
    to: Seq<char>,
) -> Seq<char> {
    "Ambiguous self relation detected. The fields `"@ + field_a + "` and `"@ + field_b
        + "` in model `"@ + model + "` both refer to `"@ + to
        + "`. If they are part of the same relation add the same relation name for them with `@relation(<name>)`."@
}

pub fn build_ambiguous_self_relation(field_a: &str, field_b: &str, model: &str, to: &str) -> (r:
    String)
    ensures
        r@ == msg_ambiguous_self_relation(field_a@, field_b@, model@, to@),
{
    let mut s = String::new();
    s.append("Ambiguous self relation detected. The fields `");
    s.append(field_a);
    s.append("` and `");
    s.append(field_b);
    s.append("` in model `");
    s.append(model);
    s.append("` both refer to `");
    s.append(to);
    s.append(
        "`. If they are part of the same relation add the same relation name for them with `@relation(<name>)`.",
    );
    proof {
        assert(s@ =~= msg_ambiguous_self_relation(field_a@, field_b@, model@, to@));
    }
    s
}

// --- Relation base fields ------------------------------------------------------

pub open spec fn msg_unknown_base_fields(names: Seq<Seq<char>>) -> Seq<char> {
    "The argument fields must refer only to existing fields. The following fields do not exist in this model: "@
        + join_with(names, ", "@)
}

pub fn build_unknown_base_fields(names: &Vec<String>) -> (r: String)
    ensures
        r@ == msg_unknown_base_fields(string_views(names@)),
{
    let mut s = String::new();
    s.append(
        "The argument fields must refer only to existing fields. The following fields do not exist in this model: ",
    );
    s.append(join(names, ", ").as_str());
    proof {
        assert(s@ =~= msg_unknown_base_fields(string_views(names@)));
    }
    s
}

pub open spec fn msg_base_fields_relation(names: Seq<Seq<char>>) -> Seq<char> {
    "The argument fields must refer only to scalar fields. But it is referencing the following relation fields: "@
        + join_with(names, ", "@)
}

pub fn build_base_fields_relation(names: &Vec<String>) -> (r: String)
    ensures
        r@ == msg_base_fields_relation(string_views(names@)),
{
    let mut s = String::new();
    s.append(
        "The argument fields must refer only to scalar fields. But it is referencing the following relation fields: ",
    );
    s.append(join(names, ", ").as_str());
    proof {
        assert(s@ =~= msg_base_fields_relation(string_views(names@)));
    }
    s
}

pub open spec fn msg_base_fields_optional(field: Seq<char>, names: Seq<Seq<char>>) -> Seq<char> {
    "The relation field `"@ + field + "` uses the scalar fields "@ + join_with(names, ", "@)
        + ". At least one of those fields is optional. Hence the relation field must be optional as well."@
}

pub fn build_base_fields_optional(field: &str, names: &Vec<String>) -> (r: String)
    ensures
        r@ == msg_base_fields_optional(field@, string_views(names@)),
{
    let mut s = String::new();
    s.append("The relation field `");
    s.append(field);
    s.append("` uses the scalar fields ");
    s.append(join(names, ", ").as_str());
    s.append(
        ". At least one of those fields is optional. Hence the relation field must be optional as well.",
    );
    proof {
        assert(s@ =~= msg_base_fields_optional(field@, string_views(names@)));
    }
    s
}

pub open spec fn msg_base_fields_all_optional(field: Seq<char>, names: Seq<Seq<char>>) -> Seq<
    char,
> {
    "The relation field `"@ + field + "` uses the scalar fields "@ + join_with(names, ", "@)
        + ". All those fields are optional. Hence the relation field must be optional as well."@
}

pub fn build_base_fields_all_optional(field: &str, names: &Vec<String>) -> (r: String)
    ensures
        r@ == msg_base_fields_all_optional(field@, string_views(names@)),
{
    let mut s = String::new();
    s.append("The relation field `");
    s.append(field);
    s.append("` uses the scalar fields ");
    s.append(join(names, ", ").as_str());
    s.append(". All those fields are optional. Hence the relation field must be optional as well.");
    proof {
        assert(s@ =~= msg_base_fields_all_optional(field@, string_views(names@)));
    }
    s
}

// --- Relation referenced fields ------------------------------------------------

pub open spec fn msg_unknown_referenced_fields(related: Seq<char>, names: Seq<Seq<char>>) -> Seq<
    char,
> {
    "The argument `references` must refer only to existing fields in the related model `"@ + related
        + "`. The following fields do not exist in the related model: "@ + join_with(names, ", "@)
}

pub fn build_unknown_referenced_fields(related: &str, names: &Vec<String>) -> (r: String)
    ensures
        r@ == msg_unknown_referenced_fields(related@, string_views(names@)),
{
    let mut s = String::new();
    s.append("The argument `references` must refer only to existing fields in the related model `");
    s.append(related);
    s.append("`. The following fields do not exist in the related model: ");
    s.append(join(names, ", ").as_str());
    proof {
        assert(s@ =~= msg_unknown_referenced_fields(related@, string_views(names@)));
    }
    s
}

pub open spec fn msg_referenced_relation_fields(related: Seq<char>, names: Seq<Seq<char>>) -> Seq<
    char,
> {
    "The argument `references` must refer only to scalar fields in the related model `"@ + related
        + "`. But it is referencing the following relation fields: "@ + join_with(names, ", "@)
}

pub fn build_referenced_relation_fields(related: &str, names: &Vec<String>) -> (r: String)
    ensures
        r@ == msg_referenced_relation_fields(related@, string_views(names@)),
{
    let mut s = String::new();
    s.append("The argument `references` must refer only to scalar fields in the related model `");
    s.append(related);
    s.append("`. But it is referencing the following relation fields: ");
    s.append(join(names, ", ").as_str());
    proof {
        assert(s@ =~= msg_referenced_relation_fields(related@, string_views(names@)));
    }
    s
}

pub open spec fn msg_not_unique_criteria(related: Seq<char>, names: Seq<Seq<char>>) -> Seq<char> {
    "The argument `references` must refer to a unique criteria in the related model `"@ + related
        + "`. But it is referencing the following fields that are not a unique criteria: "@
        + join_with(names, ", "@)
}

pub fn build_not_unique_criteria(related: &str, names: &Vec<String>) -> (r: String)
    ensures
        r@ == msg_not_unique_criteria(related@, string_views(names@)),
{
    let mut s = String::new();
    s.append("The argument `references` must refer to a unique criteria in the related model `");
    s.append(related);
    s.append("`. But it is referencing the following fields that are not a unique criteria: ");
    s.append(join(names, ", ").as_str());
    proof {
        assert(s@ =~= msg_not_unique_criteria(related@, string_views(names@)));
    }
    s
}

pub open spec fn msg_wrong_reference_order(related: Seq<char>, names: Seq<Seq<char>>) -> Seq<char> {
    "The argument `references` must refer to a unique criteria in the related model `"@ + related
        + "` using the same order of fields. Please check the ordering in the following fields: `"@
        + join_with(names, ", "@) + "`."@
}

pub fn build_wrong_reference_order(related: &str, names: &Vec<String>) -> (r: String)
    ensures
        r@ == msg_wrong_reference_order(related@, string_views(names@)),
{
    let mut s = String::new();
    s.append("The argument `references` must refer to a unique criteria in the related model `");
    s.append(related);
    s.append(
        "` using the same order of fields. Please check the ordering in the following fields: `",
    );
    s.append(join(names, ", ").as_str());
    s.append("`.");
    proof {
        assert(s@ =~= msg_wrong_reference_order(related@, string_views(names@)));
    }
    s
}

pub open spec fn msg_many_to_many_non_id(related: Seq<char>, names: Seq<Seq<char>>) -> Seq<char> {
    "Many to many relations must always reference the id field of the related model. Change the argument `references` to use the id field of the related model `"@
        + related + "`. But it is referencing the following fields that are not the id: "@
        + join_with(names, ", "@)
}

pub fn build_many_to_many_non_id(related: &str, names: &Vec<String>) -> (r: String)
    ensures
        r@ == msg_many_to_many_non_id(related@, string_views(names@)),
{
    let mut s = String::new();
    s.append(
        "Many to many relations must always reference the id field of the related model. Change the argument `references` to use the id field of the related model `",
    );
    s.append(related);
    s.append("`. But it is referencing the following fields that are not the id: ");
    s.append(join(names, ", ").as_str());
    proof {
        assert(s@ =~= msg_many_to_many_non_id(related@, string_views(names@)));
    }
    s
}

pub open spec fn msg_type_mismatch(
    base_field: Seq<char>,
    model: Seq<char>,
    referenced_field: Seq<char>,
    related: Seq<char>,
) -> Seq<char> {
    "The type of the field `"@ + base_field + "` in the model `"@ + model
        + "` is not matching the type of the referenced field `"@ + referenced_field
        + "` in model `"@ + related + "`."@
}

pub fn build_type_mismatch(base_field: &str, model: &str, referenced_field: &str, related: &str) -> (r:
    String)
    ensures
        r@ == msg_type_mismatch(base_field@, model@, referenced_field@, related@),
{
    let mut s = String::new();
    s.append("The type of the field `");
    s.append(base_field);
    s.append("` in the model `");
    s.append(model);
    s.append("` is not matching the type of the referenced field `");
    s.append(referenced_field);
    s.append("` in model `");
    s.append(related);
    s.append("`.");
    proof {
        assert(s@ =~= msg_type_mismatch(base_field@, model@, referenced_field@, related@));
    }
    s
}

// --- Relation argument placement -----------------------------------------------

pub open spec fn msg_must_ignore(field: Seq<char>, model: Seq<char>, related: Seq<char>) -> Seq<
    char,
> {
    "The relation field `"@ + field + "` on Model `"@ + model
        + "` must specify the `@ignore` attribute, because the model "@ + related
        + " it is pointing to is marked ignored."@
}

pub fn build_must_ignore(field: &str, model: &str, related: &str) -> (r: String)
    ensures
        r@ == msg_must_ignore(field@, model@, related@),
{
    let mut s = String::new();
    s.append("The relation field `");
    s.append(field);
    s.append("` on Model `");
    s.append(model);
    s.append("` must specify the `@ignore` attribute, because the model ");
    s.append(related);
    s.append(" it is pointing to is marked ignored.");
    proof {
        assert(s@ =~= msg_must_ignore(field@, model@, related@));
    }
    s
}

pub open spec fn msg_missing_fields_argument(field: Seq<char>, model: Seq<char>) -> Seq<char> {
    "The relation field `"@ + field + "` on Model `"@ + model
        + "` must specify the `fields` argument in the @relation attribute. You can run `prisma format` to fix this automatically."@
}

pub fn build_missing_fields_argument(field: &str, model: &str) -> (r: String)
    ensures
        r@ == msg_missing_fields_argument(field@, model@),
{
    let mut s = String::new();
    s.append("The relation field `");
    s.append(field);
    s.append("` on Model `");
    s.append(model);
    s.append(
        "` must specify the `fields` argument in the @relation attribute. You can run `prisma format` to fix this automatically.",
    );
    proof {
        assert(s@ =~= msg_missing_fields_argument(field@, model@));
    }
    s
}

pub open spec fn msg_missing_references_argument(field: Seq<char>, model: Seq<char>) -> Seq<char> {
    "The relation field `"@ + field + "` on Model `"@ + model
        + "` must specify the `references` argument in the @relation attribute."@
}

pub fn build_missing_references_argument(field: &str, model: &str) -> (r: String)
    ensures
        r@ == msg_missing_references_argument(field@, model@),
{
    let mut s = String::new();
    s.append("The relation field `");
    s.append(field);
    s.append("` on Model `");
    s.append(model);
    s.append("` must specify the `references` argument in the @relation attribute.");
    proof {
        assert(s@ =~= msg_missing_references_argument(field@, model@));
    }
    s
}

pub open spec fn msg_arguments_on_wrong_side(
    field: Seq<char>,
    model: Seq<char>,
    related_field: Seq<char>,
    related: Seq<char>,
) -> Seq<char> {
    "The relation field `"@ + field + "` on Model `"@ + model
        + "` must not specify the `fields` or `references` argument in the @relation attribute. You must only specify it on the opposite field `"@
        + related_field + "` on model `"@ + related + "`."@
}

pub fn build_arguments_on_wrong_side(
    field: &str,
    model: &str,
    related_field: &str,
    related: &str,
) -> (r: String)
    ensures
        r@ == msg_arguments_on_wrong_side(field@, model@, related_field@, related@),
{
    let mut s = String::new();
    s.append("The relation field `");
    s.append(field);
    s.append("` on Model `");
    s.append(model);
    s.append(
        "` must not specify the `fields` or `references` argument in the @relation attribute. You must only specify it on the opposite field `",
    );
    s.append(related_field);
    s.append("` on model `");
    s.append(related);
    s.append("`.");
    proof {
        assert(s@ =~= msg_arguments_on_wrong_side(field@, model@, related_field@, related@));
    }
    s
}

pub open spec fn msg_fields_missing_on_both(
    field: Seq<char>,
    model: Seq<char>,
    related_field: Seq<char>,
    related: Seq<char>,
) -> Seq<char> {
    "The relation fields `"@ + field + "` on Model `"@ + model + "` and `"@ + related_field
        + "` on Model `"@ + related
        + "` do not provide the `fields` argument in the @relation attribute. You have to provide it on one of the two fields."@
}

pub fn build_fields_missing_on_both(
    field: &str,
    model: &str,
    related_field: &str,
    related: &str,
) -> (r: String)
    ensures
        r@ == msg_fields_missing_on_both(field@, model@, related_field@, related@),
{
    let mut s = String::new();
    s.append("The relation fields `");
    s.append(field);
    s.append("` on Model `");
    s.append(model);
    s.append("` and `");
    s.append(related_field);
    s.append("` on Model `");
    s.append(related);
    s.append(
        "` do not provide the `fields` argument in the @relation attribute. You have to provide it on one of the two fields.",
    );
    proof {
        assert(s@ =~= msg_fields_missing_on_both(field@, model@, related_field@, related@));
    }
    s
}

pub open spec fn msg_references_missing_on_both(
    field: Seq<char>,
    model: Seq<char>,
    related_field: Seq<char>,
    related: Seq<char>,
) -> Seq<char> {
    "The relation fields `"@ + field + "` on Model `"@ + model + "` and `"@ + related_field
        + "` on Model `"@ + related
        + "` do not provide the `references` argument in the @relation attribute. You have to provide it on one of the two fields."@
}

pub fn build_references_missing_on_both(
    field: &str,
    model: &str,
    related_field: &str,
    related: &str,
) -> (r: String)
    ensures
        r@ == msg_references_missing_on_both(field@, model@, related_field@, related@),
{
    let mut s = String::new();
    s.append("The relation fields `");
    s.append(field);
    s.append("` on Model `");
    s.append(model);
    s.append("` and `");
    s.append(related_field);
    s.append("` on Model `");
    s.append(related);
    s.append(
        "` do not provide the `references` argument in the @relation attribute. You have to provide it on one of the two fields.",
    );
    proof {
        assert(s@ =~= msg_references_missing_on_both(field@, model@, related_field@, related@));
    }
    s
}

pub open spec fn msg_references_on_both(
    field: Seq<char>,
    model: Seq<char>,
    related_field: Seq<char>,
    related: Seq<char>,
) -> Seq<char> {
    "The relation fields `"@ + field + "` on Model `"@ + model + "` and `"@ + related_field
        + "` on Model `"@ + related
        + "` both provide the `references` argument in the @relation attribute. You have to provide it only on one of the two fields."@
}

pub fn build_references_on_both(field: &str, model: &str, related_field: &str, related: &str) -> (r:
    String)
    ensures
        r@ == msg_references_on_both(field@, model@, related_field@, related@),
{
    let mut s = String::new();
    s.append("The relation fields `");
    s.append(field);
    s.append("` on Model `");
    s.append(model);
    s.append("` and `");
    s.append(related_field);
    s.append("` on Model `");
    s.append(related);
    s.append(
        "` both provide the `references` argument in the @relation attribute. You have to provide it only on one of the two fields.",
    );
    proof {
        assert(s@ =~= msg_references_on_both(field@, model@, related_field@, related@));
    }
    s
}

pub open spec fn msg_fields_on_both(
    field: Seq<char>,
    model: Seq<char>,
    related_field: Seq<char>,
    related: Seq<char>,
) -> Seq<char> {
    "The relation fields `"@ + field + "` on Model `"@ + model + "` and `"@ + related_field
        + "` on Model `"@ + related
        + "` both provide the `fields` argument in the @relation attribute. You have to provide it only on one of the two fields."@
}

pub fn build_fields_on_both(field: &str, model: &str, related_field: &str, related: &str) -> (r:
    String)
    ensures
        r@ == msg_fields_on_both(field@, model@, related_field@, related@),
{
    let mut s = String::new();
    s.append("The relation fields `");
    s.append(field);
    s.append("` on Model `");
    s.append(model);
    s.append("` and `");
    s.append(related_field);
    s.append("` on Model `");
    s.append(related);
    s.append(
        "` both provide the `fields` argument in the @relation attribute. You have to provide it only on one of the two fields.",
    );
    proof {
        assert(s@ =~= msg_fields_on_both(field@, model@, related_field@, related@));
    }
    s
}

pub open spec fn msg_fields_references_crossed(
    field: Seq<char>,
    model: Seq<char>,
    related_field: Seq<char>,
    related: Seq<char>,
) -> Seq<char> {
    "The relation field `"@ + field + "` on Model `"@ + model
        + "` provides the `fields` argument in the @relation attribute. And the related field `"@
        + related_field + "` on Model `"@ + related
        + "` provides the `references` argument. You must provide both arguments on the same side."@
}

pub fn build_fields_references_crossed(
    field: &str,
    model: &str,
    related_field: &str,
    related: &str,
) -> (r: String)
    ensures
        r@ == msg_fields_references_crossed(field@, model@, related_field@, related@),
{
    let mut s = String::new();
    s.append("The relation field `");
    s.append(field);
    s.append("` on Model `");
    s.append(model);
    s.append(
        "` provides the `fields` argument in the @relation attribute. And the related field `",
    );
    s.append(related_field);
    s.append("` on Model `");
    s.append(related);
    s.append("` provides the `references` argument. You must provide both arguments on the same side.");
    proof {
        assert(s@ =~= msg_fields_references_crossed(field@, model@, related_field@, related@));
    }
    s
}

pub open spec fn msg_references_fields_crossed(
    field: Seq<char>,
    model: Seq<char>,
    related_field: Seq<char>,
    related: Seq<char>,
) -> Seq<char> {
    "The relation field `"@ + field + "` on Model `"@ + model
        + "` provides the `references` argument in the @relation attribute. And the related field `"@
        + related_field + "` on Model `"@ + related
        + "` provides the `fields` argument. You must provide both arguments on the same side."@
}

pub fn build_references_fields_crossed(
    field: &str,
    model: &str,
    related_field: &str,
    related: &str,
) -> (r: String)
    ensures
        r@ == msg_references_fields_crossed(field@, model@, related_field@, related@),
{
    let mut s = String::new();
    s.append("The relation field `");
    s.append(field);
    s.append("` on Model `");
    s.append(model);
    s.append(
        "` provides the `references` argument in the @relation attribute. And the related field `",
    );
    s.append(related_field);
    s.append("` on Model `");
    s.append(related);
    s.append("` provides the `fields` argument. You must provide both arguments on the same side.");
    proof {
        assert(s@ =~= msg_references_fields_crossed(field@, model@, related_field@, related@));
    }
    s
}

pub open spec fn msg_required_one_to_one(field: Seq<char>, model: Seq<char>, related: Seq<char>) -> Seq<
    char,
> {
    "The relation field `"@ + field + "` on Model `"@ + model
        + "` is required. This is no longer valid because it's not possible to enforce this constraint on the database level. Please change the field type from `"@
        + related + "` to `"@ + related + "?` to fix this."@
}

pub fn build_required_one_to_one(field: &str, model: &str, related: &str) -> (r: String)
    ensures
        r@ == msg_required_one_to_one(field@, model@, related@),
{
    let mut s = String::new();
    s.append("The relation field `");
    s.append(field);
    s.append("` on Model `");
    s.append(model);
    s.append(
        "` is required. This is no longer valid because it's not possible to enforce this constraint on the database level. Please change the field type from `",
    );
    s.append(related);
    s.append("` to `");
    s.append(related);
    s.append("?` to fix this.");
    proof {
        assert(s@ =~= msg_required_one_to_one(field@, model@, related@));
    }
    s
}

pub open spec fn msg_many_to_many_missing_id(
    field: Seq<char>,
    model: Seq<char>,
    related: Seq<char>,
) -> Seq<char> {
    "The relation field `"@ + field + "` on Model `"@ + model + "` references `"@ + related
        + "` which does not have an `@id` field. Models without `@id` can not be part of a many to many relation. Use an explicit intermediate Model to represent this relationship."@
}

pub fn build_many_to_many_missing_id(field: &str, model: &str, related: &str) -> (r: String)
    ensures
        r@ == msg_many_to_many_missing_id(field@, model@, related@),
{
    let mut s = String::new();
    s.append("The relation field `");
    s.append(field);
    s.append("` on Model `");
    s.append(model);
    s.append("` references `");
    s.append(related);
    s.append(
        "` which does not have an `@id` field. Models without `@id` can not be part of a many to many relation. Use an explicit intermediate Model to represent this relationship.",
    );
    proof {
        assert(s@ =~= msg_many_to_many_missing_id(field@, model@, related@));
    }
    s
}

pub open spec fn msg_missing_opposite_field(
    field: Seq<char>,
    model: Seq<char>,
    related: Seq<char>,
) -> Seq<char> {
    "The relation field `"@ + field + "` on Model `"@ + model
        + "` is missing an opposite relation field on the model `"@ + related
        + "`. Either run `prisma format` or add it manually."@
}

pub fn build_missing_opposite_field(field: &str, model: &str, related: &str) -> (r: String)
    ensures
        r@ == msg_missing_opposite_field(field@, model@, related@),
{
    let mut s = String::new();
    s.append("The relation field `");
    s.append(field);
    s.append("` on Model `");
    s.append(model);
    s.append("` is missing an opposite relation field on the model `");
    s.append(related);
    s.append("`. Either run `prisma format` or add it manually.");
    proof {
        assert(s@ =~= msg_missing_opposite_field(field@, model@, related@));
    }
    s
}

} // verus!
