//! The capability and validation surface of a concrete datasource target.
//!
//! A datasource is a record of boolean capability predicates the rules
//! consult, plus an active connector: two open-ended structural validators and
//! native-type defaulting. The trait pins each method to a specification
//! function, so the validator's contracts can say exactly which connector
//! errors surface and where.
use vstd::prelude::*;

verus! {

use crate::dml::Field;
use crate::dml::Model;
use crate::dml::ScalarType;
use crate::dml::field_name;
use crate::text::string_eq_str;

/// The boolean capability predicates of the target datasource.
#[derive(Clone, Copy, PartialEq, Eq, Structural, Debug)]
pub struct ConnectorCapabilities {
    pub supports_multiple_indexes_with_same_name: bool,
    pub supports_scalar_lists: bool,
    pub supports_json: bool,
    pub supports_multiple_auto_increment: bool,
    pub supports_non_id_auto_increment: bool,
    pub supports_non_indexed_auto_increment: bool,
    pub supports_relations_over_non_unique_criteria: bool,
    pub allows_relation_fields_in_arbitrary_order: bool,
}

impl ConnectorCapabilities {
    /// A datasource with no optional capability.
    pub fn none() -> (r: ConnectorCapabilities)
        ensures
            r == (ConnectorCapabilities {
                supports_multiple_indexes_with_same_name: false,
                supports_scalar_lists: false,
                supports_json: false,
                supports_multiple_auto_increment: false,
                supports_non_id_auto_increment: false,
                supports_non_indexed_auto_increment: false,
                supports_relations_over_non_unique_criteria: false,
                allows_relation_fields_in_arbitrary_order: false,
            }),
    {
        ConnectorCapabilities {
            supports_multiple_indexes_with_same_name: false,
            supports_scalar_lists: false,
            supports_json: false,
            supports_multiple_auto_increment: false,
            supports_non_id_auto_increment: false,
            supports_non_indexed_auto_increment: false,
            supports_relations_over_non_unique_criteria: false,
            allows_relation_fields_in_arbitrary_order: false,
        }
    }
}

/// The structural validators and native-type defaulting of a datasource.
/// Each method is pinned to a specification function of the implementing
/// connector, so rule contracts can name the connector's answers.
pub trait ActiveConnector: Sized {
    /// The error message, if any, the connector raises for the field.
    spec fn field_error_spec(&self, field: Field) -> Option<Seq<char>>;

    /// The error message, if any, the connector raises for the model.
    spec fn model_error_spec(&self, model: Model) -> Option<Seq<char>>;

    /// The serialized native type a scalar type defaults to.
    spec fn default_native_type_spec(&self, scalar: ScalarType) -> Seq<char>;

    /// Connector-specific validation of one field.
    fn validate_field(&self, field: &Field) -> (r: Result<(), String>)
        ensures
            match r {
                Ok(()) => self.field_error_spec(*field) is None,
                Err(m) => self.field_error_spec(*field) == Some(m@),
            },
    ;

    /// Connector-specific validation of one model.
    fn validate_model(&self, model: &Model) -> (r: Result<(), String>)
        ensures
            match r {
                Ok(()) => self.model_error_spec(*model) is None,
                Err(m) => self.model_error_spec(*model) == Some(m@),
            },
    ;

    /// The serialized native type a scalar type defaults to.
    fn default_native_type_for_scalar_type(&self, scalar: &ScalarType) -> (r: String)
        ensures
            r@ == self.default_native_type_spec(*scalar),
    ;
}

/// A datasource: the capability record the rules consult, and the active
/// connector that validates fields and models and defaults native types.
pub struct Datasource<C: ActiveConnector> {
    pub combined_connector: ConnectorCapabilities,
    pub active_connector: C,
}

/// A connector that accepts every field and model, with one configured
/// serialized native type per scalar type.
pub struct PermissiveConnector {
    pub int_type: String,
    pub bigint_type: String,
    pub decimal_type: String,
    pub boolean_type: String,
    pub string_type: String,
    pub datetime_type: String,
    pub json_type: String,
    pub bytes_type: String,
}

impl ActiveConnector for PermissiveConnector {
    open spec fn field_error_spec(&self, field: Field) -> Option<Seq<char>> {
        None
    }

    open spec fn model_error_spec(&self, model: Model) -> Option<Seq<char>> {
        None
    }

    open spec fn default_native_type_spec(&self, scalar: ScalarType) -> Seq<char> {
        match scalar {
            ScalarType::Int => self.int_type@,
            ScalarType::BigInt => self.bigint_type@,
            ScalarType::Decimal => self.decimal_type@,
            ScalarType::Boolean => self.boolean_type@,
            ScalarType::String => self.string_type@,
            ScalarType::DateTime => self.datetime_type@,
            ScalarType::Json => self.json_type@,
            ScalarType::Bytes => self.bytes_type@,
        }
    }

    fn validate_field(&self, field: &Field) -> (r: Result<(), String>) {
        Ok(())
    }

    fn validate_model(&self, model: &Model) -> (r: Result<(), String>) {
        Ok(())
    }

    fn default_native_type_for_scalar_type(&self, scalar: &ScalarType) -> (r: String) {
        match scalar {
            ScalarType::Int => self.int_type.clone(),
            ScalarType::BigInt => self.bigint_type.clone(),
            ScalarType::Decimal => self.decimal_type.clone(),
            ScalarType::Boolean => self.boolean_type.clone(),
            ScalarType::String => self.string_type.clone(),
            ScalarType::DateTime => self.datetime_type.clone(),
            ScalarType::Json => self.json_type.clone(),
            ScalarType::Bytes => self.bytes_type.clone(),
        }
    }
}

/// A connector that refuses one field name and one model name, each with a
/// fixed message, and serializes every scalar to the same native type.
pub struct DenyListConnector {
    pub denied_field_name: String,
    pub field_message: String,
    pub denied_model_name: String,
    pub model_message: String,
    pub native_type: String,
}

impl ActiveConnector for DenyListConnector {
    open spec fn field_error_spec(&self, field: Field) -> Option<Seq<char>> {
        if field_name(field) == self.denied_field_name@ {
            Some(self.field_message@)
        } else {
            None
        }
    }

    open spec fn model_error_spec(&self, model: Model) -> Option<Seq<char>> {
        if model.name@ == self.denied_model_name@ {
            Some(self.model_message@)
        } else {
            None
        }
    }

    open spec fn default_native_type_spec(&self, scalar: ScalarType) -> Seq<char> {
        self.native_type@
    }

    fn validate_field(&self, field: &Field) -> (r: Result<(), String>) {
        if string_eq_str(field.name(), self.denied_field_name.as_str()) {
            Err(self.field_message.clone())
        } else {
            Ok(())
        }
    }

    fn validate_model(&self, model: &Model) -> (r: Result<(), String>) {
        if string_eq_str(&model.name, self.denied_model_name.as_str()) {
            Err(self.model_message.clone())
        } else {
            Ok(())
        }
    }

    fn default_native_type_for_scalar_type(&self, scalar: &ScalarType) -> (r: String) {
        self.native_type.clone()
    }
}

} // verus!
