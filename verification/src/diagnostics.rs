//! The diagnostic bag: an append-only, insertion-ordered collection of
//! validation errors.
//!
//! Equality of diagnostics is decided by kind, message, span and context,
//! because callers compare messages character for character at exact source
//! offsets.
use vstd::prelude::*;

verus! {

use crate::ast::Span;

/// The mathematical value of a diagnostic: its kind, its message and context
/// as character sequences, and its span.
pub enum ErrorView {
    AttributeValidation { message: Seq<char>, attribute: Seq<char>, span: Span },
    FieldValidation { message: Seq<char>, model: Seq<char>, field: Seq<char>, span: Span },
    ModelValidation { message: Seq<char>, model: Seq<char>, span: Span },
    EnumValidation { message: Seq<char>, enum_name: Seq<char>, span: Span },
    ConnectorError { message: Seq<char>, span: Span },
    Validation { message: Seq<char>, span: Span },
    MultipleIndexesWithSameName { index_name: Seq<char>, span: Span },
}

impl ErrorView {
    /// The span the diagnostic points at.
    pub open spec fn span(self) -> Span {
        match self {
            ErrorView::AttributeValidation { span, .. } => span,
            ErrorView::FieldValidation { span, .. } => span,
            ErrorView::ModelValidation { span, .. } => span,
            ErrorView::EnumValidation { span, .. } => span,
            ErrorView::ConnectorError { span, .. } => span,
            ErrorView::Validation { span, .. } => span,
            ErrorView::MultipleIndexesWithSameName { span, .. } => span,
        }
    }
}

/// One validation error, locating a rule violation at a source span.
#[derive(Debug)]
pub enum DatamodelError {
    AttributeValidation { message: String, attribute: String, span: Span },
    FieldValidation { message: String, model: String, field: String, span: Span },
    ModelValidation { message: String, model: String, span: Span },
    EnumValidation { message: String, enum_name: String, span: Span },
    ConnectorError { message: String, span: Span },
    Validation { message: String, span: Span },
    MultipleIndexesWithSameName { index_name: String, span: Span },
}

impl View for DatamodelError {
    type V = ErrorView;

    open spec fn view(&self) -> ErrorView {
        match self {
            DatamodelError::AttributeValidation { message, attribute, span } => (
            ErrorView::AttributeValidation {
                message: message@,
                attribute: attribute@,
                span: *span,
            }),
            DatamodelError::FieldValidation { message, model, field, span } => (
            ErrorView::FieldValidation {
                message: message@,
                model: model@,
                field: field@,
                span: *span,
            }),
            DatamodelError::ModelValidation { message, model, span } => (
            ErrorView::ModelValidation { message: message@, model: model@, span: *span }),
            DatamodelError::EnumValidation { message, enum_name, span } => (
            ErrorView::EnumValidation { message: message@, enum_name: enum_name@, span: *span }),
            DatamodelError::ConnectorError { message, span } => (
            ErrorView::ConnectorError { message: message@, span: *span }),
            DatamodelError::Validation { message, span } => (
            ErrorView::Validation { message: message@, span: *span }),
            DatamodelError::MultipleIndexesWithSameName { index_name, span } => (
            ErrorView::MultipleIndexesWithSameName { index_name: index_name@, span: *span }),
        }
    }
}

impl DatamodelError {
    pub fn new_attribute_validation_error(message: &str, attribute: &str, span: Span) -> (r:
        DatamodelError)
        ensures
            r@ == (ErrorView::AttributeValidation {
                message: message@,
                attribute: attribute@,
                span,
            }),
    {
        DatamodelError::AttributeValidation {
            message: message.to_owned(),
            attribute: attribute.to_owned(),
            span,
        }
    }

    pub fn new_field_validation_error(message: &str, model: &str, field: &str, span: Span) -> (r:
        DatamodelError)
        ensures
            r@ == (ErrorView::FieldValidation {
                message: message@,
                model: model@,
                field: field@,
                span,
            }),
    {
        DatamodelError::FieldValidation {
            message: message.to_owned(),
            model: model.to_owned(),
            field: field.to_owned(),
            span,
        }
    }

    pub fn new_model_validation_error(message: &str, model: &str, span: Span) -> (r:
        DatamodelError)
        ensures
            r@ == (ErrorView::ModelValidation { message: message@, model: model@, span }),
    {
        DatamodelError::ModelValidation { message: message.to_owned(), model: model.to_owned(), span }
    }

    pub fn new_enum_validation_error(message: &str, enum_name: &str, span: Span) -> (r:
        DatamodelError)
        ensures
            r@ == (ErrorView::EnumValidation { message: message@, enum_name: enum_name@, span }),
    {
        DatamodelError::EnumValidation {
            message: message.to_owned(),
            enum_name: enum_name.to_owned(),
            span,
        }
    }

    pub fn new_connector_error(message: &str, span: Span) -> (r: DatamodelError)
        ensures
            r@ == (ErrorView::ConnectorError { message: message@, span }),
    {
        DatamodelError::ConnectorError { message: message.to_owned(), span }
    }

    pub fn new_validation_error(message: &str, span: Span) -> (r: DatamodelError)
        ensures
            r@ == (ErrorView::Validation { message: message@, span }),
    {
        DatamodelError::Validation { message: message.to_owned(), span }
    }

    pub fn new_multiple_indexes_with_same_name_are_not_supported(index_name: &str, span: Span) -> (r:
        DatamodelError)
        ensures
            r@ == (ErrorView::MultipleIndexesWithSameName { index_name: index_name@, span }),
    {
        DatamodelError::MultipleIndexesWithSameName { index_name: index_name.to_owned(), span }
    }

    /// The span the diagnostic points at.
    pub fn span(&self) -> (s: Span)
        ensures
            s == self@.span(),
    {
        match self {
            DatamodelError::AttributeValidation { span, .. } => *span,
            DatamodelError::FieldValidation { span, .. } => *span,
            DatamodelError::ModelValidation { span, .. } => *span,
            DatamodelError::EnumValidation { span, .. } => *span,
            DatamodelError::ConnectorError { span, .. } => *span,
            DatamodelError::Validation { span, .. } => *span,
            DatamodelError::MultipleIndexesWithSameName { span, .. } => *span,
        }
    }
}

impl PartialEq for DatamodelError {
    /// Diagnostics compare by kind, message, span and context.
    fn eq(&self, other: &Self) -> (r: bool) {
        match (self, other) {
            (
                DatamodelError::AttributeValidation { message: m1, attribute: a1, span: s1 },
                DatamodelError::AttributeValidation { message: m2, attribute: a2, span: s2 },
            ) => crate::text::str_eq(m1.as_str(), m2.as_str()) && crate::text::str_eq(
                a1.as_str(),
                a2.as_str(),
            ) && s1 == s2,
            (
                DatamodelError::FieldValidation { message: m1, model: mo1, field: f1, span: s1 },
                DatamodelError::FieldValidation { message: m2, model: mo2, field: f2, span: s2 },
            ) => crate::text::str_eq(m1.as_str(), m2.as_str()) && crate::text::str_eq(
                mo1.as_str(),
                mo2.as_str(),
            ) && crate::text::str_eq(f1.as_str(), f2.as_str()) && s1 == s2,
            (
                DatamodelError::ModelValidation { message: m1, model: mo1, span: s1 },
                DatamodelError::ModelValidation { message: m2, model: mo2, span: s2 },
            ) => crate::text::str_eq(m1.as_str(), m2.as_str()) && crate::text::str_eq(
                mo1.as_str(),
                mo2.as_str(),
            ) && s1 == s2,
            (
                DatamodelError::EnumValidation { message: m1, enum_name: e1, span: s1 },
                DatamodelError::EnumValidation { message: m2, enum_name: e2, span: s2 },
            ) => crate::text::str_eq(m1.as_str(), m2.as_str()) && crate::text::str_eq(
                e1.as_str(),
                e2.as_str(),
            ) && s1 == s2,
            (
                DatamodelError::ConnectorError { message: m1, span: s1 },
                DatamodelError::ConnectorError { message: m2, span: s2 },
            ) => crate::text::str_eq(m1.as_str(), m2.as_str()) && s1 == s2,
            (
                DatamodelError::Validation { message: m1, span: s1 },
                DatamodelError::Validation { message: m2, span: s2 },
            ) => crate::text::str_eq(m1.as_str(), m2.as_str()) && s1 == s2,
            (
                DatamodelError::MultipleIndexesWithSameName { index_name: n1, span: s1 },
                DatamodelError::MultipleIndexesWithSameName { index_name: n2, span: s2 },
            ) => crate::text::str_eq(n1.as_str(), n2.as_str()) && s1 == s2,
            _ => false,
        }
    }
}

impl vstd::std_specs::cmp::PartialEqSpecImpl for DatamodelError {
    open spec fn obeys_eq_spec() -> bool {
        true
    }

    open spec fn eq_spec(&self, other: &Self) -> bool {
        self@ == other@
    }
}

/// The views of a sequence of errors.
pub open spec fn error_views(es: Seq<DatamodelError>) -> Seq<ErrorView> {
    es.map_values(|e: DatamodelError| e@)
}

/// The append-only bag of diagnostics a validation produces. Order is
/// insertion order.
#[derive(Debug)]
pub struct Diagnostics {
    pub errors: Vec<DatamodelError>,
}

impl View for Diagnostics {
    type V = Seq<ErrorView>;

    open spec fn view(&self) -> Seq<ErrorView> {
        error_views(self.errors@)
    }
}

impl Diagnostics {
    pub fn new() -> (r: Diagnostics)
        ensures
            r@ == Seq::<ErrorView>::empty(),
    {
        let r = Diagnostics { errors: Vec::new() };
        proof {
            assert(r@ =~= Seq::<ErrorView>::empty());
        }
        r
    }

    /// Appends one error.
    pub fn push_error(&mut self, error: DatamodelError)
        ensures
            final(self)@ == old(self)@.push(error@),
    {
        let ghost e = error@;
        self.errors.push(error);
        proof {
            assert(self@ =~= old(self)@.push(e));
        }
    }

    /// Appends the error, if there is one.
    pub fn push_opt_error(&mut self, error: Option<DatamodelError>)
        ensures
            match error {
                Some(e) => final(self)@ == old(self)@.push(e@),
                None => final(self)@ == old(self)@,
            },
    {
        match error {
            Some(e) => self.push_error(e),
            None => (),
        }
    }

    /// Drains the other bag into this one, keeping order.
    pub fn append(&mut self, other: &mut Diagnostics)
        ensures
            final(self)@ == old(self)@ + old(other)@,
            final(other)@ == Seq::<ErrorView>::empty(),
    {
        self.errors.append(&mut other.errors);
        proof {
            assert(self@ =~= old(self)@ + old(other)@);
            assert(other@ =~= Seq::<ErrorView>::empty());
        }
    }

    /// Appends every error of the vector, in order.
    pub fn append_error_vec(&mut self, mut errors: Vec<DatamodelError>)
        ensures
            final(self)@ == old(self)@ + error_views(errors@),
    {
        let ghost vs = error_views(errors@);
        self.errors.append(&mut errors);
        proof {
            assert(self@ =~= old(self)@ + vs);
        }
    }

    /// Whether any error has been collected.
    pub fn has_errors(&self) -> (r: bool)
        ensures
            r == (self@.len() > 0),
    {
        self.errors.len() > 0
    }

    /// The collected errors, in insertion order.
    pub fn errors(&self) -> (r: &Vec<DatamodelError>)
        ensures
            error_views(r@) == self@,
    {
        &self.errors
    }

    /// `Ok(())` when the bag is empty, the bag itself otherwise.
    pub fn to_result(self) -> (r: Result<(), Diagnostics>)
        ensures
            match r {
                Ok(()) => self@.len() == 0,
                Err(d) => d@ == self@ && self@.len() > 0,
            },
    {
        if self.errors.len() == 0 {
            Ok(())
        } else {
            Err(self)
        }
    }
}

} // verus!
