//! Read-only view of the parsed schema.
//!
//! Every entity — model, enum, field, enum value, attribute — carries a byte
//! span `[start, end)` into the schema source, and diagnostics point at these
//! spans. The parser that produces this tree is outside the library; the
//! validator only reads it.
use vstd::prelude::*;

verus! {

use crate::diagnostics::DatamodelError;
use crate::diagnostics::ErrorView;
use crate::messages;
use vstd::string::StrSliceExecFns;

/// A byte range `[start, end)` in the schema source.
#[derive(Clone, Copy, PartialEq, Eq, Structural, Debug)]
pub struct Span {
    pub start: usize,
    pub end: usize,
}

impl Span {
    /// The span used when no source location is available.
    pub open spec fn empty_spec() -> Span {
        Span { start: 0, end: 0 }
    }

    pub fn new(start: usize, end: usize) -> (s: Span)
        ensures
            s == (Span { start, end }),
    {
        Span { start, end }
    }

    pub fn empty() -> (s: Span)
        ensures
            s == Span::empty_spec(),
    {
        Span { start: 0, end: 0 }
    }
}

/// A name together with the span where it was written.
pub struct Identifier {
    pub name: String,
    pub span: Span,
}

/// An attribute such as `@id` or `@@index`, with its own span.
pub struct Attribute {
    pub name: Identifier,
    pub span: Span,
}

/// A field declaration of a model.
pub struct Field {
    pub name: Identifier,
    pub attributes: Vec<Attribute>,
    pub span: Span,
}

/// A model declaration.
pub struct Model {
    pub name: Identifier,
    pub fields: Vec<Field>,
    pub attributes: Vec<Attribute>,
    pub span: Span,
}

/// One value of an enum declaration.
pub struct EnumValue {
    pub name: Identifier,
    pub attributes: Vec<Attribute>,
    pub span: Span,
}

/// An enum declaration.
pub struct Enum {
    pub name: Identifier,
    pub values: Vec<EnumValue>,
    pub attributes: Vec<Attribute>,
    pub span: Span,
}

/// The parsed schema: its model and enum declarations.
pub struct SchemaAst {
    pub models: Vec<Model>,
    pub enums: Vec<Enum>,
}

// --- The identifier grammar -------------------------------------------------

/// Whether a character may start an identifier: a letter or an underscore.
pub open spec fn is_start_char(c: char) -> bool {
    ||| ('a' as u32) <= (c as u32) && (c as u32) <= ('z' as u32)
    ||| ('A' as u32) <= (c as u32) && (c as u32) <= ('Z' as u32)
    ||| c == '_'
}

/// Whether a character may continue an identifier: a letter, a digit or an
/// underscore.
pub open spec fn is_ident_char(c: char) -> bool {
    ||| is_start_char(c)
    ||| ('0' as u32) <= (c as u32) && (c as u32) <= ('9' as u32)
}

/// The domain's identifier grammar: non-empty, a letter or underscore first,
/// then letters, digits and underscores.
pub open spec fn valid_name(s: Seq<char>) -> bool {
    &&& s.len() > 0
    &&& is_start_char(s[0])
    &&& forall|i: int| 0 <= i < s.len() ==> is_ident_char(#[trigger] s[i])
}

/// Attribute names may be namespaced: one or more identifiers separated by
/// single dots, as in a connector-prefixed attribute.
pub open spec fn valid_attribute_name(s: Seq<char>) -> bool {
    &&& s.len() > 0
    &&& is_start_char(s[0])
    &&& forall|i: int| 0 <= i < s.len() ==> is_ident_char(#[trigger] s[i]) || s[i] == '.'
    &&& forall|i: int| 0 <= i < s.len() && #[trigger] s[i] == '.' ==> i + 1 < s.len()
        && is_start_char(s[i + 1])
}

fn char_is_start(c: char) -> (r: bool)
    ensures
        r == is_start_char(c),
{
    let u = c as u32;
    (97 <= u && u <= 122) || (65 <= u && u <= 90) || c == '_'
}

fn char_is_ident(c: char) -> (r: bool)
    ensures
        r == is_ident_char(c),
{
    char_is_start(c) || (48 <= (c as u32) && (c as u32) <= 57)
}

/// Whether the string matches the identifier grammar.
pub fn check_valid_name(s: &str) -> (r: bool)
    ensures
        r == valid_name(s@),
{
    let len = s.unicode_len();
    if len == 0 {
        return false;
    }
    if !char_is_start(s.get_char(0)) {
        return false;
    }
    let mut i: usize = 0;
    while i < len
        invariant
            i <= len,
            len == s@.len(),
            is_start_char(s@[0]),
            forall|k: int| 0 <= k < i ==> is_ident_char(#[trigger] s@[k]),
        decreases len - i,
    {
        if !char_is_ident(s.get_char(i)) {
            return false;
        }
        i = i + 1;
    }
    true
}

/// Whether the string matches the attribute-name grammar.
pub fn check_valid_attribute_name(s: &str) -> (r: bool)
    ensures
        r == valid_attribute_name(s@),
{
    let len = s.unicode_len();
    if len == 0 {
        return false;
    }
    if !char_is_start(s.get_char(0)) {
        return false;
    }
    let mut i: usize = 0;
    while i < len
        invariant
            i <= len,
            len == s@.len(),
            is_start_char(s@[0]),
            forall|k: int| 0 <= k < i ==> is_ident_char(#[trigger] s@[k]) || s@[k] == '.',
            forall|k: int| 0 <= k < i && #[trigger] s@[k] == '.' ==> k + 1 < len && is_start_char(
                s@[k + 1],
            ),
        decreases len - i,
    {
        let c = s.get_char(i);
        if c == '.' {
            if i + 1 >= len {
                return false;
            }
            if !char_is_start(s.get_char(i + 1)) {
                return false;
            }
        } else {
            if !char_is_ident(c) {
                return false;
            }
        }
        i = i + 1;
    }
    true
}

// --- Name validation --------------------------------------------------------

/// The diagnostic an identifier earns when its name breaks the grammar.
pub open spec fn identifier_error(id: Identifier, item: Seq<char>) -> Option<ErrorView> {
    if valid_name(id.name@) {
        None
    } else {
        Some(
            ErrorView::Validation {
                message: messages::msg_invalid_name(item),
                span: id.span,
            },
        )
    }
}

/// The diagnostic an attribute earns when its name breaks the grammar.
pub open spec fn attribute_error(attr: Attribute) -> Option<ErrorView> {
    if valid_attribute_name(attr.name.name@) {
        None
    } else {
        Some(
            ErrorView::Validation {
                message: messages::msg_invalid_attribute_name(),
                span: attr.name.span,
            },
        )
    }
}

impl Identifier {
    /// Checks the name against the identifier grammar; `schema_item` names the
    /// kind of entity in the diagnostic.
    pub fn validate(&self, schema_item: &str) -> (r: Option<DatamodelError>)
        ensures
            match r {
                Some(e) => identifier_error(*self, schema_item@) == Some(e@),
                None => identifier_error(*self, schema_item@) is None,
            },
    {
        if check_valid_name(self.name.as_str()) {
            None
        } else {
            Some(
                DatamodelError::new_validation_error(
                    messages::build_invalid_name(schema_item).as_str(),
                    self.span,
                ),
            )
        }
    }
}

impl Attribute {
    /// Checks the attribute name against the attribute-name grammar.
    pub fn validate(&self) -> (r: Option<DatamodelError>)
        ensures
            match r {
                Some(e) => attribute_error(*self) == Some(e@),
                None => attribute_error(*self) is None,
            },
    {
        if check_valid_attribute_name(self.name.name.as_str()) {
            None
        } else {
            Some(
                DatamodelError::new_validation_error(
                    messages::build_invalid_attribute_name().as_str(),
                    self.name.span,
                ),
            )
        }
    }

    /// Whether the attribute declares an index: `@@index` or `@@unique`.
    pub open spec fn is_index_spec(&self) -> bool {
        self.name.name@ == "index"@ || self.name.name@ == "unique"@
    }

    pub fn is_index(&self) -> (r: bool)
        ensures
            r == self.is_index_spec(),
    {
        crate::text::string_eq_str(&self.name.name, "index") || crate::text::string_eq_str(
            &self.name.name,
            "unique",
        )
    }
}

// --- Lookups ----------------------------------------------------------------

/// The first attribute with the given name, from position `i` on.
pub open spec fn find_attribute_from(attrs: Seq<Attribute>, name: Seq<char>, i: int) -> Option<
    Attribute,
>
    decreases attrs.len() - i,
{
    if i < 0 || i >= attrs.len() {
        None
    } else if attrs[i].name.name@ == name {
        Some(attrs[i])
    } else {
        find_attribute_from(attrs, name, i + 1)
    }
}

/// The first attribute with the given name.
pub open spec fn find_attribute_spec(attrs: Seq<Attribute>, name: Seq<char>) -> Option<Attribute> {
    find_attribute_from(attrs, name, 0)
}

fn find_attribute<'a>(attrs: &'a Vec<Attribute>, name: &str) -> (r: Option<&'a Attribute>)
    ensures
        match r {
            Some(a) => find_attribute_spec(attrs@, name@) == Some(*a),
            None => find_attribute_spec(attrs@, name@) is None,
        },
{
    let mut i: usize = 0;
    while i < attrs.len()
        invariant
            i <= attrs@.len(),
            find_attribute_from(attrs@, name@, 0) == find_attribute_from(attrs@, name@, i as int),
        decreases attrs@.len() - i,
    {
        if crate::text::string_eq_str(&attrs[i].name.name, name) {
            return Some(&attrs[i]);
        }
        i = i + 1;
    }
    None
}

/// The first index attribute (`@@index` or `@@unique`), from position `i` on.
pub open spec fn find_index_attribute_from(attrs: Seq<Attribute>, i: int) -> Option<Attribute>
    decreases attrs.len() - i,
{
    if i < 0 || i >= attrs.len() {
        None
    } else if attrs[i].is_index_spec() {
        Some(attrs[i])
    } else {
        find_index_attribute_from(attrs, i + 1)
    }
}

/// The first field with the given name, from position `i` on.
pub open spec fn find_field_from(fields: Seq<Field>, name: Seq<char>, i: int) -> Option<Field>
    decreases fields.len() - i,
{
    if i < 0 || i >= fields.len() {
        None
    } else if fields[i].name.name@ == name {
        Some(fields[i])
    } else {
        find_field_from(fields, name, i + 1)
    }
}

/// The first model with the given name, from position `i` on.
pub open spec fn find_model_from(models: Seq<Model>, name: Seq<char>, i: int) -> Option<Model>
    decreases models.len() - i,
{
    if i < 0 || i >= models.len() {
        None
    } else if models[i].name.name@ == name {
        Some(models[i])
    } else {
        find_model_from(models, name, i + 1)
    }
}

/// The first enum with the given name, from position `i` on.
pub open spec fn find_enum_from(enums: Seq<Enum>, name: Seq<char>, i: int) -> Option<Enum>
    decreases enums.len() - i,
{
    if i < 0 || i >= enums.len() {
        None
    } else if enums[i].name.name@ == name {
        Some(enums[i])
    } else {
        find_enum_from(enums, name, i + 1)
    }
}

impl Field {
    /// The first attribute on the field with the given name.
    pub fn find_attribute<'a>(&'a self, name: &str) -> (r: Option<&'a Attribute>)
        ensures
            match r {
                Some(a) => find_attribute_spec(self.attributes@, name@) == Some(*a),
                None => find_attribute_spec(self.attributes@, name@) is None,
            },
    {
        find_attribute(&self.attributes, name)
    }
}

impl Model {
    /// The first field of the model with the given name.
    pub open spec fn find_field_spec(&self, name: Seq<char>) -> Option<Field> {
        find_field_from(self.fields@, name, 0)
    }

    pub fn find_field<'a>(&'a self, name: &str) -> (r: Option<&'a Field>)
        ensures
            match r {
                Some(f) => self.find_field_spec(name@) == Some(*f),
                None => self.find_field_spec(name@) is None,
            },
    {
        let mut i: usize = 0;
        while i < self.fields.len()
            invariant
                i <= self.fields@.len(),
                find_field_from(self.fields@, name@, 0) == find_field_from(
                    self.fields@,
                    name@,
                    i as int,
                ),
            decreases self.fields@.len() - i,
        {
            if crate::text::string_eq_str(&self.fields[i].name.name, name) {
                return Some(&self.fields[i]);
            }
            i = i + 1;
        }
        None
    }

    /// The first index attribute of the model, if any.
    pub fn first_index_attribute<'a>(&'a self) -> (r: Option<&'a Attribute>)
        ensures
            match r {
                Some(a) => find_index_attribute_from(self.attributes@, 0) == Some(*a),
                None => find_index_attribute_from(self.attributes@, 0) is None,
            },
    {
        let mut i: usize = 0;
        while i < self.attributes.len()
            invariant
                i <= self.attributes@.len(),
                find_index_attribute_from(self.attributes@, 0) == find_index_attribute_from(
                    self.attributes@,
                    i as int,
                ),
            decreases self.attributes@.len() - i,
        {
            if self.attributes[i].is_index() {
                return Some(&self.attributes[i]);
            }
            i = i + 1;
        }
        None
    }
}

impl SchemaAst {
    /// The first model with the given name.
    pub open spec fn find_model_spec(&self, name: Seq<char>) -> Option<Model> {
        find_model_from(self.models@, name, 0)
    }

    /// The first enum with the given name.
    pub open spec fn find_enum_spec(&self, name: Seq<char>) -> Option<Enum> {
        find_enum_from(self.enums@, name, 0)
    }

    pub fn find_model<'a>(&'a self, name: &str) -> (r: Option<&'a Model>)
        ensures
            match r {
                Some(m) => self.find_model_spec(name@) == Some(*m),
                None => self.find_model_spec(name@) is None,
            },
    {
        let mut i: usize = 0;
        while i < self.models.len()
            invariant
                i <= self.models@.len(),
                find_model_from(self.models@, name@, 0) == find_model_from(
                    self.models@,
                    name@,
                    i as int,
                ),
            decreases self.models@.len() - i,
        {
            if crate::text::string_eq_str(&self.models[i].name.name, name) {
                return Some(&self.models[i]);
            }
            i = i + 1;
        }
        None
    }

    pub fn find_enum<'a>(&'a self, name: &str) -> (r: Option<&'a Enum>)
        ensures
            match r {
                Some(e) => self.find_enum_spec(name@) == Some(*e),
                None => self.find_enum_spec(name@) is None,
            },
    {
        let mut i: usize = 0;
        while i < self.enums.len()
            invariant
                i <= self.enums@.len(),
                find_enum_from(self.enums@, name@, 0) == find_enum_from(
                    self.enums@,
                    name@,
                    i as int,
                ),
            decreases self.enums@.len() - i,
        {
            if crate::text::string_eq_str(&self.enums[i].name.name, name) {
                return Some(&self.enums[i]);
            }
            i = i + 1;
        }
        None
    }

    /// The named field of the named model, if both exist.
    pub open spec fn find_field_in_model_spec(&self, model: Seq<char>, field: Seq<char>) -> Option<
        Field,
    > {
        match self.find_model_spec(model) {
            Some(m) => m.find_field_spec(field),
            None => None,
        }
    }

    pub fn find_field<'a>(&'a self, model: &str, field: &str) -> (r: Option<&'a Field>)
        ensures
            match r {
                Some(f) => self.find_field_in_model_spec(model@, field@) == Some(*f),
                None => self.find_field_in_model_spec(model@, field@) is None,
            },
    {
        match self.find_model(model) {
            Some(m) => m.find_field(field),
            None => None,
        }
    }
}


/// Law (locality, name rules): a name diagnostic points exactly at the blamed
/// identifier itself.
pub proof fn lemma_identifier_error_span(id: Identifier, item: Seq<char>)
    ensures
        identifier_error(id, item) matches Some(e) ==> e.span() == id.span,
{
}

/// Law (locality, name rules): an attribute-name diagnostic points exactly at
/// the blamed attribute's name.
pub proof fn lemma_attribute_error_span(attr: Attribute)
    ensures
        attribute_error(attr) matches Some(e) ==> e.span() == attr.name.span,
{
}

} // verus!
