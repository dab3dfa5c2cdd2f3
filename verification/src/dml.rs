//! The elaborated data model the rules inspect.
//!
//! Models hold scalar and relation fields in declaration order, composite
//! identity fields, index declarations and an ignore flag. The queries the
//! rules need — lookups by name, unique criteria, auto-increment fields, the
//! opposite field of a relation — are given exact specifications here.
use vstd::prelude::*;

verus! {

use crate::text::str_eq;
use crate::text::string_eq_str;
use crate::text::string_views;
use vstd::pervasive::arbitrary;
use vstd::pervasive::unreached;

/// The recognised scalar types.
#[derive(Clone, Copy, PartialEq, Eq, Structural, Debug)]
pub enum ScalarType {
    Int,
    BigInt,
    Decimal,
    Boolean,
    String,
    DateTime,
    Json,
    Bytes,
}

/// How many values a field holds, and whether one is owed.
#[derive(Clone, Copy, PartialEq, Eq, Structural, Debug)]
pub enum FieldArity {
    Required,
    Optional,
    List,
}

impl FieldArity {
    pub fn is_required(&self) -> (r: bool)
        ensures
            r == (*self == FieldArity::Required),
    {
        matches!(self, FieldArity::Required)
    }

    pub fn is_optional(&self) -> (r: bool)
        ensures
            r == (*self == FieldArity::Optional),
    {
        matches!(self, FieldArity::Optional)
    }

    pub fn is_list(&self) -> (r: bool)
        ensures
            r == (*self == FieldArity::List),
    {
        matches!(self, FieldArity::List)
    }

    /// Required or optional: at most one value.
    pub fn is_singular(&self) -> (r: bool)
        ensures
            r == (*self != FieldArity::List),
    {
        !matches!(self, FieldArity::List)
    }
}

/// A literal value, as far as validation reads one.
#[derive(Debug)]
pub enum ScalarValue {
    Boolean(bool),
    Int(i64),
    String(String),
    /// A value of an enum type, by the value's name.
    Enum(String),
}

/// A field's default: a literal, or a call to a value generator such as
/// `autoincrement`.
#[derive(Debug)]
pub enum DefaultValue {
    Single(ScalarValue),
    /// The generator's name.
    Expression(String),
}

/// Identifies the two ends of a relation and the columns that realise it.
#[derive(Debug)]
pub struct RelationInfo {
    /// The name of the target model.
    pub to: String,
    /// The relation name; empty when the relation is unnamed.
    pub name: String,
    /// The scalar fields of the owning model that hold the foreign key.
    pub fields: Vec<String>,
    /// The fields of the target model the foreign key points at.
    pub references: Vec<String>,
}

/// The declared type of a scalar field, or the relation a relation field
/// realises.
#[derive(Debug)]
pub enum FieldType {
    Base(ScalarType),
    /// A scalar with an explicit native type, carried in serialized form.
    NativeType(ScalarType, String),
    /// A reference to a declared enum, by name.
    Enum(String),
    Relation(RelationInfo),
    /// A type the library of scalars does not cover, kept verbatim.
    Unsupported(String),
}

/// A scalar field of a model.
#[derive(Debug)]
pub struct ScalarField {
    pub name: String,
    pub field_type: FieldType,
    pub arity: FieldArity,
    pub default_value: Option<DefaultValue>,
    pub is_unique: bool,
    pub is_id: bool,
}

/// A relation field of a model.
#[derive(Debug)]
pub struct RelationField {
    pub name: String,
    pub arity: FieldArity,
    pub relation_info: RelationInfo,
    pub is_ignored: bool,
}

/// A field of a model: scalar or relation.
#[derive(Debug)]
pub enum Field {
    ScalarField(ScalarField),
    RelationField(RelationField),
}

/// Whether an index enforces uniqueness.
#[derive(Clone, Copy, PartialEq, Eq, Structural, Debug)]
pub enum IndexType {
    Unique,
    Normal,
}

/// An index declaration of a model.
#[derive(Debug)]
pub struct IndexDefinition {
    pub name: Option<String>,
    pub fields: Vec<String>,
    pub tpe: IndexType,
}

/// A model of the data model.
#[derive(Debug)]
pub struct Model {
    pub name: String,
    pub fields: Vec<Field>,
    /// The fields of a composite `@@id`, by name; empty when none is declared.
    pub id_fields: Vec<String>,
    pub indices: Vec<IndexDefinition>,
    pub is_ignored: bool,
}

/// One value of a declared enum.
#[derive(Debug)]
pub struct EnumValue {
    pub name: String,
}

/// A declared enum.
#[derive(Debug)]
pub struct Enum {
    pub name: String,
    pub values: Vec<EnumValue>,
}

/// The whole data model.
#[derive(Debug)]
pub struct Datamodel {
    pub models: Vec<Model>,
    pub enums: Vec<Enum>,
}

/// A uniqueness criterion of a model: an ordered list of its scalar fields.
/// The criterion is strict when every member is required.
pub struct UniqueCriterion<'a> {
    pub fields: Vec<&'a ScalarField>,
}

// --- Field-level specifications ----------------------------------------------

/// The name of a field of either kind.
pub open spec fn field_name(f: Field) -> Seq<char> {
    match f {
        Field::ScalarField(sf) => sf.name@,
        Field::RelationField(rf) => rf.name@,
    }
}

/// The type a field exposes for compatibility comparison: a relation field
/// exposes its relation.
pub open spec fn field_type_of(f: Field) -> FieldType {
    match f {
        Field::ScalarField(sf) => sf.field_type,
        Field::RelationField(rf) => FieldType::Relation(rf.relation_info),
    }
}

/// Whether the scalar field's default is the `autoincrement` generator.
pub open spec fn is_auto_increment_spec(sf: ScalarField) -> bool {
    sf.default_value matches Some(DefaultValue::Expression(g)) && g@ == "autoincrement"@
}

/// The enum-value name the field defaults to, when its default is an enum
/// literal.
pub open spec fn enum_default_of(sf: ScalarField) -> Option<Seq<char>> {
    match sf.default_value {
        Some(DefaultValue::Single(ScalarValue::Enum(v))) => Some(v@),
        _ => None,
    }
}

/// Value equality of two relation declarations.
pub open spec fn rel_info_eq(a: RelationInfo, b: RelationInfo) -> bool {
    &&& a.to@ == b.to@
    &&& a.name@ == b.name@
    &&& string_views(a.fields@) == string_views(b.fields@)
    &&& string_views(a.references@) == string_views(b.references@)
}

/// Type compatibility of a base field with a referenced field: same variant,
/// same content. Scalars with explicit native types must agree on both parts.
pub open spec fn compatible_spec(a: FieldType, b: FieldType) -> bool {
    match (a, b) {
        (FieldType::Base(x), FieldType::Base(y)) => x == y,
        (FieldType::NativeType(x, nx), FieldType::NativeType(y, ny)) => x == y && nx@ == ny@,
        (FieldType::Enum(x), FieldType::Enum(y)) => x@ == y@,
        (FieldType::Relation(x), FieldType::Relation(y)) => rel_info_eq(x, y),
        (FieldType::Unsupported(x), FieldType::Unsupported(y)) => x@ == y@,
        _ => false,
    }
}

impl FieldType {
    /// The underlying scalar type, if the field has one.
    pub open spec fn scalar_type_spec(self) -> Option<ScalarType> {
        match self {
            FieldType::Base(t) => Some(t),
            FieldType::NativeType(t, _) => Some(t),
            _ => None,
        }
    }

    pub fn scalar_type(&self) -> (r: Option<ScalarType>)
        ensures
            r == self.scalar_type_spec(),
    {
        match self {
            FieldType::Base(t) => Some(*t),
            FieldType::NativeType(t, _) => Some(*t),
            _ => None,
        }
    }

    /// Whether this type is compatible with a referenced field's type.
    pub fn is_compatible_with(&self, other: &FieldType) -> (r: bool)
        ensures
            r == compatible_spec(*self, *other),
    {
        match (self, other) {
            (FieldType::Base(x), FieldType::Base(y)) => x == y,
            (FieldType::NativeType(x, nx), FieldType::NativeType(y, ny)) => *x == *y && str_eq(
                nx.as_str(),
                ny.as_str(),
            ),
            (FieldType::Enum(x), FieldType::Enum(y)) => str_eq(x.as_str(), y.as_str()),
            (FieldType::Relation(x), FieldType::Relation(y)) => {
                str_eq(x.to.as_str(), y.to.as_str()) && str_eq(x.name.as_str(), y.name.as_str())
                    && crate::text::string_vec_eq(&x.fields, &y.fields)
                    && crate::text::string_vec_eq(&x.references, &y.references)
            },
            (FieldType::Unsupported(x), FieldType::Unsupported(y)) => str_eq(
                x.as_str(),
                y.as_str(),
            ),
            _ => false,
        }
    }
}

impl ScalarField {
    pub fn is_required(&self) -> (r: bool)
        ensures
            r == (self.arity == FieldArity::Required),
    {
        self.arity.is_required()
    }

    pub fn is_optional(&self) -> (r: bool)
        ensures
            r == (self.arity == FieldArity::Optional),
    {
        self.arity.is_optional()
    }

    pub fn is_list(&self) -> (r: bool)
        ensures
            r == (self.arity == FieldArity::List),
    {
        self.arity.is_list()
    }

    /// Whether the field's default is the `autoincrement` generator.
    pub fn is_auto_increment(&self) -> (r: bool)
        ensures
            r == is_auto_increment_spec(*self),
    {
        match &self.default_value {
            Some(DefaultValue::Expression(g)) => string_eq_str(g, "autoincrement"),
            _ => false,
        }
    }

    /// The enum-value name the field defaults to, when its default is an enum
    /// literal.
    pub fn enum_default<'a>(&'a self) -> (r: Option<&'a String>)
        ensures
            match r {
                Some(v) => enum_default_of(*self) == Some(v@),
                None => enum_default_of(*self) is None,
            },
    {
        match &self.default_value {
            Some(DefaultValue::Single(ScalarValue::Enum(v))) => Some(v),
            _ => None,
        }
    }
}

impl RelationField {
    pub fn is_required(&self) -> (r: bool)
        ensures
            r == (self.arity == FieldArity::Required),
    {
        self.arity.is_required()
    }

    pub fn is_list(&self) -> (r: bool)
        ensures
            r == (self.arity == FieldArity::List),
    {
        self.arity.is_list()
    }

    pub fn is_singular(&self) -> (r: bool)
        ensures
            r == (self.arity != FieldArity::List),
    {
        self.arity.is_singular()
    }
}

impl Field {
    pub fn name<'a>(&'a self) -> (r: &'a String)
        ensures
            r@ == field_name(*self),
    {
        match self {
            Field::ScalarField(sf) => &sf.name,
            Field::RelationField(rf) => &rf.name,
        }
    }
}

// --- Filtering and lookups ----------------------------------------------------

/// The scalar fields among `fields`, in order.
pub open spec fn scalar_fields_of(fields: Seq<Field>) -> Seq<ScalarField>
    decreases fields.len(),
{
    if fields.len() == 0 {
        Seq::empty()
    } else {
        let rest = scalar_fields_of(fields.drop_last());
        match fields.last() {
            Field::ScalarField(sf) => rest.push(sf),
            _ => rest,
        }
    }
}

/// The relation fields among `fields`, in order.
pub open spec fn relation_fields_of(fields: Seq<Field>) -> Seq<RelationField>
    decreases fields.len(),
{
    if fields.len() == 0 {
        Seq::empty()
    } else {
        let rest = relation_fields_of(fields.drop_last());
        match fields.last() {
            Field::RelationField(rf) => rest.push(rf),
            _ => rest,
        }
    }
}

/// The first field with the given name, from position `i` on.
pub open spec fn find_field_from(fields: Seq<Field>, name: Seq<char>, i: int) -> Option<Field>
    decreases fields.len() - i,
{
    if i < 0 || i >= fields.len() {
        None
    } else if field_name(fields[i]) == name {
        Some(fields[i])
    } else {
        find_field_from(fields, name, i + 1)
    }
}

/// The first scalar field with the given name, from position `i` on.
pub open spec fn find_scalar_field_from(fields: Seq<Field>, name: Seq<char>, i: int) -> Option<
    ScalarField,
>
    decreases fields.len() - i,
{
    if i < 0 || i >= fields.len() {
        None
    } else if fields[i] matches Field::ScalarField(sf) && sf.name@ == name {
        Some(fields[i]->ScalarField_0)
    } else {
        find_scalar_field_from(fields, name, i + 1)
    }
}

/// The first relation field with the given name, from position `i` on.
pub open spec fn find_relation_field_from(fields: Seq<Field>, name: Seq<char>, i: int) -> Option<
    RelationField,
>
    decreases fields.len() - i,
{
    if i < 0 || i >= fields.len() {
        None
    } else if fields[i] matches Field::RelationField(rf) && rf.name@ == name {
        Some(fields[i]->RelationField_0)
    } else {
        find_relation_field_from(fields, name, i + 1)
    }
}

/// The scalar fields marked `@id`, in order.
pub open spec fn singular_id_fields_of(fields: Seq<Field>) -> Seq<ScalarField> {
    scalar_fields_of(fields).filter(|sf: ScalarField| sf.is_id)
}

/// The scalar fields whose default is `autoincrement`, in order.
pub open spec fn auto_increment_fields_of(fields: Seq<Field>) -> Seq<ScalarField> {
    scalar_fields_of(fields).filter(|sf: ScalarField| is_auto_increment_spec(sf))
}

/// The named scalar field of the model; arbitrary when the name does not
/// resolve (callers establish that it does).
pub open spec fn resolve_scalar(m: Model, name: String) -> ScalarField {
    match find_scalar_field_from(m.fields@, name@, 0) {
        Some(f) => f,
        None => arbitrary(),
    }
}

/// The named scalar fields of the model, in the order given.
pub open spec fn resolve_scalars(m: Model, names: Seq<String>) -> Seq<ScalarField> {
    names.map_values(|n: String| resolve_scalar(m, n))
}

// --- Unique criteria -----------------------------------------------------------

/// The singleton criteria of fields marked `@unique`, in field order.
pub open spec fn unique_field_criterias(fields: Seq<Field>) -> Seq<Seq<ScalarField>> {
    scalar_fields_of(fields).filter(|sf: ScalarField| sf.is_unique).map_values(
        |sf: ScalarField| seq![sf],
    )
}

/// The criteria of `@@unique` index declarations, in declaration order.
pub open spec fn unique_index_criterias(m: Model, indices: Seq<IndexDefinition>) -> Seq<
    Seq<ScalarField>,
>
    decreases indices.len(),
{
    if indices.len() == 0 {
        Seq::empty()
    } else {
        let rest = unique_index_criterias(m, indices.drop_last());
        if indices.last().tpe == IndexType::Unique {
            rest.push(resolve_scalars(m, indices.last().fields@))
        } else {
            rest
        }
    }
}

/// Every declared uniqueness criterion of the model: the singular `@id` field,
/// the composite `@@id`, each `@unique` field, each `@@unique` index — in that
/// order of precedence.
pub open spec fn unique_criteria_candidates(m: Model) -> Seq<Seq<ScalarField>> {
    let ids = singular_id_fields_of(m.fields@);
    let first = if ids.len() > 0 {
        seq![seq![ids[0]]]
    } else {
        Seq::<Seq<ScalarField>>::empty()
    };
    let composite = if m.id_fields@.len() > 0 {
        seq![resolve_scalars(m, m.id_fields@)]
    } else {
        Seq::<Seq<ScalarField>>::empty()
    };
    first + composite + unique_field_criterias(m.fields@) + unique_index_criterias(m, m.indices@)
}

/// Whether every field of the criterion is required.
pub open spec fn criterion_is_strict(c: Seq<ScalarField>) -> bool {
    forall|k: int| 0 <= k < c.len() ==> (#[trigger] c[k]).arity == FieldArity::Required
}

/// Any declared uniqueness criterion counts.
pub open spec fn loose_unique_criterias_spec(m: Model) -> Seq<Seq<ScalarField>> {
    unique_criteria_candidates(m)
}

/// Only criteria whose fields are all required count; fields of unsupported
/// type do not disqualify a criterion.
pub open spec fn strict_unique_criterias_spec(m: Model) -> Seq<Seq<ScalarField>> {
    unique_criteria_candidates(m).filter(|c: Seq<ScalarField>| criterion_is_strict(c))
}

/// Whether the named field is covered by an index: it is an id, unique, part
/// of the composite id, or a member of a declared index.
pub open spec fn field_is_indexed_spec(m: Model, name: Seq<char>) -> bool {
    ||| (find_scalar_field_from(m.fields@, name, 0) matches Some(sf) && (sf.is_id || sf.is_unique))
    ||| string_views(m.id_fields@).contains(name)
    ||| exists|i: int|
        0 <= i < m.indices@.len() && string_views((#[trigger] m.indices@[i]).fields@).contains(name)
}

// --- The views of criteria lists ------------------------------------------------

impl<'a> View for UniqueCriterion<'a> {
    type V = Seq<ScalarField>;

    open spec fn view(&self) -> Seq<ScalarField> {
        self.fields@.map_values(|f: &ScalarField| *f)
    }
}

/// The views of a list of criteria.
pub open spec fn criteria_views<'a>(cs: Seq<UniqueCriterion<'a>>) -> Seq<Seq<ScalarField>> {
    cs.map_values(|c: UniqueCriterion<'a>| c@)
}

/// The views of a list of borrowed scalar fields.
pub open spec fn deref_scalars(s: Seq<&ScalarField>) -> Seq<ScalarField> {
    s.map_values(|f: &ScalarField| *f)
}

/// The views of a list of borrowed relation fields.
pub open spec fn deref_relations(s: Seq<&RelationField>) -> Seq<RelationField> {
    s.map_values(|f: &RelationField| *f)
}

// --- Model queries ---------------------------------------------------------------

impl Model {
    /// The names of the composite id and of every unique index resolve to
    /// scalar fields of the model. The standardiser guarantees this; the
    /// criteria queries rely on it.
    pub open spec fn criteria_wf(&self) -> bool {
        &&& forall|k: int|
            0 <= k < self.id_fields@.len() ==> find_scalar_field_from(
                self.fields@,
                (#[trigger] self.id_fields@[k])@,
                0,
            ) is Some
        &&& forall|i: int, k: int|
            0 <= i < self.indices@.len() && self.indices@[i].tpe == IndexType::Unique && 0 <= k
                < self.indices@[i].fields@.len() ==> find_scalar_field_from(
                self.fields@,
                (#[trigger] self.indices@[i].fields@[k])@,
                0,
            ) is Some
    }

    /// The scalar fields of the model, in declaration order.
    pub fn scalar_fields<'a>(&'a self) -> (r: Vec<&'a ScalarField>)
        ensures
            deref_scalars(r@) == scalar_fields_of(self.fields@),
    {
        let mut out: Vec<&'a ScalarField> = Vec::new();
        let mut i: usize = 0;
        proof {
            assert(deref_scalars(out@) =~= scalar_fields_of(self.fields@.take(0)));
        }
        while i < self.fields.len()
            invariant
                i <= self.fields@.len(),
                deref_scalars(out@) == scalar_fields_of(self.fields@.take(i as int)),
            decreases self.fields@.len() - i,
        {
            proof {
                assert(self.fields@.take(i + 1).drop_last() =~= self.fields@.take(i as int));
                assert(self.fields@.take(i + 1).last() == self.fields@[i as int]);
            }
            match &self.fields[i] {
                Field::ScalarField(sf) => {
                    let ghost prev = out@;
                    out.push(sf);
                    proof {
                        assert(deref_scalars(out@) =~= deref_scalars(prev).push(*sf));
                    }
                },
                Field::RelationField(_) => (),
            }
            i = i + 1;
        }
        proof {
            assert(self.fields@.take(self.fields@.len() as int) =~= self.fields@);
        }
        out
    }

    /// The relation fields of the model, in declaration order.
    pub fn relation_fields<'a>(&'a self) -> (r: Vec<&'a RelationField>)
        ensures
            deref_relations(r@) == relation_fields_of(self.fields@),
    {
        let mut out: Vec<&'a RelationField> = Vec::new();
        let mut i: usize = 0;
        proof {
            assert(deref_relations(out@) =~= relation_fields_of(self.fields@.take(0)));
        }
        while i < self.fields.len()
            invariant
                i <= self.fields@.len(),
                deref_relations(out@) == relation_fields_of(self.fields@.take(i as int)),
            decreases self.fields@.len() - i,
        {
            proof {
                assert(self.fields@.take(i + 1).drop_last() =~= self.fields@.take(i as int));
                assert(self.fields@.take(i + 1).last() == self.fields@[i as int]);
            }
            match &self.fields[i] {
                Field::RelationField(rf) => {
                    let ghost prev = out@;
                    out.push(rf);
                    proof {
                        assert(deref_relations(out@) =~= deref_relations(prev).push(*rf));
                    }
                },
                Field::ScalarField(_) => (),
            }
            i = i + 1;
        }
        proof {
            assert(self.fields@.take(self.fields@.len() as int) =~= self.fields@);
        }
        out
    }

    /// The first field with the given name.
    pub fn find_field<'a>(&'a self, name: &str) -> (r: Option<&'a Field>)
        ensures
            match r {
                Some(f) => find_field_from(self.fields@, name@, 0) == Some(*f),
                None => find_field_from(self.fields@, name@, 0) is None,
            },
    {
        let mut i: usize = 0;
        while i < self.fields.len()
            invariant
                i <= self.fields@.len(),
                find_field_from(self.fields@, name@, 0) == find_field_from(
                    self.fields@,
                    name@,
                    i as int,
                ),
            decreases self.fields@.len() - i,
        {
            if str_eq(self.fields[i].name().as_str(), name) {
                return Some(&self.fields[i]);
            }
            i = i + 1;
        }
        None
    }

    /// The first scalar field with the given name.
    pub fn find_scalar_field<'a>(&'a self, name: &str) -> (r: Option<&'a ScalarField>)
        ensures
            match r {
                Some(f) => find_scalar_field_from(self.fields@, name@, 0) == Some(*f),
                None => find_scalar_field_from(self.fields@, name@, 0) is None,
            },
    {
        let mut i: usize = 0;
        while i < self.fields.len()
            invariant
                i <= self.fields@.len(),
                find_scalar_field_from(self.fields@, name@, 0) == find_scalar_field_from(
                    self.fields@,
                    name@,
                    i as int,
                ),
            decreases self.fields@.len() - i,
        {
            match &self.fields[i] {
                Field::ScalarField(sf) => {
                    if str_eq(sf.name.as_str(), name) {
                        return Some(sf);
                    }
                },
                Field::RelationField(_) => (),
            }
            i = i + 1;
        }
        None
    }

    /// The first relation field with the given name.
    pub fn find_relation_field<'a>(&'a self, name: &str) -> (r: Option<&'a RelationField>)
        ensures
            match r {
                Some(f) => find_relation_field_from(self.fields@, name@, 0) == Some(*f),
                None => find_relation_field_from(self.fields@, name@, 0) is None,
            },
    {
        let mut i: usize = 0;
        while i < self.fields.len()
            invariant
                i <= self.fields@.len(),
                find_relation_field_from(self.fields@, name@, 0) == find_relation_field_from(
                    self.fields@,
                    name@,
                    i as int,
                ),
            decreases self.fields@.len() - i,
        {
            match &self.fields[i] {
                Field::RelationField(rf) => {
                    if str_eq(rf.name.as_str(), name) {
                        return Some(rf);
                    }
                },
                Field::ScalarField(_) => (),
            }
            i = i + 1;
        }
        None
    }

    /// The scalar fields marked `@id`, in declaration order.
    pub fn singular_id_fields<'a>(&'a self) -> (r: Vec<&'a ScalarField>)
        ensures
            deref_scalars(r@) == singular_id_fields_of(self.fields@),
    {
        let scalars = self.scalar_fields();
        let mut out: Vec<&'a ScalarField> = Vec::new();
        let mut i: usize = 0;
        let ghost all = scalar_fields_of(self.fields@);
        proof {
            assert(deref_scalars(out@) =~= all.take(0).filter(|sf: ScalarField| sf.is_id));
        }
        while i < scalars.len()
            invariant
                i <= scalars@.len(),
                deref_scalars(scalars@) == all,
                all.len() == scalars@.len(),
                deref_scalars(out@) == all.take(i as int).filter(|sf: ScalarField| sf.is_id),
            decreases scalars@.len() - i,
        {
            proof {
                assert(all.take(i + 1).drop_last() =~= all.take(i as int));
                assert(all.take(i + 1).last() == all[i as int]);
                assert(all[i as int] == deref_scalars(scalars@)[i as int]);
                reveal_with_fuel(Seq::<_>::filter, 2);
            }
            if scalars[i].is_id {
                let ghost prev = out@;
                out.push(scalars[i]);
                proof {
                    assert(deref_scalars(out@) =~= deref_scalars(prev).push(*scalars@[i as int]));
                }
            }
            i = i + 1;
        }
        proof {
            assert(all.take(all.len() as int) =~= all);
        }
        out
    }

    /// The scalar fields whose default is `autoincrement`, in declaration
    /// order.
    pub fn auto_increment_fields<'a>(&'a self) -> (r: Vec<&'a ScalarField>)
        ensures
            deref_scalars(r@) == auto_increment_fields_of(self.fields@),
    {
        let scalars = self.scalar_fields();
        let mut out: Vec<&'a ScalarField> = Vec::new();
        let mut i: usize = 0;
        let ghost all = scalar_fields_of(self.fields@);
        proof {
            assert(deref_scalars(out@) =~= all.take(0).filter(
                |sf: ScalarField| is_auto_increment_spec(sf),
            ));
        }
        while i < scalars.len()
            invariant
                i <= scalars@.len(),
                deref_scalars(scalars@) == all,
                all.len() == scalars@.len(),
                deref_scalars(out@) == all.take(i as int).filter(
                    |sf: ScalarField| is_auto_increment_spec(sf),
                ),
            decreases scalars@.len() - i,
        {
            proof {
                assert(all.take(i + 1).drop_last() =~= all.take(i as int));
                assert(all.take(i + 1).last() == all[i as int]);
                assert(all[i as int] == deref_scalars(scalars@)[i as int]);
                reveal_with_fuel(Seq::<_>::filter, 2);
            }
            if scalars[i].is_auto_increment() {
                let ghost prev = out@;
                out.push(scalars[i]);
                proof {
                    assert(deref_scalars(out@) =~= deref_scalars(prev).push(*scalars@[i as int]));
                }
            }
            i = i + 1;
        }
        proof {
            assert(all.take(all.len() as int) =~= all);
        }
        out
    }

    /// Whether the model has exactly one scalar field marked `@id`.
    pub fn has_single_id_field(&self) -> (r: bool)
        ensures
            r == (singular_id_fields_of(self.fields@).len() == 1),
    {
        let ids = self.singular_id_fields();
        proof {
            assert(deref_scalars(ids@).len() == ids@.len());
        }
        ids.len() == 1
    }

    /// Whether the named field is covered by an index.
    pub fn field_is_indexed(&self, name: &str) -> (r: bool)
        ensures
            r == field_is_indexed_spec(*self, name@),
    {
        let by_field = match self.find_scalar_field(name) {
            Some(sf) => sf.is_id || sf.is_unique,
            None => false,
        };
        if by_field {
            return true;
        }
        if crate::text::string_vec_contains(&self.id_fields, name) {
            return true;
        }
        let mut i: usize = 0;
        while i < self.indices.len()
            invariant
                i <= self.indices@.len(),
                !(find_scalar_field_from(self.fields@, name@, 0) matches Some(sf) && (sf.is_id
                    || sf.is_unique)),
                !string_views(self.id_fields@).contains(name@),
                forall|k: int|
                    0 <= k < i ==> !string_views(
                        (#[trigger] self.indices@[k]).fields@,
                    ).contains(name@),
            decreases self.indices@.len() - i,
        {
            if crate::text::string_vec_contains(&self.indices[i].fields, name) {
                return true;
            }
            i = i + 1;
        }
        false
    }

    /// The named scalar fields of the model, in the order given. Every name
    /// must resolve.
    fn resolve_scalar_fields<'a>(&'a self, names: &Vec<String>) -> (r: Vec<&'a ScalarField>)
        requires
            forall|k: int|
                0 <= k < names@.len() ==> find_scalar_field_from(
                    self.fields@,
                    (#[trigger] names@[k])@,
                    0,
                ) is Some,
        ensures
            deref_scalars(r@) == resolve_scalars(*self, names@),
    {
        let mut out: Vec<&'a ScalarField> = Vec::new();
        let mut i: usize = 0;
        proof {
            assert(deref_scalars(out@) =~= resolve_scalars(*self, names@.take(0)));
        }
        while i < names.len()
            invariant
                i <= names@.len(),
                forall|k: int|
                    0 <= k < names@.len() ==> find_scalar_field_from(
                        self.fields@,
                        (#[trigger] names@[k])@,
                        0,
                    ) is Some,
                deref_scalars(out@) == resolve_scalars(*self, names@.take(i as int)),
            decreases names@.len() - i,
        {
            let sf = match self.find_scalar_field(names[i].as_str()) {
                Some(sf) => sf,
                None => {
                    proof {
                        assert(find_scalar_field_from(self.fields@, names@[i as int]@, 0) is Some);
                    }
                    unreached()
                },
            };
            let ghost prev = out@;
            out.push(sf);
            proof {
                assert(*sf == resolve_scalar(*self, names@[i as int]));
                assert(deref_scalars(out@) =~= deref_scalars(prev).push(*sf));
                assert(deref_scalars(out@) =~= resolve_scalars(*self, names@.take(i + 1)));
            }
            i = i + 1;
        }
        proof {
            assert(names@.take(names@.len() as int) =~= names@);
        }
        out
    }

    /// Every declared uniqueness criterion, whether or not its fields are all
    /// required.
    pub fn loose_unique_criterias<'a>(&'a self) -> (r: Vec<UniqueCriterion<'a>>)
        requires
            self.criteria_wf(),
        ensures
            criteria_views(r@) == loose_unique_criterias_spec(*self),
    {
        let mut out: Vec<UniqueCriterion<'a>> = Vec::new();
        let ghost ids = singular_id_fields_of(self.fields@);
        let singular_ids = self.singular_id_fields();
        proof {
            assert(deref_scalars(singular_ids@).len() == singular_ids@.len());
        }
        if singular_ids.len() > 0 {
            let mut one: Vec<&'a ScalarField> = Vec::new();
            one.push(singular_ids[0]);
            proof {
                assert(*singular_ids@[0] == ids[0]);
                assert(one@.map_values(|f: &ScalarField| *f) =~= seq![ids[0]]);
            }
            out.push(UniqueCriterion { fields: one });
        }
        let ghost first = if ids.len() > 0 {
            seq![seq![ids[0]]]
        } else {
            Seq::<Seq<ScalarField>>::empty()
        };
        proof {
            assert(criteria_views(out@) =~= first);
        }
        if self.id_fields.len() > 0 {
            let resolved = self.resolve_scalar_fields(&self.id_fields);
            out.push(UniqueCriterion { fields: resolved });
        }
        let ghost composite = if self.id_fields@.len() > 0 {
            seq![resolve_scalars(*self, self.id_fields@)]
        } else {
            Seq::<Seq<ScalarField>>::empty()
        };
        proof {
            assert(criteria_views(out@) =~= first + composite);
        }
        let ghost before_uniques = criteria_views(out@);
        let scalars = self.scalar_fields();
        let ghost all = scalar_fields_of(self.fields@);
        let mut i: usize = 0;
        proof {
            assert(unique_field_criterias(self.fields@) == all.filter(
                |sf: ScalarField| sf.is_unique,
            ).map_values(|sf: ScalarField| seq![sf]));
            assert(criteria_views(out@) =~= before_uniques + all.take(0).filter(
                |sf: ScalarField| sf.is_unique,
            ).map_values(|sf: ScalarField| seq![sf]));
        }
        while i < scalars.len()
            invariant
                i <= scalars@.len(),
                deref_scalars(scalars@) == all,
                all.len() == scalars@.len(),
                criteria_views(out@) == before_uniques + all.take(i as int).filter(
                    |sf: ScalarField| sf.is_unique,
                ).map_values(|sf: ScalarField| seq![sf]),
            decreases scalars@.len() - i,
        {
            proof {
                assert(all.take(i + 1).drop_last() =~= all.take(i as int));
                assert(all.take(i + 1).last() == all[i as int]);
                assert(all[i as int] == deref_scalars(scalars@)[i as int]);
                reveal_with_fuel(Seq::<_>::filter, 2);
            }
            if scalars[i].is_unique {
                let mut one: Vec<&'a ScalarField> = Vec::new();
                one.push(scalars[i]);
                let ghost prevout = out@;
                out.push(UniqueCriterion { fields: one });
                proof {
                    assert(one@.map_values(|f: &ScalarField| *f) =~= seq![all[i as int]]);
                    assert(criteria_views(out@) =~= criteria_views(prevout).push(
                        seq![all[i as int]],
                    ));
                    assert(all.take(i + 1).filter(|sf: ScalarField| sf.is_unique) =~= all.take(
                        i as int,
                    ).filter(|sf: ScalarField| sf.is_unique).push(all[i as int]));
                    assert(all.take(i + 1).filter(|sf: ScalarField| sf.is_unique).map_values(
                        |sf: ScalarField| seq![sf],
                    ) =~= all.take(i as int).filter(|sf: ScalarField| sf.is_unique).map_values(
                        |sf: ScalarField| seq![sf],
                    ).push(seq![all[i as int]]));
                    assert(criteria_views(out@) =~= before_uniques + all.take(i + 1).filter(
                        |sf: ScalarField| sf.is_unique,
                    ).map_values(|sf: ScalarField| seq![sf]));
                }
            }
            i = i + 1;
        }
        proof {
            assert(all.take(all.len() as int) =~= all);
        }
        let ghost before_indices = criteria_views(out@);
        let mut j: usize = 0;
        proof {
            assert(criteria_views(out@) =~= before_indices + unique_index_criterias(
                *self,
                self.indices@.take(0),
            ));
        }
        while j < self.indices.len()
            invariant
                j <= self.indices@.len(),
                self.criteria_wf(),
                criteria_views(out@) == before_indices + unique_index_criterias(
                    *self,
                    self.indices@.take(j as int),
                ),
            decreases self.indices@.len() - j,
        {
            proof {
                assert(self.indices@.take(j + 1).drop_last() =~= self.indices@.take(j as int));
                assert(self.indices@.take(j + 1).last() == self.indices@[j as int]);
            }
            if matches!(self.indices[j].tpe, IndexType::Unique) {
                let resolved = self.resolve_scalar_fields(&self.indices[j].fields);
                let ghost prevout = out@;
                out.push(UniqueCriterion { fields: resolved });
                proof {
                    assert(deref_scalars(resolved@) == resolve_scalars(
                        *self,
                        self.indices@[j as int].fields@,
                    ));
                    assert(criteria_views(out@) =~= criteria_views(prevout).push(
                        resolve_scalars(*self, self.indices@[j as int].fields@),
                    ));
                    assert(criteria_views(out@) =~= before_indices + unique_index_criterias(
                        *self,
                        self.indices@.take(j + 1),
                    ));
                }
            }
            j = j + 1;
        }
        proof {
            assert(self.indices@.take(self.indices@.len() as int) =~= self.indices@);
            assert(criteria_views(out@) =~= loose_unique_criterias_spec(*self));
        }
        out
    }

    /// The criteria whose fields are all required.
    pub fn strict_unique_criterias_disregarding_unsupported<'a>(&'a self) -> (r: Vec<
        UniqueCriterion<'a>,
    >)
        requires
            self.criteria_wf(),
        ensures
            criteria_views(r@) == strict_unique_criterias_spec(*self),
    {
        let loose = self.loose_unique_criterias();
        let ghost candidates = loose_unique_criterias_spec(*self);
        let mut out: Vec<UniqueCriterion<'a>> = Vec::new();
        let mut i: usize = 0;
        proof {
            assert(criteria_views(out@) =~= candidates.take(0).filter(
                |c: Seq<ScalarField>| criterion_is_strict(c),
            ));
        }
        while i < loose.len()
            invariant
                i <= loose@.len(),
                criteria_views(loose@) == candidates,
                candidates.len() == loose@.len(),
                criteria_views(out@) == candidates.take(i as int).filter(
                    |c: Seq<ScalarField>| criterion_is_strict(c),
                ),
            decreases loose@.len() - i,
        {
            proof {
                assert(candidates.take(i + 1).drop_last() =~= candidates.take(i as int));
                assert(candidates.take(i + 1).last() == candidates[i as int]);
                assert(candidates[i as int] == criteria_views(loose@)[i as int]);
                reveal_with_fuel(Seq::<_>::filter, 2);
            }
            let c = &loose[i];
            let mut all_required = true;
            let mut k: usize = 0;
            proof {
                assert(c@.len() == c.fields@.len());
            }
            while k < c.fields.len()
                invariant
                    k <= c.fields@.len(),
                    c@.len() == c.fields@.len(),
                    all_required == (forall|t: int|
                        0 <= t < k ==> (#[trigger] c@[t]).arity == FieldArity::Required),
                decreases c.fields@.len() - k,
            {
                proof {
                    assert(c@[k as int] == *c.fields@[k as int]);
                }
                let req = c.fields[k].is_required();
                all_required = all_required && req;
                k = k + 1;
            }
            if all_required {
                let mut copied: Vec<&'a ScalarField> = Vec::new();
                let mut t: usize = 0;
                while t < c.fields.len()
                    invariant
                        t <= c.fields@.len(),
                        copied@.len() == t,
                        forall|u: int| 0 <= u < t ==> copied@[u] == c.fields@[u],
                    decreases c.fields@.len() - t,
                {
                    copied.push(c.fields[t]);
                    t = t + 1;
                }
                proof {
                    assert(copied@ =~= c.fields@);
                }
                out.push(UniqueCriterion { fields: copied });
                proof {
                    assert(criterion_is_strict(candidates[i as int]));
                    assert(criteria_views(out@) =~= candidates.take(i + 1).filter(
                        |cc: Seq<ScalarField>| criterion_is_strict(cc),
                    ));
                }
            } else {
                proof {
                    assert(!criterion_is_strict(candidates[i as int]));
                }
            }
            i = i + 1;
        }
        proof {
            assert(candidates.take(candidates.len() as int) =~= candidates);
        }
        out
    }
}

// --- Datamodel queries -------------------------------------------------------------

/// The first model with the given name, from position `i` on.
pub open spec fn find_model_from(models: Seq<Model>, name: Seq<char>, i: int) -> Option<Model>
    decreases models.len() - i,
{
    if i < 0 || i >= models.len() {
        None
    } else if models[i].name@ == name {
        Some(models[i])
    } else {
        find_model_from(models, name, i + 1)
    }
}

/// The first enum with the given name, from position `i` on.
pub open spec fn find_enum_from(enums: Seq<Enum>, name: Seq<char>, i: int) -> Option<Enum>
    decreases enums.len() - i,
{
    if i < 0 || i >= enums.len() {
        None
    } else if enums[i].name@ == name {
        Some(enums[i])
    } else {
        find_enum_from(enums, name, i + 1)
    }
}

/// The opposite relation field among `rfs`: the first one, from position `i`
/// on, that carries the same relation name and either points at a different
/// model than `info_to` or — in a self-relation — is not the field itself.
pub open spec fn find_opposite_from(
    rfs: Seq<RelationField>,
    info_to: Seq<char>,
    info_name: Seq<char>,
    exclude: Seq<char>,
    i: int,
) -> Option<(int, RelationField)>
    decreases rfs.len() - i,
{
    if i < 0 || i >= rfs.len() {
        None
    } else if rfs[i].relation_info.name@ == info_name && (rfs[i].relation_info.to@ != info_to
        || rfs[i].name@ != exclude) {
        Some((i, rfs[i]))
    } else {
        find_opposite_from(rfs, info_to, info_name, exclude, i + 1)
    }
}

/// The field on the target model that realises the other end of the given
/// relation field's relation, with its position among the target's relation
/// fields.
pub open spec fn find_related_field_spec(dm: Datamodel, field: RelationField) -> Option<
    (int, RelationField),
> {
    match find_model_from(dm.models@, field.relation_info.to@, 0) {
        Some(rm) => find_opposite_from(
            relation_fields_of(rm.fields@),
            field.relation_info.to@,
            field.relation_info.name@,
            field.name@,
            0,
        ),
        None => None,
    }
}

impl Enum {
    /// Whether the enum declares a value with the given name.
    pub open spec fn has_value_spec(&self, name: Seq<char>) -> bool {
        exists|k: int| 0 <= k < self.values@.len() && (#[trigger] self.values@[k]).name@ == name
    }

    pub fn has_value(&self, name: &str) -> (r: bool)
        ensures
            r == self.has_value_spec(name@),
    {
        let mut i: usize = 0;
        while i < self.values.len()
            invariant
                i <= self.values@.len(),
                forall|k: int| 0 <= k < i ==> (#[trigger] self.values@[k]).name@ != name@,
            decreases self.values@.len() - i,
        {
            if str_eq(self.values[i].name.as_str(), name) {
                proof {
                    assert(self.values@[i as int].name@ == name@);
                }
                return true;
            }
            i = i + 1;
        }
        false
    }
}

impl Datamodel {
    /// The models, in declaration order.
    pub fn models(&self) -> (r: &Vec<Model>)
        ensures
            r == &self.models,
    {
        &self.models
    }

    /// The enums, in declaration order.
    pub fn enums(&self) -> (r: &Vec<Enum>)
        ensures
            r == &self.enums,
    {
        &self.enums
    }

    /// The first model with the given name.
    pub fn find_model<'a>(&'a self, name: &str) -> (r: Option<&'a Model>)
        ensures
            match r {
                Some(m) => find_model_from(self.models@, name@, 0) == Some(*m),
                None => find_model_from(self.models@, name@, 0) is None,
            },
    {
        let mut i: usize = 0;
        while i < self.models.len()
            invariant
                i <= self.models@.len(),
                find_model_from(self.models@, name@, 0) == find_model_from(
                    self.models@,
                    name@,
                    i as int,
                ),
            decreases self.models@.len() - i,
        {
            if str_eq(self.models[i].name.as_str(), name) {
                return Some(&self.models[i]);
            }
            i = i + 1;
        }
        None
    }

    /// The first enum with the given name.
    pub fn find_enum<'a>(&'a self, name: &str) -> (r: Option<&'a Enum>)
        ensures
            match r {
                Some(e) => find_enum_from(self.enums@, name@, 0) == Some(*e),
                None => find_enum_from(self.enums@, name@, 0) is None,
            },
    {
        let mut i: usize = 0;
        while i < self.enums.len()
            invariant
                i <= self.enums@.len(),
                find_enum_from(self.enums@, name@, 0) == find_enum_from(
                    self.enums@,
                    name@,
                    i as int,
                ),
            decreases self.enums@.len() - i,
        {
            if str_eq(self.enums[i].name.as_str(), name) {
                return Some(&self.enums[i]);
            }
            i = i + 1;
        }
        None
    }

    /// The other end of the given relation field's relation, if the target
    /// model declares one: the first relation field of the target that carries
    /// the same relation name and points back (or, in a self-relation, is a
    /// different field).
    pub fn find_related_field<'a>(&'a self, field: &RelationField) -> (r: Option<
        (usize, &'a RelationField),
    >)
        ensures
            match r {
                Some((idx, rf)) => find_related_field_spec(*self, *field) == Some(
                    (idx as int, *rf),
                ),
                None => find_related_field_spec(*self, *field) is None,
            },
    {
        let related_model = match self.find_model(field.relation_info.to.as_str()) {
            Some(m) => m,
            None => {
                return None;
            },
        };
        let rfs = related_model.relation_fields();
        let ghost rseq = relation_fields_of(related_model.fields@);
        let mut i: usize = 0;
        proof {
            assert(deref_relations(rfs@).len() == rfs@.len());
        }
        while i < rfs.len()
            invariant
                i <= rfs@.len(),
                find_model_from(self.models@, field.relation_info.to@, 0) == Some(*related_model),
                rseq == relation_fields_of(related_model.fields@),
                deref_relations(rfs@) == rseq,
                rseq.len() == rfs@.len(),
                find_opposite_from(
                    rseq,
                    field.relation_info.to@,
                    field.relation_info.name@,
                    field.name@,
                    0,
                ) == find_opposite_from(
                    rseq,
                    field.relation_info.to@,
                    field.relation_info.name@,
                    field.name@,
                    i as int,
                ),
            decreases rfs@.len() - i,
        {
            proof {
                assert(rseq[i as int] == *rfs@[i as int]);
            }
            let cand = rfs[i];
            if str_eq(cand.relation_info.name.as_str(), field.relation_info.name.as_str()) && (
            !str_eq(cand.relation_info.to.as_str(), field.relation_info.to.as_str()) || !str_eq(
                cand.name.as_str(),
                field.name.as_str(),
            )) {
                proof {
                    assert(rseq[i as int].relation_info.name@ == field.relation_info.name@);
                    assert(find_opposite_from(
                        rseq,
                        field.relation_info.to@,
                        field.relation_info.name@,
                        field.name@,
                        i as int,
                    ) == Some((i as int, rseq[i as int])));
                    assert(*cand == rseq[i as int]);
                    assert(find_model_from(self.models@, field.relation_info.to@, 0) == Some(
                        *related_model,
                    ));
                    assert(find_related_field_spec(*self, *field) == Some((i as int, *cand)));
                }
                return Some((i, cand));
            }
            i = i + 1;
        }
        None
    }
}

} // verus!
