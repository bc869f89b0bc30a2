//! The generated record definitions, the diagnostics, and their
//! mathematical models.

use vstd::prelude::*;

verus! {

/// A fatal condition that aborts the whole analysis run.
#[derive(Clone, Copy, Debug, PartialEq, Eq, Structural)]
pub enum AnalyzeError {
    /// An empty or unset type tag without the int-or-string marker.
    AmbiguousType,
    /// Tuple-typed array items, or an array element type that is not
    /// object, string, boolean, integer or array.
    UnsupportedArrayShape,
    /// A type tag outside object, string, boolean, integer, array, empty.
    UnknownScalarType,
    /// An array node without an `items` field.
    MissingArrayItems,
}

/// A non-fatal anomaly, downgraded to a conservative coercion.
#[derive(Clone, Copy, Debug, PartialEq, Eq, Structural)]
pub enum Warning {
    /// An integer with an unknown or absent format fell back to the
    /// default-width unsigned size type.
    LossyIntegerFormat,
    /// An empty type with the int-or-string marker was coerced to the text
    /// type.
    IntOrStringCoercion,
    /// An object with a concretely typed `additionalProperties` schema was
    /// inlined as a map instead of becoming a record.
    InlinedMapNode,
}

/// The serialization-default marker of a non-required container field:
/// absence serializes as an empty container rather than as null.
#[derive(Clone, Copy, Debug, PartialEq, Eq, Structural)]
pub enum DefaultAnnot {
    /// An absent map defaults to the empty map and is omitted when empty.
    EmptyMap,
    /// An absent sequence defaults to the empty list and is omitted when
    /// empty.
    EmptyList,
}

/// What kind of thing a property's resolved type names.
#[derive(Clone, Copy, Debug, PartialEq, Eq, Structural)]
pub enum ResolvedKind {
    /// A scalar or a reference to a generated record.
    Plain,
    /// A sequence type.
    Sequence,
    /// A map from strings.
    Dict,
}

/// One property's rendering inside a generated record.
#[derive(Debug, PartialEq, Eq)]
pub struct OutputMember {
    pub name: String,
    pub type_: String,
    pub field_annot: Option<DefaultAnnot>,
}

/// One generated record: a name, the distance from the analysis root, and
/// the fields in source property order.
#[derive(Debug, PartialEq, Eq)]
pub struct OutputStruct {
    pub name: String,
    pub level: u8,
    pub members: Vec<OutputMember>,
}

/// The mathematical model of a member: both strings as character sequences.
#[verifier::ext_equal]
pub struct MemberModel {
    pub name: Seq<char>,
    pub ty: Seq<char>,
    pub annot: Option<DefaultAnnot>,
}

/// The mathematical model of a generated record.
#[verifier::ext_equal]
pub struct StructModel {
    pub name: Seq<char>,
    pub level: nat,
    pub members: Seq<MemberModel>,
}

/// Everything the analysis of one node commits, whether or not it fails:
/// the records appended to the output list in emission order, the warnings
/// sent to the sink in emission order, and the first fatal error if one
/// stopped the run.
#[verifier::ext_equal]
pub struct AnalyzeOut {
    pub structs: Seq<StructModel>,
    pub warns: Seq<Warning>,
    pub error: Option<AnalyzeError>,
}

impl AnalyzeOut {
    pub open spec fn empty() -> AnalyzeOut {
        AnalyzeOut { structs: Seq::empty(), warns: Seq::empty(), error: None }
    }

    pub open spec fn failed(e: AnalyzeError) -> AnalyzeOut {
        AnalyzeOut { structs: Seq::empty(), warns: Seq::empty(), error: Some(e) }
    }
}

/// Everything the member phase of one object node commits: the fields in
/// property order, the warnings sent to the sink, and the first fatal
/// error if one stopped the phase. On an error the fields built so far are
/// discarded — no record is made from them — but the warnings stand.
#[verifier::ext_equal]
pub struct MembersOut {
    pub members: Seq<MemberModel>,
    pub warns: Seq<Warning>,
    pub error: Option<AnalyzeError>,
}

impl OutputMember {
    pub open spec fn model(self) -> MemberModel {
        MemberModel { name: self.name@, ty: self.type_@, annot: self.field_annot }
    }
}

impl OutputStruct {
    pub open spec fn model(self) -> StructModel {
        StructModel {
            name: self.name@,
            level: self.level as nat,
            members: members_model(self.members@),
        }
    }
}

/// The members of a record, each replaced by its model.
pub open spec fn members_model(s: Seq<OutputMember>) -> Seq<MemberModel> {
    s.map_values(|m: OutputMember| m.model())
}

/// The records of an output list, each replaced by its model.
pub open spec fn models_of(s: Seq<OutputStruct>) -> Seq<StructModel> {
    s.map_values(|x: OutputStruct| x.model())
}

pub proof fn lemma_members_model_push(s: Seq<OutputMember>, m: OutputMember)
    ensures
        members_model(s.push(m)) =~= members_model(s).push(m.model()),
{
}

pub proof fn lemma_models_of_push(s: Seq<OutputStruct>, x: OutputStruct)
    ensures
        models_of(s.push(x)) =~= models_of(s).push(x.model()),
{
}

} // verus!
