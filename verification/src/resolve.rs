//! Resolution of one property: scalar types, array flattening, map
//! detection, and the building of one record field.

use vstd::prelude::*;
use vstd::string::StrSliceExecFns;
use vstd::string::StringExecFns;

use crate::output::AnalyzeError;
use crate::output::DefaultAnnot;
use crate::output::MemberModel;
use crate::output::OutputMember;
use crate::output::ResolvedKind;
use crate::output::Warning;
use crate::schema::lemma_items_height;
use crate::schema::schema_height;
use crate::schema::AdditionalProperties;
use crate::schema::Items;
use crate::schema::SchemaNode;
use crate::strings::contains_str;
use crate::strings::spec_contains_str;
use crate::strings::str_eq;
use crate::strings::upper_first;
use crate::strings::uppercase_first_letter;

verus! {

/// The output type of an integer schema, decided by its format: `int32` and
/// `int64` map to the signed types; anything else falls back to the
/// default-width unsigned size type with a warning.
pub open spec fn spec_integer_type(format: Option<String>) -> (Seq<char>, Seq<Warning>) {
    match format {
        Some(f) => if f@ == "int32"@ {
            ("i32"@, Seq::empty())
        } else if f@ == "int64"@ {
            ("i64"@, Seq::empty())
        } else {
            ("usize"@, seq![Warning::LossyIntegerFormat])
        },
        None => ("usize"@, seq![Warning::LossyIntegerFormat]),
    }
}

/// The integer format rules, executed; warnings go to the sink.
pub fn resolve_integer_type(format: &Option<String>, warnings: &mut Vec<Warning>) -> (r: String)
    ensures
        r@ == spec_integer_type(*format).0,
        final(warnings)@ == old(warnings)@ + spec_integer_type(*format).1,
{
    let r = match format {
        Some(f) => {
            if str_eq(f.as_str(), "int32") {
                String::from_str("i32")
            } else if str_eq(f.as_str(), "int64") {
                String::from_str("i64")
            } else {
                warnings.push(Warning::LossyIntegerFormat);
                String::from_str("usize")
            }
        },
        None => {
            warnings.push(Warning::LossyIntegerFormat);
            String::from_str("usize")
        },
    };
    proof {
        assert(final(warnings)@ =~= old(warnings)@ + spec_integer_type(*format).1);
    }
    r
}

/// The output type of a scalar (non-object, non-array) schema node:
/// text, boolean, integer by format, or the int-or-string coercion; an
/// empty type without the marker, or an unknown tag, is fatal.
pub open spec fn spec_scalar_type(value: SchemaNode) -> Result<(Seq<char>, Seq<Warning>), AnalyzeError> {
    let tag = value.type_tag@;
    if tag == "string"@ {
        Ok(("String"@, Seq::empty()))
    } else if tag == "boolean"@ {
        Ok(("bool"@, Seq::empty()))
    } else if tag == "integer"@ {
        Ok(spec_integer_type(value.format))
    } else if tag.len() == 0 {
        if value.int_or_string {
            Ok(("String"@, seq![Warning::IntOrStringCoercion]))
        } else {
            Err(AnalyzeError::AmbiguousType)
        }
    } else {
        Err(AnalyzeError::UnknownScalarType)
    }
}

fn resolve_scalar_type(value: &SchemaNode, warnings: &mut Vec<Warning>) -> (r: Result<
    String,
    AnalyzeError,
>)
    ensures
        match spec_scalar_type(*value) {
            Ok(t) => r matches Ok(s) && s@ == t.0 && final(warnings)@ == old(warnings)@ + t.1,
            Err(e) => r matches Err(e2) && e2 == e && final(warnings)@ == old(warnings)@,
        },
{
    let tag = value.type_tag.as_str();
    let r = if str_eq(tag, "string") {
        Ok(String::from_str("String"))
    } else if str_eq(tag, "boolean") {
        Ok(String::from_str("bool"))
    } else if str_eq(tag, "integer") {
        Ok(resolve_integer_type(&value.format, warnings))
    } else if tag.unicode_len() == 0 {
        if value.int_or_string {
            warnings.push(Warning::IntOrStringCoercion);
            Ok(String::from_str("String"))
        } else {
            Err(AnalyzeError::AmbiguousType)
        }
    } else {
        Err(AnalyzeError::UnknownScalarType)
    };
    proof {
        match spec_scalar_type(*value) {
            Ok(t) => {
                assert(final(warnings)@ =~= old(warnings)@ + t.1);
            },
            Err(e) => {},
        }
    }
    r
}

/// The map value type of an object node, if its `additionalProperties` is a
/// schema: the text type for string or marked-empty value schemas, the
/// capitalized tag as a best guess otherwise; `None` when the node carries
/// no value schema.
pub open spec fn spec_dict_value(value: SchemaNode) -> Result<
    Option<(Seq<char>, Seq<Warning>)>,
    AnalyzeError,
> {
    match value.additional_properties {
        Some(AdditionalProperties::Schema(b)) => {
            let dt = b.type_tag@;
            if dt == "string"@ {
                Ok(Some(("String"@, Seq::empty())))
            } else if dt.len() == 0 {
                if b.int_or_string {
                    Ok(Some(("String"@, seq![Warning::IntOrStringCoercion])))
                } else {
                    Err(AnalyzeError::AmbiguousType)
                }
            } else {
                Ok(Some((upper_first(dt), Seq::empty())))
            }
        },
        _ => Ok(None),
    }
}

fn dict_value(value: &SchemaNode, warnings: &mut Vec<Warning>) -> (r: Result<
    Option<String>,
    AnalyzeError,
>)
    ensures
        match spec_dict_value(*value) {
            Ok(Some(t)) => r matches Ok(Some(s)) && s@ == t.0 && final(warnings)@ == old(
                warnings,
            )@ + t.1,
            Ok(None) => r matches Ok(None) && final(warnings)@ == old(warnings)@,
            Err(e) => r matches Err(e2) && e2 == e && final(warnings)@ == old(warnings)@,
        },
{
    let r = match &value.additional_properties {
        Some(AdditionalProperties::Schema(b)) => {
            let dt = b.type_tag.as_str();
            if str_eq(dt, "string") {
                Ok(Some(String::from_str("String")))
            } else if dt.unicode_len() == 0 {
                if b.int_or_string {
                    warnings.push(Warning::IntOrStringCoercion);
                    Ok(Some(String::from_str("String")))
                } else {
                    Err(AnalyzeError::AmbiguousType)
                }
            } else {
                Ok(Some(uppercase_first_letter(dt)))
            }
        },
        _ => Ok(None),
    };
    proof {
        match spec_dict_value(*value) {
            Ok(Some(t)) => {
                assert(final(warnings)@ =~= old(warnings)@ + t.1);
            },
            _ => {},
        }
    }
    r
}

/// The sequence type of an array node: the `items` chain is followed until
/// a non-array element is found; the result nests one sequence wrapper per
/// level around the element type, and reports the level at which the
/// element was found. An object element is referenced as the root type
/// name, the accumulated path, and the capitalized property name — the
/// very name under which the walker emits that element's record.
pub open spec fn spec_flatten_array(
    value: SchemaNode,
    kind: Seq<char>,
    root: Seq<char>,
    key: Seq<char>,
    level: nat,
) -> Result<(Seq<char>, nat, Seq<Warning>), AnalyzeError>
    decreases value,
{
    match value.items {
        None => Err(AnalyzeError::MissingArrayItems),
        Some(Items::Tuple) => Err(AnalyzeError::UnsupportedArrayShape),
        Some(Items::Single(b)) => {
            let tag = b.type_tag@;
            if tag == "object"@ {
                Ok(("Vec<"@ + kind + root + upper_first(key) + ">"@, level, Seq::empty()))
            } else if tag == "string"@ {
                Ok(("Vec<String>"@, level, Seq::empty()))
            } else if tag == "boolean"@ {
                Ok(("Vec<bool>"@, level, Seq::empty()))
            } else if tag == "integer"@ {
                let t = spec_integer_type(b.format);
                Ok(("Vec<"@ + t.0 + ">"@, level, t.1))
            } else if tag == "array"@ {
                match spec_flatten_array(*b, kind, root, key, level + 1) {
                    Ok(t) => Ok(("Vec<"@ + t.0 + ">"@, t.1, t.2)),
                    Err(e) => Err(e),
                }
            } else {
                Err(AnalyzeError::UnsupportedArrayShape)
            }
        },
    }
}

/// The array flattener, executed. The returned level says how many `items`
/// wrappers were traversed to reach the element type.
pub fn array_recurse_for_type(
    value: &SchemaNode,
    kind: &str,
    root: &str,
    key: &str,
    level: u8,
    warnings: &mut Vec<Warning>,
) -> (r: Result<(String, u8), AnalyzeError>)
    requires
        level as nat + schema_height(*value) <= 256,
    ensures
        match spec_flatten_array(*value, kind@, root@, key@, level as nat) {
            Ok(t) => r matches Ok(p) && p.0@ == t.0 && p.1 as nat == t.1 && final(warnings)@ == old(
                warnings,
            )@ + t.2,
            Err(e) => r matches Err(e2) && e2 == e && final(warnings)@ == old(warnings)@,
        },
    decreases schema_height(*value),
{
    match &value.items {
        None => Err(AnalyzeError::MissingArrayItems),
        Some(Items::Tuple) => Err(AnalyzeError::UnsupportedArrayShape),
        Some(Items::Single(b)) => {
            proof {
                lemma_items_height(*value, *b);
            }
            let s: &SchemaNode = &**b;
            let tag = s.type_tag.as_str();
            if str_eq(tag, "object") {
                let mut t = String::from_str("Vec<");
                t.append(kind);
                t.append(root);
                let up = uppercase_first_letter(key);
                t.append(up.as_str());
                t.append(">");
                proof {
                    assert(t@ =~= "Vec<"@ + kind@ + root@ + upper_first(key@) + ">"@);
                    assert(final(warnings)@ =~= old(warnings)@ + Seq::<Warning>::empty());
                }
                Ok((t, level))
            } else if str_eq(tag, "string") {
                proof {
                    assert(final(warnings)@ =~= old(warnings)@ + Seq::<Warning>::empty());
                }
                Ok((String::from_str("Vec<String>"), level))
            } else if str_eq(tag, "boolean") {
                proof {
                    assert(final(warnings)@ =~= old(warnings)@ + Seq::<Warning>::empty());
                }
                Ok((String::from_str("Vec<bool>"), level))
            } else if str_eq(tag, "integer") {
                let it = resolve_integer_type(&s.format, warnings);
                let mut t = String::from_str("Vec<");
                t.append(it.as_str());
                t.append(">");
                proof {
                    assert(t@ =~= "Vec<"@ + spec_integer_type(s.format).0 + ">"@);
                }
                Ok((t, level))
            } else if str_eq(tag, "array") {
                match array_recurse_for_type(s, kind, root, key, level + 1, warnings) {
                    Ok(p) => {
                        let mut t = String::from_str("Vec<");
                        t.append(p.0.as_str());
                        t.append(">");
                        proof {
                            match spec_flatten_array(*s, kind@, root@, key@, level as nat + 1) {
                                Ok(q) => {
                                    assert(t@ =~= "Vec<"@ + q.0 + ">"@);
                                },
                                Err(e) => {},
                            }
                        }
                        Ok((t, p.1))
                    },
                    Err(e) => Err(e),
                }
            } else {
                Err(AnalyzeError::UnsupportedArrayShape)
            }
        },
    }
}

/// The element schema an array property ultimately describes: the `items`
/// chain is followed through nested arrays down to the first non-array
/// element, with the same shape checks as the flattener.
pub open spec fn spec_ultimate_element(value: SchemaNode) -> Result<SchemaNode, AnalyzeError>
    decreases value,
{
    match value.items {
        None => Err(AnalyzeError::MissingArrayItems),
        Some(Items::Tuple) => Err(AnalyzeError::UnsupportedArrayShape),
        Some(Items::Single(b)) => {
            let tag = b.type_tag@;
            if tag == "array"@ {
                spec_ultimate_element(*b)
            } else if tag == "object"@ || tag == "string"@ || tag == "boolean"@ || tag
                == "integer"@ {
                Ok(*b)
            } else {
                Err(AnalyzeError::UnsupportedArrayShape)
            }
        },
    }
}

/// The ultimate element sits strictly below the array node it was reached
/// from.
pub proof fn lemma_ultimate_height(value: SchemaNode)
    requires
        spec_ultimate_element(value) is Ok,
    ensures
        schema_height(spec_ultimate_element(value)->Ok_0) < schema_height(value),
    decreases value,
{
    match value.items {
        Some(Items::Single(b)) => {
            lemma_items_height(value, b);
            if b.type_tag@ == "array"@ {
                lemma_ultimate_height(*b);
            }
        },
        _ => {},
    }
}

/// Follows the `items` chain of an array property to its ultimate element
/// schema.
pub fn array_ultimate<'a>(value: &'a SchemaNode) -> (r: Result<&'a SchemaNode, AnalyzeError>)
    ensures
        match spec_ultimate_element(*value) {
            Ok(u) => r matches Ok(p) && *p == u,
            Err(e) => r matches Err(e2) && e2 == e,
        },
    decreases *value,
{
    match &value.items {
        None => Err(AnalyzeError::MissingArrayItems),
        Some(Items::Tuple) => Err(AnalyzeError::UnsupportedArrayShape),
        Some(Items::Single(b)) => {
            let s: &SchemaNode = &**b;
            let tag = s.type_tag.as_str();
            if str_eq(tag, "array") {
                array_ultimate(s)
            } else if str_eq(tag, "object") || str_eq(tag, "string") || str_eq(tag, "boolean")
                || str_eq(tag, "integer") {
                Ok(s)
            } else {
                Err(AnalyzeError::UnsupportedArrayShape)
            }
        },
    }
}

/// The resolved type of one property, with the kind of thing it names and
/// the warnings its resolution raised: a map or a record reference for
/// objects, a flattened sequence for arrays, a scalar otherwise. A record
/// reference is the root type name, the path from the root, and the
/// capitalized property name.
pub open spec fn spec_resolve_member_type(
    kind: Seq<char>,
    root: Seq<char>,
    key: Seq<char>,
    value: SchemaNode,
) -> Result<(Seq<char>, ResolvedKind, Seq<Warning>), AnalyzeError> {
    let tag = value.type_tag@;
    if tag == "object"@ {
        match spec_dict_value(value) {
            Err(e) => Err(e),
            Ok(Some(t)) => Ok(("BTreeMap<String, "@ + t.0 + ">"@, ResolvedKind::Dict, t.1)),
            Ok(None) => Ok((kind + root + upper_first(key), ResolvedKind::Plain, Seq::empty())),
        }
    } else if tag == "array"@ {
        match spec_flatten_array(value, kind, root, key, 1) {
            Err(e) => Err(e),
            Ok(t) => Ok((t.0, ResolvedKind::Sequence, t.2)),
        }
    } else {
        match spec_scalar_type(value) {
            Err(e) => Err(e),
            Ok(t) => Ok((t.0, ResolvedKind::Plain, t.1)),
        }
    }
}

fn resolve_member_type(
    kind: &str,
    root: &str,
    key: &String,
    value: &SchemaNode,
    warnings: &mut Vec<Warning>,
) -> (r: Result<(String, ResolvedKind), AnalyzeError>)
    requires
        schema_height(*value) <= 255,
    ensures
        match spec_resolve_member_type(kind@, root@, key@, *value) {
            Ok(t) => r matches Ok(p) && p.0@ == t.0 && p.1 == t.1 && final(warnings)@ == old(
                warnings,
            )@ + t.2,
            Err(e) => r matches Err(e2) && e2 == e && final(warnings)@ == old(warnings)@,
        },
{
    let tag = value.type_tag.as_str();
    if str_eq(tag, "object") {
        match dict_value(value, warnings) {
            Err(e) => Err(e),
            Ok(Some(d)) => {
                let mut t = String::from_str("BTreeMap<String, ");
                t.append(d.as_str());
                t.append(">");
                proof {
                    match spec_dict_value(*value) {
                        Ok(Some(q)) => {
                            assert(t@ =~= "BTreeMap<String, "@ + q.0 + ">"@);
                        },
                        _ => {},
                    }
                }
                Ok((t, ResolvedKind::Dict))
            },
            Ok(None) => {
                let mut t = kind.to_owned();
                t.append(root);
                let up = uppercase_first_letter(key.as_str());
                t.append(up.as_str());
                proof {
                    assert(t@ =~= kind@ + root@ + upper_first(key@));
                    assert(final(warnings)@ =~= old(warnings)@ + Seq::<Warning>::empty());
                }
                Ok((t, ResolvedKind::Plain))
            },
        }
    } else if str_eq(tag, "array") {
        match array_recurse_for_type(value, kind, root, key.as_str(), 1, warnings) {
            Err(e) => Err(e),
            Ok(p) => Ok((p.0, ResolvedKind::Sequence)),
        }
    } else {
        match resolve_scalar_type(value, warnings) {
            Err(e) => Err(e),
            Ok(s) => Ok((s, ResolvedKind::Plain)),
        }
    }
}

/// One property turned into one record field. A required property keeps
/// its resolved type bare; a non-required map or sequence keeps its type
/// and carries the empty-default annotation; every other non-required
/// property is wrapped in the optional type.
pub open spec fn spec_build_member(
    kind: Seq<char>,
    root: Seq<char>,
    key: String,
    value: SchemaNode,
    required: Seq<String>,
) -> Result<(MemberModel, Seq<Warning>), AnalyzeError> {
    match spec_resolve_member_type(kind, root, key@, value) {
        Err(e) => Err(e),
        Ok((ty, rk, w)) => {
            let m = if spec_contains_str(required, key@) {
                MemberModel { name: key@, ty, annot: None }
            } else if rk is Dict {
                MemberModel { name: key@, ty, annot: Some(DefaultAnnot::EmptyMap) }
            } else if rk is Sequence {
                MemberModel { name: key@, ty, annot: Some(DefaultAnnot::EmptyList) }
            } else {
                MemberModel { name: key@, ty: "Option<"@ + ty + ">"@, annot: None }
            };
            Ok((m, w))
        },
    }
}

/// The member builder, executed; warnings go to the sink.
pub fn build_member(
    kind: &str,
    root: &str,
    key: &String,
    value: &SchemaNode,
    required: &Vec<String>,
    warnings: &mut Vec<Warning>,
) -> (r: Result<OutputMember, AnalyzeError>)
    requires
        schema_height(*value) <= 255,
    ensures
        match spec_build_member(kind@, root@, *key, *value, required@) {
            Ok(t) => r matches Ok(m) && m.model() == t.0 && final(warnings)@ == old(warnings)@
                + t.1,
            Err(e) => r matches Err(e2) && e2 == e && final(warnings)@ == old(warnings)@,
        },
{
    match resolve_member_type(kind, root, key, value, warnings) {
        Err(e) => Err(e),
        Ok((ty, rk)) => {
            let m = if contains_str(required, key) {
                OutputMember { name: key.clone(), type_: ty, field_annot: None }
            } else {
                match rk {
                    ResolvedKind::Dict => OutputMember {
                        name: key.clone(),
                        type_: ty,
                        field_annot: Some(DefaultAnnot::EmptyMap),
                    },
                    ResolvedKind::Sequence => OutputMember {
                        name: key.clone(),
                        type_: ty,
                        field_annot: Some(DefaultAnnot::EmptyList),
                    },
                    ResolvedKind::Plain => {
                        let mut t = String::from_str("Option<");
                        t.append(ty.as_str());
                        t.append(">");
                        proof {
                            match spec_resolve_member_type(kind@, root@, key@, *value) {
                                Ok(q) => {
                                    assert(t@ =~= "Option<"@ + q.0 + ">"@);
                                },
                                _ => {},
                            }
                        }
                        OutputMember { name: key.clone(), type_: t, field_annot: None }
                    },
                }
            };
            proof {
                match spec_build_member(kind@, root@, *key, *value, required@) {
                    Ok(t) => {
                        assert(m.model() =~= t.0);
                    },
                    _ => {},
                }
            }
            Ok(m)
        },
    }
}

} // verus!
