//! General properties of the analysis, stated and proved once and for all.

use vstd::prelude::*;

use crate::analyze::spec_analyze;
use crate::analyze::spec_is_map_node;
use crate::analyze::spec_members_from;
use crate::output::AnalyzeError;
use crate::output::AnalyzeOut;
use crate::output::DefaultAnnot;
use crate::output::StructModel;
use crate::output::Warning;
use crate::resolve::spec_build_member;
use crate::resolve::spec_flatten_array;
use crate::resolve::spec_resolve_member_type;
use crate::resolve::spec_ultimate_element;
use crate::schema::Items;
use crate::schema::SchemaNode;
use crate::strings::spec_contains_str;
use crate::strings::upper_first;

verus! {

/// Law: a required property's field keeps the resolver's type bare, with no
/// optional wrapper and no annotation; a non-required scalar or
/// record-reference field is wrapped in the optional type; a non-required
/// map or sequence field keeps its type bare and carries the empty-default
/// annotation instead.
pub proof fn lemma_required_never_optional(
    kind: Seq<char>,
    root: Seq<char>,
    key: String,
    value: SchemaNode,
    required: Seq<String>,
)
    requires
        spec_build_member(kind, root, key, value, required) is Ok,
    ensures
        ({
            let m = spec_build_member(kind, root, key, value, required)->Ok_0.0;
            let t = spec_resolve_member_type(kind, root, key@, value)->Ok_0;
            &&& spec_contains_str(required, key@) ==> m.ty == t.0 && m.annot is None
            &&& (!spec_contains_str(required, key@) && t.1 is Plain) ==> m.ty == "Option<"@ + t.0
                + ">"@ && m.annot is None
            &&& (!spec_contains_str(required, key@) && t.1 is Dict) ==> m.ty == t.0 && m.annot
                == Some(DefaultAnnot::EmptyMap)
            &&& (!spec_contains_str(required, key@) && t.1 is Sequence) ==> m.ty == t.0 && m.annot
                == Some(DefaultAnnot::EmptyList)
        }),
{
}

/// An `items` chain of exactly `d` array levels whose ultimate element is
/// an integer with format `int64`.
pub open spec fn spec_int64_array_chain(n: SchemaNode, d: nat) -> bool
    decreases d,
{
    d >= 1 && match n.items {
        Some(Items::Single(b)) => {
            if d == 1 {
                &&& b.type_tag@ == "integer"@
                &&& b.format matches Some(f) && f@ == "int64"@
            } else {
                b.type_tag@ == "array"@ && spec_int64_array_chain(*b, (d - 1) as nat)
            }
        },
        _ => false,
    }
}

/// `d` sequence wrappers textually nested around an element type.
pub open spec fn spec_nested_vec(d: nat, t: Seq<char>) -> Seq<char>
    decreases d,
{
    if d == 0 {
        t
    } else {
        "Vec<"@ + spec_nested_vec((d - 1) as nat, t) + ">"@
    }
}

/// Law: flattening an array whose `items` chain has depth `d` and ends in
/// an `int64` integer yields exactly `d` sequence wrappers around the
/// 64-bit signed integer type, found at `d - 1` levels past the starting
/// level, with no warnings.
pub proof fn lemma_int64_array_nesting(
    n: SchemaNode,
    d: nat,
    kind: Seq<char>,
    root: Seq<char>,
    key: Seq<char>,
    level: nat,
)
    requires
        spec_int64_array_chain(n, d),
    ensures
        spec_flatten_array(n, kind, root, key, level) == Ok::<
            (Seq<char>, nat, Seq<Warning>),
            AnalyzeError,
        >((spec_nested_vec(d, "i64"@), (level + d - 1) as nat, Seq::<Warning>::empty())),
    decreases d,
{
    reveal_strlit("object");
    reveal_strlit("string");
    reveal_strlit("boolean");
    reveal_strlit("integer");
    reveal_strlit("array");
    reveal_strlit("int32");
    reveal_strlit("int64");
    match n.items {
        Some(Items::Single(b)) => {
            if d == 1 {
                assert("integer"@[0] != "object"@[0]);
                assert("integer"@[0] != "string"@[0]);
                assert("integer"@[0] != "boolean"@[0]);
                assert("int32"@[3] != "int64"@[3]);
            } else {
                assert("array"@.len() != "object"@.len());
                assert("array"@[0] != "string"@[0]);
                assert("array"@.len() != "boolean"@.len());
                assert("array"@.len() != "integer"@.len());
                lemma_int64_array_nesting(*b, (d - 1) as nat, kind, root, key, level + 1);
            }
        },
        _ => {
            assert(false);
        },
    }
}

proof fn lemma_members_from_len(
    kind: Seq<char>,
    root: Seq<char>,
    props: Seq<(String, SchemaNode)>,
    required: Seq<String>,
    j: int,
)
    requires
        0 <= j <= props.len(),
        spec_members_from(kind, root, props, required, j).error is None,
    ensures
        spec_members_from(kind, root, props, required, j).members.len() == props.len() - j,
    decreases props.len() - j,
{
    if j < props.len() {
        lemma_members_from_len(kind, root, props, required, j + 1);
    }
}

proof fn lemma_members_from_index(
    kind: Seq<char>,
    root: Seq<char>,
    props: Seq<(String, SchemaNode)>,
    required: Seq<String>,
    j: int,
    i: int,
)
    requires
        0 <= j <= i < props.len(),
        spec_members_from(kind, root, props, required, j).error is None,
    ensures
        spec_build_member(kind, root, props[i].0, props[i].1, required) is Ok,
        spec_members_from(kind, root, props, required, j).members[i - j] == spec_build_member(
            kind,
            root,
            props[i].0,
            props[i].1,
            required,
        )->Ok_0.0,
    decreases i - j,
{
    match spec_build_member(kind, root, props[j].0, props[j].1, required) {
        Ok((m, w)) => {
            let ms = spec_members_from(kind, root, props, required, j + 1).members;
            assert(spec_members_from(kind, root, props, required, j).members == seq![m] + ms);
            if j < i {
                lemma_members_from_len(kind, root, props, required, j + 1);
                lemma_members_from_index(kind, root, props, required, j + 1, i);
                assert((seq![m] + ms)[i - j] == ms[i - j - 1]);
            } else {
                assert((seq![m] + ms)[0] == m);
            }
        },
        Err(e) => {
            assert(false);
        },
    }
}

/// Law: in the record emitted for an object node, the field of property
/// `i` is exactly what the member builder gives for that property; with
/// the member-builder law this pins the required/optional wrapping of
/// every field of every emitted record.
pub proof fn lemma_record_fields_come_from_builder(
    n: SchemaNode,
    kind: Seq<char>,
    root: Seq<char>,
    level: nat,
    i: int,
)
    requires
        spec_analyze(n, kind, root, level).error is None,
        n.type_tag@ == "object"@,
        !spec_is_map_node(n),
        0 <= i < n.properties@.len(),
    ensures
        ({
            let o = spec_analyze(n, kind, root, level);
            let key = n.properties@[i].0;
            let value = n.properties@[i].1;
            let bm = spec_build_member(kind, root, key, value, n.required@);
            &&& o.structs.len() >= 1
            &&& o.structs[0].members.len() == n.properties@.len()
            &&& bm is Ok
            &&& o.structs[0].members[i] == bm->Ok_0.0
        }),
{
    lemma_members_from_len(kind, root, n.properties@, n.required@, 0);
    lemma_members_from_index(kind, root, n.properties@, n.required@, 0, i);
}

/// Law: an analysis that fails in a node's own member phase commits
/// nothing for that node or its subtree — no record is appended, none of
/// the node's descendants are visited, the member phase's error is
/// reported, and only the warnings of the members built before the
/// failure are emitted.
pub proof fn lemma_failing_node_commits_nothing(
    n: SchemaNode,
    kind: Seq<char>,
    root: Seq<char>,
    level: nat,
)
    requires
        n.type_tag@ == "object"@,
        !spec_is_map_node(n),
        spec_members_from(kind, root, n.properties@, n.required@, 0).error is Some,
    ensures
        ({
            let run = spec_analyze(n, kind, root, level);
            let mr = spec_members_from(kind, root, n.properties@, n.required@, 0);
            &&& run.structs == Seq::<StructModel>::empty()
            &&& run.error == mr.error
            &&& run.warns == mr.warns
        }),
{
}

/// Law: an array of objects is referenced under exactly the name of the
/// record the walker generates for its element — the root type name, the
/// accumulated path, and the capitalized property name — so reference and
/// definition agree at every path.
pub proof fn lemma_array_reference_matches_record(
    value: SchemaNode,
    kind: Seq<char>,
    root: Seq<char>,
    key: Seq<char>,
    level: nat,
)
    requires
        value.items matches Some(Items::Single(b)) && b.type_tag@ == "object"@,
    ensures
        spec_ultimate_element(value) is Ok,
        ({
            let u = spec_ultimate_element(value)->Ok_0;
            let name = kind + root + upper_first(key);
            &&& u.type_tag@ == "object"@
            &&& spec_flatten_array(value, kind, root, key, 1) == Ok::<
                (Seq<char>, nat, Seq<Warning>),
                AnalyzeError,
            >(("Vec<"@ + name + ">"@, 1nat, Seq::<Warning>::empty()))
            &&& (!spec_is_map_node(u) && spec_analyze(u, kind, root + upper_first(key), level).error
                is None) ==> spec_analyze(u, kind, root + upper_first(key), level).structs[0].name
                == name
        }),
{
    reveal_strlit("object");
    reveal_strlit("array");
    assert("object"@.len() != "array"@.len());
    let u = spec_ultimate_element(value)->Ok_0;
    let name = kind + root + upper_first(key);
    assert("Vec<"@ + kind + root + upper_first(key) + ">"@ =~= "Vec<"@ + name + ">"@);
    if !spec_is_map_node(u) && spec_analyze(u, kind, root + upper_first(key), level).error
        is None {
        let o = spec_analyze(u, kind, root + upper_first(key), level);
        assert(o.structs[0].name =~= name);
    }
}

/// Law: the analysis is a function of the input tree, the root type name,
/// the path and the depth alone — two runs over an unchanged input commit
/// the same records and warnings, element for element, and report the
/// same error, on failed runs just as on successful ones.
pub proof fn lemma_analysis_deterministic(
    n: SchemaNode,
    kind: Seq<char>,
    root: Seq<char>,
    level: nat,
    out1: AnalyzeOut,
    out2: AnalyzeOut,
)
    requires
        out1 == spec_analyze(n, kind, root, level),
        out2 == spec_analyze(n, kind, root, level),
    ensures
        out1 == out2,
{
}

} // verus!
