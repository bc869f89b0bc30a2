//! The schema walker: the recursive analysis that turns a schema tree into
//! an ordered list of record definitions.

use vstd::prelude::*;
use vstd::string::StrSliceExecFns;
use vstd::string::StringExecFns;

use crate::output::members_model;
use crate::output::models_of;
use crate::output::AnalyzeError;
use crate::output::AnalyzeOut;
use crate::output::MemberModel;
use crate::output::MembersOut;
use crate::output::OutputMember;
use crate::output::OutputStruct;
use crate::output::StructModel;
use crate::output::Warning;
use crate::resolve::array_ultimate;
use crate::resolve::build_member;
use crate::resolve::lemma_ultimate_height;
use crate::resolve::spec_build_member;
use crate::resolve::spec_ultimate_element;
use crate::schema::lemma_prop_height;
use crate::schema::schema_height;
use crate::schema::AdditionalProperties;
use crate::schema::SchemaNode;
use crate::strings::str_eq;
use crate::strings::upper_first;
use crate::strings::uppercase_first_letter;

verus! {

/// A node whose `additionalProperties` is a schema with a non-empty type:
/// the node is rendered as a map at its use site instead of as a record.
pub open spec fn spec_is_map_node(n: SchemaNode) -> bool {
    match n.additional_properties {
        Some(AdditionalProperties::Schema(b)) => b.type_tag@.len() != 0,
        _ => false,
    }
}

fn is_map_node(schema: &SchemaNode) -> (r: bool)
    ensures
        r == spec_is_map_node(*schema),
{
    match &schema.additional_properties {
        Some(AdditionalProperties::Schema(b)) => b.type_tag.as_str().unicode_len() != 0,
        _ => false,
    }
}

/// The three envelope properties that are not recursed into at the root.
pub open spec fn spec_is_ignored_key(k: Seq<char>) -> bool {
    k == "metadata"@ || k == "apiVersion"@ || k == "kind"@
}

fn is_ignored_key(k: &String) -> (r: bool)
    ensures
        r == spec_is_ignored_key(k@),
{
    str_eq(k.as_str(), "metadata") || str_eq(k.as_str(), "apiVersion") || str_eq(
        k.as_str(),
        "kind",
    )
}

/// Prepends already-produced members and warnings to the rest of a member
/// fold.
pub open spec fn combine_members(
    pre_m: Seq<MemberModel>,
    pre_w: Seq<Warning>,
    rest: MembersOut,
) -> MembersOut {
    MembersOut {
        members: pre_m + rest.members,
        warns: pre_w + rest.warns,
        error: rest.error,
    }
}

/// Prepends already-committed records and warnings to the rest of a child
/// fold.
pub open spec fn combine_out(
    pre_s: Seq<StructModel>,
    pre_w: Seq<Warning>,
    rest: AnalyzeOut,
) -> AnalyzeOut {
    AnalyzeOut {
        structs: pre_s + rest.structs,
        warns: pre_w + rest.warns,
        error: rest.error,
    }
}

/// The member phase over the properties from index `i` on, in source
/// order. The first failing property stops the phase with its error; the
/// fields built before it are discarded, while their warnings stand.
pub open spec fn spec_members_from(
    kind: Seq<char>,
    root: Seq<char>,
    props: Seq<(String, SchemaNode)>,
    required: Seq<String>,
    i: int,
) -> MembersOut
    decreases props.len() - i,
{
    if i < 0 || i >= props.len() {
        MembersOut { members: Seq::empty(), warns: Seq::empty(), error: None }
    } else {
        match spec_build_member(kind, root, props[i].0, props[i].1, required) {
            Err(e) => MembersOut { members: Seq::empty(), warns: Seq::empty(), error: Some(e) },
            Ok((m, w)) => {
                let rest = spec_members_from(kind, root, props, required, i + 1);
                MembersOut {
                    members: seq![m] + rest.members,
                    warns: w + rest.warns,
                    error: rest.error,
                }
            },
        }
    }
}

/// The full analysis of one node at a given path and depth: exactly the
/// records it commits (its own record first when it is an object that is
/// not a map node, then the records of its object-typed descendants), the
/// warnings it emits, and the first fatal error if one stopped it. When
/// the node's own member phase fails, no record is committed for the node
/// and none of its descendants are visited.
pub open spec fn spec_analyze(
    n: SchemaNode,
    kind: Seq<char>,
    root: Seq<char>,
    level: nat,
) -> AnalyzeOut
    decreases schema_height(n), 1int, 0int,
{
    if n.type_tag@ == "object"@ {
        if spec_is_map_node(n) {
            AnalyzeOut {
                structs: Seq::empty(),
                warns: seq![Warning::InlinedMapNode],
                error: None,
            }
        } else {
            let mr = spec_members_from(kind, root, n.properties@, n.required@, 0);
            match mr.error {
                Some(e) => AnalyzeOut { structs: Seq::empty(), warns: mr.warns, error: Some(e) },
                None => {
                    let st = StructModel { name: kind + root, level, members: mr.members };
                    let rr = spec_recurse_props(n, kind, root, level, 0);
                    AnalyzeOut {
                        structs: seq![st] + rr.structs,
                        warns: mr.warns + rr.warns,
                        error: rr.error,
                    }
                },
            }
        }
    } else {
        spec_recurse_props(n, kind, root, level, 0)
    }
}

/// The recursion over the properties of `n` from index `i` on: an
/// object-typed property is analyzed one level deeper under the path
/// extended with its capitalized name; an array-typed property is analyzed
/// at its ultimate element schema when that element is an object; envelope
/// keys are skipped at the root; everything else is left alone. A failing
/// child stops the fold with what was committed before and inside it.
pub open spec fn spec_recurse_props(
    n: SchemaNode,
    kind: Seq<char>,
    root: Seq<char>,
    level: nat,
    i: int,
) -> AnalyzeOut
    decreases schema_height(n), 0int, n.properties@.len() - i,
    via spec_recurse_props_decreases
{
    if i < 0 || i >= n.properties@.len() {
        AnalyzeOut::empty()
    } else {
        let key = n.properties@[i].0;
        let value = n.properties@[i].1;
        let head: AnalyzeOut = if level == 0 && spec_is_ignored_key(key@) {
            AnalyzeOut::empty()
        } else {
            let tag = value.type_tag@;
            if tag == "object"@ {
                spec_analyze(value, kind, root + upper_first(key@), level + 1)
            } else if tag == "array"@ {
                match spec_ultimate_element(value) {
                    Err(e) => AnalyzeOut::failed(e),
                    Ok(u) => if u.type_tag@ == "object"@ {
                        spec_analyze(u, kind, root + upper_first(key@), level + 1)
                    } else {
                        AnalyzeOut::empty()
                    },
                }
            } else {
                AnalyzeOut::empty()
            }
        };
        match head.error {
            Some(e) => head,
            None => {
                let rest = spec_recurse_props(n, kind, root, level, i + 1);
                AnalyzeOut {
                    structs: head.structs + rest.structs,
                    warns: head.warns + rest.warns,
                    error: rest.error,
                }
            },
        }
    }
}

#[via_fn]
proof fn spec_recurse_props_decreases(
    n: SchemaNode,
    kind: Seq<char>,
    root: Seq<char>,
    level: nat,
    i: int,
) {
    if 0 <= i < n.properties@.len() {
        lemma_prop_height(n, i);
        let value = n.properties@[i].1;
        if spec_ultimate_element(value) is Ok {
            lemma_ultimate_height(value);
        }
    }
}

proof fn lemma_prefix_trans<A>(a: Seq<A>, b: Seq<A>, c: Seq<A>)
    requires
        a.is_prefix_of(b),
        b.is_prefix_of(c),
    ensures
        a.is_prefix_of(c),
{
    assert forall|i: int| 0 <= i < a.len() implies a[i] == c[i] by {
        assert(a[i] == b.subrange(0, a.len() as int)[i]);
        assert(b[i] == c.subrange(0, b.len() as int)[i]);
    }
    assert(a =~= c.subrange(0, a.len() as int));
}

/// The schema walker. The output list grows by exactly the records
/// `spec_analyze` commits and the sink by exactly its warnings — on
/// failure just as on success — and the returned outcome is the error
/// `spec_analyze` reports, or success when it reports none.
pub fn analyze(
    schema: &SchemaNode,
    kind: &str,
    root: &str,
    level: u8,
    results: &mut Vec<OutputStruct>,
    warnings: &mut Vec<Warning>,
) -> (r: Result<(), AnalyzeError>)
    requires
        level as nat + schema_height(*schema) <= 255,
    ensures
        ({
            let run = spec_analyze(*schema, kind@, root@, level as nat);
            &&& models_of(final(results)@) == models_of(old(results)@) + run.structs
            &&& final(warnings)@ == old(warnings)@ + run.warns
            &&& old(results)@.is_prefix_of(final(results)@)
            &&& old(warnings)@.is_prefix_of(final(warnings)@)
            &&& match run.error {
                None => r is Ok,
                Some(e) => r matches Err(e2) && e2 == e,
            }
        }),
    decreases schema_height(*schema), 1int,
{
    let is_obj = str_eq(schema.type_tag.as_str(), "object");
    if is_obj {
        if is_map_node(schema) {
            warnings.push(Warning::InlinedMapNode);
            proof {
                assert(warnings@ =~= old(warnings)@ + seq![Warning::InlinedMapNode]);
                assert(models_of(results@) =~= models_of(old(results)@) + Seq::<
                    StructModel,
                >::empty());
                assert(old(results)@.is_prefix_of(results@)) by {
                    assert(old(results)@ =~= results@.subrange(0, old(results)@.len() as int));
                }
                assert(old(warnings)@.is_prefix_of(warnings@)) by {
                    assert(old(warnings)@ =~= warnings@.subrange(0, old(warnings)@.len() as int));
                }
            }
            return Ok(());
        }
        let ghost w0 = warnings@;
        let ghost mut wdelta: Seq<Warning> = Seq::empty();
        let mut members: Vec<OutputMember> = Vec::new();
        let mut i: usize = 0;
        proof {
            assert(warnings@ =~= w0 + wdelta);
        }
        while i < schema.properties.len()
            invariant
                i <= schema.properties@.len(),
                level as nat + schema_height(*schema) <= 255,
                schema.type_tag@ == "object"@,
                !spec_is_map_node(*schema),
                w0 == old(warnings)@,
                results@ == old(results)@,
                warnings@ == w0 + wdelta,
                spec_members_from(kind@, root@, schema.properties@, schema.required@, 0)
                    == combine_members(
                    members_model(members@),
                    wdelta,
                    spec_members_from(
                        kind@,
                        root@,
                        schema.properties@,
                        schema.required@,
                        i as int,
                    ),
                ),
            decreases schema.properties@.len() - i,
        {
            let p = &schema.properties[i];
            proof {
                lemma_prop_height(*schema, i as int);
            }
            let ghost members_before = members@;
            let ghost wdelta_before = wdelta;
            match build_member(kind, root, &p.0, &p.1, &schema.required, warnings) {
                Err(e) => {
                    proof {
                        let mr = spec_members_from(
                            kind@,
                            root@,
                            schema.properties@,
                            schema.required@,
                            0,
                        );
                        assert(wdelta + Seq::<Warning>::empty() =~= wdelta);
                        assert(mr.warns == wdelta && mr.error == Some(e));
                        assert(models_of(results@) =~= models_of(old(results)@) + Seq::<
                            StructModel,
                        >::empty());
                        assert(warnings@ =~= old(warnings)@ + wdelta);
                        assert(old(warnings)@.is_prefix_of(warnings@)) by {
                            assert(w0 =~= warnings@.subrange(0, w0.len() as int));
                        }
                        assert(old(results)@.is_prefix_of(results@)) by {
                            assert(old(results)@ =~= results@.subrange(
                                0,
                                old(results)@.len() as int,
                            ));
                        }
                    }
                    return Err(e);
                },
                Ok(m) => {
                    members.push(m);
                    proof {
                        let props = schema.properties@;
                        let req = schema.required@;
                        match spec_build_member(kind@, root@, props[i as int].0, props[i as int].1, req) {
                            Ok((sm, sw)) => {
                                wdelta = wdelta + sw;
                                assert(warnings@ =~= w0 + wdelta);
                                crate::output::lemma_members_model_push(members_before, m);
                                assert(members_model(members@) =~= members_model(
                                    members_before,
                                ).push(m.model()));
                                let rest = spec_members_from(kind@, root@, props, req, i + 1);
                                assert(members_model(members_before) + (seq![sm] + rest.members)
                                    =~= members_model(members@) + rest.members);
                                assert(wdelta_before + (sw + rest.warns) =~= wdelta + rest.warns);
                                assert(combine_members(
                                    members_model(members_before),
                                    wdelta_before,
                                    spec_members_from(kind@, root@, props, req, i as int),
                                ) =~= combine_members(members_model(members@), wdelta, rest));
                            },
                            Err(e) => {
                                assert(false);
                            },
                        }
                    }
                },
            }
            i += 1;
        }
        let mut name = kind.to_owned();
        name.append(root);
        proof {
            assert(name@ =~= kind@ + root@);
        }
        let st = OutputStruct { name, level, members };
        let ghost results_mid = results@;
        results.push(st);
        proof {
            crate::output::lemma_models_of_push(results_mid, st);
            assert(models_of(results@) =~= models_of(old(results)@).push(st.model()));
        }
        let ghost wmid = warnings@;
        let ret = analyze_children(schema, kind, root, level, results, warnings);
        proof {
            let mr = spec_members_from(kind@, root@, schema.properties@, schema.required@, 0);
            assert(members_model(st.members@) + Seq::<MemberModel>::empty() =~= members_model(
                st.members@,
            ));
            assert(wdelta + Seq::<Warning>::empty() =~= wdelta);
            assert(mr.members == members_model(st.members@) && mr.warns == wdelta && mr.error
                is None);
            assert(st.model() =~= StructModel {
                name: kind@ + root@,
                level: level as nat,
                members: mr.members,
            });
            let rr = spec_recurse_props(*schema, kind@, root@, level as nat, 0);
            assert(models_of(old(results)@).push(st.model()) =~= models_of(old(results)@) + seq![
                st.model(),
            ]);
            assert(models_of(results@) =~= models_of(old(results)@) + (seq![st.model()]
                + rr.structs));
            assert(warnings@ =~= old(warnings)@ + (wdelta + rr.warns));
            assert(old(results)@.is_prefix_of(results_mid.push(st))) by {
                assert(old(results)@ =~= results_mid.push(st).subrange(
                    0,
                    old(results)@.len() as int,
                ));
            }
            lemma_prefix_trans(old(results)@, results_mid.push(st), results@);
            assert(old(warnings)@.is_prefix_of(wmid)) by {
                assert(old(warnings)@ =~= wmid.subrange(0, old(warnings)@.len() as int));
            }
            lemma_prefix_trans(old(warnings)@, wmid, warnings@);
        }
        ret
    } else {
        analyze_children(schema, kind, root, level, results, warnings)
    }
}

/// The walker's recursion over one node's properties, starting at the
/// whole property list.
fn analyze_children(
    schema: &SchemaNode,
    kind: &str,
    root: &str,
    level: u8,
    results: &mut Vec<OutputStruct>,
    warnings: &mut Vec<Warning>,
) -> (r: Result<(), AnalyzeError>)
    requires
        level as nat + schema_height(*schema) <= 255,
    ensures
        ({
            let run = spec_recurse_props(*schema, kind@, root@, level as nat, 0);
            &&& models_of(final(results)@) == models_of(old(results)@) + run.structs
            &&& final(warnings)@ == old(warnings)@ + run.warns
            &&& old(results)@.is_prefix_of(final(results)@)
            &&& old(warnings)@.is_prefix_of(final(warnings)@)
            &&& match run.error {
                None => r is Ok,
                Some(e) => r matches Err(e2) && e2 == e,
            }
        }),
    decreases schema_height(*schema), 0int,
{
    let ghost s1 = results@;
    let ghost w1 = warnings@;
    let ghost mut sdelta: Seq<StructModel> = Seq::empty();
    let ghost mut wdelta: Seq<Warning> = Seq::empty();
    let mut i: usize = 0;
    proof {
        assert(models_of(results@) =~= models_of(s1) + sdelta);
        assert(warnings@ =~= w1 + wdelta);
        assert(s1.is_prefix_of(results@)) by {
            assert(s1 =~= results@.subrange(0, s1.len() as int));
        }
        assert(w1.is_prefix_of(warnings@)) by {
            assert(w1 =~= warnings@.subrange(0, w1.len() as int));
        }
    }
    while i < schema.properties.len()
        invariant
            i <= schema.properties@.len(),
            level as nat + schema_height(*schema) <= 255,
            s1 == old(results)@,
            w1 == old(warnings)@,
            s1.is_prefix_of(results@),
            w1.is_prefix_of(warnings@),
            models_of(results@) == models_of(s1) + sdelta,
            warnings@ == w1 + wdelta,
            spec_recurse_props(*schema, kind@, root@, level as nat, 0) == combine_out(
                sdelta,
                wdelta,
                spec_recurse_props(*schema, kind@, root@, level as nat, i as int),
            ),
        decreases schema.properties@.len() - i,
    {
        let ghost results_before = results@;
        let ghost warnings_before = warnings@;
        let ghost sdelta_before = sdelta;
        let ghost wdelta_before = wdelta;
        let ghost head = spec_head_result(*schema, kind@, root@, level as nat, i as int);
        let p = &schema.properties[i];
        proof {
            lemma_prop_height(*schema, i as int);
            assert(schema_height(*schema) >= 1);
        }
        let skip_this = level == 0 && is_ignored_key(&p.0);
        if !skip_this {
            let tag = p.1.type_tag.as_str();
            if str_eq(tag, "object") {
                let up = uppercase_first_letter(p.0.as_str());
                let mut newroot = root.to_owned();
                newroot.append(up.as_str());
                proof {
                    assert(newroot@ =~= root@ + upper_first(p.0@));
                }
                let r_child = analyze(&p.1, kind, newroot.as_str(), level + 1, results, warnings);
                proof {
                    let o1 = spec_analyze(p.1, kind@, root@ + upper_first(p.0@), level as nat + 1);
                    sdelta = sdelta + o1.structs;
                    wdelta = wdelta + o1.warns;
                    assert(models_of(results@) =~= models_of(s1) + sdelta);
                    assert(warnings@ =~= w1 + wdelta);
                    lemma_prefix_trans(s1, results_before, results@);
                    lemma_prefix_trans(w1, warnings_before, warnings@);
                }
                if let Err(e) = r_child {
                    proof {
                        assert(head == spec_analyze(
                            p.1,
                            kind@,
                            root@ + upper_first(p.0@),
                            level as nat + 1,
                        ));
                        assert(head.error == Some(e));
                    }
                    return Err(e);
                }
            } else if str_eq(tag, "array") {
                match array_ultimate(&p.1) {
                    Err(e) => {
                        proof {
                            assert(head == AnalyzeOut::failed(e));
                            assert(sdelta + Seq::<StructModel>::empty() =~= sdelta);
                            assert(wdelta + Seq::<Warning>::empty() =~= wdelta);
                        }
                        return Err(e);
                    },
                    Ok(u) => {
                        proof {
                            lemma_ultimate_height(p.1);
                        }
                        if str_eq(u.type_tag.as_str(), "object") {
                            let up = uppercase_first_letter(p.0.as_str());
                            let mut newroot = root.to_owned();
                            newroot.append(up.as_str());
                            proof {
                                assert(newroot@ =~= root@ + upper_first(p.0@));
                            }
                            let r_child = analyze(
                                u,
                                kind,
                                newroot.as_str(),
                                level + 1,
                                results,
                                warnings,
                            );
                            proof {
                                let o1 = spec_analyze(
                                    *u,
                                    kind@,
                                    root@ + upper_first(p.0@),
                                    level as nat + 1,
                                );
                                sdelta = sdelta + o1.structs;
                                wdelta = wdelta + o1.warns;
                                assert(models_of(results@) =~= models_of(s1) + sdelta);
                                assert(warnings@ =~= w1 + wdelta);
                                lemma_prefix_trans(s1, results_before, results@);
                                lemma_prefix_trans(w1, warnings_before, warnings@);
                            }
                            if let Err(e) = r_child {
                                proof {
                                    assert(head == spec_analyze(
                                        *u,
                                        kind@,
                                        root@ + upper_first(p.0@),
                                        level as nat + 1,
                                    ));
                                    assert(head.error == Some(e));
                                }
                                return Err(e);
                            }
                        }
                    },
                }
            }
        }
        proof {
            assert(head.error is None);
            assert(sdelta =~= sdelta_before + head.structs);
            assert(wdelta =~= wdelta_before + head.warns);
            let rest = spec_recurse_props(*schema, kind@, root@, level as nat, i + 1);
            assert(sdelta_before + (head.structs + rest.structs) =~= sdelta + rest.structs);
            assert(wdelta_before + (head.warns + rest.warns) =~= wdelta + rest.warns);
            assert(combine_out(
                sdelta_before,
                wdelta_before,
                spec_recurse_props(*schema, kind@, root@, level as nat, i as int),
            ) =~= combine_out(sdelta, wdelta, rest));
        }
        i += 1;
    }
    proof {
        assert(sdelta + Seq::<StructModel>::empty() =~= sdelta);
        assert(wdelta + Seq::<Warning>::empty() =~= wdelta);
        let run = spec_recurse_props(*schema, kind@, root@, level as nat, 0);
        assert(run.structs == sdelta && run.warns == wdelta && run.error is None);
    }
    Ok(())
}

/// What the recursion does for the single property at index `i`.
pub open spec fn spec_head_result(
    n: SchemaNode,
    kind: Seq<char>,
    root: Seq<char>,
    level: nat,
    i: int,
) -> AnalyzeOut {
    let key = n.properties@[i].0;
    let value = n.properties@[i].1;
    if level == 0 && spec_is_ignored_key(key@) {
        AnalyzeOut::empty()
    } else {
        let tag = value.type_tag@;
        if tag == "object"@ {
            spec_analyze(value, kind, root + upper_first(key@), level + 1)
        } else if tag == "array"@ {
            match spec_ultimate_element(value) {
                Err(e) => AnalyzeOut::failed(e),
                Ok(u) => if u.type_tag@ == "object"@ {
                    spec_analyze(u, kind, root + upper_first(key@), level + 1)
                } else {
                    AnalyzeOut::empty()
                },
            }
        } else {
            AnalyzeOut::empty()
        }
    }
}

} // verus!
