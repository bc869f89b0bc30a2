use kopium::analyze::analyze;
use kopium::AdditionalProperties;
use kopium::AnalyzeError;
use kopium::DefaultAnnot;
use kopium::Items;
use kopium::SchemaNode;
use kopium::Warning;

fn typed(tag: &str) -> SchemaNode {
    SchemaNode { type_tag: tag.to_string(), ..SchemaNode::default() }
}

fn object_with(props: Vec<(&str, SchemaNode)>, required: Vec<&str>) -> SchemaNode {
    SchemaNode {
        type_tag: "object".to_string(),
        properties: props.into_iter().map(|(k, v)| (k.to_string(), v)).collect(),
        required: required.into_iter().map(|k| k.to_string()).collect(),
        ..SchemaNode::default()
    }
}

fn integer(format: Option<&str>) -> SchemaNode {
    SchemaNode {
        type_tag: "integer".to_string(),
        format: format.map(|f| f.to_string()),
        ..SchemaNode::default()
    }
}

fn array_of(element: SchemaNode) -> SchemaNode {
    SchemaNode {
        type_tag: "array".to_string(),
        items: Some(Items::Single(Box::new(element))),
        ..SchemaNode::default()
    }
}

fn run(schema: &SchemaNode) -> (Result<(), AnalyzeError>, Vec<kopium::OutputStruct>, Vec<Warning>) {
    let mut results = Vec::new();
    let mut warnings = Vec::new();
    let r = analyze(schema, "Kind", "", 0, &mut results, &mut warnings);
    (r, results, warnings)
}

#[test]
fn required_string_field_stays_bare() {
    let spec = object_with(vec![("foo", typed("string"))], vec!["foo"]);
    let root = object_with(vec![("spec", spec)], vec![]);
    let (r, results, warnings) = run(&root);
    assert!(r.is_ok());
    assert!(warnings.is_empty());
    assert_eq!(results.len(), 2);
    assert_eq!(results[0].name, "Kind");
    assert_eq!(results[0].level, 0);
    let non_root: Vec<_> = results.iter().filter(|s| s.level > 0).collect();
    assert_eq!(non_root.len(), 1);
    assert_eq!(non_root[0].name, "KindSpec");
    assert_eq!(non_root[0].members.len(), 1);
    assert_eq!(non_root[0].members[0].name, "foo");
    assert_eq!(non_root[0].members[0].type_, "String");
    assert_eq!(non_root[0].members[0].field_annot, None);
}

#[test]
fn optional_string_field_gets_wrapped() {
    let root = object_with(vec![("foo", typed("string"))], vec![]);
    let (r, results, _) = run(&root);
    assert!(r.is_ok());
    assert_eq!(results[0].members[0].type_, "Option<String>");
    assert_eq!(results[0].members[0].field_annot, None);
}

#[test]
fn doubly_nested_array_resolves_and_annotates() {
    let bar = array_of(array_of(integer(Some("int32"))));
    let root = object_with(vec![("bar", bar)], vec![]);
    let (r, results, warnings) = run(&root);
    assert!(r.is_ok());
    assert!(warnings.is_empty());
    assert_eq!(results.len(), 1);
    assert_eq!(results[0].members[0].name, "bar");
    assert_eq!(results[0].members[0].type_, "Vec<Vec<i32>>");
    assert_eq!(results[0].members[0].field_annot, Some(DefaultAnnot::EmptyList));
}

#[test]
fn triply_nested_int64_array() {
    let deep = array_of(array_of(array_of(integer(Some("int64")))));
    let root = object_with(vec![("d", deep)], vec![]);
    let (r, results, warnings) = run(&root);
    assert!(r.is_ok());
    assert!(warnings.is_empty());
    assert_eq!(results[0].members[0].type_, "Vec<Vec<Vec<i64>>>");
}

#[test]
fn required_array_field_stays_bare() {
    let root = object_with(vec![("bar", array_of(typed("string")))], vec!["bar"]);
    let (r, results, _) = run(&root);
    assert!(r.is_ok());
    assert_eq!(results[0].members[0].type_, "Vec<String>");
    assert_eq!(results[0].members[0].field_annot, None);
}

#[test]
fn map_node_is_inlined_not_emitted() {
    let map_node = SchemaNode {
        type_tag: "object".to_string(),
        additional_properties: Some(AdditionalProperties::Schema(Box::new(typed("string")))),
        ..SchemaNode::default()
    };
    let (r, results, warnings) = run(&map_node);
    assert!(r.is_ok());
    assert_eq!(results.len(), 0);
    assert_eq!(warnings, vec![Warning::InlinedMapNode]);
}

#[test]
fn map_valued_property_becomes_map_field() {
    let labels = SchemaNode {
        type_tag: "object".to_string(),
        additional_properties: Some(AdditionalProperties::Schema(Box::new(typed("string")))),
        ..SchemaNode::default()
    };
    let root = object_with(vec![("labels", labels)], vec![]);
    let (r, results, warnings) = run(&root);
    assert!(r.is_ok());
    assert_eq!(results.len(), 1);
    assert_eq!(results[0].members[0].type_, "BTreeMap<String, String>");
    assert_eq!(results[0].members[0].field_annot, Some(DefaultAnnot::EmptyMap));
    assert_eq!(warnings, vec![Warning::InlinedMapNode]);
}

#[test]
fn map_value_type_is_guessed_by_capitalizing() {
    let counts = SchemaNode {
        type_tag: "object".to_string(),
        additional_properties: Some(AdditionalProperties::Schema(Box::new(typed("integer")))),
        ..SchemaNode::default()
    };
    let root = object_with(vec![("counts", counts)], vec![]);
    let (r, results, _) = run(&root);
    assert!(r.is_ok());
    assert_eq!(results[0].members[0].type_, "BTreeMap<String, Integer>");
}

#[test]
fn map_value_int_or_string_coerces() {
    let limits = SchemaNode {
        type_tag: "object".to_string(),
        additional_properties: Some(AdditionalProperties::Schema(Box::new(SchemaNode {
            int_or_string: true,
            ..SchemaNode::default()
        }))),
        ..SchemaNode::default()
    };
    let root = object_with(vec![("limits", limits)], vec![]);
    let (r, results, warnings) = run(&root);
    assert!(r.is_ok());
    assert_eq!(results[0].members[0].type_, "BTreeMap<String, String>");
    assert!(warnings.contains(&Warning::IntOrStringCoercion));
}

#[test]
fn map_value_empty_without_marker_fails() {
    let broken = SchemaNode {
        type_tag: "object".to_string(),
        additional_properties: Some(AdditionalProperties::Schema(Box::new(
            SchemaNode::default(),
        ))),
        ..SchemaNode::default()
    };
    let root = object_with(vec![("broken", broken)], vec![]);
    let (r, _, _) = run(&root);
    assert_eq!(r, Err(AnalyzeError::AmbiguousType));
}

#[test]
fn empty_type_without_marker_fails_with_no_records() {
    let root = object_with(vec![("x", SchemaNode::default())], vec![]);
    let (r, results, _) = run(&root);
    assert_eq!(r, Err(AnalyzeError::AmbiguousType));
    assert!(results.is_empty());
}

#[test]
fn int_or_string_property_coerces_to_text() {
    let marked = SchemaNode { int_or_string: true, ..SchemaNode::default() };
    let root = object_with(vec![("x", marked)], vec![]);
    let (r, results, warnings) = run(&root);
    assert!(r.is_ok());
    assert_eq!(results[0].members[0].type_, "Option<String>");
    assert_eq!(warnings, vec![Warning::IntOrStringCoercion]);
}

#[test]
fn unknown_type_fails() {
    let root = object_with(vec![("w", typed("widget"))], vec![]);
    let (r, _, _) = run(&root);
    assert_eq!(r, Err(AnalyzeError::UnknownScalarType));
}

#[test]
fn integer_formats_resolve() {
    let root = object_with(
        vec![("a", integer(Some("int32"))), ("b", integer(Some("int64")))],
        vec!["a", "b"],
    );
    let (r, results, warnings) = run(&root);
    assert!(r.is_ok());
    assert!(warnings.is_empty());
    assert_eq!(results[0].members[0].type_, "i32");
    assert_eq!(results[0].members[1].type_, "i64");
}

#[test]
fn unknown_integer_format_falls_back_with_warning() {
    let root = object_with(vec![("n", integer(Some("uint8")))], vec!["n"]);
    let (r, results, warnings) = run(&root);
    assert!(r.is_ok());
    assert_eq!(results[0].members[0].type_, "usize");
    assert_eq!(warnings, vec![Warning::LossyIntegerFormat]);
}

#[test]
fn absent_integer_format_falls_back_with_warning() {
    let root = object_with(vec![("n", integer(None))], vec!["n"]);
    let (r, results, warnings) = run(&root);
    assert!(r.is_ok());
    assert_eq!(results[0].members[0].type_, "usize");
    assert_eq!(warnings, vec![Warning::LossyIntegerFormat]);
}

#[test]
fn missing_items_fails() {
    let root = object_with(vec![("xs", typed("array"))], vec![]);
    let (r, _, _) = run(&root);
    assert_eq!(r, Err(AnalyzeError::MissingArrayItems));
}

#[test]
fn tuple_items_fails() {
    let xs = SchemaNode {
        type_tag: "array".to_string(),
        items: Some(Items::Tuple),
        ..SchemaNode::default()
    };
    let root = object_with(vec![("xs", xs)], vec![]);
    let (r, _, _) = run(&root);
    assert_eq!(r, Err(AnalyzeError::UnsupportedArrayShape));
}

#[test]
fn unsupported_array_element_fails() {
    let root = object_with(vec![("xs", array_of(SchemaNode::default()))], vec![]);
    let (r, _, _) = run(&root);
    assert_eq!(r, Err(AnalyzeError::UnsupportedArrayShape));
}

#[test]
fn array_of_object_emits_element_record() {
    let element = object_with(vec![("image", typed("string"))], vec![]);
    let root = object_with(vec![("containers", array_of(element))], vec![]);
    let (r, results, _) = run(&root);
    assert!(r.is_ok());
    assert_eq!(results.len(), 2);
    assert_eq!(results[0].members[0].type_, "Vec<KindContainers>");
    assert_eq!(results[0].members[0].field_annot, Some(DefaultAnnot::EmptyList));
    assert_eq!(results[1].name, "KindContainers");
    assert_eq!(results[1].level, 1);
    assert_eq!(results[1].members[0].type_, "Option<String>");
}

#[test]
fn nested_object_names_accumulate_path() {
    let c = object_with(vec![("c", typed("string"))], vec![]);
    let a = object_with(vec![("b", c)], vec![]);
    let root = object_with(vec![("a", a)], vec![]);
    let (r, results, _) = run(&root);
    assert!(r.is_ok());
    assert_eq!(results.len(), 3);
    assert_eq!(results[0].name, "Kind");
    assert_eq!(results[1].name, "KindA");
    assert_eq!(results[1].level, 1);
    assert_eq!(results[1].members[0].type_, "Option<KindAB>");
    assert_eq!(results[2].name, "KindAB");
    assert_eq!(results[2].level, 2);
    assert_eq!(results[2].members[0].name, "c");
}

#[test]
fn envelope_keys_skipped_at_root_only() {
    let meta = object_with(vec![("labels", typed("string"))], vec![]);
    let spec_meta = object_with(vec![("labels", typed("string"))], vec![]);
    let spec = object_with(vec![("metadata", spec_meta)], vec![]);
    let root = object_with(vec![("metadata", meta), ("spec", spec)], vec![]);
    let (r, results, _) = run(&root);
    assert!(r.is_ok());
    let names: Vec<&str> = results.iter().map(|s| s.name.as_str()).collect();
    assert_eq!(names, vec!["Kind", "KindSpec", "KindSpecMetadata"]);
    assert_eq!(results[0].members.len(), 2);
}

#[test]
fn analysis_is_deterministic_across_runs() {
    let element = object_with(vec![("image", typed("string"))], vec!["image"]);
    let spec = object_with(
        vec![
            ("containers", array_of(element)),
            ("replicas", integer(Some("int32"))),
            ("strange", integer(Some("uintptr"))),
        ],
        vec!["replicas"],
    );
    let root = object_with(vec![("spec", spec)], vec![]);
    let (r1, results1, warnings1) = run(&root);
    let (r2, results2, warnings2) = run(&root);
    assert_eq!(r1, r2);
    assert_eq!(results1, results2);
    assert_eq!(warnings1, warnings2);
}

#[test]
fn flattener_reports_nested_type_and_depth() {
    let arr = array_of(array_of(integer(Some("int64"))));
    let mut warnings = Vec::new();
    let r = kopium::resolve::array_recurse_for_type(&arr, "Kind", "Spec", "bar", 1, &mut warnings);
    assert_eq!(r, Ok(("Vec<Vec<i64>>".to_string(), 2)));
    assert!(warnings.is_empty());
}

#[test]
fn flattener_names_object_elements_under_the_path() {
    let arr = array_of(object_with(vec![("image", typed("string"))], vec![]));
    let mut warnings = Vec::new();
    let r =
        kopium::resolve::array_recurse_for_type(&arr, "Kind", "", "containers", 1, &mut warnings);
    assert_eq!(r, Ok(("Vec<KindContainers>".to_string(), 1)));
    let r2 = kopium::resolve::array_recurse_for_type(
        &arr,
        "Kind",
        "Spec",
        "containers",
        1,
        &mut warnings,
    );
    assert_eq!(r2, Ok(("Vec<KindSpecContainers>".to_string(), 1)));
}

#[test]
fn array_of_objects_under_path_references_the_emitted_record() {
    let element = object_with(vec![("image", typed("string"))], vec![]);
    let spec = object_with(vec![("containers", array_of(element))], vec![]);
    let root = object_with(vec![("spec", spec)], vec![]);
    let (r, results, _) = run(&root);
    assert!(r.is_ok());
    let names: Vec<&str> = results.iter().map(|s| s.name.as_str()).collect();
    assert_eq!(names, vec!["Kind", "KindSpec", "KindSpecContainers"]);
    let field = &results[1].members[0];
    assert_eq!(field.name, "containers");
    assert_eq!(field.type_, "Vec<KindSpecContainers>");
    assert_eq!(
        field.type_,
        format!("Vec<{}>", results[2].name),
    );
}

#[test]
fn height_budget_is_respected() {
    let c = object_with(vec![("c", typed("string"))], vec![]);
    let a = object_with(vec![("b", c)], vec![]);
    let root = object_with(vec![("a", a)], vec![]);
    assert!(kopium::schema::height_within(&root, 4));
    assert!(!kopium::schema::height_within(&root, 3));
    let arr = array_of(integer(None));
    assert!(kopium::schema::height_within(&arr, 2));
    assert!(!kopium::schema::height_within(&arr, 1));
}

#[test]
fn failure_keeps_warnings_emitted_before_it() {
    let root = object_with(
        vec![("a", integer(Some("weird"))), ("z", SchemaNode::default())],
        vec![],
    );
    let (r, results, warnings) = run(&root);
    assert_eq!(r, Err(AnalyzeError::AmbiguousType));
    assert!(results.is_empty());
    assert_eq!(warnings, vec![Warning::LossyIntegerFormat]);
}

#[test]
fn failure_commits_no_record_for_failing_node() {
    let bad = object_with(vec![("x", SchemaNode::default())], vec![]);
    let spec = object_with(vec![("bad", bad)], vec![]);
    let root = object_with(vec![("spec", spec)], vec![]);
    let (r, results, _) = run(&root);
    assert_eq!(r, Err(AnalyzeError::AmbiguousType));
    let names: Vec<&str> = results.iter().map(|s| s.name.as_str()).collect();
    assert_eq!(names, vec!["Kind", "KindSpec"]);
}
