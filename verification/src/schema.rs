//! The input schema tree and the generated record model.

use vstd::prelude::*;

verus! {

/// One node of the input type-description tree. The field names follow the
/// OpenAPI v3 schema object of a custom resource definition; an absent type
/// or format is the empty string / `None`.
pub struct SchemaNode {
    /// The declared type tag: `object`, `string`, `boolean`, `integer`,
    /// `array`, or empty when unset.
    pub type_tag: String,
    /// Declared properties, ordered by name as the source orders them.
    pub properties: Vec<(String, SchemaNode)>,
    /// Names of the required properties.
    pub required: Vec<String>,
    /// The `items` schema of an array-typed node.
    pub items: Option<Items>,
    /// The `additionalProperties` entry of an object-typed node.
    pub additional_properties: Option<AdditionalProperties>,
    /// The `format` string, meaningful for integers.
    pub format: Option<String>,
    /// The int-or-string extension marker.
    pub int_or_string: bool,
}

/// The `items` field of an array node: one schema for every element, or a
/// tuple of per-position schemas (unsupported).
pub enum Items {
    Single(Box<SchemaNode>),
    Tuple,
}

/// The `additionalProperties` field of an object node: a plain permission
/// flag, or a schema for the values of a map.
pub enum AdditionalProperties {
    Allowed(bool),
    Schema(Box<SchemaNode>),
}

impl Default for SchemaNode {
    /// An empty node: no type, no properties, nothing set.
    fn default() -> (r: SchemaNode)
        ensures
            r.type_tag@ =~= Seq::<char>::empty(),
            r.properties@ =~= Seq::<(String, SchemaNode)>::empty(),
            r.required@ =~= Seq::<String>::empty(),
            r.items is None,
            r.additional_properties is None,
            r.format is None,
            !r.int_or_string,
    {
        SchemaNode {
            type_tag: String::new(),
            properties: Vec::new(),
            required: Vec::new(),
            items: None,
            additional_properties: None,
            format: None,
            int_or_string: false,
        }
    }
}

/// Height of a schema tree: one more than the tallest subtree reachable
/// through a property or through the `items` schema. It bounds every
/// recursion the analysis performs.
pub open spec fn schema_height(n: SchemaNode) -> nat
    decreases n, 1int, 0int,
{
    let ih: nat = match n.items {
        Some(Items::Single(b)) => schema_height(*b),
        _ => 0,
    };
    let ph = props_height(n, 0);
    1 + if ph > ih {
        ph
    } else {
        ih
    }
}

/// The tallest subtree among the properties of `n` from index `i` on.
pub open spec fn props_height(n: SchemaNode, i: int) -> nat
    decreases n, 0int, n.properties@.len() - i,
{
    if 0 <= i < n.properties@.len() {
        let h = schema_height(n.properties@[i].1);
        let rest = props_height(n, i + 1);
        if h > rest {
            h
        } else {
            rest
        }
    } else {
        0
    }
}

pub proof fn lemma_props_height_bound(n: SchemaNode, j: int, i: int)
    requires
        0 <= j <= i < n.properties@.len(),
    ensures
        schema_height(n.properties@[i].1) <= props_height(n, j),
    decreases i - j,
{
    if j < i {
        lemma_props_height_bound(n, j + 1, i);
    }
}

/// A property's subtree is strictly lower than the node that declares it.
pub proof fn lemma_prop_height(n: SchemaNode, i: int)
    requires
        0 <= i < n.properties@.len(),
    ensures
        schema_height(n.properties@[i].1) < schema_height(n),
{
    lemma_props_height_bound(n, 0, i);
}

/// The `items` schema is strictly lower than the array node holding it.
pub proof fn lemma_items_height(n: SchemaNode, b: Box<SchemaNode>)
    requires
        n.items == Some(Items::Single(b)),
    ensures
        schema_height(*b) < schema_height(n),
{
}

proof fn lemma_props_height_le(n: SchemaNode, j: int, m: nat)
    requires
        forall|k: int|
            j <= k < n.properties@.len() ==> schema_height(#[trigger] n.properties@[k].1) <= m,
    ensures
        props_height(n, j) <= m,
    decreases n.properties@.len() - j,
{
    if 0 <= j < n.properties@.len() {
        lemma_props_height_le(n, j + 1, m);
    }
}

/// Whether the tree's height stays within a budget; callers use it to
/// establish the depth bound the analysis asks for.
pub fn height_within(n: &SchemaNode, budget: u8) -> (r: bool)
    ensures
        r == (schema_height(*n) <= budget as nat),
    decreases schema_height(*n),
{
    if budget == 0 {
        return false;
    }
    match &n.items {
        Some(Items::Single(b)) => {
            proof {
                lemma_items_height(*n, *b);
            }
            if !height_within(&**b, budget - 1) {
                return false;
            }
        },
        _ => {},
    }
    let mut i: usize = 0;
    while i < n.properties.len()
        invariant
            i <= n.properties@.len(),
            budget >= 1,
            (match n.items {
                Some(Items::Single(b)) => schema_height(*b) <= budget - 1,
                _ => true,
            }),
            forall|k: int|
                0 <= k < i ==> schema_height(#[trigger] n.properties@[k].1) <= budget - 1,
        decreases n.properties@.len() - i,
    {
        proof {
            lemma_prop_height(*n, i as int);
        }
        if !height_within(&n.properties[i].1, budget - 1) {
            proof {
                lemma_props_height_bound(*n, 0, i as int);
            }
            return false;
        }
        i += 1;
    }
    proof {
        lemma_props_height_le(*n, 0, (budget - 1) as nat);
    }
    true
}

} // verus!
