use crate::document::{
    child_attributes, describe_apply_error, node_text, option_view, query_items, DocNode,
    Document, Step,
};
use crate::crawl::push_char;
use crate::job::{Target, Targets, Then, Value, ValueExtractor};
use vstd::prelude::*;

verus! {

broadcast use vstd::std_specs::vec::axiom_vec_index_decreases;

/// The key of one entry of a result group: the ordinal of a matched node or
/// child, or the name of a field.
#[derive(Debug, Clone, PartialEq, Eq)]
pub enum Key {
    Index(usize),
    Field(String),
}

/// The decimal digit of `d`, for `d < 10`.
pub open spec fn digit(d: nat) -> char {
    ((48 + d) as u8) as char
}

/// The decimal notation of `n`, without leading zeros.
pub open spec fn decimal(n: nat) -> Seq<char>
    decreases n,
{
    if n < 10 {
        seq![digit(n)]
    } else {
        decimal(n / 10).push(digit(n % 10))
    }
}

/// How a key is shown: `[i]` for an ordinal, the name for a field.
pub open spec fn key_label(k: Key) -> Seq<char> {
    match k {
        Key::Index(i) => seq!['['] + decimal(i as nat) + seq![']'],
        Key::Field(name) => name@,
    }
}

fn push_decimal(s: &mut String, n: usize)
    ensures
        final(s)@ == old(s)@ + decimal(n as nat),
    decreases n,
{
    if n >= 10 {
        push_decimal(s, n / 10);
    }
    let d: u8 = (n % 10) as u8;
    push_char(s, (48u8 + d) as char);
    assert(s@ =~= old(s)@ + decimal(n as nat));
}

impl Key {
    /// The key as it is shown: `[0]`, `[1]`, ... for ordinals, the name for
    /// fields.
    pub fn label(&self) -> (r: String)
        ensures
            r@ == key_label(*self),
    {
        match self {
            Key::Index(i) => {
                let mut s = String::new();
                push_char(&mut s, '[');
                push_decimal(&mut s, *i);
                push_char(&mut s, ']');
                assert(s@ =~= key_label(*self));
                s
            },
            Key::Field(name) => name.clone(),
        }
    }
}

/// What evaluating a target tree yields, mirroring the tree's shape.
#[derive(Debug)]
pub enum ResultTree {
    Group(Vec<(Key, ResultTree)>),
    Values(Vec<Value>),
    EvalError(String),
}

/// `r` is a group of `n` entries keyed `Index(0)` to `Index(n - 1)`.
pub open spec fn index_keyed(r: ResultTree, n: nat) -> bool {
    &&& r is Group
    &&& r->Group_0@.len() == n
    &&& forall|i: int| 0 <= i < n ==> (#[trigger] r->Group_0@[i]).0 == Key::Index(i as usize)
}

/// `v` is the value of an item that carries `text`.
pub open spec fn value_matches(v: Value, text: Option<Seq<char>>) -> bool {
    match v {
        Value::String(s) => text == Some(s@),
        Value::Unknown => text is None,
    }
}

/// The positions of the children that are not attribute nodes, in order.
pub open spec fn kept_children(attributes: Seq<bool>) -> Seq<nat>
    decreases attributes.len(),
{
    if attributes.len() == 0 {
        seq![]
    } else {
        let rest = kept_children(attributes.drop_last());
        if attributes.last() {
            rest
        } else {
            rest.push((attributes.len() - 1) as nat)
        }
    }
}

/// `r` is what `target` gives at the node that `at` leads to in the document
/// parsed from `source`.
/// - A query that cannot be applied there gives an error.
/// - An extracting query gives the value of each item it yields, in order:
///   the text the item carries, or the unknown marker.
/// - A descending query gives an ordinal group with, for each item, the
///   fields evaluated at that item alone, or an error for an item that is not
///   a tree node.
/// - A field over children gives an ordinal group with, for each child that
///   is not an attribute, the fields evaluated at that child alone.
pub open spec fn target_result(target: Target, source: Seq<char>, at: Seq<Step>, r: ResultTree) -> bool
    decreases target, 1nat,
{
    match target {
        Target::Single { path, then } => match query_items(path.text(), source, at) {
            None => r is EvalError,
            Some(items) => match then {
                Then::Extract(_) => {
                    &&& r is Values
                    &&& r->Values_0@.len() == items.len()
                    &&& forall|i: int|
                        0 <= i < items.len() ==> value_matches(
                            #[trigger] r->Values_0@[i],
                            if items[i] {
                                node_text(source, at.push(Step::Match(path.text(), i as nat)))
                            } else {
                                None
                            },
                        )
                },
                Then::Get(sub) => {
                    &&& index_keyed(r, items.len())
                    &&& forall|i: int|
                        0 <= i < items.len() ==> if items[i] {
                            fields_result(
                                sub,
                                source,
                                at.push(Step::Match(path.text(), i as nat)),
                                #[trigger] r->Group_0@[i].1,
                            )
                        } else {
                            r->Group_0@[i].1 is EvalError
                        }
                },
            },
        },
        Target::Each(sub) => {
            let kept = kept_children(child_attributes(source, at));
            &&& index_keyed(r, kept.len())
            &&& forall|j: int|
                0 <= j < kept.len() ==> fields_result(
                    sub,
                    source,
                    at.push(Step::Child(kept[j])),
                    #[trigger] r->Group_0@[j].1,
                )
        },
    }
}

/// `r` is what the fields give at the node that `at` leads to in the
/// document parsed from `source`: a group with one entry per field, under
/// the field's name and in the declared order, each what its own target
/// gives there.
pub open spec fn fields_result(targets: Targets, source: Seq<char>, at: Seq<Step>, r: ResultTree) -> bool
    decreases targets, 0nat,
{
    &&& r is Group
    &&& r->Group_0@.len() == targets.0@.len()
    &&& forall|i: int|
        0 <= i < targets.0@.len() ==> {
            &&& (#[trigger] r->Group_0@[i]).0 == Key::Field(targets.0@[i].0)
            &&& target_result(targets.0@[i].1, source, at, r->Group_0@[i].1)
        }
}

/// A field's entry is fixed by its own target, the document and the node:
/// whatever the other fields are, and whether their queries fail or not, the
/// entry under its name is what its target alone gives there.
pub proof fn lemma_field_isolated(
    targets: Targets,
    source: Seq<char>,
    at: Seq<Step>,
    r: ResultTree,
    field: int,
)
    requires
        fields_result(targets, source, at, r),
        0 <= field < targets.0@.len(),
    ensures
        r->Group_0@[field].0 == Key::Field(targets.0@[field].0),
        target_result(targets.0@[field].1, source, at, r->Group_0@[field].1),
{
}

/// Where no two fields share a name, no two entries of their group share a
/// key.
pub proof fn lemma_group_keys_unique(targets: Targets, source: Seq<char>, at: Seq<Step>, r: ResultTree)
    requires
        targets.keys_unique(),
        fields_result(targets, source, at, r),
    ensures
        forall|i: int, j: int|
            0 <= i < j < r->Group_0@.len() ==> r->Group_0@[i].0 != r->Group_0@[j].0,
{
    assert forall|i: int, j: int| 0 <= i < j < r->Group_0@.len() implies r->Group_0@[i].0
        != r->Group_0@[j].0 by {
        assert(r->Group_0@[i].0 == Key::Field(targets.0@[i].0));
        assert(r->Group_0@[j].0 == Key::Field(targets.0@[j].0));
        assert(targets.0@[i].0@ != targets.0@[j].0@);
    }
}

/// The text of a value: `None` for the unknown marker.
pub open spec fn value_text(v: Value) -> Option<Seq<char>> {
    match v {
        Value::String(s) => Some(s@),
        Value::Unknown => None,
    }
}

/// `a` and `b` hold the same keys, values and kinds of entry at every depth;
/// the texts of errors aside.
pub open spec fn same_result(a: ResultTree, b: ResultTree) -> bool
    decreases a,
{
    match a {
        ResultTree::Group(x) => {
            &&& b is Group
            &&& x@.len() == b->Group_0@.len()
            &&& forall|i: int|
                0 <= i < x@.len() ==> {
                    &&& (#[trigger] x@[i]).0 == b->Group_0@[i].0
                    &&& same_result(x@[i].1, b->Group_0@[i].1)
                }
        },
        ResultTree::Values(x) => {
            &&& b is Values
            &&& x@.len() == b->Values_0@.len()
            &&& forall|i: int|
                0 <= i < x@.len() ==> value_text(#[trigger] x@[i]) == value_text(
                    b->Values_0@[i],
                )
        },
        ResultTree::EvalError(_) => b is EvalError,
    }
}

/// Evaluating fields is a function of the fields, the document and the
/// node: two results of the same evaluation are the same at every depth.
pub proof fn lemma_fields_result_unique(
    targets: Targets,
    source: Seq<char>,
    at: Seq<Step>,
    a: ResultTree,
    b: ResultTree,
)
    requires
        fields_result(targets, source, at, a),
        fields_result(targets, source, at, b),
    ensures
        same_result(a, b),
    decreases targets, 0nat,
{
    assert forall|i: int| 0 <= i < a->Group_0@.len() implies {
        &&& (#[trigger] a->Group_0@[i]).0 == b->Group_0@[i].0
        &&& same_result(a->Group_0@[i].1, b->Group_0@[i].1)
    } by {
        assert(decreases_to!(targets => targets.0));
        assert(decreases_to!(targets.0 => targets.0[i]));
        lemma_target_result_unique(targets.0@[i].1, source, at, a->Group_0@[i].1, b->Group_0@[i].1);
    }
}

/// Evaluating one target is a function of the target, the document and the
/// node: two results of the same evaluation are the same at every depth.
pub proof fn lemma_target_result_unique(
    target: Target,
    source: Seq<char>,
    at: Seq<Step>,
    a: ResultTree,
    b: ResultTree,
)
    requires
        target_result(target, source, at, a),
        target_result(target, source, at, b),
    ensures
        same_result(a, b),
    decreases target, 1nat,
{
    match target {
        Target::Single { path, then } => match query_items(path.text(), source, at) {
            None => {},
            Some(items) => match then {
                Then::Extract(_) => {
                    assert forall|i: int| 0 <= i < a->Values_0@.len() implies value_text(
                        #[trigger] a->Values_0@[i],
                    ) == value_text(b->Values_0@[i]) by {
                        assert(value_matches(a->Values_0@[i], if items[i] {
                            node_text(source, at.push(Step::Match(path.text(), i as nat)))
                        } else {
                            None
                        }));
                        assert(value_matches(b->Values_0@[i], if items[i] {
                            node_text(source, at.push(Step::Match(path.text(), i as nat)))
                        } else {
                            None
                        }));
                    }
                },
                Then::Get(sub) => {
                    assert forall|i: int| 0 <= i < a->Group_0@.len() implies {
                        &&& (#[trigger] a->Group_0@[i]).0 == b->Group_0@[i].0
                        &&& same_result(a->Group_0@[i].1, b->Group_0@[i].1)
                    } by {
                        if items[i] {
                            lemma_fields_result_unique(
                                sub,
                                source,
                                at.push(Step::Match(path.text(), i as nat)),
                                a->Group_0@[i].1,
                                b->Group_0@[i].1,
                            );
                        }
                    }
                },
            },
        },
        Target::Each(sub) => {
            let kept = kept_children(child_attributes(source, at));
            assert forall|j: int| 0 <= j < a->Group_0@.len() implies {
                &&& (#[trigger] a->Group_0@[j]).0 == b->Group_0@[j].0
                &&& same_result(a->Group_0@[j].1, b->Group_0@[j].1)
            } by {
                lemma_fields_result_unique(
                    sub,
                    source,
                    at.push(Step::Child(kept[j])),
                    a->Group_0@[j].1,
                    b->Group_0@[j].1,
                );
            }
        },
    }
}

/// Adding a field, whether its query succeeds or fails, leaves the results
/// of the other fields as they were: the new group holds the old entries,
/// the same at every depth, followed by the new field's.
pub proof fn lemma_added_field_keeps_siblings(
    targets: Targets,
    more: Targets,
    source: Seq<char>,
    at: Seq<Step>,
    before: ResultTree,
    after: ResultTree,
)
    requires
        more.0@.len() == targets.0@.len() + 1,
        more.0@.subrange(0, targets.0@.len() as int) == targets.0@,
        fields_result(targets, source, at, before),
        fields_result(more, source, at, after),
    ensures
        after->Group_0@.len() == before->Group_0@.len() + 1,
        forall|i: int|
            0 <= i < before->Group_0@.len() ==> {
                &&& (#[trigger] after->Group_0@[i]).0 == before->Group_0@[i].0
                &&& same_result(before->Group_0@[i].1, after->Group_0@[i].1)
            },
{
    assert forall|i: int| 0 <= i < before->Group_0@.len() implies {
        &&& (#[trigger] after->Group_0@[i]).0 == before->Group_0@[i].0
        &&& same_result(before->Group_0@[i].1, after->Group_0@[i].1)
    } by {
        assert(more.0@[i] == targets.0@[i]);
        lemma_target_result_unique(
            targets.0@[i].1,
            source,
            at,
            before->Group_0@[i].1,
            after->Group_0@[i].1,
        );
    }
}

/// The leaf of an extracting field, from the outcome of its query: the
/// extracted values of the matched items (given the text each carries), or
/// the error.
pub fn leaf_result(extractor: &ValueExtractor, outcome: Result<Vec<Option<String>>, String>) -> (r:
    ResultTree)
    ensures
        match outcome {
            Ok(texts) => r is Values && r->Values_0@.len() == texts@.len() && forall|i: int|
                0 <= i < texts@.len() ==> #[trigger] r->Values_0@[i] == crate::job::value_of(
                    texts@[i],
                ),
            Err(e) => r == ResultTree::EvalError(e),
        },
{
    match outcome {
        Ok(texts) => ResultTree::Values(extractor.extract(&texts)),
        Err(e) => ResultTree::EvalError(e),
    }
}

/// Evaluates the fields against each item of a node-set: an ordinal group
/// with one entry per item, the fields evaluated at that node alone, or an
/// error for an item that is not a node.
pub fn evaluate_nodes<'t>(nodes: &Vec<Option<DocNode<'t>>>, targets: &Targets) -> (r: ResultTree)
    ensures
        index_keyed(r, nodes@.len() as nat),
        forall|i: int|
            0 <= i < nodes@.len() ==> match nodes@[i] {
                Some(n) => fields_result(*targets, n.source(), n.route(), #[trigger] r->Group_0@[i].1),
                None => r->Group_0@[i].1 is EvalError,
            },
    decreases targets, 2nat,
{
    let mut entries: Vec<(Key, ResultTree)> = Vec::new();
    let mut i: usize = 0;
    while i < nodes.len()
        invariant
            i <= nodes@.len(),
            entries@.len() == i,
            forall|j: int| 0 <= j < i ==> (#[trigger] entries@[j]).0 == Key::Index(j as usize),
            forall|j: int|
                0 <= j < i ==> match nodes@[j] {
                    Some(n) => fields_result(*targets, n.source(), n.route(), #[trigger] entries@[j].1),
                    None => entries@[j].1 is EvalError,
                },
        decreases nodes@.len() - i,
    {
        let entry = match &nodes[i] {
            Some(node) => evaluate_fields(node, targets),
            None => ResultTree::EvalError(not_a_node()),
        };
        entries.push((Key::Index(i), entry));
        i += 1;
    }
    ResultTree::Group(entries)
}

/// Evaluates the fields against each child of a node that is not an
/// attribute: an ordinal group with the fields evaluated at each such child
/// alone, in document order.
pub fn evaluate_children<'t>(at: &DocNode<'t>, targets: &Targets) -> (r: ResultTree)
    ensures
        ({
            let kept = kept_children(child_attributes(at.source(), at.route()));
            &&& index_keyed(r, kept.len())
            &&& forall|j: int|
                0 <= j < kept.len() ==> fields_result(
                    *targets,
                    at.source(),
                    at.route().push(Step::Child(kept[j])),
                    #[trigger] r->Group_0@[j].1,
                )
        }),
    decreases targets, 2nat,
{
    let children = at.children();
    let ghost attrs = child_attributes(at.source(), at.route());
    let mut entries: Vec<(Key, ResultTree)> = Vec::new();
    let mut i: usize = 0;
    while i < children.len()
        invariant
            i <= children@.len(),
            attrs == child_attributes(at.source(), at.route()),
            children@.len() == attrs.len(),
            forall|k: int|
                0 <= k < children@.len() ==> {
                    &&& (#[trigger] children@[k] is None) == attrs[k]
                    &&& children@[k] matches Some(n) ==> n.source() == at.source() && n.route()
                        == at.route().push(Step::Child(k as nat))
                },
            entries@.len() == kept_children(attrs.subrange(0, i as int)).len(),
            forall|j: int|
                0 <= j < entries@.len() ==> (#[trigger] entries@[j]).0 == Key::Index(j as usize),
            forall|j: int|
                0 <= j < entries@.len() ==> fields_result(
                    *targets,
                    at.source(),
                    at.route().push(Step::Child(kept_children(attrs.subrange(0, i as int))[j])),
                    #[trigger] entries@[j].1,
                ),
        decreases children@.len() - i,
    {
        let ghost before = kept_children(attrs.subrange(0, i as int));
        assert(attrs.subrange(0, i + 1).drop_last() == attrs.subrange(0, i as int));
        match &children[i] {
            Some(child) => {
                let entry = evaluate_fields(child, targets);
                entries.push((Key::Index(entries.len()), entry));
                assert(kept_children(attrs.subrange(0, i + 1)) == before.push(i as nat));
            },
            None => {
                assert(kept_children(attrs.subrange(0, i + 1)) == before);
            },
        }
        i += 1;
    }
    assert(attrs.subrange(0, children@.len() as int) == attrs);
    ResultTree::Group(entries)
}

/// Evaluates every field against one node: a group keyed by the field
/// names in declared order. A field whose query fails holds an error and
/// leaves the other fields as they are.
pub fn evaluate_fields<'t>(at: &DocNode<'t>, targets: &Targets) -> (r: ResultTree)
    ensures
        fields_result(*targets, at.source(), at.route(), r),
    decreases targets, 0nat,
{
    let mut entries: Vec<(Key, ResultTree)> = Vec::new();
    let mut i: usize = 0;
    while i < targets.0.len()
        invariant
            i <= targets.0@.len(),
            entries@.len() == i,
            forall|j: int|
                0 <= j < i ==> {
                    &&& (#[trigger] entries@[j]).0 == Key::Field(targets.0@[j].0)
                    &&& target_result(targets.0@[j].1, at.source(), at.route(), entries@[j].1)
                },
        decreases targets.0@.len() - i,
    {
        let (name, target) = &targets.0[i];
        proof {
            assert(decreases_to!(*targets => targets.0));
            assert(decreases_to!(targets.0 => targets.0[i as int]));
        }
        let entry = evaluate_target(at, target);
        entries.push((Key::Field(name.clone()), entry));
        i += 1;
    }
    ResultTree::Group(entries)
}

/// Evaluates one field's target against one node.
pub fn evaluate_target<'t>(at: &DocNode<'t>, target: &Target) -> (r: ResultTree)
    ensures
        target_result(*target, at.source(), at.route(), r),
    decreases target, 1nat,
{
    match target {
        Target::Single { path, then } => match at.query(path) {
            Err(e) => ResultTree::EvalError(describe_apply_error(&e)),
            Ok(items) => match then {
                Then::Extract(extractor) => {
                    let texts = texts_of(&items);
                    let r = leaf_result(extractor, Ok(texts));
                    assert forall|i: int| 0 <= i < items@.len() implies value_matches(
                        #[trigger] r->Values_0@[i],
                        if items@[i] is Some {
                            node_text(at.source(), at.route().push(Step::Match(path.text(), i as nat)))
                        } else {
                            None
                        },
                    ) by {
                        assert(r->Values_0@[i] == crate::job::value_of(texts@[i]));
                    }
                    r
                },
                Then::Get(sub) => evaluate_nodes(&items, sub),
            },
        },
        Target::Each(sub) => evaluate_children(at, sub),
    }
}

/// The text each item carries; none for an item that is not a node.
fn texts_of<'t>(items: &Vec<Option<DocNode<'t>>>) -> (r: Vec<Option<String>>)
    ensures
        r@.len() == items@.len(),
        forall|i: int|
            0 <= i < items@.len() ==> option_view(#[trigger] r@[i]) == match items@[i] {
                Some(n) => node_text(n.source(), n.route()),
                None => None,
            },
{
    let mut r: Vec<Option<String>> = Vec::new();
    let mut i: usize = 0;
    while i < items.len()
        invariant
            i <= items@.len(),
            r@.len() == i,
            forall|j: int|
                0 <= j < i ==> option_view(#[trigger] r@[j]) == match items@[j] {
                    Some(n) => node_text(n.source(), n.route()),
                    None => None,
                },
        decreases items@.len() - i,
    {
        let t = match &items[i] {
            Some(node) => node.text(),
            None => None,
        };
        r.push(t);
        i += 1;
    }
    r
}

fn not_a_node() -> (r: String) {
    "matched item is not a node".to_owned()
}

impl Targets {
    /// Evaluates the fields against the document's root: an ordinal group
    /// of one entry, the fields evaluated at the root.
    pub fn evaluate(&self, doc: &Document) -> (r: ResultTree)
        ensures
            index_keyed(r, 1),
            fields_result(*self, doc.source(), Seq::<Step>::empty(), r->Group_0@[0].1),
    {
        let nodes = vec![Some(DocNode::root(doc))];
        evaluate_nodes(&nodes, self)
    }
}

} // verus!
