use crate::document::{apply_at_root, option_view, root_attribute_matches, Document, ParsedXPath};
use vstd::prelude::*;

verus! {

/// What a job fetches: an absolute URL, held as its text, or a local file.
#[derive(Debug, Clone, PartialEq, Eq)]
pub enum Resource {
    Url(String),
    Path(String),
}

/// The plain value of a [`Resource`].
pub enum ResourceView {
    Url(Seq<char>),
    Path(Seq<char>),
}

impl View for Resource {
    type V = ResourceView;

    open spec fn view(&self) -> ResourceView {
        match self {
            Resource::Url(u) => ResourceView::Url(u@),
            Resource::Path(p) => ResourceView::Path(p@),
        }
    }
}

/// One watched resource: where to start, how often, what to extract and how
/// to find the next page. The period is in milliseconds.
#[derive(Debug)]
pub struct Job {
    pub resource: Resource,
    pub period_ms: u64,
    pub targets: Targets,
    pub continuation: Continuation,
}

/// Named fields to extract, in their declared order.
#[derive(Debug)]
pub struct Targets(pub Vec<(String, Target)>);

impl Targets {
    /// No two fields share a name.
    pub open spec fn keys_unique(&self) -> bool {
        forall|i: int, j: int|
            #![trigger self.0@[i], self.0@[j]]
            0 <= i < self.0@.len() && 0 <= j < self.0@.len() && i != j ==> self.0@[i].0@ != self.0@[j].0@
    }

    /// No fields.
    pub fn new() -> (r: Targets)
        ensures
            r.0@.len() == 0,
            r.keys_unique(),
    {
        Targets(Vec::new())
    }

    /// Adds a field after the others; where a field of that name is there
    /// already, its target is replaced where it stands.
    pub fn insert(&mut self, name: String, target: Target)
        requires
            old(self).keys_unique(),
        ensures
            final(self).keys_unique(),
            forall|i: int|
                0 <= i < old(self).0@.len() && old(self).0@[i].0@ == name@ ==> final(self).0@
                    == old(self).0@.update(i, (name, target)),
            (forall|i: int| 0 <= i < old(self).0@.len() ==> old(self).0@[i].0@ != name@)
                ==> final(self).0@ == old(self).0@.push((name, target)),
    {
        let mut i: usize = 0;
        while i < self.0.len()
            invariant
                self.0@ == old(self).0@,
                old(self).keys_unique(),
                i <= self.0@.len(),
                forall|j: int| 0 <= j < i ==> self.0@[j].0@ != name@,
            decreases self.0@.len() - i,
        {
            if self.0[i].0 == name {
                let ghost key = name@;
                self.0.set(i, (name, target));
                proof {
                    assert forall|k: int|
                        0 <= k < old(self).0@.len() && old(self).0@[k].0@ == key implies k
                        == i by {
                        if k != i {
                            assert(old(self).0@[k].0@ != old(self).0@[i as int].0@);
                        }
                    }
                    assert forall|a: int, b: int|
                        0 <= a < self.0@.len() && 0 <= b < self.0@.len() && a != b implies #[trigger] self.0@[a].0@
                        != #[trigger] self.0@[b].0@ by {
                        assert(self.0@[a].0@ == old(self).0@[a].0@);
                        assert(self.0@[b].0@ == old(self).0@[b].0@);
                    }
                }
                return;
            }
            i += 1;
        }
        self.0.push((name, target));
    }
}

/// How one field is extracted.
#[derive(Debug)]
pub enum Target {
    /// Apply the query to the current node, then extract values from the
    /// matches or descend into each of them.
    Single { path: ParsedXPath, then: Then },
    /// Evaluate the fields against every immediate child of the current node.
    Each(Targets),
}

/// What a [`Target::Single`] does with the nodes it matched.
#[derive(Debug)]
pub enum Then {
    Get(Targets),
    Extract(ValueExtractor),
}

/// How leaf values are read from matched items.
#[derive(Debug, Clone, Copy, PartialEq, Eq)]
pub enum ValueExtractor {
    Text,
}

/// One extracted leaf value.
#[derive(Debug, Clone, PartialEq, Eq)]
pub enum Value {
    Unknown,
    String(String),
}

pub open spec fn value_of(text: Option<String>) -> Value {
    match text {
        Some(t) => Value::String(t),
        None => Value::Unknown,
    }
}

impl ValueExtractor {
    /// The value of each matched item, given the text it carries (`None`
    /// for an item that carries none): that text, or the unknown marker.
    pub fn extract(&self, texts: &Vec<Option<String>>) -> (r: Vec<Value>)
        ensures
            r@.len() == texts@.len(),
            forall|i: int| 0 <= i < r@.len() ==> #[trigger] r@[i] == value_of(texts@[i]),
    {
        let mut r: Vec<Value> = Vec::new();
        let mut i: usize = 0;
        while i < texts.len()
            invariant
                i <= texts@.len(),
                r@.len() == i,
                forall|j: int| 0 <= j < i ==> #[trigger] r@[j] == value_of(texts@[j]),
            decreases texts@.len() - i,
        {
            let v = match &texts[i] {
                Some(t) => Value::String(t.clone()),
                None => Value::Unknown,
            };
            r.push(v);
            i += 1;
        }
        r
    }
}

impl Value {
    /// The value as it is shown in logs: its text, or `?`.
    pub fn to_display_string(&self) -> (r: String)
        ensures
            r@ == match self {
                Value::Unknown => "?"@,
                Value::String(s) => s@,
            },
    {
        match self {
            Value::Unknown => {
                proof {
                    reveal_strlit("?");
                }
                "?".to_owned()
            },
            Value::String(s) => s.clone(),
        }
    }
}

/// The rule that finds the next pages: a query whose attribute matches are
/// the continuation strings.
#[derive(Debug)]
pub enum Continuation {
    Ref(ParsedXPath),
}

/// The attribute values among `items`, in order.
pub open spec fn attribute_values(items: Seq<Option<Seq<char>>>) -> Seq<Seq<char>>
    decreases items.len(),
{
    if items.len() == 0 {
        seq![]
    } else {
        let rest = attribute_values(items.drop_last());
        match items.last() {
            Some(v) => rest.push(v),
            None => rest,
        }
    }
}

/// The continuation strings that `query` yields on the document parsed from
/// `source`; none when applying the query fails.
pub open spec fn resolved(query: Seq<char>, source: Seq<char>) -> Seq<Seq<char>> {
    match root_attribute_matches(query, source) {
        Some(items) => attribute_values(items),
        None => seq![],
    }
}

/// Resolving continuations depends on the query and the document's text
/// alone: on one document it gives the same ordered list every time.
pub proof fn lemma_resolve_repeatable(c: Continuation, first: Document, second: Document)
    requires
        first.source() == second.source(),
    ensures
        resolved(c.query(), first.source()) == resolved(c.query(), second.source()),
{
}

impl Continuation {
    pub open spec fn query(&self) -> Seq<char> {
        match self {
            Continuation::Ref(p) => p.text(),
        }
    }

    /// Keeps the attribute values among the matched items, in match order.
    pub fn attribute_values(items: &Vec<Option<String>>) -> (r: Vec<String>)
        ensures
            r@.map_values(|s: String| s@) == attribute_values(
                items@.map_values(|o: Option<String>| option_view(o)),
            ),
    {
        let ghost view = items@.map_values(|o: Option<String>| option_view(o));
        let mut r: Vec<String> = Vec::new();
        let mut i: usize = 0;
        while i < items.len()
            invariant
                i <= items@.len(),
                view == items@.map_values(|o: Option<String>| option_view(o)),
                r@.map_values(|s: String| s@) == attribute_values(view.subrange(0, i as int)),
            decreases items@.len() - i,
        {
            assert(view.subrange(0, i + 1).drop_last() == view.subrange(0, i as int));
            match &items[i] {
                Some(v) => {
                    r.push(v.clone());
                },
                None => {},
            }
            proof {
                assert(r@.map_values(|s: String| s@) =~= attribute_values(
                    view.subrange(0, i + 1),
                ));
            }
            i += 1;
        }
        assert(view.subrange(0, items@.len() as int) == view);
        r
    }

    /// The continuation strings of a document: the values of the attribute
    /// nodes that the query matches at the document's root, in match order.
    /// When the query cannot be applied there are none, and the error is
    /// handed back beside them.
    pub fn resolve(&self, doc: &Document) -> (r: (Vec<String>, Option<String>))
        ensures
            r.0@.map_values(|s: String| s@) == resolved(self.query(), doc.source()),
            r.1 is Some <==> root_attribute_matches(self.query(), doc.source()) is None,
    {
        match self {
            Continuation::Ref(path) => {
                match apply_at_root(path, doc) {
                    Ok(items) => (Continuation::attribute_values(&items), None),
                    Err(e) => {
                        let r: Vec<String> = Vec::new();
                        assert(r@.map_values(|s: String| s@) =~= seq![]);
                        (r, Some(crate::document::describe_apply_error(&e)))
                    },
                }
            },
        }
    }

    /// The continuation strings of a document, as [`Continuation::resolve`]
    /// gives them.
    pub fn evaluate(&self, doc: &Document) -> (r: Vec<String>)
        ensures
            r@.map_values(|s: String| s@) == resolved(self.query(), doc.source()),
    {
        self.resolve(doc).0
    }
}

} // verus!
