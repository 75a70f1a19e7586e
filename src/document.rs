use skyscraper::html::grammar::HtmlParseError;
use skyscraper::xpath::grammar::data_model::XpathItem;
use skyscraper::xpath::grammar::XpathItemTreeNode;
use skyscraper::xpath::{ExpressionApplyError, ExpressionParseError, Xpath, XpathItemTree};
use vstd::prelude::*;

verus! {

#[verifier::external_type_specification]
#[verifier::external_body]
pub struct ExXpath(Xpath);

#[verifier::external_type_specification]
#[verifier::external_body]
pub struct ExXpathItemTree(XpathItemTree);

#[verifier::external_type_specification]
#[verifier::external_body]
pub struct ExXpathItemTreeNode(XpathItemTreeNode);

#[verifier::external_type_specification]
#[verifier::external_body]
pub struct ExExpressionApplyError(ExpressionApplyError);

#[verifier::external_type_specification]
#[verifier::external_body]
pub struct ExExpressionParseError(ExpressionParseError);

#[verifier::external_type_specification]
#[verifier::external_body]
pub struct ExHtmlParseError(HtmlParseError);

/// Whether `xpath::parse` accepts the query text.
pub uninterp spec fn xpath_compiles(query: Seq<char>) -> bool;

/// The query that `xpath::parse` compiles from the text, where it compiles.
pub uninterp spec fn compiled_of(query: Seq<char>) -> Xpath;

/// Whether `html::parse` accepts the document text.
pub uninterp spec fn html_parses(text: Seq<char>) -> bool;

/// One step from a node of a document to another: the item of the given
/// position among those that a query yields at the node, or the child of the
/// given position.
pub enum Step {
    Match(Seq<char>, nat),
    Child(nat),
}

/// For each item that the query yields at the node that `at` leads to, from
/// the root of the document parsed from `source`: whether it is a tree node.
/// `None` when applying the query there fails.
pub uninterp spec fn query_items(query: Seq<char>, source: Seq<char>, at: Seq<Step>) -> Option<
    Seq<bool>,
>;

/// For each child of the node that `at` leads to in the document parsed
/// from `source`: whether it is an attribute node.
pub uninterp spec fn child_attributes(source: Seq<char>, at: Seq<Step>) -> Seq<bool>;

/// The text that the node `at` leads to carries in the document parsed from
/// `source`, if any.
pub uninterp spec fn node_text(source: Seq<char>, at: Seq<Step>) -> Option<Seq<char>>;

/// For each item that the query yields when applied to the root of the
/// document parsed from `source`: the attribute's value for an attribute
/// node, `None` for any other item. `None` as a whole when applying fails.
pub uninterp spec fn root_attribute_matches(query: Seq<char>, source: Seq<char>) -> Option<
    Seq<Option<Seq<char>>>,
>;

/// Relies on skyscraper's `xpath::parse`: it succeeds exactly on the
/// queries that `xpath_compiles` names, with the query `compiled_of` names.
#[verifier::external_body]
fn compile_xpath(raw: &str) -> (r: Result<Xpath, ExpressionParseError>)
    ensures
        r is Ok <==> xpath_compiles(raw@),
        r matches Ok(x) ==> x == compiled_of(raw@),
{
    skyscraper::xpath::parse(raw)
}

/// Relies on skyscraper's `html::parse`: it succeeds exactly on the texts
/// that `html_parses` names.
#[verifier::external_body]
fn parse_html(text: &str) -> (r: Result<XpathItemTree, HtmlParseError>)
    ensures
        r is Ok <==> html_parses(text@),
{
    skyscraper::html::parse(text)
}

/// Why a query string was refused at load time.
#[derive(Debug)]
pub enum QueryError {
    Syntax(ExpressionParseError),
}

/// Why a fetched text could not be read as a document.
#[derive(Debug)]
pub enum ParseError {
    Markup(HtmlParseError),
}

/// An XPath query compiled once, when it is loaded, together with its text.
#[derive(Debug)]
pub struct ParsedXPath {
    raw: String,
    compiled: Xpath,
}

impl ParsedXPath {
    /// The stored query is the one compiled from the stored text.
    #[verifier::type_invariant]
    pub open spec fn compiles(&self) -> bool {
        &&& xpath_compiles(self.text())
        &&& self.compiled() == compiled_of(self.text())
    }

    pub closed spec fn text(&self) -> Seq<char> {
        self.raw@
    }

    pub closed spec fn compiled(&self) -> Xpath {
        self.compiled
    }

    /// Compiles the query and keeps it with its text.
    pub fn parse(raw: String) -> (r: Result<ParsedXPath, QueryError>)
        ensures
            r is Ok <==> xpath_compiles(raw@),
            r matches Ok(p) ==> p.text() == raw@,
    {
        match compile_xpath(raw.as_str()) {
            Ok(compiled) => Ok(ParsedXPath { raw, compiled }),
            Err(e) => Err(QueryError::Syntax(e)),
        }
    }

    /// The query's text.
    pub fn as_str(&self) -> (r: &str)
        ensures
            r@ == self.text(),
    {
        self.raw.as_str()
    }

    /// The compiled query: the one that `xpath::parse` gives for the text.
    pub fn to_xpath(&self) -> (r: &Xpath)
        ensures
            *r == compiled_of(self.text()),
            xpath_compiles(self.text()),
    {
        proof {
            use_type_invariant(self);
        }
        &self.compiled
    }
}

pub open spec fn option_view(o: Option<String>) -> Option<Seq<char>> {
    match o {
        Some(s) => Some(s@),
        None => None,
    }
}

/// Relies on skyscraper's `Xpath::apply`, at the root of the document; each
/// item is mapped to the value of the attribute node it is, if it is one.
#[verifier::external_body]
pub(crate) fn apply_at_root(query: &ParsedXPath, doc: &Document) -> (r: Result<
    Vec<Option<String>>,
    ExpressionApplyError,
>)
    ensures
        match r {
            Ok(v) => root_attribute_matches(query.text(), doc.source()) == Some(
                v@.map_values(|o: Option<String>| option_view(o)),
            ),
            Err(_) => root_attribute_matches(query.text(), doc.source()) is None,
        },
{
    let items = query.compiled.apply(&doc.tree)?;
    Ok(items.iter().map(|item| match item {
        XpathItem::Node(XpathItemTreeNode::AttributeNode(a)) => Some(a.value.clone()),
        _ => None,
    }).collect())
}

/// A parsed HTML document together with the text it was parsed from.
#[derive(Debug)]
pub struct Document {
    source: String,
    tree: XpathItemTree,
}

impl Document {
    pub closed spec fn source(&self) -> Seq<char> {
        self.source@
    }

    /// Parses an HTML text; malformed markup is tolerated by the parser.
    pub fn parse(text: String) -> (r: Result<Document, ParseError>)
        ensures
            r is Ok <==> html_parses(text@),
            r matches Ok(d) ==> d.source() == text@,
    {
        match parse_html(text.as_str()) {
            Ok(tree) => Ok(Document { source: text, tree }),
            Err(e) => Err(ParseError::Markup(e)),
        }
    }
}

/// A node of a document, with the steps that lead to it from the root.
///
/// Its fields are private and it is made only here: from the document's
/// root, and from the items and children that skyscraper hands back for
/// another node of the same document. So its node always belongs to its
/// document, and is the one that its steps lead to.
pub struct DocNode<'t> {
    doc: &'t Document,
    node: &'t XpathItemTreeNode,
    at: Ghost<Seq<Step>>,
}

/// Relies on skyscraper's `XpathItemTree::root`: the document node.
#[verifier::external_body]
fn root_of(doc: &Document) -> (r: &XpathItemTreeNode) {
    doc.tree.root()
}

/// Relies on skyscraper's `Xpath::apply_to_item`, with the node as the
/// context item; each item is kept as the tree node it is, or `None`.
#[verifier::external_body]
fn apply_at_node<'t>(query: &ParsedXPath, at: &DocNode<'t>) -> (r: Result<
    Vec<Option<&'t XpathItemTreeNode>>,
    ExpressionApplyError,
>)
    ensures
        match r {
            Ok(v) => query_items(query.text(), at.source(), at.route()) == Some(
                v@.map_values(|o: Option<&'t XpathItemTreeNode>| o is Some),
            ),
            Err(_) => query_items(query.text(), at.source(), at.route()) is None,
        },
{
    let items = query.compiled.apply_to_item(&at.doc.tree, XpathItem::Node(at.node))?;
    Ok(items.iter().map(|item| match item {
        XpathItem::Node(n) => Some(*n),
        _ => None,
    }).collect())
}

/// Relies on skyscraper's `XpathItemTreeNode::children`: the node's
/// children in document order, attribute nodes given as `None`.
#[verifier::external_body]
fn children_of<'t>(at: &DocNode<'t>) -> (r: Vec<Option<&'t XpathItemTreeNode>>)
    ensures
        r@.map_values(|o: Option<&'t XpathItemTreeNode>| o is None) == child_attributes(
            at.source(),
            at.route(),
        ),
{
    at.node.children(&at.doc.tree).into_iter().map(|n| match n {
        XpathItemTreeNode::AttributeNode(_) => None,
        _ => Some(n),
    }).collect()
}

/// Relies on skyscraper's `XpathItemTreeNode::text`: the text a node
/// carries (for an element, the text before its first child element).
#[verifier::external_body]
fn text_of(at: &DocNode) -> (r: Option<String>)
    ensures
        option_view(r) == node_text(at.source(), at.route()),
{
    at.node.text(&at.doc.tree)
}

/// Relies on the `Display` impl of skyscraper's `ExpressionApplyError`, to
/// describe a failed application.
#[verifier::external_body]
pub(crate) fn describe_apply_error(e: &ExpressionApplyError) -> (r: String) {
    e.to_string()
}

impl<'t> DocNode<'t> {
    /// The steps that lead to this node from the root.
    pub closed spec fn route(&self) -> Seq<Step> {
        self.at@
    }

    /// The text of the document this node belongs to.
    pub closed spec fn source(&self) -> Seq<char> {
        self.doc.source()
    }

    /// The root of a document.
    pub fn root(doc: &'t Document) -> (r: DocNode<'t>)
        ensures
            r.route() == Seq::<Step>::empty(),
            r.source() == doc.source(),
    {
        DocNode { doc, node: root_of(doc), at: Ghost(Seq::empty()) }
    }

    /// The items that a query yields at this node, in order: each tree node
    /// as a node of the same document, reached by a `Match` step, and `None`
    /// for an item that is not a tree node.
    pub fn query(&self, query: &ParsedXPath) -> (r: Result<
        Vec<Option<DocNode<'t>>>,
        ExpressionApplyError,
    >)
        ensures
            r is Err <==> query_items(query.text(), self.source(), self.route()) is None,
            r matches Ok(v) ==> {
                let flags = query_items(query.text(), self.source(), self.route())->Some_0;
                &&& v@.len() == flags.len()
                &&& forall|i: int|
                    0 <= i < v@.len() ==> {
                        &&& (#[trigger] v@[i] is Some) == flags[i]
                        &&& v@[i] matches Some(n) ==> n.source() == self.source() && n.route()
                            == self.route().push(Step::Match(query.text(), i as nat))
                    }
            },
    {
        let items = apply_at_node(query, self)?;
        let ghost flags = items@.map_values(|o: Option<&'t XpathItemTreeNode>| o is Some);
        let mut r: Vec<Option<DocNode<'t>>> = Vec::new();
        let mut i: usize = 0;
        while i < items.len()
            invariant
                i <= items@.len(),
                r@.len() == i,
                flags == items@.map_values(|o: Option<&'t XpathItemTreeNode>| o is Some),
                forall|j: int|
                    0 <= j < i ==> {
                        &&& (#[trigger] r@[j] is Some) == flags[j]
                        &&& r@[j] matches Some(n) ==> n.source() == self.source() && n.route()
                            == self.route().push(Step::Match(query.text(), j as nat))
                    },
            decreases items@.len() - i,
        {
            let next = match items[i] {
                Some(node) => Some(
                    DocNode {
                        doc: self.doc,
                        node,
                        at: Ghost(self.at@.push(Step::Match(query.text(), i as nat))),
                    },
                ),
                None => None,
            };
            r.push(next);
            i += 1;
        }
        Ok(r)
    }

    /// The children of this node in document order, each reached by a
    /// `Child` step; `None` for an attribute node.
    pub fn children(&self) -> (r: Vec<Option<DocNode<'t>>>)
        ensures
            r@.len() == child_attributes(self.source(), self.route()).len(),
            forall|i: int|
                0 <= i < r@.len() ==> {
                    &&& (#[trigger] r@[i] is None) == child_attributes(
                        self.source(),
                        self.route(),
                    )[i]
                    &&& r@[i] matches Some(n) ==> n.source() == self.source() && n.route()
                        == self.route().push(Step::Child(i as nat))
                },
    {
        let items = children_of(self);
        let ghost flags = items@.map_values(|o: Option<&'t XpathItemTreeNode>| o is None);
        let mut r: Vec<Option<DocNode<'t>>> = Vec::new();
        let mut i: usize = 0;
        while i < items.len()
            invariant
                i <= items@.len(),
                r@.len() == i,
                flags == items@.map_values(|o: Option<&'t XpathItemTreeNode>| o is None),
                forall|j: int|
                    0 <= j < i ==> {
                        &&& (#[trigger] r@[j] is None) == flags[j]
                        &&& r@[j] matches Some(n) ==> n.source() == self.source() && n.route()
                            == self.route().push(Step::Child(j as nat))
                    },
            decreases items@.len() - i,
        {
            let next = match items[i] {
                Some(node) => Some(
                    DocNode { doc: self.doc, node, at: Ghost(self.at@.push(Step::Child(i as nat))) },
                ),
                None => None,
            };
            r.push(next);
            i += 1;
        }
        r
    }

    /// The text this node carries, if any.
    pub fn text(&self) -> (r: Option<String>)
        ensures
            option_view(r) == node_text(self.source(), self.route()),
    {
        text_of(self)
    }
}

} // verus!
