use crate::document::{html_parses, option_view, Document, ParseError};
use crate::document::Step;
use crate::evaluate::{fields_result, index_keyed, ResultTree};
use crate::job::{resolved, Continuation, Targets};
use crate::job::{Resource, ResourceView};
use std::collections::VecDeque;
use vstd::prelude::*;
use vstd::string::*;

verus! {

/// The path of the URL whose text is `href`; `None` if it does not parse.
pub uninterp spec fn url_path(href: Seq<char>) -> Option<Seq<char>>;

/// The text of the URL `href` with its path replaced by `path`; `None` if
/// `href` does not parse.
pub uninterp spec fn url_with_path(href: Seq<char>, path: Seq<char>) -> Option<Seq<char>>;

/// Relies on url's `Url::path`, of the URL that `Url::parse` reads from
/// `href`.
#[verifier::external_body]
fn path_of_url(href: &str) -> (r: Option<String>)
    ensures
        option_view(r) == url_path(href@),
{
    let u = url::Url::parse(href).ok()?;
    Some(u.path().to_owned())
}

/// Relies on url's `Url::set_path`, on the URL that `Url::parse` reads from
/// `href`; the result is given back as its text.
#[verifier::external_body]
fn replace_url_path(href: &str, path: &str) -> (r: Option<String>)
    ensures
        option_view(r) == url_with_path(href@, path@),
{
    let mut u = url::Url::parse(href).ok()?;
    u.set_path(path);
    Some(u.into())
}

/// Relies on `String::push`: the character is appended.
#[verifier::external_body]
pub(crate) fn push_char(s: &mut String, c: char)
    ensures
        final(s)@ == old(s)@.push(c),
{
    s.push(c)
}

/// The path up to and including its last `/`; empty when it has none.
pub open spec fn dir_prefix(p: Seq<char>) -> Seq<char>
    decreases p.len(),
{
    if p.len() == 0 || p.last() == '/' {
        p
    } else {
        dir_prefix(p.drop_last())
    }
}

/// A continuation string applied to a path: one that starts with `/`
/// replaces the path from the root; any other replaces the last segment.
pub open spec fn joined(base: Seq<char>, cont: Seq<char>) -> Seq<char> {
    if cont.len() > 0 && cont[0] == '/' {
        cont
    } else {
        dir_prefix(base) + cont
    }
}

proof fn lemma_dir_prefix_ends(p: Seq<char>)
    requires
        p.len() == 0 || p.last() == '/',
    ensures
        dir_prefix(p) == p,
{
}

/// Appends the characters of `s` to `r`.
fn push_all(r: &mut String, s: &str)
    ensures
        final(r)@ == old(r)@ + s@,
{
    let n = s.unicode_len();
    let mut i: usize = 0;
    while i < n
        invariant
            n == s@.len(),
            i <= n,
            r@ == old(r)@ + s@.subrange(0, i as int),
        decreases n - i,
    {
        push_char(r, s.get_char(i));
        proof {
            assert(s@.subrange(0, i + 1) == s@.subrange(0, i as int).push(s@[i as int]));
        }
        i += 1;
    }
    assert(s@.subrange(0, n as int) == s@);
}

/// The path that a continuation string leads to from `base`.
pub fn join_path(base: &str, cont: &str) -> (r: String)
    ensures
        r@ == joined(base@, cont@),
{
    let clen = cont.unicode_len();
    if clen > 0 && cont.get_char(0) == '/' {
        return cont.to_owned();
    }
    let blen = base.unicode_len();
    let mut k: usize = blen;
    assert(base@.subrange(0, blen as int) == base@);
    while k > 0 && base.get_char(k - 1) != '/'
        invariant
            blen == base@.len(),
            k <= blen,
            dir_prefix(base@) == dir_prefix(base@.subrange(0, k as int)),
        decreases k,
    {
        proof {
            assert(base@.subrange(0, k as int).drop_last() == base@.subrange(0, k - 1));
        }
        k -= 1;
    }
    assert(base@.subrange(0, blen as int) == base@);
    proof {
        lemma_dir_prefix_ends(base@.subrange(0, k as int));
    }
    let mut r = String::new();
    let mut i: usize = 0;
    while i < k
        invariant
            blen == base@.len(),
            k <= blen,
            i <= k,
            r@ == base@.subrange(0, i as int),
        decreases k - i,
    {
        push_char(&mut r, base.get_char(i));
        proof {
            assert(base@.subrange(0, i + 1) == base@.subrange(0, i as int).push(base@[i as int]));
        }
        i += 1;
    }
    push_all(&mut r, cont);
    r
}

/// The resource that a continuation string leads to from `from`: for a URL,
/// the URL with its path joined with the string; none for a local file, or
/// when the URL does not parse.
pub open spec fn continued(from: ResourceView, cont: Seq<char>) -> Option<ResourceView> {
    match from {
        ResourceView::Url(href) => match url_path(href) {
            Some(p) => match url_with_path(href, joined(p, cont)) {
                Some(next) => Some(ResourceView::Url(next)),
                None => None,
            },
            None => None,
        },
        ResourceView::Path(_) => None,
    }
}

/// The resources that the continuation strings lead to from `from`, in
/// order.
pub open spec fn expansions(from: ResourceView, conts: Seq<Seq<char>>) -> Seq<ResourceView>
    decreases conts.len(),
{
    if conts.len() == 0 {
        seq![]
    } else {
        let rest = expansions(from, conts.drop_last());
        match continued(from, conts.last()) {
            Some(r) => rest.push(r),
            None => rest,
        }
    }
}

impl Resource {
    /// The resource a continuation string leads to from this one.
    pub fn continue_with(&self, cont: &str) -> (r: Option<Resource>)
        ensures
            match r {
                Some(n) => continued(self@, cont@) == Some(n@),
                None => continued(self@, cont@) is None,
            },
    {
        match self {
            Resource::Url(href) => match path_of_url(href.as_str()) {
                Some(p) => {
                    let path = join_path(p.as_str(), cont);
                    match replace_url_path(href.as_str(), path.as_str()) {
                        Some(next) => Some(Resource::Url(next)),
                        None => None,
                    }
                },
                None => None,
            },
            Resource::Path(_) => None,
        }
    }
}

/// The resources still to visit in one polling cycle, first in first out.
#[derive(Debug)]
pub struct CrawlQueue {
    pending: VecDeque<Resource>,
}

impl View for CrawlQueue {
    type V = Seq<ResourceView>;

    closed spec fn view(&self) -> Seq<ResourceView> {
        self.pending@.map_values(|r: Resource| r@)
    }
}

impl CrawlQueue {
    /// A queue that holds the job's base resource alone.
    pub fn seed(resource: Resource) -> (r: CrawlQueue)
        ensures
            r@ == seq![resource@],
    {
        let mut pending: VecDeque<Resource> = VecDeque::new();
        pending.push_back(resource);
        let r = CrawlQueue { pending };
        assert(r@ =~= seq![resource@]);
        r
    }

    pub fn is_empty(&self) -> (r: bool)
        ensures
            r == (self@.len() == 0),
    {
        self.pending.len() == 0
    }

    /// Takes the resource at the front.
    pub fn next(&mut self) -> (r: Option<Resource>)
        ensures
            old(self)@.len() == 0 ==> r is None && final(self)@ == old(self)@,
            old(self)@.len() > 0 ==> (r matches Some(x) && x@ == old(self)@[0]),
            old(self)@.len() > 0 ==> final(self)@ == old(self)@.drop_first(),
    {
        let r = self.pending.pop_front();
        assert(self@ =~= old(self)@.drop_first() || old(self)@.len() == 0);
        r
    }

    /// Appends the resources that the continuation strings found on `from`
    /// lead to, in order, and says how many were appended. A local file
    /// leads nowhere.
    pub fn expand(&mut self, from: &Resource, continuations: &Vec<String>) -> (r: usize)
        ensures
            final(self)@ == old(self)@ + expansions(
                from@,
                continuations@.map_values(|s: String| s@),
            ),
            r == final(self)@.len() - old(self)@.len(),
    {
        let ghost conts = continuations@.map_values(|s: String| s@);
        let mut added: usize = 0;
        let mut i: usize = 0;
        while i < continuations.len()
            invariant
                i <= continuations@.len(),
                conts == continuations@.map_values(|s: String| s@),
                self@ == old(self)@ + expansions(from@, conts.subrange(0, i as int)),
                added == self@.len() - old(self)@.len(),
                added <= i,
            decreases continuations@.len() - i,
        {
            assert(conts.subrange(0, i + 1).drop_last() == conts.subrange(0, i as int));
            match from.continue_with(continuations[i].as_str()) {
                Some(next) => {
                    let ghost before = self@;
                    self.pending.push_back(next);
                    assert(self@ =~= before.push(next@));
                    added = added + 1;
                },
                None => {},
            }
            assert(self@ =~= old(self)@ + expansions(from@, conts.subrange(0, i + 1)));
            i += 1;
        }
        assert(conts.subrange(0, continuations@.len() as int) == conts);
        added
    }
}

/// What one fetched document gave: the extracted fields, the continuation
/// strings, and why the continuation query failed, if it did.
#[derive(Debug)]
pub struct Visit {
    pub result: ResultTree,
    pub continuations: Vec<String>,
    pub continuation_error: Option<String>,
}

/// Parses a fetched text, evaluates the fields against its root and
/// resolves its continuation strings.
pub fn visit(text: String, targets: &Targets, continuation: &Continuation) -> (r: Result<
    Visit,
    ParseError,
>)
    ensures
        r is Ok <==> html_parses(text@),
        r matches Ok(v) ==> {
            &&& index_keyed(v.result, 1)
            &&& fields_result(*targets, text@, Seq::<Step>::empty(), v.result->Group_0@[0].1)
            &&& v.continuations@.map_values(|s: String| s@) == resolved(
                continuation.query(),
                text@,
            )
        },
{
    let doc = Document::parse(text)?;
    let result = targets.evaluate(&doc);
    let (continuations, continuation_error) = continuation.resolve(&doc);
    Ok(Visit { result, continuations, continuation_error })
}

/// A local file leads to no further resource, whatever continuation
/// strings were found on it.
pub proof fn lemma_path_never_expands(path: Seq<char>, conts: Seq<Seq<char>>)
    ensures
        expansions(ResourceView::Path(path), conts) == Seq::<ResourceView>::empty(),
    decreases conts.len(),
{
    if conts.len() > 0 {
        lemma_path_never_expands(path, conts.drop_last());
    }
}

} // verus!
