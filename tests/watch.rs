use wetcher::{
    evaluate_fields, evaluate_nodes, join_path, leaf_result, visit, CmdArgs, Continuation,
    CrawlQueue, DocNode, Document, Key, ParsedXPath,
    Resource, ResultTree, Target, Targets, Then, Ticker, Value, ValueExtractor,
};

fn query(text: &str) -> ParsedXPath {
    ParsedXPath::parse(text.to_string()).expect("query should compile")
}

fn extract(path: &str) -> Target {
    Target::Single { path: query(path), then: Then::Extract(ValueExtractor::Text) }
}

fn descend(path: &str, sub: Targets) -> Target {
    Target::Single { path: query(path), then: Then::Get(sub) }
}

fn fields(list: Vec<(&str, Target)>) -> Targets {
    Targets(list.into_iter().map(|(name, t)| (name.to_string(), t)).collect())
}

fn group(r: &ResultTree) -> &Vec<(Key, ResultTree)> {
    match r {
        ResultTree::Group(entries) => entries,
        other => panic!("expected a group, found {:?}", other),
    }
}

fn values(r: &ResultTree) -> &Vec<Value> {
    match r {
        ResultTree::Values(v) => v,
        other => panic!("expected values, found {:?}", other),
    }
}

fn no_continuation() -> Continuation {
    Continuation::Ref(query("//a/@href"))
}

#[test]
fn single_title_scenario() {
    let targets = fields(vec![("title", extract("//h1"))]);
    let v = visit("<h1>Hello</h1>".to_string(), &targets, &no_continuation()).unwrap();
    let top = group(&v.result);
    assert_eq!(top.len(), 1);
    assert_eq!(top[0].0, Key::Index(0));
    let record = group(&top[0].1);
    assert_eq!(record.len(), 1);
    assert_eq!(record[0].0, Key::Field("title".to_string()));
    assert_eq!(values(&record[0].1), &vec![Value::String("Hello".to_string())]);
    assert!(v.continuations.is_empty());
}

#[test]
fn node_set_fans_out_by_ordinal() {
    let targets = fields(vec![(
        "items",
        descend("//li", fields(vec![("text", extract("text()"))])),
    )]);
    let html = "<ul><li>a</li><li>b</li><li>c</li></ul>";
    let v = visit(html.to_string(), &targets, &no_continuation()).unwrap();
    let record = group(&group(&v.result)[0].1);
    assert_eq!(record[0].0, Key::Field("items".to_string()));
    let items = group(&record[0].1);
    assert_eq!(items.len(), 3);
    for (i, expected) in ["a", "b", "c"].iter().enumerate() {
        assert_eq!(items[i].0, Key::Index(i));
        let inner = group(&items[i].1);
        assert_eq!(inner[0].0, Key::Field("text".to_string()));
        assert_eq!(values(&inner[0].1), &vec![Value::String(expected.to_string())]);
    }
}

#[test]
fn each_has_one_entry_per_child() {
    let targets = fields(vec![(
        "list",
        descend("//ul", fields(vec![("kids", Target::Each(fields(vec![("t", extract("text()"))])))])),
    )]);
    let html = "<ul><li>a</li><li>b</li><li>c</li></ul>";
    let v = visit(html.to_string(), &targets, &no_continuation()).unwrap();
    let record = group(&group(&v.result)[0].1);
    let lists = group(&record[0].1);
    assert_eq!(lists.len(), 1);
    let ul = group(&lists[0].1);
    assert_eq!(ul[0].0, Key::Field("kids".to_string()));
    let kids = group(&ul[0].1);
    assert_eq!(kids.len(), 3);
    for (i, expected) in ["a", "b", "c"].iter().enumerate() {
        assert_eq!(kids[i].0, Key::Index(i));
        let child = group(&kids[i].1);
        assert_eq!(values(&child[0].1), &vec![Value::String(expected.to_string())]);
    }
}

#[test]
fn failing_field_leaves_siblings() {
    let targets = fields(vec![
        ("a", extract("//h1")),
        ("b", extract("nosuchfunction()")),
        ("c", extract("//p")),
    ]);
    let html = "<h1>Head</h1><p>Body</p>";
    let v = visit(html.to_string(), &targets, &no_continuation()).unwrap();
    let record = group(&group(&v.result)[0].1);
    assert_eq!(record.len(), 3);
    assert_eq!(record[0].0, Key::Field("a".to_string()));
    assert_eq!(values(&record[0].1), &vec![Value::String("Head".to_string())]);
    assert_eq!(record[1].0, Key::Field("b".to_string()));
    assert!(matches!(record[1].1, ResultTree::EvalError(_)));
    assert_eq!(record[2].0, Key::Field("c".to_string()));
    assert_eq!(values(&record[2].1), &vec![Value::String("Body".to_string())]);
}

#[test]
fn zero_matches_give_an_empty_group() {
    let targets = fields(vec![("rows", descend("//tr", fields(vec![("x", extract("text()"))])))]);
    let v = visit("<p>none</p>".to_string(), &targets, &no_continuation()).unwrap();
    let record = group(&group(&v.result)[0].1);
    assert!(group(&record[0].1).is_empty());
}

#[test]
fn continuation_resolution_repeats() {
    let html = "<a href=\"/list/page2\">next</a><a href=\"page3\">later</a>";
    let doc = Document::parse(html.to_string()).unwrap();
    let rule = Continuation::Ref(query("//a/@href"));
    let first = rule.evaluate(&doc);
    let second = rule.evaluate(&doc);
    assert_eq!(first, vec!["/list/page2".to_string(), "page3".to_string()]);
    assert_eq!(first, second);
}

#[test]
fn continuation_failure_is_reported_not_fatal() {
    let doc = Document::parse("<p>x</p>".to_string()).unwrap();
    let rule = Continuation::Ref(query("nosuchfunction()"));
    let (found, error) = rule.resolve(&doc);
    assert!(found.is_empty());
    assert!(error.is_some());
}

#[test]
fn attribute_values_keep_order() {
    let items = vec![Some("x".to_string()), None, Some("y".to_string())];
    assert_eq!(Continuation::attribute_values(&items), vec!["x".to_string(), "y".to_string()]);
}

#[test]
fn url_continuation_from_root() {
    let base = Resource::Url("https://example.com/list/page1".to_string());
    assert_eq!(
        base.continue_with("/list/page2"),
        Some(Resource::Url("https://example.com/list/page2".to_string()))
    );
}

#[test]
fn url_continuation_replaces_last_segment() {
    let base = Resource::Url("https://example.com/list/page1".to_string());
    assert_eq!(
        base.continue_with("page2"),
        Some(Resource::Url("https://example.com/list/page2".to_string()))
    );
}

#[test]
fn join_path_cases() {
    assert_eq!(join_path("/list/page1", "/list/page2"), "/list/page2");
    assert_eq!(join_path("/list/page1", "page2"), "/list/page2");
    assert_eq!(join_path("/list/", "page2"), "/list/page2");
    assert_eq!(join_path("page1", "page2"), "page2");
    assert_eq!(join_path("/a/b", ""), "/a/");
}

#[test]
fn local_path_never_expands() {
    let from = Resource::Path("./page.html".to_string());
    let mut queue = CrawlQueue::seed(from.clone());
    let current = queue.next().unwrap();
    assert_eq!(current, from);
    let added = queue.expand(&current, &vec!["page2".to_string(), "/x".to_string()]);
    assert_eq!(added, 0);
    assert!(queue.is_empty());
    assert!(queue.next().is_none());
}

#[test]
fn crawl_queue_is_first_in_first_out() {
    let base = Resource::Url("https://example.com/list/page1".to_string());
    let mut queue = CrawlQueue::seed(base.clone());
    let current = queue.next().unwrap();
    let added = queue.expand(&current, &vec!["page2".to_string(), "/other/page3".to_string()]);
    assert_eq!(added, 2);
    assert_eq!(queue.next(), Some(Resource::Url("https://example.com/list/page2".to_string())));
    assert_eq!(queue.next(), Some(Resource::Url("https://example.com/other/page3".to_string())));
    assert_eq!(queue.next(), None);
}

fn runs_within(period_ms: u64, window_ms: u64) -> usize {
    let mut ticker = Ticker::new(0, period_ms);
    let mut runs = 0;
    let mut now: u64 = 0;
    while now <= window_ms {
        if ticker.tick(now) {
            runs += 1;
        }
        now += 100;
    }
    runs
}

#[test]
fn ticker_counts_over_ten_seconds() {
    let fast = runs_within(1000, 10_000);
    let slow = runs_within(5000, 10_000);
    assert!((9..=10).contains(&fast));
    assert!((1..=2).contains(&slow));
}

#[test]
fn ticker_first_tick_after_one_period() {
    let mut ticker = Ticker::new(1000, 500);
    assert_eq!(ticker.next_due(), 1500);
    assert!(!ticker.tick(1000));
    assert!(!ticker.tick(1499));
    assert!(ticker.tick(1500));
    assert_eq!(ticker.next_due(), 2000);
}

#[test]
fn slow_run_delays_next_tick() {
    let mut ticker = Ticker::new(0, 1000);
    assert!(ticker.tick(2700));
    assert_eq!(ticker.next_due(), 3700);
    assert!(!ticker.tick(3000));
}

#[test]
fn ticker_saturates() {
    let ticker = Ticker::new(u64::MAX - 1, 10);
    assert_eq!(ticker.next_due(), u64::MAX);
}

#[test]
fn extract_marks_missing_text_unknown() {
    let texts = vec![Some("a".to_string()), None];
    assert_eq!(
        ValueExtractor::Text.extract(&texts),
        vec![Value::String("a".to_string()), Value::Unknown]
    );
    assert_eq!(Value::Unknown.to_display_string(), "?");
    assert_eq!(Value::String("b".to_string()).to_display_string(), "b");
}

#[test]
fn leaf_result_keeps_the_error() {
    match leaf_result(&ValueExtractor::Text, Err("boom".to_string())) {
        ResultTree::EvalError(e) => assert_eq!(e, "boom"),
        other => panic!("unexpected {:?}", other),
    }
}

#[test]
fn malformed_query_is_refused() {
    assert!(ParsedXPath::parse("//[".to_string()).is_err());
    assert_eq!(query("//h1").as_str(), "//h1");
}

#[test]
fn cmd_args_default_config() {
    assert_eq!(CmdArgs::default().config, "./config");
}

#[test]
fn key_labels() {
    assert_eq!(Key::Index(0).label(), "[0]");
    assert_eq!(Key::Index(7).label(), "[7]");
    assert_eq!(Key::Index(10).label(), "[10]");
    assert_eq!(Key::Index(305).label(), "[305]");
    assert_eq!(Key::Field("title".to_string()).label(), "title");
}

#[test]
fn each_skips_attribute_nodes() {
    let targets = fields(vec![(
        "list",
        descend("//ul", fields(vec![("kids", Target::Each(fields(vec![])))])),
    )]);
    let html = "<ul class=\"menu\" id=\"m\"><li>a</li><li>b</li></ul>";
    let v = visit(html.to_string(), &targets, &no_continuation()).unwrap();
    let record = group(&group(&v.result)[0].1);
    let ul = group(&group(&record[0].1)[0].1);
    assert_eq!(group(&ul[0].1).len(), 2);
}

#[test]
fn node_handles_follow_the_document() {
    let doc = Document::parse("<ul><li>a</li><li>b</li></ul>".to_string()).unwrap();
    let root = DocNode::root(&doc);
    let items = root.query(&query("//li")).ok().unwrap();
    assert_eq!(items.len(), 2);
    let first = items[0].as_ref().unwrap();
    assert_eq!(first.text(), Some("a".to_string()));
    let kids = first.children();
    assert_eq!(kids.len(), 1);
    assert_eq!(kids[0].as_ref().unwrap().text(), Some("a".to_string()));
    assert!(root.query(&query("nosuchfunction()")).is_err());
}

#[test]
fn evaluating_twice_gives_the_same_result() {
    let doc = Document::parse("<ul><li>a</li><li>b</li></ul>".to_string()).unwrap();
    let targets = fields(vec![("t", extract("//li"))]);
    let root = DocNode::root(&doc);
    let once = format!("{:?}", evaluate_fields(&root, &targets));
    let twice = format!("{:?}", evaluate_fields(&root, &targets));
    assert_eq!(once, twice);
    let items = root.query(&query("//li")).ok().unwrap();
    let per_item = evaluate_nodes(&items, &fields(vec![("x", extract("text()"))]));
    assert_eq!(group(&per_item).len(), 2);
}

#[test]
fn targets_insert_keeps_order_and_replaces() {
    let mut targets = Targets::new();
    targets.insert("a".to_string(), extract("//h1"));
    targets.insert("b".to_string(), extract("//p"));
    targets.insert("a".to_string(), extract("//h2"));
    assert_eq!(targets.0.len(), 2);
    assert_eq!(targets.0[0].0, "a");
    assert_eq!(targets.0[1].0, "b");
    match &targets.0[0].1 {
        Target::Single { path, .. } => assert_eq!(path.as_str(), "//h2"),
        other => panic!("unexpected {:?}", other),
    }
}

#[test]
fn adding_a_failing_field_keeps_siblings() {
    let doc = Document::parse("<h1>Head</h1><p>Body</p>".to_string()).unwrap();
    let root = DocNode::root(&doc);
    let one = evaluate_fields(&root, &fields(vec![("a", extract("//h1"))]));
    let two = evaluate_fields(
        &root,
        &fields(vec![("a", extract("//h1")), ("b", extract("nosuchfunction()"))]),
    );
    assert_eq!(group(&two).len(), 2);
    assert_eq!(format!("{:?}", group(&one)[0]), format!("{:?}", group(&two)[0]));
    assert!(matches!(group(&two)[1].1, ResultTree::EvalError(_)));
}
