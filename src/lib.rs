//! A periodic watcher of HTML documents: a recursive description of what to
//! extract, an evaluator that walks a parsed document with it, the rule that
//! derives the next pages to visit, and the per-job crawl and timer decisions.
mod cmd;
mod crawl;
mod document;
mod evaluate;
mod job;
mod schedule;

pub use cmd::CmdArgs;
pub use crawl::{
    continued, dir_prefix, expansions, join_path, joined, lemma_path_never_expands, visit,
    CrawlQueue, Visit,
};
pub use document::{
    child_attributes, compiled_of, html_parses, node_text, query_items, root_attribute_matches,
    xpath_compiles, DocNode, Document, ParseError, ParsedXPath, QueryError, Step,
};
pub use evaluate::{
    decimal, digit, evaluate_children, evaluate_fields, evaluate_nodes, evaluate_target,
    fields_result, index_keyed, kept_children, key_label, leaf_result,
    lemma_added_field_keeps_siblings, lemma_field_isolated, lemma_fields_result_unique,
    lemma_group_keys_unique, lemma_target_result_unique, same_result, target_result,
    value_matches, value_text, Key, ResultTree,
};
pub use job::{
    attribute_values, lemma_resolve_repeatable, resolved, value_of, Continuation, Job, Resource,
    ResourceView, Target, Targets, Then, Value, ValueExtractor,
};
pub use schedule::{lemma_runs_in_window, on_time_runs, saturating_sum, Ticker};
