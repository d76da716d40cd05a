use url_fuzzer::classify::{classify, kind_label, ErrorKind, ErrorSignals};
use url_fuzzer::config::{ConfigError, FuzzConfig};
use url_fuzzer::engine::next_url;
use url_fuzzer::outcome::{classification_key, status_key, Outcome};
use url_fuzzer::queue::WorkQueue;
use url_fuzzer::stats::Statistics;
use url_fuzzer::text::{contains_placeholder, substitute};
use url_fuzzer::transport::classify_transport_error;
use url_fuzzer::writer::render;

fn signals(
    body: bool,
    decode: bool,
    status: bool,
    builder: bool,
    timeout: bool,
    redirect: bool,
) -> ErrorSignals {
    ErrorSignals { body, decode, status, builder, timeout, redirect }
}

#[test]
fn substitute_replaces_every_occurrence() {
    assert_eq!(substitute("http://a/@@/@@", "@@", "x"), "http://a/x/x");
}

#[test]
fn substitute_single_occurrence() {
    assert_eq!(substitute("http://example.test/@@", "@@", "admin"), "http://example.test/admin");
}

#[test]
fn substitute_without_placeholder_is_identity() {
    assert_eq!(substitute("http://a/b/c", "@@", "x"), "http://a/b/c");
}

#[test]
fn substitute_adjacent_occurrences() {
    assert_eq!(substitute("@@@@", "@@", "y"), "yy");
}

#[test]
fn substitute_empty_word_deletes_placeholder() {
    assert_eq!(substitute("http://a/@@/b", "@@", ""), "http://a//b");
}

#[test]
fn substitute_empty_template() {
    assert_eq!(substitute("", "@@", "x"), "");
}

#[test]
fn substitute_empty_placeholder_is_identity() {
    assert_eq!(substitute("http://a/b", "", "x"), "http://a/b");
}

#[test]
fn contains_placeholder_present() {
    assert!(contains_placeholder("http://example.test/@@", "@@"));
    assert!(contains_placeholder("@@", "@@"));
    assert!(contains_placeholder("a@@b", "@@"));
}

#[test]
fn contains_placeholder_absent() {
    assert!(!contains_placeholder("http://example.test/", "@@"));
    assert!(!contains_placeholder("", "@@"));
    assert!(!contains_placeholder("a@b", "@@"));
}

#[test]
fn missing_placeholder_is_rejected() {
    let cfg = FuzzConfig {
        template: "http://example.test/".to_string(),
        placeholder: "@@".to_string(),
        timeout_secs: 20,
        worker_count: 4,
        output_dir: "out".to_string(),
    };
    assert_eq!(cfg.validate(), Err(ConfigError::MissingPlaceholder));
}

#[test]
fn present_placeholder_is_accepted() {
    let cfg = FuzzConfig {
        template: "http://example.test/@@".to_string(),
        placeholder: "@@".to_string(),
        timeout_secs: 20,
        worker_count: 4,
        output_dir: "out".to_string(),
    };
    assert_eq!(cfg.validate(), Ok(()));
}

#[test]
fn classify_each_branch() {
    assert_eq!(classify(signals(true, false, false, false, false, false)), ErrorKind::Body);
    assert_eq!(classify(signals(false, true, false, false, false, false)), ErrorKind::Decode);
    assert_eq!(classify(signals(false, false, true, false, false, false)), ErrorKind::Status);
    assert_eq!(classify(signals(false, false, false, true, false, false)), ErrorKind::Builder);
    assert_eq!(classify(signals(false, false, false, false, true, false)), ErrorKind::Timeout);
    assert_eq!(classify(signals(false, false, false, false, false, true)), ErrorKind::Redirect);
    assert_eq!(classify(signals(false, false, false, false, false, false)), ErrorKind::Unknown);
}

#[test]
fn classify_ambiguity_resolves_to_higher_priority() {
    // A failure satisfying both the timeout and the redirect predicates
    // classifies as the higher-priority kind of the chain.
    assert_eq!(classify(signals(false, false, false, false, true, true)), ErrorKind::Timeout);
    // Earlier links of the chain win over later ones, whatever else holds.
    assert_eq!(classify(signals(true, true, true, true, true, true)), ErrorKind::Body);
    assert_eq!(classify(signals(false, true, true, false, false, false)), ErrorKind::Decode);
    assert_eq!(classify(signals(false, false, true, true, false, false)), ErrorKind::Status);
    assert_eq!(classify(signals(false, false, false, true, true, false)), ErrorKind::Builder);
}

#[test]
fn transport_builder_error_classifies_as_builder() {
    // An invalid URL makes the client fail while building the request,
    // without any network traffic; the failure satisfies the builder
    // predicate and must classify as such.
    let client = reqwest::blocking::Client::new();
    let err = client.get("http://[not-a-host").send().unwrap_err();
    assert_eq!(classify_transport_error(&err), ErrorKind::Builder);
}

#[test]
fn kind_labels() {
    assert_eq!(kind_label(&ErrorKind::Body).as_str(), "Body");
    assert_eq!(kind_label(&ErrorKind::Decode).as_str(), "Decode");
    assert_eq!(kind_label(&ErrorKind::Status).as_str(), "Status");
    assert_eq!(kind_label(&ErrorKind::Builder).as_str(), "Builder");
    assert_eq!(kind_label(&ErrorKind::Timeout).as_str(), "Timeout");
    assert_eq!(kind_label(&ErrorKind::Redirect).as_str(), "Redirect");
    assert_eq!(kind_label(&ErrorKind::Unknown).as_str(), "Unknown");
}

#[test]
fn status_key_writes_decimal() {
    assert_eq!(status_key(200).as_str(), "200");
    assert_eq!(status_key(404).as_str(), "404");
    assert_eq!(status_key(0).as_str(), "0");
    assert_eq!(status_key(7).as_str(), "7");
    assert_eq!(status_key(65535).as_str(), "65535");
}

#[test]
fn classification_key_of_outcomes() {
    let ok = Outcome::Success { status_code: 301, url: "http://a/x".to_string() };
    assert_eq!(classification_key(&ok).as_str(), "301");
    let err = Outcome::Failure { kind: ErrorKind::Timeout, url: "http://a/y".to_string() };
    assert_eq!(classification_key(&err).as_str(), "Timeout");
}

#[test]
fn queue_serves_each_word_once_then_empty() {
    let words = vec!["a".to_string(), "b".to_string(), "c".to_string()];
    let mut q = WorkQueue::load(words);
    assert_eq!(q.remaining_count(), 3);
    assert_eq!(q.take_one().as_deref(), Some("a"));
    assert_eq!(q.take_one().as_deref(), Some("b"));
    assert_eq!(q.remaining_count(), 1);
    assert_eq!(q.take_one().as_deref(), Some("c"));
    assert_eq!(q.take_one(), None);
    assert_eq!(q.take_one(), None);
    assert_eq!(q.remaining_count(), 0);
}

#[test]
fn queue_keeps_empty_lines_as_words() {
    let words = vec!["".to_string(), "x".to_string()];
    let mut q = WorkQueue::load(words);
    assert_eq!(q.take_one().as_deref(), Some(""));
    assert_eq!(q.take_one().as_deref(), Some("x"));
    assert_eq!(q.take_one(), None);
}

#[test]
fn queue_interleaved_takers_never_share_an_item() {
    // Two takers drain one queue in an arbitrary interleaving; every take
    // is one atomic step, so no word reaches both and none is dropped.
    let words: Vec<String> = (0..20).map(|i| format!("w{}", i)).collect();
    let mut q = WorkQueue::load(words.clone());
    let mut first: Vec<String> = Vec::new();
    let mut second: Vec<String> = Vec::new();
    let mut turn = 0;
    loop {
        let taken = match q.take_one() {
            Some(w) => w,
            None => break,
        };
        if turn % 3 == 0 {
            first.push(taken);
        } else {
            second.push(taken);
        }
        turn += 1;
    }
    assert_eq!(first.len() + second.len(), words.len());
    for w in &words {
        let in_first = first.contains(w);
        let in_second = second.contains(w);
        assert!(in_first != in_second, "word {} must reach exactly one taker", w);
    }
}

#[test]
fn stats_appends_in_completion_order() {
    let mut stats = Statistics::new();
    stats.record("200".to_string(), "http://a/1".to_string());
    stats.record("404".to_string(), "http://a/2".to_string());
    stats.record("200".to_string(), "http://a/3".to_string());
    assert_eq!(stats.key_count(), 2);
    assert_eq!(stats.key_at(0).as_str(), "200");
    assert_eq!(stats.key_at(1).as_str(), "404");
    let under_200 = stats.get(&"200".to_string()).expect("key 200 present");
    assert_eq!(under_200, &vec!["http://a/1".to_string(), "http://a/3".to_string()]);
    let under_404 = stats.get(&"404".to_string()).expect("key 404 present");
    assert_eq!(under_404, &vec!["http://a/2".to_string()]);
    assert_eq!(stats.get(&"500".to_string()), None);
}

#[test]
fn stats_records_every_outcome_exactly_once() {
    // One outcome per word, whatever the order: the union of all lists
    // holds exactly as many URLs as outcomes were recorded.
    let mut stats = Statistics::new();
    let outcomes = vec![
        Outcome::Success { status_code: 200, url: "http://a/1".to_string() },
        Outcome::Failure { kind: ErrorKind::Timeout, url: "http://a/2".to_string() },
        Outcome::Success { status_code: 200, url: "http://a/3".to_string() },
        Outcome::Success { status_code: 404, url: "http://a/4".to_string() },
        Outcome::Failure { kind: ErrorKind::Timeout, url: "http://a/5".to_string() },
    ];
    let total = outcomes.len();
    for o in outcomes {
        stats.record_outcome(o);
    }
    let mut counted = 0;
    for i in 0..stats.key_count() {
        counted += stats.urls_at(i).len();
    }
    assert_eq!(counted, total);
}

#[test]
fn snapshot_is_a_consistent_full_copy() {
    let mut stats = Statistics::new();
    stats.record("200".to_string(), "http://a/1".to_string());
    stats.record("Timeout".to_string(), "http://a/2".to_string());
    let snap = stats.snapshot();
    stats.record("200".to_string(), "http://a/3".to_string());
    assert_eq!(snap.key_count(), 2);
    assert_eq!(snap.get(&"200".to_string()).unwrap(), &vec!["http://a/1".to_string()]);
    assert_eq!(snap.get(&"Timeout".to_string()).unwrap(), &vec!["http://a/2".to_string()]);
    assert_eq!(stats.get(&"200".to_string()).unwrap().len(), 2);
}

#[test]
fn render_writes_one_file_per_key() {
    let mut stats = Statistics::new();
    stats.record("200".to_string(), "http://a/1".to_string());
    stats.record("200".to_string(), "http://a/2".to_string());
    stats.record("Timeout".to_string(), "http://a/3".to_string());
    let files = render(&stats);
    assert_eq!(files.len(), 2);
    assert_eq!(files[0].0.as_str(), "200.txt");
    assert_eq!(files[0].1.as_str(), "http://a/1\nhttp://a/2\n");
    assert_eq!(files[1].0.as_str(), "Timeout.txt");
    assert_eq!(files[1].1.as_str(), "http://a/3\n");
}

#[test]
fn render_of_empty_statistics_is_empty() {
    let stats = Statistics::new();
    assert_eq!(render(&stats).len(), 0);
}

#[test]
fn end_to_end_stubbed_run() {
    // Template "http://example.test/@@", wordlist ["a", "b", "c"], a stub
    // executor answering 200 for "a", 404 for "b", a timeout for "c".
    let template = "http://example.test/@@";
    let placeholder = "@@";
    let words = vec!["a".to_string(), "b".to_string(), "c".to_string()];
    let mut q = WorkQueue::load(words);
    let mut stats = Statistics::new();
    loop {
        let url = match next_url(&mut q, template, placeholder) {
            Some(url) => url,
            None => break,
        };
        let outcome = match url.as_str() {
            "http://example.test/a" => Outcome::Success { status_code: 200, url },
            "http://example.test/b" => Outcome::Success { status_code: 404, url },
            "http://example.test/c" => {
                Outcome::Failure { kind: ErrorKind::Timeout, url }
            },
            other => panic!("unexpected url {}", other),
        };
        stats.record_outcome(outcome);
    }
    let snap = stats.snapshot();
    assert_eq!(snap.key_count(), 3);
    assert_eq!(snap.get(&"200".to_string()).unwrap(), &vec!["http://example.test/a".to_string()]);
    assert_eq!(snap.get(&"404".to_string()).unwrap(), &vec!["http://example.test/b".to_string()]);
    assert_eq!(
        snap.get(&"Timeout".to_string()).unwrap(),
        &vec!["http://example.test/c".to_string()]
    );
    let files = render(&snap);
    assert_eq!(files.len(), 3);
    assert_eq!(files[0].0.as_str(), "200.txt");
    assert_eq!(files[0].1.as_str(), "http://example.test/a\n");
    assert_eq!(files[1].0.as_str(), "404.txt");
    assert_eq!(files[1].1.as_str(), "http://example.test/b\n");
    assert_eq!(files[2].0.as_str(), "Timeout.txt");
    assert_eq!(files[2].1.as_str(), "http://example.test/c\n");
}
