use howto::answer::Answer;
use howto::bridge::Answers;
use howto::error::Error;
use howto::fanin::{Extracted, FanIn, Item};
use howto::pipeline::Pipeline;
use std::sync::mpsc::channel;

fn answer(link: &str) -> Answer {
    Answer { link: link.to_string(), full_text: String::new(), instruction: format!("run {}", link) }
}

fn found(link: &str) -> Extracted {
    Ok(Some(answer(link)))
}

fn links_of(items: &[Item]) -> Vec<String> {
    items
        .iter()
        .map(|i| match i {
            Ok(a) => a.link.clone(),
            Err(_) => "ERR".to_string(),
        })
        .collect()
}

fn drain(f: &mut FanIn) -> Vec<Item> {
    let mut out = Vec::new();
    while let Some(i) = f.pop() {
        out.push(i);
    }
    out
}

#[test]
fn no_links_yields_empty_sequence_at_once() {
    let mut f = FanIn::new(0);
    assert!(f.is_done());
    assert!(f.pop().is_none());
    assert!(f.pop().is_none());
}

#[test]
fn output_follows_link_order_not_completion_order() {
    let mut f = FanIn::new(3);
    f.complete(1, found("B"));
    assert!(f.pop().is_none());
    f.complete(0, found("A"));
    let first = drain(&mut f);
    assert_eq!(links_of(&first), vec!["A", "B"]);
    assert!(!f.is_done());
    f.complete(2, found("C"));
    let rest = drain(&mut f);
    assert_eq!(links_of(&rest), vec!["C"]);
    assert!(f.is_done());
}

#[test]
fn failing_link_keeps_its_slot() {
    let mut f = FanIn::new(5);
    f.complete(4, found("5"));
    f.complete(2, Err(Error::InLink("3".to_string(), Box::new(Error::Network("reset".to_string())))));
    f.complete(3, found("4"));
    f.complete(0, found("1"));
    f.complete(1, found("2"));
    let out = drain(&mut f);
    assert_eq!(out.len(), 5);
    assert_eq!(links_of(&out), vec!["1", "2", "ERR", "4", "5"]);
    assert!(matches!(&out[2], Err(Error::InLink(l, _)) if l == "3"));
    assert_eq!(out.iter().filter(|i| i.is_ok()).count(), 4);
    assert!(f.is_done());
}

#[test]
fn links_without_instruction_are_skipped() {
    let mut f = FanIn::new(3);
    f.complete(0, Ok(None));
    f.complete(2, found("C"));
    f.complete(1, Ok(None));
    assert_eq!(links_of(&drain(&mut f)), vec!["C"]);
    assert!(f.is_done());
}

#[test]
fn pipeline_runs_search_then_pages_in_link_order() {
    let (mut p, url) = Pipeline::start("read file lines?");
    assert_eq!(url, "https://www.google.com/search?q=site:stackoverflow.com%20read+file+lines");
    let results = "<div class=\"r\"><a href=\"https://x/1\">1</a></div>\
                   <div class=\"r\"><a href=\"https://x/2\">2</a></div>";
    let urls = p.on_search(Ok(results.to_string())).unwrap();
    assert_eq!(urls, vec!["https://x/1?answerstab=votes", "https://x/2?answerstab=votes"]);
    let second = "<div class=\"answer\"><pre>two</pre></div>".to_string();
    assert!(p.on_answer(1, Ok(second)).is_empty());
    let out = p.on_answer(0, Err(Error::Network("down".to_string())));
    assert_eq!(out.len(), 2);
    assert!(matches!(&out[0], Err(Error::InLink(l, _)) if l == "https://x/1"));
    match &out[1] {
        Ok(a) => {
            assert_eq!(a.link, "https://x/2");
            assert_eq!(a.instruction, "two");
        }
        Err(e) => panic!("unexpected {:?}", e),
    }
}

#[test]
fn pipeline_with_no_links_requests_nothing() {
    let (mut p, _) = Pipeline::start("nothing here");
    let urls = p.on_search(Ok("<html></html>".to_string())).unwrap();
    assert!(urls.is_empty());
}

#[test]
fn pipeline_search_failure_names_query() {
    let (mut p, _) = Pipeline::start("Read File");
    match p.on_search(Err(Error::Network("dns".to_string()))) {
        Err(Error::InQuery(q, _)) => assert_eq!(q, "read+file"),
        other => panic!("unexpected {:?}", other),
    }
}

#[test]
fn pull_after_finish_returns_none_without_blocking() {
    let (tx, rx) = channel::<Item>();
    tx.send(Ok(answer("A"))).unwrap();
    tx.send(Err(Error::Decode)).unwrap();
    drop(tx);
    let mut answers = Answers::new(rx);
    assert!(matches!(answers.next(), Some(Ok(ref a)) if a.link == "A"));
    assert!(matches!(answers.next(), Some(Err(Error::Decode))));
    assert!(answers.next().is_none());
    assert!(answers.next().is_none());
    assert!(answers.next().is_none());
}
