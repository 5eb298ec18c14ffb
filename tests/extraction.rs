use howto::answer::compose_answer;
use howto::body::decode_body;
use howto::error::Error;
use howto::page::{extract_answer, find_links, join_texts, keep_present};
use howto::query::{answer_url, normalize_query, search_url};

fn page(answer_body: &str) -> String {
    format!(
        "<html><body><div class=\"question\"><pre>question code</pre></div>\
         <div class=\"answer\">{}</div>\
         <div class=\"answer\"><pre>second answer</pre></div></body></html>",
        answer_body
    )
}

#[test]
fn query_normalizes_to_plus_separated_slug() {
    assert_eq!(normalize_query("read file lines?"), "read+file+lines");
}

#[test]
fn query_normalization_collapses_runs_and_case() {
    assert_eq!(normalize_query("  Parse  JSON, in Rust!! "), "parse+json+in+rust");
    assert_eq!(normalize_query(""), "");
    assert_eq!(normalize_query("?!"), "");
}

#[test]
fn search_url_embeds_normalized_query() {
    let slug = normalize_query("read file lines?");
    assert_eq!(
        search_url(&slug),
        "https://www.google.com/search?q=site:stackoverflow.com%20read+file+lines"
    );
}

#[test]
fn answer_url_sorts_by_votes() {
    assert_eq!(
        answer_url("https://stackoverflow.com/questions/1"),
        "https://stackoverflow.com/questions/1?answerstab=votes"
    );
}

#[test]
fn code_block_without_prose_gives_empty_full_text() {
    let p = page("<pre><code>cat file.txt</code></pre>");
    let r = extract_answer("L", Ok(p)).unwrap().unwrap();
    assert_eq!(r.instruction, "cat file.txt");
    assert_eq!(r.full_text, "");
    assert_eq!(r.link, "L");
}

#[test]
fn prose_without_code_gives_nothing() {
    let p = page("<div class=\"post-text\"><p>Just read the manual.</p></div>");
    assert!(extract_answer("L", Ok(p)).unwrap().is_none());
}

#[test]
fn code_block_preferred_over_inline_code() {
    let p = page(
        "<div class=\"post-text\"><p>Use <code>inline</code> or:</p>\
         <pre><code>block one</code></pre><pre>block two</pre></div>",
    );
    let r = extract_answer("L", Ok(p)).unwrap().unwrap();
    assert_eq!(r.instruction, "block one");
    assert_eq!(r.full_text, "Use inline or:block oneblock two");
}

#[test]
fn inline_code_used_without_code_block() {
    let p = page("<div class=\"post-text\"><p>Call <code>ls -la</code> here.</p></div>");
    let r = extract_answer("L", Ok(p)).unwrap().unwrap();
    assert_eq!(r.instruction, "ls -la");
    assert_eq!(r.full_text, "Call ls -la here.");
}

#[test]
fn empty_code_block_gives_nothing() {
    let p = page("<div class=\"post-text\"><pre></pre></div>");
    assert!(extract_answer("L", Ok(p)).unwrap().is_none());
}

#[test]
fn page_without_answer_gives_nothing() {
    let p = "<html><body><pre>only the question</pre></body></html>".to_string();
    assert!(extract_answer("L", Ok(p)).unwrap().is_none());
}

#[test]
fn failed_page_fetch_is_wrapped_with_link() {
    let r = extract_answer("L", Err(Error::Network("refused".to_string())));
    match r {
        Err(Error::InLink(l, c)) => {
            assert_eq!(l, "L");
            assert!(matches!(*c, Error::Network(ref m) if m == "refused"));
        }
        other => panic!("unexpected {:?}", other),
    }
}

#[test]
fn links_in_document_order_with_duplicates() {
    let p = "<div class=\"r\"><a href=\"https://a\">A</a></div>\
             <div class=\"r\"><a>no target</a></div>\
             <div class=\"r\"><a href=\"https://b\">B</a></div>\
             <div class=\"s\"><a href=\"https://skip\">S</a></div>\
             <div class=\"r\"><a href=\"https://a\">A again</a></div>"
        .to_string();
    assert_eq!(
        find_links("q", Ok(p)).unwrap(),
        vec!["https://a".to_string(), "https://b".to_string(), "https://a".to_string()]
    );
}

#[test]
fn no_matching_links_is_empty_not_error() {
    let r = find_links("q", Ok("<html><body><p>nothing</p></body></html>".to_string()));
    assert!(r.unwrap().is_empty());
}

#[test]
fn failed_search_is_wrapped_with_query() {
    match find_links("read+file", Err(Error::Decode)) {
        Err(Error::InQuery(q, c)) => {
            assert_eq!(q, "read+file");
            assert!(matches!(*c, Error::Decode));
        }
        other => panic!("unexpected {:?}", other),
    }
}

#[test]
fn compose_picks_block_then_inline() {
    let a = compose_answer("L", Some("b".to_string()), Some("i".to_string()), "p".to_string()).unwrap();
    assert_eq!((a.instruction.as_str(), a.full_text.as_str()), ("b", "p"));
    let a = compose_answer("L", None, Some("i".to_string()), String::new()).unwrap();
    assert_eq!(a.instruction, "i");
    assert!(compose_answer("L", None, None, "p".to_string()).is_none());
    assert!(compose_answer("L", Some(String::new()), Some("i".to_string()), "p".to_string()).is_none());
}

#[test]
fn keep_present_and_join() {
    let v = vec![Some("x".to_string()), None, Some("y".to_string())];
    assert_eq!(keep_present(&v), vec!["x".to_string(), "y".to_string()]);
    assert_eq!(join_texts(&vec!["ab".to_string(), "".to_string(), "c".to_string()]), "abc");
}

#[test]
fn body_decodes_utf8() {
    assert_eq!(decode_body("héllo".as_bytes().to_vec()).unwrap(), "héllo");
    assert!(matches!(decode_body(vec![0xff, 0xfe]), Err(Error::Decode)));
    assert_eq!(decode_body(vec![]).unwrap(), "");
}
