use vstd::prelude::*;
use scraper::{Html, Selector};
use crate::answer::{Answer, compose_answer, instruction_of, text_of};
use crate::error::{Error, in_link, in_query};

verus! {

/// Whether `Selector::parse` accepts the selector text.
pub uninterp spec fn selector_valid(selector: Seq<char>) -> bool;

/// The value of the attribute on each element of the parsed document that
/// matches the selector, in document order.
pub uninterp spec fn attrs_in(doc: Seq<char>, selector: Seq<char>, attr: Seq<char>) -> Seq<
    Option<Seq<char>>,
>;

/// Within the first element of the parsed document that matches `scope`, the
/// text of each descendant that matches `inner`, in document order; none when
/// no element matches `scope`.
pub uninterp spec fn texts_in_first(doc: Seq<char>, scope: Seq<char>, inner: Seq<char>) -> Option<
    Seq<Seq<char>>,
>;

/// The characters of each optional text.
pub open spec fn opt_texts(v: Seq<Option<String>>) -> Seq<Option<Seq<char>>> {
    v.map_values(|o: Option<String>| text_of(o))
}

/// The characters of each text.
pub open spec fn texts(v: Seq<String>) -> Seq<Seq<char>> {
    v.map_values(|s: String| s@)
}

/// Relies on scraper's `Selector::parse`, `Html::parse_document`,
/// `Html::select` and `Element::attr`: for a selector that parses, the
/// attribute of each matching element in document order.
#[verifier::external_body]
fn select_attrs(doc: &str, selector: &str, attr: &str) -> (r: Option<Vec<Option<String>>>)
    ensures
        r is Some <==> selector_valid(selector@),
        r matches Some(v) ==> opt_texts(v@) == attrs_in(doc@, selector@, attr@),
{
    let sel = match Selector::parse(selector) {
        Ok(s) => s,
        Err(_) => return None,
    };
    let html = Html::parse_document(doc);
    Some(html.select(&sel).map(|e| e.value().attr(attr).map(String::from)).collect())
}

/// Relies on scraper's `Selector::parse`, `Html::parse_document`,
/// `Html::select`, `ElementRef::select` and `ElementRef::text`: for selectors
/// that parse, the texts of the `inner` matches within the first `scope`
/// match.
#[verifier::external_body]
fn select_texts_in_first(doc: &str, scope: &str, inner: &str) -> (r: Option<Option<Vec<String>>>)
    ensures
        r is Some <==> (selector_valid(scope@) && selector_valid(inner@)),
        r matches Some(o) ==> match o {
            Some(v) => texts_in_first(doc@, scope@, inner@) == Some(texts(v@)),
            None => texts_in_first(doc@, scope@, inner@) is None,
        },
{
    let (outer, within) = match (Selector::parse(scope), Selector::parse(inner)) {
        (Ok(o), Ok(w)) => (o, w),
        _ => return None,
    };
    let html = Html::parse_document(doc);
    let first = html.select(&outer).next();
    Some(first.map(|a| a.select(&within).map(|e| e.text().collect::<String>()).collect()))
}

/// The present values, in order.
pub open spec fn present(attrs: Seq<Option<Seq<char>>>) -> Seq<Seq<char>>
    decreases attrs.len(),
{
    if attrs.len() == 0 {
        seq![]
    } else {
        let init = present(attrs.drop_last());
        match attrs.last() {
            Some(t) => init.push(t),
            None => init,
        }
    }
}

/// Keeps the attribute values that are present, in order; duplicates stay.
pub fn keep_present(attrs: &Vec<Option<String>>) -> (r: Vec<String>)
    ensures
        texts(r@) == present(opt_texts(attrs@)),
{
    let mut r: Vec<String> = Vec::new();
    let mut i: usize = 0;
    while i < attrs.len()
        invariant
            i <= attrs@.len(),
            texts(r@) == present(opt_texts(attrs@).take(i as int)),
        decreases attrs@.len() - i,
    {
        proof {
            assert(opt_texts(attrs@).take(i + 1).drop_last() == opt_texts(attrs@).take(i as int));
        }
        match &attrs[i] {
            Some(t) => {
                let ghost before = r@;
                r.push(t.clone());
                assert(texts(r@) =~= texts(before).push(t@));
            },
            None => {},
        }
        i = i + 1;
    }
    assert(opt_texts(attrs@).take(attrs@.len() as int) == opt_texts(attrs@));
    r
}

/// The links that a search results page lists, in document order.
pub open spec fn links_of(page: Seq<char>) -> Seq<Seq<char>> {
    present(attrs_in(page, ".r>a"@, "href"@))
}

/// Whether `r` is what the link search for `query` owes on the fetched page:
/// the page's links, or a parse error in the context of the query when the
/// link selector does not parse.
pub open spec fn lists_links(query: Seq<char>, page: Seq<char>, r: Result<Vec<String>, Error>) -> bool {
    if selector_valid(".r>a"@) {
        r matches Ok(v) && texts(v@) == links_of(page)
    } else {
        r matches Err(Error::InQuery(q, c)) && q@ == query && (*c matches Error::Parse(s) && s@
            == ".r>a"@)
    }
}

/// The candidate discussion links of a search step, from the fetched results
/// page; a fetch failure is wrapped with the query.
pub fn find_links(query: &str, fetched: Result<String, Error>) -> (r: Result<Vec<String>, Error>)
    ensures
        fetched matches Ok(page) ==> lists_links(query@, page@, r),
        fetched matches Err(e) ==> (r matches Err(Error::InQuery(q, c)) && q@ == query@ && *c == e),
{
    match fetched {
        Err(e) => Err(in_query(query, e)),
        Ok(page) => match select_attrs(page.as_str(), ".r>a", "href") {
            Some(attrs) => Ok(keep_present(&attrs)),
            None => Err(in_query(query, Error::Parse(".r>a".to_string()))),
        },
    }
}

/// The texts joined end to end.
pub open spec fn joined(ts: Seq<Seq<char>>) -> Seq<char>
    decreases ts.len(),
{
    if ts.len() == 0 {
        seq![]
    } else {
        joined(ts.drop_last()) + ts.last()
    }
}

/// Joins texts end to end.
pub fn join_texts(ts: &Vec<String>) -> (r: String)
    ensures
        r@ == joined(texts(ts@)),
{
    let mut r = String::new();
    let mut i: usize = 0;
    while i < ts.len()
        invariant
            i <= ts@.len(),
            r@ == joined(texts(ts@).take(i as int)),
        decreases ts@.len() - i,
    {
        proof {
            assert(texts(ts@).take(i + 1).drop_last() == texts(ts@).take(i as int));
        }
        r.append(ts[i].as_str());
        i = i + 1;
    }
    assert(texts(ts@).take(ts@.len() as int) == texts(ts@));
    r
}

/// The first text, if any.
pub open spec fn first_of(ts: Option<Seq<Seq<char>>>) -> Option<Seq<char>> {
    match ts {
        Some(t) => if t.len() > 0 { Some(t[0]) } else { None },
        None => None,
    }
}

/// The text of the first code block of the page's top answer.
pub open spec fn block_of(page: Seq<char>) -> Option<Seq<char>> {
    first_of(texts_in_first(page, ".answer"@, "pre"@))
}

/// The text of the first inline code element of the page's top answer.
pub open spec fn inline_of(page: Seq<char>) -> Option<Seq<char>> {
    first_of(texts_in_first(page, ".answer"@, "code"@))
}

/// The prose of the page's top answer: the texts of the immediate children of
/// its main text container, joined.
pub open spec fn prose_of(page: Seq<char>) -> Seq<char> {
    match texts_in_first(page, ".answer"@, ".post-text>*"@) {
        Some(ts) => joined(ts),
        None => seq![],
    }
}

/// Whether the answer selectors all parse.
pub open spec fn answer_selectors_valid() -> bool {
    &&& selector_valid(".answer"@)
    &&& selector_valid("pre"@)
    &&& selector_valid("code"@)
    &&& selector_valid(".post-text>*"@)
}

/// Whether `r` is what the answer extraction owes on the fetched page at
/// `link`: the top answer with its instruction and prose, nothing when it has
/// no instruction, and a parse error in the context of the link when a
/// selector does not parse.
pub open spec fn answers_page(link: Seq<char>, page: Seq<char>, r: Result<Option<Answer>, Error>) -> bool {
    if answer_selectors_valid() {
        r matches Ok(o) && (o is None <==> instruction_of(block_of(page), inline_of(page)) is None)
            && (o matches Some(a) ==> {
            &&& a.link@ == link
            &&& a.full_text@ == prose_of(page)
            &&& Some(a.instruction@) == instruction_of(block_of(page), inline_of(page))
        })
    } else {
        r matches Err(Error::InLink(l, c)) && l@ == link && *c is Parse
    }
}

/// A top answer with a code block and no prose yields an answer whose
/// instruction is the block's text and whose full text is empty.
pub proof fn lemma_code_without_prose(link: Seq<char>, page: Seq<char>, r: Result<Option<Answer>, Error>)
    requires
        answer_selectors_valid(),
        block_of(page) matches Some(t) && t.len() > 0,
        prose_of(page) == Seq::<char>::empty(),
        answers_page(link, page, r),
    ensures
        r matches Ok(Some(a)) && a.full_text@ == Seq::<char>::empty() && Some(a.instruction@)
            == block_of(page) && a.instruction@.len() > 0,
{
}

/// A top answer with prose but no code yields nothing for its link.
pub proof fn lemma_prose_without_code(link: Seq<char>, page: Seq<char>, r: Result<Option<Answer>, Error>)
    requires
        answer_selectors_valid(),
        block_of(page) is None,
        inline_of(page) is None,
        answers_page(link, page, r),
    ensures
        r matches Ok(o) && o is None,
{
}

/// The first text of a selection, if there is one.
fn first_text(selected: Option<Vec<String>>) -> (r: Option<String>)
    ensures
        text_of(r) == first_of(
            match selected {
                Some(v) => Some(texts(v@)),
                None => None,
            },
        ),
{
    match selected {
        Some(v) => if v.len() > 0 {
            Some(v[0].clone())
        } else {
            None
        },
        None => None,
    }
}

/// Extracts the top answer of a fetched discussion page; a fetch failure is
/// wrapped with the link.
pub fn extract_answer(link: &str, fetched: Result<String, Error>) -> (r: Result<Option<Answer>, Error>)
    ensures
        fetched matches Ok(page) ==> answers_page(link@, page@, r),
        fetched matches Err(e) ==> (r matches Err(Error::InLink(l, c)) && l@ == link@ && *c == e),
{
    let page = match fetched {
        Err(e) => return Err(in_link(link, e)),
        Ok(page) => page,
    };
    let doc = page.as_str();
    let block = match select_texts_in_first(doc, ".answer", "pre") {
        Some(sel) => first_text(sel),
        None => return Err(in_link(link, Error::Parse("pre".to_string()))),
    };
    let inline = match select_texts_in_first(doc, ".answer", "code") {
        Some(sel) => first_text(sel),
        None => return Err(in_link(link, Error::Parse("code".to_string()))),
    };
    let prose = match select_texts_in_first(doc, ".answer", ".post-text>*") {
        Some(Some(ts)) => join_texts(&ts),
        Some(None) => String::new(),
        None => return Err(in_link(link, Error::Parse(".post-text>*".to_string()))),
    };
    Ok(compose_answer(link, block, inline, prose))
}

} // verus!
