use vstd::prelude::*;
use crate::error::Error;
use crate::fanin::{Extracted, FanIn, Item};
use crate::page::{answers_page, extract_answer, find_links, lists_links, texts};
use crate::query::{answer_url, answer_url_of, normalize_query, search_url, search_url_of, separator, slug_of};

verus! {

/// Whether `x` is what the extraction owes for `link` on the fetch outcome.
pub open spec fn extracts(link: Seq<char>, fetched: Result<String, Error>, x: Extracted) -> bool {
    match fetched {
        Ok(page) => answers_page(link, page@, x),
        Err(e) => x matches Err(Error::InLink(l, c)) && l@ == link && *c == e,
    }
}

/// The decisions of one query, apart from the fetching: which requests to
/// make, and which answers to deliver as their pages come back. The caller
/// performs each request and hands the outcome back.
pub struct Pipeline {
    query: String,
    links: Vec<String>,
    fan_in: FanIn,
}

impl Pipeline {
    /// The normalized query.
    pub closed spec fn slug(&self) -> Seq<char> {
        self.query@
    }

    /// The discussion links found by the search, in discovery order.
    pub closed spec fn links(&self) -> Seq<Seq<char>> {
        texts(self.links@)
    }

    /// The fan-in over the links.
    pub closed spec fn fan_in(&self) -> FanIn {
        self.fan_in
    }

    /// The invariant: a well-formed fan-in with one slot per link.
    pub closed spec fn wf(&self) -> bool {
        &&& self.fan_in.wf()
        &&& self.fan_in.slot_count() == self.links@.len()
    }

    /// Starts answering `query`: returns the pipeline, which has no links yet,
    /// and the search request to make.
    pub fn start(query: &str) -> (r: (Pipeline, String))
        ensures
            r.0.wf(),
            r.0.slug() == slug_of(query@, separator()),
            r.0.links() == Seq::<Seq<char>>::empty(),
            r.0.fan_in().output() == Seq::<Item>::empty(),
            r.1@ == search_url_of(slug_of(query@, separator())),
    {
        let slug = normalize_query(query);
        let url = search_url(slug.as_str());
        let p = Pipeline { query: slug, links: Vec::new(), fan_in: FanIn::new(0) };
        assert(texts(p.links@) =~= Seq::<Seq<char>>::empty());
        (p, url)
    }

    /// Takes the outcome of the search request. On success the pipeline holds
    /// the links found, none of them arrived yet, and the result lists the page
    /// request for each link, by position; a failure ends the query.
    pub fn on_search(&mut self, fetched: Result<String, Error>) -> (r: Result<Vec<String>, Error>)
        requires
            old(self).wf(),
        ensures
            final(self).wf(),
            final(self).slug() == old(self).slug(),
            fetched matches Err(e) ==> (r matches Err(Error::InQuery(q, c)) && q@ == old(self).slug()
                && *c == e),
            fetched matches Ok(page) ==> lists_links(
                old(self).slug(),
                page@,
                match r {
                    Ok(_) => Ok(final(self).links_vec()),
                    Err(e) => Err(e),
                },
            ),
            r matches Ok(urls) ==> {
                &&& urls@.len() == final(self).links().len()
                &&& forall|i: int|
                    0 <= i < urls@.len() ==> #[trigger] urls@[i]@ == answer_url_of(
                        final(self).links()[i],
                    )
                &&& final(self).fan_in().arrived() == Seq::new(
                    urls@.len() as nat,
                    |i: int| None::<Extracted>,
                )
                &&& final(self).fan_in().released() == 0
                &&& final(self).fan_in().output() == Seq::<Item>::empty()
            },
            r is Err ==> final(self).links() == old(self).links() && final(self).fan_in()
                == old(self).fan_in(),
    {
        match find_links(self.query.as_str(), fetched) {
            Err(e) => Err(e),
            Ok(links) => {
                let mut urls: Vec<String> = Vec::new();
                let mut i: usize = 0;
                while i < links.len()
                    invariant
                        i <= links@.len(),
                        urls@.len() == i,
                        forall|k: int| 0 <= k < i ==> #[trigger] urls@[k]@ == answer_url_of(links@[k]@),
                    decreases links@.len() - i,
                {
                    urls.push(answer_url(links[i].as_str()));
                    i = i + 1;
                }
                self.fan_in = FanIn::new(links.len());
                self.links = links;
                Ok(urls)
            },
        }
    }

    /// The links as the executable vector holds them.
    pub closed spec fn links_vec(&self) -> Vec<String> {
        self.links
    }

    /// Whether the page outcome for the link at position `i` is still to come.
    pub fn is_pending(&self, i: usize) -> (r: bool)
        requires
            self.wf(),
        ensures
            r == (i < self.links().len() && self.fan_in().arrived()[i as int] is None),
    {
        self.fan_in.is_waiting(i)
    }

    /// Takes the outcome of the page request for the link at position `i`
    /// and returns the elements of the sequence that it releases, in order.
    pub fn on_answer(&mut self, i: usize, fetched: Result<String, Error>) -> (r: Vec<Item>)
        requires
            old(self).wf(),
            i < old(self).links().len(),
            old(self).fan_in().arrived()[i as int] is None,
        ensures
            final(self).wf(),
            final(self).slug() == old(self).slug(),
            final(self).links() == old(self).links(),
            final(self).fan_in().arrived().len() == old(self).fan_in().arrived().len(),
            forall|j: int|
                0 <= j < old(self).fan_in().arrived().len() && j != i
                    ==> #[trigger] final(self).fan_in().arrived()[j] == old(self).fan_in().arrived()[j],
            final(self).fan_in().arrived()[i as int] matches Some(x) && extracts(
                old(self).links()[i as int],
                fetched,
                x,
            ),
            final(self).fan_in().output() == old(self).fan_in().output() + r@,
            final(self).fan_in().released() == final(self).fan_in().slot_count()
                || final(self).fan_in().arrived()[final(self).fan_in().released() as int] is None,
    {
        proof {
            self.fan_in.lemma_shape();
        }
        assert(texts(self.links@)[i as int] == self.links@[i as int]@);
        let ghost f = fetched;
        let x = extract_answer(self.links[i].as_str(), fetched);
        self.fan_in.complete(i, x);
        let mut r: Vec<Item> = Vec::new();
        loop
            invariant
                self.fan_in.wf(),
                self.fan_in.slot_count() == self.links@.len(),
                self.links == old(self).links,
                self.query == old(self).query,
                i < old(self).fan_in.arrived().len(),
                extracts(old(self).links()[i as int], f, x),
                f == fetched,
                self.fan_in.arrived() == old(self).fan_in.arrived().update(i as int, Some(x)),
                self.fan_in.output() == old(self).fan_in.output() + r@,
            decreases self.fan_in.slot_count() - self.fan_in.released(),
        {
            match self.fan_in.pop() {
                Some(item) => {
                    r.push(item);
                    assert(self.fan_in.output() =~= old(self).fan_in.output() + r@);
                    proof {
                        self.fan_in.lemma_shape();
                    }
                },
                None => {
                    proof {
                        self.fan_in.lemma_shape();
                    }
                    return r;
                },
            }
        }
    }
}

} // verus!
