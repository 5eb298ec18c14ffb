use vstd::prelude::*;

verus! {

/// The slug that `slugify` makes of `text` with the separator `sep`.
pub uninterp spec fn slug_of(text: Seq<char>, sep: Seq<char>) -> Seq<char>;

/// A character that a slug may hold: a lower-case ASCII letter, a digit, or the
/// separator.
pub open spec fn is_slug_char(c: char, sep: char) -> bool {
    ('a' <= c && c <= 'z') || ('0' <= c && c <= '9') || c == sep
}

/// Relies on `slugify::slugify` (no stop words, no length limit): the result
/// depends on its arguments alone, and is made of lower-case ASCII letters,
/// digits and the first character of `sep`. The function indexes and casts
/// that character to a byte, hence the demand that it be present and ASCII.
#[verifier::external_body]
fn slugify_with(text: &str, sep: &str) -> (r: String)
    requires
        sep@.len() > 0,
        (sep@[0] as u32) < 128,
    ensures
        r@ == slug_of(text@, sep@),
        forall|i: int| 0 <= i < r@.len() ==> is_slug_char(#[trigger] r@[i], sep@[0]),
{
    slugify::slugify(text, "", sep, None)
}

/// The separator that joins the words of a normalized query.
pub open spec fn separator() -> Seq<char> {
    "+"@
}

/// Normalizes a free-text query into a URL-safe token sequence joined by `+`.
pub fn normalize_query(query: &str) -> (r: String)
    ensures
        r@ == slug_of(query@, separator()),
        forall|i: int| 0 <= i < r@.len() ==> is_slug_char(#[trigger] r@[i], '+'),
{
    proof {
        reveal_strlit("+");
    }
    slugify_with(query, "+")
}

/// The search request for a normalized query, restricted to the Q&A host.
pub open spec fn search_url_of(slug: Seq<char>) -> Seq<char> {
    "https://www.google.com/search?q=site:stackoverflow.com%20"@ + slug
}

/// Builds the search request for a normalized query.
pub fn search_url(slug: &str) -> (r: String)
    ensures
        r@ == search_url_of(slug@),
{
    let prefix = String::from_str("https://www.google.com/search?q=site:stackoverflow.com%20");
    prefix.concat(slug)
}

/// The discussion page at `link`, with its answers sorted by votes.
pub open spec fn answer_url_of(link: Seq<char>) -> Seq<char> {
    link + "?answerstab=votes"@
}

/// Builds the request for a discussion page with its answers sorted by votes.
pub fn answer_url(link: &str) -> (r: String)
    ensures
        r@ == answer_url_of(link@),
{
    let base = String::from_str(link);
    base.concat("?answerstab=votes")
}

} // verus!
