use vstd::prelude::*;

verus! {

/// The top-voted answer of one discussion: where it was found, its prose, and
/// the literal instruction (code or command) it holds.
#[derive(Debug, Clone)]
pub struct Answer {
    pub link: String,
    pub full_text: String,
    pub instruction: String,
}

/// The characters of an optional text.
pub open spec fn text_of(t: Option<String>) -> Option<Seq<char>> {
    match t {
        Some(s) => Some(s@),
        None => None,
    }
}

/// The instruction an answer yields: the text of its first code block, or
/// failing that of its first inline code element; none when it has neither or
/// when the chosen text is empty.
pub open spec fn instruction_of(block: Option<Seq<char>>, inline: Option<Seq<char>>) -> Option<Seq<char>> {
    let chosen = match block {
        Some(b) => Some(b),
        None => inline,
    };
    match chosen {
        Some(t) => if t.len() > 0 { Some(t) } else { None },
        None => None,
    }
}

/// Builds the answer for `link` from the text of its first code block, of its
/// first inline code element, and of its prose. An answer without an
/// instruction is of no use and yields `None`.
pub fn compose_answer(link: &str, block: Option<String>, inline: Option<String>, prose: String) -> (r:
    Option<Answer>)
    ensures
        instruction_of(text_of(block), text_of(inline)) is None <==> r is None,
        r matches Some(a) ==> {
            &&& a.link@ == link@
            &&& a.full_text == prose
            &&& Some(a.instruction@) == instruction_of(
                text_of(block),
                text_of(inline),
            )
        },
{
    let chosen = match block {
        Some(b) => Some(b),
        None => inline,
    };
    match chosen {
        Some(t) => {
            if !t.as_str().is_empty() {
                Some(Answer { link: link.to_string(), full_text: prose, instruction: t })
            } else {
                None
            }
        },
        None => None,
    }
}

} // verus!
