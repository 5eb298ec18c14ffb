use vstd::prelude::*;
use crate::answer::Answer;
use crate::error::Error;

verus! {

/// What the extraction of one link came to: an answer, nothing, or a failure.
pub type Extracted = Result<Option<Answer>, Error>;

/// One element of the delivered sequence.
pub type Item = Result<Answer, Error>;

/// The sequence delivered for extraction outcomes listed in link order: links
/// that yielded nothing are skipped, answers pass as `Ok`, failures as `Err`.
pub open spec fn emitted(rs: Seq<Extracted>) -> Seq<Item>
    decreases rs.len(),
{
    if rs.len() == 0 {
        seq![]
    } else {
        let init = emitted(rs.drop_last());
        match rs.last() {
            Ok(Some(a)) => init.push(Ok(a)),
            Ok(None) => init,
            Err(e) => init.push(Err(e)),
        }
    }
}

/// The sequence of two runs of links is the sequence of the first followed
/// by that of the second.
pub proof fn lemma_emitted_concat(a: Seq<Extracted>, b: Seq<Extracted>)
    ensures
        emitted(a + b) == emitted(a) + emitted(b),
    decreases b.len(),
{
    if b.len() == 0 {
        assert(a + b =~= a);
        assert(emitted(a) + emitted(b) =~= emitted(a));
    } else {
        lemma_emitted_concat(a, b.drop_last());
        assert((a + b).drop_last() =~= a + b.drop_last());
        match b.last() {
            Ok(Some(x)) => {
                assert(emitted(a) + emitted(b) =~= (emitted(a) + emitted(b.drop_last())).push(Ok(x)));
            },
            Ok(None) => {},
            Err(e) => {
                assert(emitted(a) + emitted(b) =~= (emitted(a) + emitted(b.drop_last())).push(Err(e)));
            },
        }
    }
}

/// A link that yielded nothing is skipped: it adds nothing to the sequence,
/// wherever it stands among the others.
pub proof fn lemma_nothing_skipped(before: Seq<Extracted>, after: Seq<Extracted>)
    ensures
        emitted(before + seq![Ok::<Option<Answer>, Error>(None)] + after) == emitted(before + after),
{
    let none = seq![Ok::<Option<Answer>, Error>(None)];
    lemma_emitted_concat(before + none, after);
    lemma_emitted_concat(before, none);
    lemma_emitted_concat(before, after);
    assert(none.drop_last() =~= Seq::<Extracted>::empty());
    assert(emitted(none.drop_last()) == Seq::<Item>::empty());
    assert(none.last() == Ok::<Option<Answer>, Error>(None));
    assert(emitted(none) =~= Seq::<Item>::empty());
    assert(emitted(before) + emitted(none) =~= emitted(before));
}

/// A failing link keeps its place: where no link yielded nothing, the
/// sequence has one element per link, an answer as `Ok` and a failure as `Err`
/// at that link's position, the others untouched by it.
pub proof fn lemma_failure_keeps_slot(rs: Seq<Extracted>)
    requires
        forall|i: int| 0 <= i < rs.len() ==> !(#[trigger] rs[i] matches Ok(None)),
    ensures
        emitted(rs).len() == rs.len(),
        forall|i: int|
            0 <= i < rs.len() ==> match #[trigger] rs[i] {
                Ok(Some(a)) => emitted(rs)[i] == Ok::<Answer, Error>(a),
                Ok(None) => false,
                Err(e) => emitted(rs)[i] == Err::<Answer, Error>(e),
            },
    decreases rs.len(),
{
    if rs.len() > 0 {
        let init = rs.drop_last();
        assert forall|i: int| 0 <= i < init.len() implies !(#[trigger] init[i] matches Ok(None)) by {
            assert(init[i] == rs[i]);
        }
        lemma_failure_keeps_slot(init);
        assert(!(rs[rs.len() - 1] matches Ok(None)));
        assert forall|i: int| 0 <= i < rs.len() implies match #[trigger] rs[i] {
            Ok(Some(a)) => emitted(rs)[i] == Ok::<Answer, Error>(a),
            Ok(None) => false,
            Err(e) => emitted(rs)[i] == Err::<Answer, Error>(e),
        } by {
            if i < rs.len() - 1 {
                assert(init[i] == rs[i]);
            }
        }
    }
}

/// The first `n` outcomes, all of which have arrived.
pub open spec fn settled(arrived: Seq<Option<Extracted>>, n: int) -> Seq<Extracted> {
    arrived.take(n).map_values(|o: Option<Extracted>| o->0)
}

/// Ordered fan-in: outcomes of concurrent extractions arrive in any order,
/// each at the position of its link, and are released strictly in link order,
/// the slot of a link only once every earlier link has been released.
pub struct FanIn {
    slots: Vec<Option<Extracted>>,
    next: usize,
    arrived: Ghost<Seq<Option<Extracted>>>,
    out: Ghost<Seq<Item>>,
}

impl FanIn {
    /// The number of links.
    pub closed spec fn slot_count(&self) -> nat {
        self.slots@.len()
    }

    /// The outcome that arrived for each link, by link position.
    pub closed spec fn arrived(&self) -> Seq<Option<Extracted>> {
        self.arrived@
    }

    /// How many links, from the first, have been released.
    pub closed spec fn released(&self) -> nat {
        self.next as nat
    }

    /// Everything delivered so far.
    pub closed spec fn output(&self) -> Seq<Item> {
        self.out@
    }

    /// The invariant: released slots are emptied and have arrived, the others
    /// hold what arrived, and the output is what the released links emit.
    pub closed spec fn wf(&self) -> bool {
        &&& self.slots@.len() == self.arrived@.len()
        &&& self.next <= self.slots@.len()
        &&& forall|j: int| 0 <= j < self.next ==> #[trigger] self.slots@[j] is None
        &&& forall|j: int| 0 <= j < self.next ==> #[trigger] self.arrived@[j] is Some
        &&& forall|j: int|
            self.next <= j < self.slots@.len() ==> #[trigger] self.slots@[j] == self.arrived@[j]
        &&& self.out@ == emitted(settled(self.arrived@, self.next as int))
    }

    /// A well-formed fan-in has an arrival entry per link, and every link it
    /// has released has arrived.
    pub proof fn lemma_shape(&self)
        requires
            self.wf(),
        ensures
            self.arrived().len() == self.slot_count(),
            self.released() <= self.slot_count(),
            forall|j: int| 0 <= j < self.released() ==> #[trigger] self.arrived()[j] is Some,
            self.output() == emitted(settled(self.arrived(), self.released() as int)),
    {
        assert forall|j: int| 0 <= j < self.released() implies #[trigger] self.arrived()[j] is Some by {
            assert(self.slots@[j] is None);
        }
    }

    /// Output order is link order: once every link has been released, the
    /// output is the sequence emitted for the outcomes listed by link position,
    /// whatever the order in which they arrived.
    pub proof fn lemma_link_order(&self)
        requires
            self.wf(),
            self.released() == self.slot_count(),
        ensures
            forall|j: int| 0 <= j < self.slot_count() ==> #[trigger] self.arrived()[j] is Some,
            self.output() == emitted(self.arrived().map_values(|o: Option<Extracted>| o->0)),
    {
        self.lemma_shape();
        assert(self.arrived@.take(self.next as int) =~= self.arrived@);
    }

    /// A fan-in over no links has released everything and delivers nothing:
    /// the sequence is empty and ends at once.
    pub proof fn lemma_no_links(&self)
        requires
            self.wf(),
            self.slot_count() == 0,
        ensures
            self.released() == self.slot_count(),
            self.output() == Seq::<Item>::empty(),
    {
        assert(settled(self.arrived@, 0) =~= Seq::<Extracted>::empty());
    }

    /// A fan-in over `n` links, none of which has arrived.
    pub fn new(n: usize) -> (r: FanIn)
        ensures
            r.wf(),
            r.slot_count() == n,
            r.arrived() == Seq::new(n as nat, |i: int| None::<Extracted>),
            r.released() == 0,
            r.output() == Seq::<Item>::empty(),
    {
        let mut slots: Vec<Option<Extracted>> = Vec::new();
        let mut i: usize = 0;
        while i < n
            invariant
                i <= n,
                slots@ == Seq::new(i as nat, |k: int| None::<Extracted>),
            decreases n - i,
        {
            slots.push(None);
            i = i + 1;
            assert(slots@ =~= Seq::new(i as nat, |k: int| None::<Extracted>));
        }
        let r = FanIn {
            slots,
            next: 0,
            arrived: Ghost(Seq::new(n as nat, |k: int| None::<Extracted>)),
            out: Ghost(Seq::empty()),
        };
        assert(settled(r.arrived@, 0) =~= seq![]);
        r
    }

    /// Records the outcome for the link at position `i`.
    pub fn complete(&mut self, i: usize, outcome: Extracted)
        requires
            old(self).wf(),
            i < old(self).slot_count(),
            old(self).arrived()[i as int] is None,
        ensures
            final(self).wf(),
            final(self).slot_count() == old(self).slot_count(),
            final(self).arrived() == old(self).arrived().update(i as int, Some(outcome)),
            final(self).released() == old(self).released(),
            final(self).output() == old(self).output(),
    {
        let ghost g = outcome;
        let ghost before = self.arrived@;
        assert(self.slots@[i as int] == self.slots@[i as int]);
        self.slots.set(i, Some(outcome));
        proof {
            self.arrived@ = before.update(i as int, Some(g));
            assert(settled(self.arrived@, self.next as int) =~= settled(before, self.next as int));
        }
    }

    /// Whether the outcome for the link at position `i` is still to come.
    pub fn is_waiting(&self, i: usize) -> (r: bool)
        requires
            self.wf(),
        ensures
            r == (i < self.slot_count() && self.arrived()[i as int] is None),
    {
        if i < self.next || i >= self.slots.len() {
            assert(i < self.next ==> self.slots@[i as int] is None);
            false
        } else {
            match &self.slots[i] {
                Some(_) => false,
                None => true,
            }
        }
    }

    /// Whether every link has been released.
    pub fn is_done(&self) -> (r: bool)
        requires
            self.wf(),
        ensures
            r == (self.released() == self.slot_count()),
    {
        self.next == self.slots.len()
    }

    /// Releases the next element of the sequence if the links before it have
    /// all arrived: skips over links that yielded nothing, and returns `None`
    /// once it reaches a link still outstanding, or the end.
    pub fn pop(&mut self) -> (r: Option<Item>)
        requires
            old(self).wf(),
        ensures
            final(self).wf(),
            final(self).slot_count() == old(self).slot_count(),
            final(self).arrived() == old(self).arrived(),
            old(self).released() <= final(self).released(),
            r is Some ==> old(self).released() < final(self).released(),
            old(self).released() == old(self).slot_count() ==> r is None,
            forall|j: int|
                0 <= j < final(self).released() ==> #[trigger] final(self).arrived()[j] is Some,
            final(self).output() == emitted(settled(final(self).arrived(), final(self).released() as int)),
            final(self).output() == old(self).output() + match r {
                Some(x) => seq![x],
                None => Seq::<Item>::empty(),
            },
            r is None ==> (final(self).released() == final(self).slot_count()
                || final(self).arrived()[final(self).released() as int] is None),
    {
        loop
            invariant
                self.wf(),
                self.slots@.len() == old(self).slots@.len(),
                self.arrived@ == old(self).arrived@,
                self.out@ == old(self).out@,
                old(self).next <= self.next,
            decreases self.slots@.len() - self.next,
        {
            if self.next >= self.slots.len() {
                return None;
            }
            let at = self.next;
            match &self.slots[at] {
                None => {
                    return None;
                },
                Some(_) => {},
            }
            let ghost pre = self.slots@;
            let taken = self.slots.remove(at);
            self.slots.insert(at, None);
            self.next = at + 1;
            let ghost s = settled(self.arrived@, at as int);
            proof {
                assert(settled(self.arrived@, at + 1) =~= s.push(self.arrived@[at as int]->0));
                assert(s.push(self.arrived@[at as int]->0).drop_last() =~= s);
                assert forall|j: int| self.next <= j < self.slots@.len() implies
                    #[trigger] self.slots@[j] == self.arrived@[j] by {
                    assert(self.slots@[j] == pre[j]);
                }
            }
            match taken {
                Some(Ok(Some(a))) => {
                    let item: Item = Ok(a);
                    proof {
                        self.out@ = self.out@.push(item);
                    }
                    return Some(item);
                },
                Some(Ok(None)) => {},
                Some(Err(e)) => {
                    let item: Item = Err(e);
                    proof {
                        self.out@ = self.out@.push(item);
                    }
                    return Some(item);
                },
                None => {
                    return None;
                },
            }
        }
    }
}

} // verus!
