//! The table of calls that one batch frame carried and that still await
//! their replies.

use vstd::prelude::*;
use vstd::string::*;
use serde_json::Value;
use crate::correlate::{decode_frame, Inbound, reply_views, same_text, settled, BodyView, Reply, ReplyBody, ReplyView, outcome_view};
use crate::error::SessionError;

verus! {

/// The body of the last reply in the run that carries the identifier.
pub open spec fn latest(replies: Seq<ReplyView>, id: Seq<char>) -> Option<BodyView>
    decreases replies.len(),
{
    if replies.len() == 0 {
        None
    } else if replies.last().id == Some(id) {
        Some(replies.last().body)
    } else {
        latest(replies.drop_last(), id)
    }
}

/// A slot after a run of replies went by: the latest reply to its call, or
/// what it held before where none came.
pub open spec fn absorbed(slot: Option<BodyView>, replies: Seq<ReplyView>, id: Seq<char>) -> Option<
    BodyView,
> {
    match latest(replies, id) {
        Some(b) => Some(b),
        None => slot,
    }
}

/// No identifier occurs twice.
pub open spec fn distinct(ids: Seq<Seq<char>>) -> bool {
    forall|i: int, j: int| 0 <= i < j < ids.len() ==> ids[i] != ids[j]
}

/// Whether `r` is what a table with these slots has to report: nothing while
/// a slot is empty; else the results in the order of the calls, or, where
/// an answer is no result, the error of the first such answer in that
/// order.
pub open spec fn is_finish_of(
    slots: Seq<Option<BodyView>>,
    r: Option<Result<Vec<Value>, SessionError>>,
) -> bool {
    &&& r is Some <==> (forall|i: int| 0 <= i < slots.len() ==> (#[trigger] slots[i]) is Some)
    &&& r matches Some(Ok(vals)) ==> vals@.len() == slots.len() && forall|i: int|
        0 <= i < vals@.len() ==> (#[trigger] slots[i]) == Some(BodyView::Result(vals@[i]))
    &&& r matches Some(Err(e)) ==> exists|i: int|
        0 <= i < slots.len() && outcome_view(Err(e)) == settled((#[trigger] slots[i]).unwrap())
            && !(slots[i].unwrap() is Result) && forall|j: int|
            0 <= j < i ==> (#[trigger] slots[j]).unwrap() is Result
}

/// One slot per awaited identifier, filled as replies come in.
#[derive(Debug)]
pub struct PendingTable {
    ids: Vec<String>,
    slots: Vec<Option<ReplyBody>>,
}

impl PendingTable {
    /// The awaited identifiers, in the order of the calls.
    pub closed spec fn ids(&self) -> Seq<Seq<char>> {
        Seq::new(self.ids@.len(), |i: int| self.ids@[i]@)
    }

    /// What each slot holds.
    pub closed spec fn slots(&self) -> Seq<Option<BodyView>> {
        Seq::new(
            self.slots@.len(),
            |i: int|
                match self.slots@[i] {
                    Some(b) => Some(b@),
                    None => None,
                },
        )
    }

    /// The table's invariant: one slot per identifier, no identifier twice.
    pub closed spec fn wf(&self) -> bool {
        self.ids@.len() == self.slots@.len() && distinct(self.ids())
    }

    /// Every slot is filled.
    pub open spec fn complete(&self) -> bool {
        forall|i: int| 0 <= i < self.slots().len() ==> (#[trigger] self.slots()[i]) is Some
    }

    /// A table that awaits the given identifiers, all slots empty. `None`
    /// where an identifier occurs twice.
    pub fn new(ids: Vec<String>) -> (r: Option<PendingTable>)
        ensures
            r is Some <==> distinct(Seq::new(ids@.len(), |i: int| ids@[i]@)),
            r matches Some(t) ==> t.wf() && t.ids() == Seq::new(ids@.len(), |i: int| ids@[i]@)
                && t.slots().len() == ids@.len() && forall|i: int|
                0 <= i < ids@.len() ==> (#[trigger] t.slots()[i]) is None,
    {
        let ghost texts = Seq::new(ids@.len(), |i: int| ids@[i]@);
        let mut j: usize = 0;
        while j < ids.len()
            invariant
                j <= ids.len(),
                texts == Seq::new(ids@.len(), |i: int| ids@[i]@),
                forall|a: int, b: int| 0 <= a < b < j ==> texts[a] != texts[b],
            decreases ids.len() - j,
        {
            let mut i: usize = 0;
            while i < j
                invariant
                    i <= j < ids.len(),
                    texts == Seq::new(ids@.len(), |i: int| ids@[i]@),
                    forall|a: int| 0 <= a < i ==> texts[a] != texts[j as int],
                decreases j - i,
            {
                if same_text(ids[i].as_str(), ids[j].as_str()) {
                    assert(texts[i as int] == texts[j as int]);
                    return None;
                }
                i += 1;
            }
            j += 1;
        }
        let mut slots: Vec<Option<ReplyBody>> = Vec::new();
        let mut k: usize = 0;
        while k < ids.len()
            invariant
                k <= ids.len(),
                slots.len() == k,
                forall|i: int| 0 <= i < k ==> (#[trigger] slots[i]) is None,
            decreases ids.len() - k,
        {
            slots.push(None);
            k += 1;
        }
        let t = PendingTable { ids, slots };
        assert(t.ids() =~= texts);
        Some(t)
    }

    /// How many calls the table awaits.
    pub fn len(&self) -> (r: usize)
        requires
            self.wf(),
        ensures
            r == self.ids().len(),
            r == self.slots().len(),
    {
        self.ids.len()
    }

    /// Fills the slot of the call that the reply answers, if there is one.
    fn fill(&mut self, reply: &Reply)
        requires
            old(self).wf(),
        ensures
            final(self).wf(),
            final(self).ids() == old(self).ids(),
            final(self).slots().len() == old(self).slots().len(),
            forall|i: int|
                0 <= i < old(self).slots().len() ==> (#[trigger] final(self).slots()[i]) == (
                if reply@.id == Some(old(self).ids()[i]) {
                    Some(reply@.body)
                } else {
                    old(self).slots()[i]
                }),
    {
        let ghost before = *self;
        let mut i: usize = 0;
        while i < self.ids.len()
            invariant
                i <= self.ids.len(),
                self.wf(),
                before.wf(),
                self.ids == before.ids,
                self.slots().len() == before.slots().len(),
                forall|k: int|
                    0 <= k < i ==> (#[trigger] self.slots()[k]) == (if reply@.id == Some(
                        before.ids()[k],
                    ) {
                        Some(reply@.body)
                    } else {
                        before.slots()[k]
                    }),
                forall|k: int|
                    i <= k < before.slots().len() ==> (#[trigger] self.slots()[k])
                        == before.slots()[k],
            decreases self.ids.len() - i,
        {
            let hit = match &reply.id {
                Some(id) => same_text(id.as_str(), self.ids[i].as_str()),
                None => false,
            };
            let ghost prior = *self;
            if hit {
                self.slots.set(i, Some(reply.body.duplicate()));
            }
            assert forall|k: int| 0 <= k < before.slots().len() && k != i implies (
            #[trigger] self.slots()[k]) == prior.slots()[k] by {}
            i += 1;
        }
    }

    /// Takes in the replies of one frame, in order: each fills the slot of
    /// the call it answers, a later reply to the same call replaces an
    /// earlier one, and replies to no awaited call are dropped.
    pub fn absorb(&mut self, replies: &Vec<Reply>)
        requires
            old(self).wf(),
        ensures
            final(self).wf(),
            final(self).ids() == old(self).ids(),
            final(self).slots().len() == old(self).slots().len(),
            forall|i: int|
                0 <= i < old(self).slots().len() ==> (#[trigger] final(self).slots()[i])
                    == absorbed(old(self).slots()[i], reply_views(replies@), old(self).ids()[i]),
    {
        let ghost before = *self;
        let ghost all = reply_views(replies@);
        let mut k: usize = 0;
        while k < replies.len()
            invariant
                k <= replies.len(),
                self.wf(),
                before.wf(),
                all == reply_views(replies@),
                self.ids() == before.ids(),
                self.slots().len() == before.slots().len(),
                forall|i: int|
                    0 <= i < before.slots().len() ==> (#[trigger] self.slots()[i]) == absorbed(
                        before.slots()[i],
                        all.take(k as int),
                        before.ids()[i],
                    ),
            decreases replies.len() - k,
        {
            let ghost prior = *self;
            self.fill(&replies[k]);
            proof {
                let next = all.take(k + 1);
                assert(next.drop_last() =~= all.take(k as int));
                assert(next.last() == replies[k as int]@);
                assert forall|i: int| 0 <= i < before.slots().len() implies (
                #[trigger] self.slots()[i]) == absorbed(
                    before.slots()[i],
                    next,
                    before.ids()[i],
                ) by {
                    assert(prior.slots()[i] == absorbed(
                        before.slots()[i],
                        all.take(k as int),
                        before.ids()[i],
                    ));
                }
            }
            k += 1;
        }
        assert(all.take(k as int) =~= all);
    }

    /// Whether every awaited call has been answered.
    pub fn is_complete(&self) -> (r: bool)
        requires
            self.wf(),
        ensures
            r == self.complete(),
    {
        let mut i: usize = 0;
        while i < self.slots.len()
            invariant
                i <= self.slots.len(),
                forall|k: int| 0 <= k < i ==> (#[trigger] self.slots()[k]) is Some,
            decreases self.slots.len() - i,
        {
            if self.slots[i].is_none() {
                assert(self.slots()[i as int] is None);
                return false;
            }
            i += 1;
        }
        true
    }

    /// The completed table: the results in the order of the calls. `None`
    /// while a call is unanswered. Where an answer is no result, the first
    /// such answer in the order of the calls is the error.
    pub fn finish(&self) -> (r: Option<Result<Vec<Value>, SessionError>>)
        requires
            self.wf(),
        ensures
            is_finish_of(self.slots(), r),
    {
        if !self.is_complete() {
            return None;
        }
        let mut vals: Vec<Value> = Vec::new();
        let mut i: usize = 0;
        while i < self.slots.len()
            invariant
                i <= self.slots.len(),
                self.complete(),
                vals@.len() == i,
                forall|k: int|
                    0 <= k < i ==> (#[trigger] self.slots()[k]) == Some(
                        BodyView::Result(vals@[k]),
                    ),
            decreases self.slots.len() - i,
        {
            assert(self.slots()[i as int] is Some);
            match &self.slots[i] {
                Some(body) => {
                    match body.settle() {
                        Ok(v) => {
                            vals.push(v);
                        },
                        Err(e) => {
                            assert(!(self.slots()[i as int].unwrap() is Result));
                            return Some(Err(e));
                        },
                    }
                },
                None => {},
            }
            i += 1;
        }
        Some(Ok(vals))
    }

    /// Takes in one inbound text frame. Fails, and leaves the table as it
    /// was, exactly where the text is not JSON.
    pub fn absorb_frame(&mut self, text: &str) -> (r: Result<(), SessionError>)
        requires
            old(self).wf(),
        ensures
            final(self).wf(),
            final(self).ids() == old(self).ids(),
            final(self).slots().len() == old(self).slots().len(),
            r is Ok <==> crate::json::json_parsed(text@) is Some,
            r matches Err(e) ==> e is MalformedFrameError
                && final(self).slots() == old(self).slots(),
            r is Ok ==> forall|i: int|
                0 <= i < old(self).slots().len() ==> (#[trigger] final(self).slots()[i])
                    == absorbed(
                    old(self).slots()[i],
                    crate::correlate::frame_replies(crate::json::json_parsed(text@).unwrap()),
                    old(self).ids()[i],
                ),
    {
        match decode_frame(text) {
            Ok(replies) => {
                self.absorb(&replies);
                Ok(())
            },
            Err(e) => Err(e),
        }
    }
}

impl PendingTable {
    /// Takes in one inbound event and says whether the wait is over: a
    /// closed channel ends it with `ClosedError`, an undecodable frame with
    /// `MalformedFrameError`; any other event is taken in, and the table
    /// reports once every call is answered.
    pub fn on_inbound(&mut self, event: &Inbound) -> (r: Option<Result<Vec<Value>, SessionError>>)
        requires
            old(self).wf(),
        ensures
            final(self).wf(),
            final(self).ids() == old(self).ids(),
            final(self).slots().len() == old(self).slots().len(),
            event is Closed ==> r matches Some(Err(SessionError::ClosedError)),
            event is Closed || event is Other ==> final(self).slots() == old(self).slots(),
            event is Other ==> is_finish_of(final(self).slots(), r),
            event matches Inbound::Text(t) ==> (match crate::json::json_parsed(t@) {
                Some(v) => is_finish_of(final(self).slots(), r) && forall|i: int|
                    0 <= i < old(self).slots().len() ==> (#[trigger] final(self).slots()[i])
                        == absorbed(
                        old(self).slots()[i],
                        crate::correlate::frame_replies(v),
                        old(self).ids()[i],
                    ),
                None => r matches Some(Err(SessionError::MalformedFrameError))
                    && final(self).slots() == old(self).slots(),
            }),
    {
        match event {
            Inbound::Text(t) => match self.absorb_frame(t.as_str()) {
                Ok(()) => self.finish(),
                Err(e) => Some(Err(e)),
            },
            Inbound::Other => self.finish(),
            Inbound::Closed => Some(Err(SessionError::ClosedError)),
        }
    }
}

/// Whether some reply in the run carries the identifier.
pub open spec fn observed(replies: Seq<ReplyView>, id: Seq<char>) -> bool {
    exists|j: int| 0 <= j < replies.len() && (#[trigger] replies[j]).id == Some(id)
}

/// A slot that was empty is filled by a run of replies exactly where one
/// of them carries its identifier.
pub proof fn lemma_filled_iff_observed(replies: Seq<ReplyView>, id: Seq<char>)
    ensures
        absorbed(None, replies, id) is Some <==> observed(replies, id),
    decreases replies.len(),
{
    if replies.len() > 0 {
        let head = replies.drop_last();
        lemma_filled_iff_observed(head, id);
        if replies.last().id != Some(id) {
            if observed(replies, id) {
                let j = choose|j: int| 0 <= j < replies.len() && (#[trigger] replies[j]).id == Some(id);
                assert(head[j] == replies[j]);
            }
            if observed(head, id) {
                let j = choose|j: int| 0 <= j < head.len() && (#[trigger] head[j]).id == Some(id);
                assert(replies[j] == head[j]);
            }
        } else {
            assert(replies[replies.len() - 1].id == Some(id));
        }
    }
}

/// Replies that arrive in two frames fill a slot as the same replies in one
/// frame would.
pub proof fn lemma_absorb_in_parts(
    slot: Option<BodyView>,
    first: Seq<ReplyView>,
    second: Seq<ReplyView>,
    id: Seq<char>,
)
    ensures
        absorbed(absorbed(slot, first, id), second, id) == absorbed(slot, first + second, id),
    decreases second.len(),
{
    if second.len() == 0 {
        assert(first + second =~= first);
    } else {
        let whole = first + second;
        assert(whole.last() == second.last());
        assert(whole.drop_last() =~= first + second.drop_last());
        lemma_absorb_in_parts(slot, first, second.drop_last(), id);
    }
}

/// A table that was empty is complete after two frames exactly where every
/// awaited identifier is carried by a reply of one of them.
pub proof fn lemma_complete_after_two_frames(
    ids: Seq<Seq<char>>,
    first: Seq<ReplyView>,
    second: Seq<ReplyView>,
)
    ensures
        (forall|i: int|
            0 <= i < ids.len() ==> absorbed(
                absorbed(None, first, #[trigger] ids[i]),
                second,
                ids[i],
            ) is Some) <==> (forall|i: int|
            0 <= i < ids.len() ==> observed(first, #[trigger] ids[i]) || observed(second, ids[i])),
{
    assert forall|i: int| 0 <= i < ids.len() implies (absorbed(
        absorbed(None, first, #[trigger] ids[i]),
        second,
        ids[i],
    ) is Some <==> observed(first, ids[i]) || observed(second, ids[i])) by {
        lemma_filled_iff_observed(first, ids[i]);
        lemma_filled_iff_observed(second, ids[i]);
    }
}

} // verus!
