//! Matching inbound replies to the calls that await them.

use vstd::prelude::*;
use vstd::string::*;
use serde_json::Value;
use crate::error::SessionError;
use crate::json::{json_field, json_int, json_is_null, json_items, json_parsed, json_str, parse_value, value_clone, value_field, value_integer, value_is_null, value_items, value_text};

verus! {

/// What a reply carries besides its identifier.
#[derive(Debug)]
pub enum ReplyBody {
    /// The result payload.
    Result(Value),
    /// The remote's own error.
    Fault { code: i64, message: String },
    /// Neither a result nor an error.
    Missing,
}

/// The mathematical content of a `ReplyBody`.
pub enum BodyView {
    Result(Value),
    Fault { code: i64, message: Seq<char> },
    Missing,
}

/// One decoded reply.
#[derive(Debug)]
pub struct Reply {
    /// The correlation identifier, where the reply has a textual one.
    pub id: Option<String>,
    pub body: ReplyBody,
}

/// The mathematical content of a `Reply`.
pub struct ReplyView {
    pub id: Option<Seq<char>>,
    pub body: BodyView,
}

impl View for ReplyBody {
    type V = BodyView;

    open spec fn view(&self) -> BodyView {
        match *self {
            ReplyBody::Result(v) => BodyView::Result(v),
            ReplyBody::Fault { code, message } => BodyView::Fault { code, message: message@ },
            ReplyBody::Missing => BodyView::Missing,
        }
    }
}

impl View for Reply {
    type V = ReplyView;

    open spec fn view(&self) -> ReplyView {
        ReplyView {
            id: match self.id {
                Some(s) => Some(s@),
                None => None,
            },
            body: self.body@,
        }
    }
}

/// The views of a run of replies, in order.
pub open spec fn reply_views(s: Seq<Reply>) -> Seq<ReplyView> {
    Seq::new(s.len(), |i: int| s[i]@)
}

/// The remote's error that a JSON value amounts to: its `code` where that
/// is an integer, else zero, and its `message` where that is a string, else
/// the empty text.
pub open spec fn fault_of(e: Value) -> BodyView {
    BodyView::Fault {
        code: match json_field(e, "code"@) {
            Some(c) => json_int(c).unwrap_or(0),
            None => 0,
        },
        message: match json_field(e, "message"@) {
            Some(m) => json_str(m).unwrap_or(Seq::empty()),
            None => Seq::empty(),
        },
    }
}

/// Whether the `error` member of a reply decides what it carries: there is
/// one, and it stands in place of a result or is not null.
pub open spec fn error_decides(v: Value) -> bool {
    json_field(v, "error"@) matches Some(e) && (json_field(v, "result"@) is None
        || !json_is_null(e))
}

/// The body that a JSON value carries when read as a reply: the remote's
/// error where its `error` member decides, else its `result` member.
pub open spec fn body_of(v: Value) -> BodyView {
    if error_decides(v) {
        fault_of(json_field(v, "error"@).unwrap())
    } else {
        match json_field(v, "result"@) {
            Some(r) => BodyView::Result(r),
            None => BodyView::Missing,
        }
    }
}

/// A JSON value read as a reply.
pub open spec fn reply_of(v: Value) -> ReplyView {
    ReplyView {
        id: match json_field(v, "id"@) {
            Some(i) => json_str(i),
            None => None,
        },
        body: body_of(v),
    }
}

/// The replies in a decoded frame: the elements of a batch, or the one
/// reply that the frame is.
pub open spec fn frame_replies(v: Value) -> Seq<ReplyView> {
    match json_items(v) {
        Some(items) => Seq::new(items.len(), |i: int| reply_of(items[i])),
        None => seq![reply_of(v)],
    }
}

/// Whether two texts are the same.
pub fn same_text(a: &str, b: &str) -> (r: bool)
    ensures
        r == (a@ == b@),
{
    let x = String::from_str(a);
    let y = String::from_str(b);
    x == y
}

impl ReplyBody {
    /// A copy of the body.
    pub fn duplicate(&self) -> (r: ReplyBody)
        ensures
            r@ == self@,
    {
        match self {
            ReplyBody::Result(v) => ReplyBody::Result(value_clone(v)),
            ReplyBody::Fault { code, message } => ReplyBody::Fault {
                code: *code,
                message: message.clone(),
            },
            ReplyBody::Missing => ReplyBody::Missing,
        }
    }

    /// What the caller of the matched call gets: the result, the remote's
    /// error, or a malformed-frame error where the reply holds neither.
    pub fn settle(&self) -> (r: Result<Value, SessionError>)
        ensures
            outcome_view(r) == settled(self@),
    {
        match self {
            ReplyBody::Result(v) => Ok(value_clone(v)),
            ReplyBody::Fault { code, message } => Err(
                SessionError::RpcError { code: *code, message: message.clone() },
            ),
            ReplyBody::Missing => Err(SessionError::MalformedFrameError),
        }
    }
}

/// Where a wait stands after some inbound traffic.
pub enum Outcome {
    /// No reply to the awaited call has been seen.
    Waiting,
    /// The awaited call returned this result.
    Done(Value),
    /// The remote answered the awaited call with an error.
    Fault { code: i64, message: Seq<char> },
    /// A frame could not be decoded, or the matching reply has no result.
    Malformed,
    /// The channel closed first.
    Closed,
    /// A failure of another layer.
    Other,
}

/// The outcome that a settled body amounts to.
pub open spec fn settled(b: BodyView) -> Outcome {
    match b {
        BodyView::Result(v) => Outcome::Done(v),
        BodyView::Fault { code, message } => Outcome::Fault { code, message },
        BodyView::Missing => Outcome::Malformed,
    }
}

/// The outcome that a finished wait reports.
pub open spec fn outcome_view(r: Result<Value, SessionError>) -> Outcome {
    match r {
        Ok(v) => Outcome::Done(v),
        Err(SessionError::RpcError { code, message }) => Outcome::Fault { code, message: message@ },
        Err(SessionError::MalformedFrameError) => Outcome::Malformed,
        Err(SessionError::ClosedError) => Outcome::Closed,
        Err(_) => Outcome::Other,
    }
}

/// The outcome that an optional finished wait reports: `None` is a wait
/// that goes on.
pub open spec fn progress_view(r: Option<Result<Value, SessionError>>) -> Outcome {
    match r {
        None => Outcome::Waiting,
        Some(x) => outcome_view(x),
    }
}

/// The outcome of scanning replies in order for the awaited identifier: the
/// first reply that carries it decides, all others are passed over.
pub open spec fn outcome_in(replies: Seq<ReplyView>, awaited: Seq<char>) -> Outcome
    decreases replies.len(),
{
    if replies.len() == 0 {
        Outcome::Waiting
    } else if replies[0].id == Some(awaited) {
        settled(replies[0].body)
    } else {
        outcome_in(replies.skip(1), awaited)
    }
}

/// Reads a JSON value as the remote's error.
fn fault_from(e: &Value) -> (r: ReplyBody)
    ensures
        r@ == fault_of(*e),
{
    let code = match value_field(e, "code") {
        Some(c) => match value_integer(&c) {
            Some(n) => n,
            None => 0,
        },
        None => 0,
    };
    let message = match value_field(e, "message") {
        Some(m) => match value_text(&m) {
            Some(t) => t,
            None => String::new(),
        },
        None => String::new(),
    };
    ReplyBody::Fault { code, message }
}

/// Reads one JSON value as a reply.
pub fn reply_from(v: &Value) -> (r: Reply)
    ensures
        r@ == reply_of(*v),
{
    let id = match value_field(v, "id") {
        Some(i) => value_text(&i),
        None => None,
    };
    let result = value_field(v, "result");
    let body = match value_field(v, "error") {
        Some(e) => match result {
            Some(r) => if value_is_null(&e) {
                ReplyBody::Result(r)
            } else {
                fault_from(&e)
            },
            None => fault_from(&e),
        },
        None => match result {
            Some(r) => ReplyBody::Result(r),
            None => ReplyBody::Missing,
        },
    };
    Reply { id, body }
}

/// Reads a decoded frame as the replies it holds.
pub fn replies_from(v: &Value) -> (r: Vec<Reply>)
    ensures
        reply_views(r@) == frame_replies(*v),
{
    match value_items(v) {
        Some(items) => {
            let mut out: Vec<Reply> = Vec::new();
            let mut i: usize = 0;
            while i < items.len()
                invariant
                    i <= items.len(),
                    out.len() == i,
                    forall|j: int| 0 <= j < i ==> (#[trigger] out[j])@ == reply_of(items[j]),
                decreases items.len() - i,
            {
                out.push(reply_from(&items[i]));
                i += 1;
            }
            assert(reply_views(out@) =~= frame_replies(*v));
            out
        },
        None => {
            let mut out: Vec<Reply> = Vec::new();
            out.push(reply_from(v));
            assert(reply_views(out@) =~= frame_replies(*v));
            out
        },
    }
}

/// Decodes one inbound text frame. Fails exactly where the text is not
/// JSON.
pub fn decode_frame(text: &str) -> (r: Result<Vec<Reply>, SessionError>)
    ensures
        r is Ok <==> json_parsed(text@) is Some,
        r matches Ok(replies) ==> reply_views(replies@) == frame_replies(
            json_parsed(text@).unwrap(),
        ),
        r matches Err(e) ==> e is MalformedFrameError,
{
    match parse_value(text) {
        Some(v) => Ok(replies_from(&v)),
        None => Err(SessionError::MalformedFrameError),
    }
}

/// Scans replies for the awaited identifier. `None` where no reply carries
/// it; else what the first such reply settles to.
pub fn scan_replies(replies: &Vec<Reply>, awaited: &str) -> (r: Option<
    Result<Value, SessionError>,
>)
    ensures
        progress_view(r) == outcome_in(reply_views(replies@), awaited@),
        r is None <==> forall|j: int|
            0 <= j < replies.len() ==> (#[trigger] replies[j])@.id != Some(awaited@),
{
    let ghost all = reply_views(replies@);
    let mut i: usize = 0;
    assert(all.skip(0) =~= all);
    while i < replies.len()
        invariant
            i <= replies.len(),
            all == reply_views(replies@),
            outcome_in(all, awaited@) == outcome_in(all.skip(i as int), awaited@),
            forall|j: int| 0 <= j < i ==> (#[trigger] replies[j])@.id != Some(awaited@),
        decreases replies.len() - i,
    {
        let reply = &replies[i];
        let hit = match &reply.id {
            Some(id) => same_text(id.as_str(), awaited),
            None => false,
        };
        assert(all.skip(i as int)[0] == reply@);
        if hit {
            return Some(reply.body.settle());
        }
        assert(all.skip(i as int).skip(1) =~= all.skip(i + 1));
        i += 1;
    }
    None
}

/// Passing over replies to other calls changes nothing: where no reply of
/// `before` carries the awaited identifier, scanning `before` and then
/// `after` has the outcome of scanning `after` alone.
pub proof fn lemma_unrelated_replies_ignored(
    before: Seq<ReplyView>,
    after: Seq<ReplyView>,
    awaited: Seq<char>,
)
    requires
        forall|j: int| 0 <= j < before.len() ==> (#[trigger] before[j]).id != Some(awaited),
    ensures
        outcome_in(before + after, awaited) == outcome_in(after, awaited),
        outcome_in(before, awaited) == Outcome::Waiting,
    decreases before.len(),
{
    if before.len() == 0 {
        assert(before + after =~= after);
    } else {
        let rest = before.skip(1);
        assert((before + after).skip(1) =~= rest + after);
        assert((before + after)[0] == before[0]);
        assert forall|j: int| 0 <= j < rest.len() implies (#[trigger] rest[j]).id != Some(
            awaited,
        ) by {
            assert(rest[j] == before[j + 1]);
        }
        lemma_unrelated_replies_ignored(rest, after, awaited);
    }
}

/// What the channel hands over next.
#[derive(Debug)]
pub enum Inbound {
    /// A text frame.
    Text(String),
    /// A frame of another kind, which carries no reply.
    Other,
    /// The channel has closed.
    Closed,
}

/// The outcome of one text frame for the awaited identifier.
pub open spec fn frame_outcome(text: Seq<char>, awaited: Seq<char>) -> Outcome {
    match json_parsed(text) {
        Some(v) => outcome_in(frame_replies(v), awaited),
        None => Outcome::Malformed,
    }
}

/// The outcome of one inbound event for the awaited identifier.
pub open spec fn inbound_outcome(event: Inbound, awaited: Seq<char>) -> Outcome {
    match event {
        Inbound::Text(t) => frame_outcome(t@, awaited),
        Inbound::Other => Outcome::Waiting,
        Inbound::Closed => Outcome::Closed,
    }
}

/// The outcome of a run of inbound events: that of the first event that
/// ends the wait.
pub open spec fn session_outcome(events: Seq<Inbound>, awaited: Seq<char>) -> Outcome
    decreases events.len(),
{
    if events.len() == 0 {
        Outcome::Waiting
    } else if inbound_outcome(events[0], awaited) is Waiting {
        session_outcome(events.skip(1), awaited)
    } else {
        inbound_outcome(events[0], awaited)
    }
}

/// Decides what one inbound event means for the awaited call: `None` to
/// go on waiting, else the end of the wait.
pub fn on_inbound(awaited: &str, event: &Inbound) -> (r: Option<Result<Value, SessionError>>)
    ensures
        progress_view(r) == inbound_outcome(*event, awaited@),
{
    match event {
        Inbound::Text(t) => match decode_frame(t.as_str()) {
            Ok(replies) => scan_replies(&replies, awaited),
            Err(e) => Some(Err(e)),
        },
        Inbound::Other => None,
        Inbound::Closed => Some(Err(SessionError::ClosedError)),
    }
}

/// Runs a wait over the events in order and stops at the first that ends
/// it. `None` where the events run out first.
pub fn await_reply(awaited: &str, events: &Vec<Inbound>) -> (r: Option<Result<Value, SessionError>>)
    ensures
        progress_view(r) == session_outcome(events@, awaited@),
{
    let mut i: usize = 0;
    assert(events@.skip(0) =~= events@);
    while i < events.len()
        invariant
            i <= events.len(),
            session_outcome(events@, awaited@) == session_outcome(
                events@.skip(i as int),
                awaited@,
            ),
        decreases events.len() - i,
    {
        assert(events@.skip(i as int)[0] == events@[i as int]);
        let step = on_inbound(awaited, &events[i]);
        if step.is_some() {
            return step;
        }
        assert(events@.skip(i as int).skip(1) =~= events@.skip(i + 1));
        i += 1;
    }
    None
}

/// Frames that hold no reply to the awaited call change nothing: where
/// every event of `before` leaves the wait open, the events of `before`
/// followed by those of `after` have the outcome of `after` alone.
pub proof fn lemma_unrelated_frames_ignored(
    before: Seq<Inbound>,
    after: Seq<Inbound>,
    awaited: Seq<char>,
)
    requires
        forall|j: int|
            0 <= j < before.len() ==> (#[trigger] inbound_outcome(before[j], awaited)) is Waiting,
    ensures
        session_outcome(before + after, awaited) == session_outcome(after, awaited),
    decreases before.len(),
{
    if before.len() == 0 {
        assert(before + after =~= after);
    } else {
        let rest = before.skip(1);
        assert((before + after).skip(1) =~= rest + after);
        assert((before + after)[0] == before[0]);
        assert(inbound_outcome(before[0], awaited) is Waiting);
        assert forall|j: int| 0 <= j < rest.len() implies (#[trigger] inbound_outcome(
            rest[j],
            awaited,
        )) is Waiting by {
            assert(rest[j] == before[j + 1]);
        }
        lemma_unrelated_frames_ignored(rest, after, awaited);
    }
}

} // verus!
