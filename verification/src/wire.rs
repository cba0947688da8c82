//! The request/reply correlator.  Outgoing commands get monotonically
//! increasing request identifiers; incoming lines are classified as the
//! awaited reply, an unsolicited event (kept in arrival order for later
//! delivery), or noise to discard.

use vstd::prelude::*;
use crate::digits::{dec_int, dec_nat, dec_u64, lemma_dec_int_injective};
use crate::error::Error;
use crate::json::{
    json_text, parse_result, parse_value, value_as_i64, value_as_text, value_clone, value_field,
    value_is_object, value_is_text, value_model, null_value, JsonData,
};
use crate::text::{chars_eq_str, chars_string, extend_chars, str_chars};

verus! {

/// What one incoming line means to a correlator whose outstanding request
/// has the given identifier.
pub enum WireAction {
    /// The awaited reply, successful; carries the reply's payload.
    Deliver(JsonData),
    /// The awaited reply, but the remote reported this error text.
    Remote(Seq<char>),
    /// The awaited reply, with a missing or non-string `error` field.
    BadReply,
    /// Unrelated traffic: another request's reply, or an untagged object.
    Ignore,
    /// An event to keep for later delivery.
    Enqueue,
}

pub open spec fn event_tagged(d: JsonData) -> bool {
    d matches JsonData::Obj(m) && m.dom().contains("event"@) && m["event"@] is Text
}

/// How the correlator treats one well-formed JSON object from the wire,
/// while the request with identifier `cur` is outstanding.  An object
/// carrying `request_id` is reply-shaped, never an event; one whose
/// `request_id` is not the awaited number is discarded.
pub open spec fn wire_step(d: JsonData, cur: int) -> WireAction
    recommends
        d is Obj,
{
    match d {
        JsonData::Obj(m) => {
            if m.dom().contains("request_id"@) {
                if m["request_id"@] == JsonData::Num(dec_int(cur)) {
                    if m.dom().contains("error"@) && m["error"@] is Text {
                        let e = m["error"@]->Text_0;
                        if e == "success"@ {
                            WireAction::Deliver(
                                if m.dom().contains("data"@) {
                                    m["data"@]
                                } else {
                                    JsonData::Null
                                },
                            )
                        } else {
                            WireAction::Remote(e)
                        }
                    } else {
                        WireAction::BadReply
                    }
                } else {
                    WireAction::Ignore
                }
            } else if event_tagged(d) {
                WireAction::Enqueue
            } else {
                WireAction::Ignore
            }
        },
        _ => WireAction::Ignore,
    }
}

/// A successfully consumed line: either the awaited reply's payload, or
/// nothing yet (the line was an event or was discarded).
pub enum LineStep {
    Reply(serde_json::Value),
    Consumed,
}

/// The comma-separated JSON texts of the command's arguments.
pub open spec fn joined_args(models: Seq<JsonData>) -> Seq<char>
    decreases models.len(),
{
    if models.len() == 0 {
        Seq::empty()
    } else if models.len() == 1 {
        json_text(models[0])
    } else {
        json_text(models[0]) + seq![','] + joined_args(models.drop_first())
    }
}

/// The full request line for the given command arguments and identifier.
pub open spec fn request_text(models: Seq<JsonData>, id: int) -> Seq<char> {
    "{\"command\":["@ + joined_args(models) + "],\"request_id\":"@ + dec_int(id) + "}"@
}

proof fn lemma_joined_args_push(models: Seq<JsonData>, x: JsonData)
    ensures
        joined_args(models.push(x)) == if models.len() == 0 {
            json_text(x)
        } else {
            joined_args(models) + seq![','] + joined_args(seq![x])
        },
    decreases models.len(),
{
    let p = models.push(x);
    if models.len() == 0 {
        assert(p =~= seq![x]);
    } else {
        assert(p.len() >= 2);
        assert(p[0] == models[0]);
        assert(p.drop_first() =~= models.drop_first().push(x));
        lemma_joined_args_push(models.drop_first(), x);
        if models.len() == 1 {
            assert(models.drop_first().len() == 0);
            assert(joined_args(p) == json_text(models[0]) + seq![','] + json_text(x));
            assert(joined_args(models) + seq![','] + joined_args(seq![x]) =~= joined_args(p));
        } else {
            assert(joined_args(p) == json_text(models[0]) + seq![','] + (joined_args(
                models.drop_first(),
            ) + seq![','] + joined_args(seq![x])));
            assert(joined_args(models) + seq![','] + joined_args(seq![x]) =~= joined_args(p));
        }
    }
}

pub struct Correlator {
    counter: i64,
    pending: Vec<serde_json::Value>,
}

/// Outcome classes for the `request_id` field of an incoming object.
enum IdMatch {
    Ours,
    Other,
    NoId,
}

impl Correlator {
    /// The identifier of the most recently issued request; -1 before any.
    pub closed spec fn id(&self) -> int {
        self.counter as int
    }

    pub closed spec fn wf(&self) -> bool {
        self.counter >= -1
    }

    /// The pending event queue, oldest first.
    pub closed spec fn queue(&self) -> Seq<JsonData> {
        self.pending@.map_values(|v: serde_json::Value| value_model(v))
    }

    pub fn new() -> (c: Correlator)
        ensures
            c.wf(),
            c.id() == -1,
            c.queue() == Seq::<JsonData>::empty(),
    {
        let c = Correlator { counter: -1, pending: Vec::new() };
        proof {
            assert(c.queue() =~= Seq::<JsonData>::empty());
        }
        c
    }

    /// Assigns the next request identifier and builds the request line to
    /// send: `{"command":[...],"request_id":N}`.
    pub fn next_request(&mut self, args: &Vec<serde_json::Value>) -> (line: String)
        requires
            old(self).wf(),
            old(self).id() < i64::MAX,
        ensures
            final(self).wf(),
            final(self).id() == old(self).id() + 1,
            final(self).queue() == old(self).queue(),
            line@ == request_text(
                args@.map_values(|v: serde_json::Value| value_model(v)),
                final(self).id(),
            ),
    {
        self.counter = self.counter + 1;
        let ghost models = args@.map_values(|v: serde_json::Value| value_model(v));
        let mut out = str_chars("{\"command\":[");
        let ghost head = "{\"command\":["@;
        let mut i: usize = 0;
        while i < args.len()
            invariant
                i <= args@.len(),
                models == args@.map_values(|v: serde_json::Value| value_model(v)),
                models.len() == args@.len(),
                out@ == head + joined_args(models.take(i as int)),
            decreases args@.len() - i,
        {
            if i > 0 {
                let comma = str_chars(",");
                proof {
                    reveal_strlit(",");
                }
                assert(comma@ =~= seq![',']);
                extend_chars(&mut out, &comma);
            }
            let piece = crate::json::value_text(&args[i]);
            let piece_chars = str_chars(piece.as_str());
            extend_chars(&mut out, &piece_chars);
            proof {
                assert(models[i as int] == value_model(args@[i as int]));
                assert(models.take(i + 1 as int) =~= models.take(i as int).push(
                    models[i as int],
                ));
                lemma_joined_args_push(models.take(i as int), models[i as int]);
                if i > 0 {
                    assert(joined_args(seq![models[i as int]]) == json_text(models[i as int]));
                    assert(out@ =~= head + joined_args(models.take(i + 1 as int)));
                } else {
                    assert(out@ =~= head + joined_args(models.take(1int)));
                }
            }
            i += 1;
        }
        proof {
            assert(models.take(models.len() as int) =~= models);
        }
        let mid = str_chars("],\"request_id\":");
        extend_chars(&mut out, &mid);
        let id_chars = dec_u64(self.counter as u64);
        extend_chars(&mut out, &id_chars);
        let tail = str_chars("}");
        extend_chars(&mut out, &tail);
        proof {
            assert(dec_int(self.counter as int) == dec_nat(self.counter as nat));
            assert(out@ =~= request_text(models, self.id()));
        }
        chars_string(&out)
    }

    /// Consumes one line read from the wire while this correlator's latest
    /// request is outstanding: delivers the awaited reply, surfaces remote
    /// and structural errors, queues events, and discards the rest.
    pub fn process_line(&mut self, line: &str) -> (r: Result<LineStep, Error>)
        requires
            old(self).wf(),
        ensures
            final(self).wf(),
            final(self).id() == old(self).id(),
            process_line_post(
                old(self).queue(),
                final(self).queue(),
                parse_result(line@),
                old(self).id(),
                r,
            ),
    {
        let v = match parse_value(line) {
            Ok(v) => v,
            Err(m) => {
                return Err(Error::JsonError(m));
            },
        };
        if !value_is_object(&v) {
            return Err(Error::UnexpectedValue);
        }
        let ghost d = value_model(v);
        match Self::match_request_id(&v, self.counter) {
            IdMatch::Other => Ok(LineStep::Consumed),
            IdMatch::NoId => {
                if Self::event_shaped(&v) {
                    let ghost q0 = self.queue();
                    self.pending.push(v);
                    proof {
                        assert(self.queue() =~= q0.push(d));
                    }
                    Ok(LineStep::Consumed)
                } else {
                    Ok(LineStep::Consumed)
                }
            },
            IdMatch::Ours => {
                let err_text: Option<String> = match value_field(&v, "error") {
                    Some(f) => value_as_text(f),
                    None => None,
                };
                match err_text {
                    None => Err(Error::UnexpectedValue),
                    Some(es) => {
                        let ec = str_chars(es.as_str());
                        if chars_eq_str(&ec, "success") {
                            let data = match value_field(&v, "data") {
                                Some(dv) => value_clone(dv),
                                None => null_value(),
                            };
                            Ok(LineStep::Reply(data))
                        } else {
                            Err(Error::MpvError(es))
                        }
                    },
                }
            },
        }
    }

    /// Classifies the `request_id` field of an incoming object against the
    /// identifier of the outstanding request.
    fn match_request_id(v: &serde_json::Value, cur: i64) -> (r: IdMatch)
        requires
            value_model(*v) is Obj,
        ensures
            ({
                let m = value_model(*v)->Obj_0;
                &&& (r is Ours <==> m.dom().contains("request_id"@) && m["request_id"@]
                    == JsonData::Num(dec_int(cur as int)))
                &&& (r is NoId <==> !m.dom().contains("request_id"@))
            }),
    {
        match value_field(v, "request_id") {
            Some(f) => {
                match value_as_i64(f) {
                    Some(i) => {
                        if i == cur {
                            IdMatch::Ours
                        } else {
                            proof {
                                if dec_int(i as int) == dec_int(cur as int) {
                                    lemma_dec_int_injective(i as int, cur as int);
                                }
                            }
                            IdMatch::Other
                        }
                    },
                    None => IdMatch::Other,
                }
            },
            None => IdMatch::NoId,
        }
    }

    fn event_shaped(v: &serde_json::Value) -> (r: bool)
        requires
            value_model(*v) is Obj,
        ensures
            r == event_tagged(value_model(*v)),
    {
        match value_field(v, "event") {
            Some(f) => value_is_text(f),
            None => false,
        }
    }

    /// Removes and returns the oldest queued event, if any.
    pub fn pop_pending(&mut self) -> (r: Option<serde_json::Value>)
        ensures
            final(self).wf() == old(self).wf(),
            final(self).id() == old(self).id(),
            match r {
                Some(v) => old(self).queue().len() > 0 && value_model(v) == old(self).queue()[0]
                    && final(self).queue() == old(self).queue().drop_first(),
                None => old(self).queue().len() == 0 && final(self).queue() == old(self).queue(),
            },
    {
        if self.pending.len() > 0 {
            let v = self.pending.remove(0);
            proof {
                assert(self.queue() =~= old(self).queue().drop_first());
            }
            Some(v)
        } else {
            None
        }
    }
}

/// What a run of `process_line` calls does to the queue while the request
/// with identifier `cur` is outstanding: lines are consumed in order until
/// one is the awaited reply (or a fatal shape error), events met on the way
/// joining the queue.  The second component is the action that ended the
/// run, `None` if every line was consumed.
pub open spec fn drain_lines(queue: Seq<JsonData>, cur: int, lines: Seq<JsonData>) -> (
    Seq<JsonData>,
    Option<WireAction>,
)
    decreases lines.len(),
{
    if lines.len() == 0 {
        (queue, None)
    } else {
        match wire_step(lines[0], cur) {
            WireAction::Enqueue => drain_lines(queue.push(lines[0]), cur, lines.drop_first()),
            WireAction::Ignore => drain_lines(queue, cur, lines.drop_first()),
            a => (queue, Some(a)),
        }
    }
}

/// Request identifiers on a fresh correlator are exactly 0, 1, 2, ...:
/// if the counter starts at -1 and each request increments it by one (as
/// `new` and `next_request` ensure), then the n requests issued carry the
/// identifiers 0 through n-1 in order.
pub proof fn lemma_fresh_request_ids(counters: Seq<int>, n: nat)
    requires
        counters.len() == n + 1,
        counters[0] == -1,
        forall|i: int| 0 <= i < n ==> counters[i + 1] == #[trigger] counters[i] + 1,
    ensures
        forall|i: int| 1 <= i <= n ==> #[trigger] counters[i] == i - 1,
    decreases n,
{
    if n > 0 {
        lemma_fresh_request_ids(counters.drop_last(), (n - 1) as nat);
        assert(forall|i: int|
            0 <= i < n - 1 ==> counters.drop_last()[i + 1] == #[trigger] counters.drop_last()[i]
                + 1);
        assert(forall|i: int|
            1 <= i <= n - 1 ==> #[trigger] counters[i] == counters.drop_last()[i]);
        assert(counters[n as int] == counters[n - 1] + 1);
    }
}

/// Events arriving while a reply is pending are all kept, in their arrival
/// order: if the lines consumed before the awaited reply are events, the
/// run ends at the reply and the queue has gained exactly those events,
/// oldest first.
pub proof fn lemma_events_kept_in_order(
    queue: Seq<JsonData>,
    cur: int,
    events: Seq<JsonData>,
    reply: JsonData,
)
    requires
        forall|i: int| 0 <= i < events.len() ==> wire_step(#[trigger] events[i], cur) is Enqueue,
        wire_step(reply, cur) is Deliver,
    ensures
        drain_lines(queue, cur, events.push(reply)) == (
            queue + events,
            Some(wire_step(reply, cur)),
        ),
    decreases events.len(),
{
    let lines = events.push(reply);
    if events.len() == 0 {
        assert(lines[0] == reply);
        assert(queue + events =~= queue);
    } else {
        assert(lines[0] == events[0]);
        assert(lines.drop_first() =~= events.drop_first().push(reply));
        lemma_events_kept_in_order(queue.push(events[0]), cur, events.drop_first(), reply);
        assert(queue.push(events[0]) + events.drop_first() =~= queue + events);
    }
}

/// A successful reply without a `data` field delivers JSON null.
pub proof fn lemma_success_without_data_is_null(m: Map<Seq<char>, JsonData>, cur: int)
    requires
        m.dom().contains("request_id"@),
        m["request_id"@] == JsonData::Num(dec_int(cur)),
        m.dom().contains("error"@),
        m["error"@] == JsonData::Text("success"@),
        !m.dom().contains("data"@),
    ensures
        wire_step(JsonData::Obj(m), cur) == WireAction::Deliver(JsonData::Null),
{
}

/// A reply whose `error` field is any string other than "success" surfaces
/// that very text as the remote's error.
pub proof fn lemma_remote_error_text_surfaces(m: Map<Seq<char>, JsonData>, cur: int, e: Seq<char>)
    requires
        m.dom().contains("request_id"@),
        m["request_id"@] == JsonData::Num(dec_int(cur)),
        m.dom().contains("error"@),
        m["error"@] == JsonData::Text(e),
        e != "success"@,
    ensures
        wire_step(JsonData::Obj(m), cur) == WireAction::Remote(e),
{
}

pub open spec fn process_line_post(
    q0: Seq<JsonData>,
    q1: Seq<JsonData>,
    parsed: Option<JsonData>,
    cur: int,
    r: Result<LineStep, Error>,
) -> bool {
    match parsed {
        None => r matches Err(Error::JsonError(_)) && q1 == q0,
        Some(d) => if !(d is Obj) {
            r matches Err(Error::UnexpectedValue) && q1 == q0
        } else {
            match wire_step(d, cur) {
                WireAction::Deliver(x) => (r matches Ok(LineStep::Reply(v)) && value_model(v)
                    == x) && q1 == q0,
                WireAction::Remote(e) => (r matches Err(Error::MpvError(s)) && s@ == e) && q1
                    == q0,
                WireAction::BadReply => r matches Err(Error::UnexpectedValue) && q1 == q0,
                WireAction::Ignore => r matches Ok(LineStep::Consumed) && q1 == q0,
                WireAction::Enqueue => r matches Ok(LineStep::Consumed) && q1 == q0.push(d),
            }
        },
    }
}

/// Classifies one line for an event listener with no request outstanding:
/// an object tagged with a string `event` field is returned, any other
/// object is discarded, and anything else is an error.
pub fn listen_line(line: &str) -> (r: Result<Option<serde_json::Value>, Error>)
    ensures
        ({
            match parse_result(line@) {
                None => r matches Err(Error::JsonError(_)),
                Some(d) => if !(d is Obj) {
                    r matches Err(Error::UnexpectedValue)
                } else if event_tagged(d) {
                    r matches Ok(Some(v)) && value_model(v) == d
                } else {
                    r matches Ok(None)
                },
            }
        }),
{
    let v = match parse_value(line) {
        Ok(v) => v,
        Err(m) => {
            return Err(Error::JsonError(m));
        },
    };
    if !value_is_object(&v) {
        return Err(Error::UnexpectedValue);
    }
    if Correlator::event_shaped(&v) {
        Ok(Some(v))
    } else {
        Ok(None)
    }
}

/// The name under an event message's `event` tag, if the message has one.
pub fn event_name(v: &serde_json::Value) -> (r: Option<String>)
    ensures
        match r {
            Some(s) => event_tagged(value_model(*v)) && value_model(*v)->Obj_0["event"@]
                == JsonData::Text(s@),
            None => !event_tagged(value_model(*v)),
        },
{
    match value_field(v, "event") {
        Some(f) => value_as_text(f),
        None => None,
    }
}

/// Whether the message is an event with exactly the given name.
pub fn event_matches(v: &serde_json::Value, name: &str) -> (r: bool)
    ensures
        r == (event_tagged(value_model(*v)) && value_model(*v)->Obj_0["event"@] == JsonData::Text(
            name@,
        )),
{
    match event_name(v) {
        Some(s) => {
            let sc = str_chars(s.as_str());
            chars_eq_str(&sc, name)
        },
        None => false,
    }
}

} // verus!
