//! AG-UI support: a2native as a frontend tool handler.  The tool call's
//! arguments, streamed as `TOOL_CALL_ARGS` deltas, hold the form spec; the
//! answer goes back as a `TOOL_CALL_RESULT` event.
use vstd::prelude::*;
use crate::json::{
    JsonValue, JsonView, json_seq_view, json_view, lemma_json_seq_view, is_record,
    record_field, is_record_exec, record_field_exec,
};
use crate::protocol::opt_str_view;
use crate::text::{starts_with_seq, contains_seq, str_contains, string_is, push_str, to_owned_string};

verus! {

/// Whether `input` looks like an AG-UI event stream: it holds
/// `"TOOL_CALL_START"`, quotes included.
pub fn is_agui(input: &str) -> (r: bool)
    ensures
        r == contains_seq(input@, "\"TOOL_CALL_START\""@),
{
    str_contains(input, "\"TOOL_CALL_START\"")
}

/// One AG-UI event, with the members that a tool handler reads.
#[derive(Debug)]
pub struct AguiEvent {
    pub event_type: String,
    pub tool_call_id: Option<String>,
    pub tool_call_name: Option<String>,
    pub delta: Option<String>,
    pub thread_id: Option<String>,
    pub run_id: Option<String>,
}

/// The view of an `AguiEvent`.
pub struct AguiEventView {
    pub event_type: Seq<char>,
    pub tool_call_id: Option<Seq<char>>,
    pub tool_call_name: Option<Seq<char>>,
    pub delta: Option<Seq<char>>,
    pub thread_id: Option<Seq<char>>,
    pub run_id: Option<Seq<char>>,
}

impl View for AguiEvent {
    type V = AguiEventView;

    open spec fn view(&self) -> AguiEventView {
        AguiEventView {
            event_type: self.event_type@,
            tool_call_id: opt_str_view(self.tool_call_id),
            tool_call_name: opt_str_view(self.tool_call_name),
            delta: opt_str_view(self.delta),
            thread_id: opt_str_view(self.thread_id),
            run_id: opt_str_view(self.run_id),
        }
    }
}

/// What a tool handler learns from an AG-UI event stream.
#[derive(Debug)]
pub struct AGUIContext {
    pub tool_call_id: String,
    pub tool_call_name: String,
    pub thread_id: Option<String>,
    pub run_id: Option<String>,
}

/// The view of an `AGUIContext`.
pub struct AGUIContextView {
    pub tool_call_id: Seq<char>,
    pub tool_call_name: Seq<char>,
    pub thread_id: Option<Seq<char>>,
    pub run_id: Option<Seq<char>>,
}

impl View for AGUIContext {
    type V = AGUIContextView;

    open spec fn view(&self) -> AGUIContextView {
        AGUIContextView {
            tool_call_id: self.tool_call_id@,
            tool_call_name: self.tool_call_name@,
            thread_id: opt_str_view(self.thread_id),
            run_id: opt_str_view(self.run_id),
        }
    }
}

/// A `TOOL_CALL_RESULT` event: the answer of a frontend tool.
#[derive(Debug)]
pub struct AGUIOutput {
    pub event_type: String,
    pub message_id: String,
    pub tool_call_id: String,
    pub content: String,
    pub role: String,
}

/// What the events read so far add up to: the context and the arguments.
pub struct EventAcc {
    pub ctx: AGUIContextView,
    pub args: Seq<char>,
}

/// One event applied: `RUN_STARTED` sets the thread and run ids,
/// `TOOL_CALL_START` the tool call's id and name (where given),
/// `TOOL_CALL_ARGS` appends its delta; other events change nothing.
pub open spec fn event_step(acc: EventAcc, e: AguiEventView) -> EventAcc {
    if e.event_type == "RUN_STARTED"@ {
        EventAcc { ctx: AGUIContextView { thread_id: e.thread_id, run_id: e.run_id, ..acc.ctx }, ..acc }
    } else if e.event_type == "TOOL_CALL_START"@ {
        EventAcc {
            ctx: AGUIContextView {
                tool_call_id: match e.tool_call_id { Some(id) => id, None => acc.ctx.tool_call_id },
                tool_call_name: match e.tool_call_name { Some(n) => n, None => acc.ctx.tool_call_name },
                ..acc.ctx
            },
            ..acc
        }
    } else if e.event_type == "TOOL_CALL_ARGS"@ {
        EventAcc { args: match e.delta { Some(d) => acc.args + d, None => acc.args }, ..acc }
    } else {
        acc
    }
}

/// The events `es` applied in order.
pub open spec fn fold_events(es: Seq<AguiEventView>) -> EventAcc
    decreases es.len(),
{
    if es.len() == 0 {
        EventAcc {
            ctx: AGUIContextView { tool_call_id: seq![], tool_call_name: seq![], thread_id: None, run_id: None },
            args: seq![],
        }
    } else {
        event_step(fold_events(es.drop_last()), es.last())
    }
}

/// The view of an event list.
pub open spec fn events_view(es: Seq<AguiEvent>) -> Seq<AguiEventView> {
    es.map_values(|e: AguiEvent| e@)
}

/// The concatenated tool-call arguments and the context of an event stream;
/// an error when no `TOOL_CALL_START` gave a non-empty tool call id.
pub fn parse_events(events: &Vec<AguiEvent>) -> (r: Result<(String, AGUIContext), String>)
    ensures
        match r {
            Ok(p) => fold_events(events_view(events@)).ctx.tool_call_id.len() > 0
                && p.0@ == fold_events(events_view(events@)).args
                && p.1@ == fold_events(events_view(events@)).ctx,
            Err(e) => fold_events(events_view(events@)).ctx.tool_call_id.len() == 0
                && e@ == "No TOOL_CALL_START found in AG-UI event stream"@,
        },
{
    let ghost ev = events_view(events@);
    let mut tool_call_id = String::new();
    let mut tool_call_name = String::new();
    let mut thread_id: Option<String> = None;
    let mut run_id: Option<String> = None;
    let mut args = String::new();
    let mut i: usize = 0;
    assert(ev.take(0) =~= Seq::<AguiEventView>::empty());
    while i < events.len()
        invariant
            i <= events.len(),
            ev == events_view(events@),
            ({
                let acc = fold_events(ev.take(i as int));
                &&& acc.ctx.tool_call_id == tool_call_id@
                &&& acc.ctx.tool_call_name == tool_call_name@
                &&& acc.ctx.thread_id == opt_str_view(thread_id)
                &&& acc.ctx.run_id == opt_str_view(run_id)
                &&& acc.args == args@
            }),
        decreases events.len() - i,
    {
        let ghost t = ev.take(i + 1);
        assert(t.drop_last() =~= ev.take(i as int));
        assert(t.last() == events@[i as int]@);
        let e = &events[i];
        if string_is(&e.event_type, "RUN_STARTED") {
            thread_id = e.thread_id.clone();
            run_id = e.run_id.clone();
        } else if string_is(&e.event_type, "TOOL_CALL_START") {
            match &e.tool_call_id {
                Some(id) => {
                    tool_call_id = id.clone();
                },
                None => {},
            }
            match &e.tool_call_name {
                Some(n) => {
                    tool_call_name = n.clone();
                },
                None => {},
            }
        } else if string_is(&e.event_type, "TOOL_CALL_ARGS") {
            match &e.delta {
                Some(d) => {
                    push_str(&mut args, d.as_str());
                },
                None => {},
            }
        }
        i = i + 1;
    }
    assert(ev.take(events.len() as int) =~= ev);
    if tool_call_id.as_str().is_empty() {
        return Err(to_owned_string("No TOOL_CALL_START found in AG-UI event stream"));
    }
    Ok((args, AGUIContext { tool_call_id, tool_call_name, thread_id, run_id }))
}

/// The `TOOL_CALL_RESULT` event that answers the tool call of `ctx` with
/// the serialized payload `content_json`.
pub fn to_output(content_json: &str, ctx: &AGUIContext) -> (r: AGUIOutput)
    ensures
        r.event_type@ == "TOOL_CALL_RESULT"@,
        r.message_id@ == ctx.tool_call_id@ + "-result"@,
        r.tool_call_id@ == ctx.tool_call_id@,
        r.content@ == content_json@,
        r.role@ == "tool"@,
{
    let mut message_id = ctx.tool_call_id.clone();
    push_str(&mut message_id, "-result");
    AGUIOutput {
        event_type: to_owned_string("TOOL_CALL_RESULT"),
        message_id,
        tool_call_id: ctx.tool_call_id.clone(),
        content: to_owned_string(content_json),
        role: to_owned_string("tool"),
    }
}

/// An optional string field of an event: missing and `null` give `None`,
/// a string gives its text, anything else is malformed.
pub open spec fn decode_opt_str(v: JsonView, i: int, key: Seq<char>) -> Option<Option<Seq<char>>> {
    match record_field(v, i, key) {
        None => Some(None),
        Some(JsonView::Null) => Some(None),
        Some(JsonView::Str(s)) => Some(Some(s)),
        Some(_) => None,
    }
}

/// An AG-UI event read from JSON: a record (see `is_record`) of a string
/// `type` and optional strings `toolCallId`, `toolCallName`, `delta`,
/// `threadId`, `runId`, in that order; other object members are ignored.
pub open spec fn decode_event_spec(v: JsonView) -> Option<AguiEventView> {
    if !is_record(v, 6) {
        None
    } else {
        match (
            record_field(v, 0, "type"@),
            decode_opt_str(v, 1, "toolCallId"@),
            decode_opt_str(v, 2, "toolCallName"@),
            decode_opt_str(v, 3, "delta"@),
            decode_opt_str(v, 4, "threadId"@),
            decode_opt_str(v, 5, "runId"@),
        ) {
            (Some(JsonView::Str(t)), Some(a), Some(b), Some(c), Some(d), Some(e)) => Some(AguiEventView {
                event_type: t,
                tool_call_id: a,
                tool_call_name: b,
                delta: c,
                thread_id: d,
                run_id: e,
            }),
            _ => None,
        }
    }
}

/// Reads an optional string member.
fn decode_opt_str_exec(v: &JsonValue, i: usize, key: &str) -> (r: Result<Option<String>, String>)
    ensures
        match r {
            Ok(o) => decode_opt_str(v@, i as int, key@) == Some(opt_str_view(o)),
            Err(_) => decode_opt_str(v@, i as int, key@) is None,
        },
{
    match record_field_exec(v, i, key) {
        None => Ok(None),
        Some(JsonValue::Null) => Ok(None),
        Some(JsonValue::Str(s)) => Ok(Some(s.clone())),
        Some(_) => {
            let mut e = to_owned_string("invalid type for field `");
            push_str(&mut e, key);
            push_str(&mut e, "`: expected a string");
            Err(e)
        },
    }
}

/// Reads one AG-UI event.
pub fn decode_event(v: &JsonValue) -> (r: Result<AguiEvent, String>)
    ensures
        match r {
            Ok(e) => decode_event_spec(v@) == Some(e@),
            Err(_) => decode_event_spec(v@) is None,
        },
{
    if !is_record_exec(v, 6) {
        return Err(to_owned_string("invalid type: expected an AG-UI event"));
    }
    let event_type = match record_field_exec(v, 0, "type") {
        Some(JsonValue::Str(s)) => s.clone(),
        Some(_) => return Err(to_owned_string("invalid type for field `type`: expected a string")),
        None => return Err(to_owned_string("missing field `type`")),
    };
    let tool_call_id = match decode_opt_str_exec(v, 1, "toolCallId") {
        Ok(o) => o,
        Err(e) => return Err(e),
    };
    let tool_call_name = match decode_opt_str_exec(v, 2, "toolCallName") {
        Ok(o) => o,
        Err(e) => return Err(e),
    };
    let delta = match decode_opt_str_exec(v, 3, "delta") {
        Ok(o) => o,
        Err(e) => return Err(e),
    };
    let thread_id = match decode_opt_str_exec(v, 4, "threadId") {
        Ok(o) => o,
        Err(e) => return Err(e),
    };
    let run_id = match decode_opt_str_exec(v, 5, "runId") {
        Ok(o) => o,
        Err(e) => return Err(e),
    };
    Ok(AguiEvent { event_type, tool_call_id, tool_call_name, delta, thread_id, run_id })
}

/// Events read from JSON values, in order; `None` if one is malformed.
pub open spec fn decode_events_spec(vs: Seq<JsonView>) -> Option<Seq<AguiEventView>>
    decreases vs.len(),
{
    if vs.len() == 0 {
        Some(seq![])
    } else {
        match (decode_events_spec(vs.drop_last()), decode_event_spec(vs.last())) {
            (Some(es), Some(e)) => Some(es.push(e)),
            _ => None,
        }
    }
}

/// Where a prefix of `vs` holds a malformed event, so does `vs`.
proof fn lemma_decode_events_prefix(vs: Seq<JsonView>, k: int)
    requires
        0 <= k <= vs.len(),
        decode_events_spec(vs.take(k)) is None,
    ensures
        decode_events_spec(vs) is None,
    decreases vs.len(),
{
    if k == vs.len() {
        assert(vs.take(k) =~= vs);
    } else {
        assert(vs.drop_last().take(k) =~= vs.take(k));
        lemma_decode_events_prefix(vs.drop_last(), k);
    }
}

/// Reads the tool call's arguments and context from the JSON values of an
/// AG-UI event stream, in order. A malformed event gives `AG-UI parse error: `
/// and what is wrong with it; a stream that sets no tool call id gives
/// `No TOOL_CALL_START found in AG-UI event stream`.
pub fn parse(values: &Vec<JsonValue>) -> (r: Result<(String, AGUIContext), String>)
    ensures
        match decode_events_spec(json_seq_view(values@)) {
            Some(es) => match r {
                Ok(p) => fold_events(es).ctx.tool_call_id.len() > 0
                    && p.0@ == fold_events(es).args
                    && p.1@ == fold_events(es).ctx,
                Err(e) => fold_events(es).ctx.tool_call_id.len() == 0
                    && e@ == "No TOOL_CALL_START found in AG-UI event stream"@,
            },
            None => r is Err && starts_with_seq(r->Err_0@, "AG-UI parse error: "@),
        },
{
    let ghost vs = json_seq_view(values@);
    proof {
        lemma_json_seq_view(values@);
    }
    let mut events: Vec<AguiEvent> = Vec::new();
    let mut i: usize = 0;
    assert(vs.take(0) =~= Seq::<JsonView>::empty());
    assert(events_view(events@) =~= Seq::<AguiEventView>::empty());
    while i < values.len()
        invariant
            i <= values.len(),
            vs == json_seq_view(values@),
            vs.len() == values.len(),
            forall|k: int| 0 <= k < values.len() ==> #[trigger] vs[k] == json_view(values@[k]),
            decode_events_spec(vs.take(i as int)) == Some(events_view(events@)),
        decreases values.len() - i,
    {
        assert(vs.take(i + 1).drop_last() =~= vs.take(i as int));
        assert(vs.take(i + 1).last() == json_view(values@[i as int]));
        match decode_event(&values[i]) {
            Ok(e) => {
                let ghost before = events@;
                events.push(e);
                assert(events_view(events@) =~= events_view(before).push(e@));
            },
            Err(e) => {
                proof {
                    lemma_decode_events_prefix(vs, i + 1);
                }
                let mut err = to_owned_string("AG-UI parse error: ");
                push_str(&mut err, e.as_str());
                assert(err@.subrange(0, "AG-UI parse error: "@.len() as int) =~= "AG-UI parse error: "@);
                return Err(err);
            },
        }
        i = i + 1;
    }
    assert(vs.take(values.len() as int) =~= vs);
    parse_events(&events)
}

/// The `TOOL_CALL_ARGS` deltas of `es`, concatenated in order.
pub open spec fn args_deltas(es: Seq<AguiEventView>) -> Seq<char>
    decreases es.len(),
{
    if es.len() == 0 {
        seq![]
    } else {
        let e = es.last();
        args_deltas(es.drop_last()) + if e.event_type == "TOOL_CALL_ARGS"@ && e.delta is Some {
            e.delta->0
        } else {
            seq![]
        }
    }
}

/// The tool call's arguments are the `TOOL_CALL_ARGS` deltas of the stream,
/// concatenated in the order in which they came; no other event adds to them.
pub proof fn lemma_args_are_deltas(es: Seq<AguiEventView>)
    ensures
        fold_events(es).args == args_deltas(es),
    decreases es.len(),
{
    if es.len() > 0 {
        lemma_args_are_deltas(es.drop_last());
        reveal_strlit("RUN_STARTED");
        reveal_strlit("TOOL_CALL_START");
        reveal_strlit("TOOL_CALL_ARGS");
        let e = es.last();
        assert("TOOL_CALL_ARGS"@.len() == 14);
        assert("RUN_STARTED"@.len() == 11);
        assert("TOOL_CALL_START"@.len() == 15);
        assert(fold_events(es).args =~= args_deltas(es));
    }
}

} // verus!
