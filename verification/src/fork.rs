//! Forking a run at an event: the fork point must close every assistant
//! turn and tool call that the parent opened, and the parent's turn rows up
//! to it become the child's starting conversation.

use vstd::prelude::*;

use crate::events::{EventPayload, EventRecord, StreamFrame, StreamItemKey};
use crate::run::{RunHarnessKind, RunId, RunRecord, RunSource};

verus! {

/// A JSON document.
#[verifier::external_type_specification]
#[verifier::external_body]
pub struct ExJsonValue(serde_json::Value);

/// A JSON parse failure.
#[verifier::external_type_specification]
#[verifier::external_body]
pub struct ExJsonError(serde_json::Error);

/// The JSON document that `serde_json` parses from a text, if the text is JSON.
pub uninterp spec fn spec_json_parse(text: Seq<char>) -> Option<serde_json::Value>;

/// Parse a JSON document with `serde_json::from_str`. Its contract names
/// the outcome: the document parsed from the text, or the failure, exactly
/// when the text is no JSON; what the document holds is not stated.
#[verifier::external_body]
fn parse_json(text: &str) -> (res: Result<serde_json::Value, serde_json::Error>)
    ensures
        match res {
            Ok(v) => spec_json_parse(text@) == Some(v),
            Err(_) => spec_json_parse(text@) is None,
        },
{
    serde_json::from_str::<serde_json::Value>(text)
}

/// Refusals while forking.
#[derive(Debug, Clone, Copy, PartialEq, Eq, Structural)]
pub enum ForkError {
    /// The parent is not run by the native harness.
    RunNotNativeHarness(RunId),
    /// No event of the parent has the fork sequence.
    ForkPointNotFound { run_id: RunId, boundary: u64 },
    /// The fork sequence lies inside a turn.
    NotTurnBoundary { run_id: RunId, boundary: u64 },
    /// The parent's turn rows put a tool row before any assistant row.
    ToolRowWithoutAssistant,
    /// A tool row has no item id.
    ToolRowWithoutItemId,
    /// A tool row's input is not JSON.
    InvalidToolInput { item_id: StreamItemKey },
}

/// Whether a parent event at `parent_event_seq` can be named as a fork
/// point: the parent must be native, have events, and the sequence must be
/// within them (sequences start at one).
pub open spec fn spec_check_fork_point(parent: RunRecord, parent_event_seq: u64) -> Result<(), ForkError> {
    if parent.harness != RunHarnessKind::Native {
        Err(ForkError::RunNotNativeHarness(parent.id))
    } else {
        match parent.last_event_seq {
            None => Err(ForkError::ForkPointNotFound { run_id: parent.id, boundary: parent_event_seq }),
            Some(latest) => if parent_event_seq == 0 || parent_event_seq > latest {
                Err(ForkError::ForkPointNotFound { run_id: parent.id, boundary: parent_event_seq })
            } else {
                Ok(())
            },
        }
    }
}

/// Check a requested fork point against the parent (see [`spec_check_fork_point`]).
pub fn check_fork_point(parent: &RunRecord, parent_event_seq: u64) -> (res: Result<(), ForkError>)
    ensures
        res == spec_check_fork_point(*parent, parent_event_seq),
{
    if parent.harness != RunHarnessKind::Native {
        return Err(ForkError::RunNotNativeHarness(parent.id));
    }
    match parent.last_event_seq {
        None => Err(ForkError::ForkPointNotFound { run_id: parent.id, boundary: parent_event_seq }),
        Some(latest) => if parent_event_seq == 0 || parent_event_seq > latest {
            Err(ForkError::ForkPointNotFound { run_id: parent.id, boundary: parent_event_seq })
        } else {
            Ok(())
        },
    }
}

/// An assistant turn (with no item) or a tool call opened in the stream.
#[derive(Debug, Clone, Copy, PartialEq, Eq, Structural)]
pub struct OpenToolCall {
    pub turn_id: Option<StreamItemKey>,
    pub item_id: Option<StreamItemKey>,
}

/// The assistant turns that `events` leave open.
pub open spec fn spec_open_turns(events: Seq<EventRecord>) -> Set<OpenToolCall>
    decreases events.len(),
{
    if events.len() == 0 {
        Set::empty()
    } else {
        let prev = spec_open_turns(events.drop_last());
        match events.last().payload {
            EventPayload::AgentStream { emission, .. } => match emission.frame {
                StreamFrame::AssistantTurnStarted => prev.insert(OpenToolCall { turn_id: emission.turn_id, item_id: None }),
                StreamFrame::AssistantTurnCompleted => prev.remove(OpenToolCall { turn_id: emission.turn_id, item_id: None }),
                _ => prev,
            },
            _ => prev,
        }
    }
}

/// The tool calls that `events` leave open.
pub open spec fn spec_open_tool_calls(events: Seq<EventRecord>) -> Set<OpenToolCall>
    decreases events.len(),
{
    if events.len() == 0 {
        Set::empty()
    } else {
        let prev = spec_open_tool_calls(events.drop_last());
        match events.last().payload {
            EventPayload::AgentStream { emission, .. } => {
                let key = OpenToolCall { turn_id: emission.turn_id, item_id: emission.item_id };
                match emission.frame {
                    StreamFrame::ToolCallStarted => prev.insert(key),
                    StreamFrame::ToolCallCompleted => prev.remove(key),
                    _ => prev,
                }
            },
            _ => prev,
        }
    }
}

/// Whether the event after the fork point carries on the same turn with a
/// tool or pending-state frame.
pub open spec fn spec_next_continues_same_turn(last: EventRecord, next: Option<EventRecord>) -> bool {
    match (last.payload, next) {
        (EventPayload::AgentStream { emission: l, .. }, Some(n)) => match n.payload {
            EventPayload::AgentStream { emission: e, .. } => e.turn_id == l.turn_id && match e.frame {
                StreamFrame::ToolCallStarted | StreamFrame::ToolCallCompleted | StreamFrame::PendingStateChanged => true,
                _ => false,
            },
            _ => false,
        },
        _ => false,
    }
}

/// The index of the first event with sequence `boundary`.
pub open spec fn spec_first_with_sequence(events: Seq<EventRecord>, boundary: u64) -> Option<int> {
    if exists|i: int| 0 <= i < events.len() && events[i].sequence == boundary {
        Some(
            choose|i: int|
                0 <= i < events.len() && events[i].sequence == boundary && forall|k: int|
                    0 <= k < i ==> events[k].sequence != boundary,
        )
    } else {
        None
    }
}

/// Whether the parent's events up to the fork point end on a turn boundary:
/// the fork event exists, no assistant turn or tool call is left open, and
/// the event after the fork point does not continue the same turn.
pub open spec fn spec_validate_fork_boundary(
    run_id: RunId,
    boundary: u64,
    events: Seq<EventRecord>,
    next: Option<EventRecord>,
) -> Result<(), ForkError> {
    match spec_first_with_sequence(events, boundary) {
        None => Err(ForkError::ForkPointNotFound { run_id, boundary }),
        Some(i) => if !spec_open_turns(events).is_empty() || !spec_open_tool_calls(events).is_empty()
            || spec_next_continues_same_turn(events[i], next) {
            Err(ForkError::NotTurnBoundary { run_id, boundary })
        } else {
            Ok(())
        },
    }
}

fn set_insert(v: &mut Vec<OpenToolCall>, x: OpenToolCall)
    requires
        old(v)@.no_duplicates(),
    ensures
        final(v)@.no_duplicates(),
        final(v)@.to_set() == old(v)@.to_set().insert(x),
{
    broadcast use vstd::seq_lib::group_seq_properties;
    let mut i: usize = 0;
    while i < v.len()
        invariant
            0 <= i <= v.len(),
            v@ == old(v)@,
            v@.no_duplicates(),
            forall|j: int| 0 <= j < i ==> v@[j] != x,
        decreases v.len() - i,
    {
        if v[i] == x {
            assert(v@.to_set() =~= v@.to_set().insert(x));
            return;
        }
        i = i + 1;
    }
    v.push(x);
}

fn set_remove(v: &mut Vec<OpenToolCall>, x: OpenToolCall)
    requires
        old(v)@.no_duplicates(),
    ensures
        final(v)@.no_duplicates(),
        final(v)@.to_set() == old(v)@.to_set().remove(x),
{
    broadcast use vstd::seq_lib::group_seq_properties;
    let mut i: usize = 0;
    while i < v.len()
        invariant
            0 <= i <= v.len(),
            v@ == old(v)@,
            v@.no_duplicates(),
            forall|j: int| 0 <= j < i ==> v@[j] != x,
        decreases v.len() - i,
    {
        if v[i] == x {
            let ghost before = v@;
            v.remove(i);
            assert(v@ == before.remove(i as int));
            assert(v@.no_duplicates()) by {
                assert forall|a: int, b: int| 0 <= a < v@.len() && 0 <= b < v@.len() && a != b implies v@[a] != v@[b] by {
                    let a2 = if a < i { a } else { a + 1 };
                    let b2 = if b < i { b } else { b + 1 };
                    assert(v@[a] == before[a2]);
                    assert(v@[b] == before[b2]);
                }
            }
            assert forall|y: OpenToolCall| v@.to_set().contains(y) <==> before.to_set().remove(x).contains(y) by {
                if v@.to_set().contains(y) {
                    let k = choose|k: int| 0 <= k < v@.len() && v@[k] == y;
                    if k < i {
                        assert(before[k] == y);
                        assert(k != i);
                    } else {
                        assert(before[k + 1] == y);
                        assert(k + 1 != i);
                    }
                    assert(y != x);
                }
                if before.to_set().remove(x).contains(y) {
                    let k = choose|k: int| 0 <= k < before.len() && before[k] == y;
                    assert(k != i);
                    if k < i {
                        assert(v@[k] == y);
                    } else {
                        assert(v@[k - 1] == y);
                    }
                }
            }
            assert(v@.to_set() =~= before.to_set().remove(x));
            return;
        }
        i = i + 1;
    }
    assert(v@.to_set() =~= v@.to_set().remove(x));
}

/// Check that a fork point ends a turn (see [`spec_validate_fork_boundary`]);
/// `next` is the parent's first event after the fork point, if any.
pub fn validate_fork_boundary(
    run_id: RunId,
    boundary: u64,
    events: &Vec<EventRecord>,
    next: Option<EventRecord>,
) -> (res: Result<(), ForkError>)
    ensures
        res == spec_validate_fork_boundary(run_id, boundary, events@, next),
{
    broadcast use vstd::seq_lib::group_seq_properties;
    let mut found: Option<usize> = None;
    let mut i: usize = 0;
    while i < events.len()
        invariant
            0 <= i <= events.len(),
            found is None ==> forall|k: int| 0 <= k < i ==> events@[k].sequence != boundary,
            found matches Some(f) ==> f < events.len() && events@[f as int].sequence == boundary
                && forall|k: int| 0 <= k < f ==> events@[k].sequence != boundary,
        decreases events.len() - i,
    {
        if found.is_none() && events[i].sequence == boundary {
            found = Some(i);
        }
        i = i + 1;
    }
    let last_index = match found {
        None => {
            return Err(ForkError::ForkPointNotFound { run_id, boundary });
        },
        Some(f) => f,
    };
    proof {
        let c = choose|k: int|
            0 <= k < events@.len() && events@[k].sequence == boundary && forall|j: int|
                0 <= j < k ==> events@[j].sequence != boundary;
        assert(events@[last_index as int].sequence == boundary);
        assert(c == last_index);
    }
    let mut turns: Vec<OpenToolCall> = Vec::new();
    let mut tools: Vec<OpenToolCall> = Vec::new();
    assert(turns@.to_set() =~= Set::<OpenToolCall>::empty());
    assert(tools@.to_set() =~= Set::<OpenToolCall>::empty());
    let mut j: usize = 0;
    while j < events.len()
        invariant
            0 <= j <= events.len(),
            turns@.no_duplicates(),
            tools@.no_duplicates(),
            turns@.to_set() == spec_open_turns(events@.take(j as int)),
            tools@.to_set() == spec_open_tool_calls(events@.take(j as int)),
        decreases events.len() - j,
    {
        assert(events@.take((j + 1) as int).drop_last() == events@.take(j as int));
        let record = events[j];
        match record.payload {
            EventPayload::AgentStream { emission, .. } => {
                let key = OpenToolCall { turn_id: emission.turn_id, item_id: emission.item_id };
                match emission.frame {
                    StreamFrame::AssistantTurnStarted => set_insert(&mut turns, OpenToolCall { turn_id: emission.turn_id, item_id: None }),
                    StreamFrame::AssistantTurnCompleted => set_remove(&mut turns, OpenToolCall { turn_id: emission.turn_id, item_id: None }),
                    StreamFrame::ToolCallStarted => set_insert(&mut tools, key),
                    StreamFrame::ToolCallCompleted => set_remove(&mut tools, key),
                    _ => {},
                }
            },
            _ => {},
        }
        j = j + 1;
    }
    assert(events@.take(events.len() as int) == events@);
    if turns.len() > 0 || tools.len() > 0 {
        proof {
            if turns.len() > 0 {
                assert(turns@.to_set().contains(turns@[0]));
            }
            if tools.len() > 0 {
                assert(tools@.to_set().contains(tools@[0]));
            }
        }
        return Err(ForkError::NotTurnBoundary { run_id, boundary });
    }
    proof {
        assert(turns@.to_set() =~= Set::<OpenToolCall>::empty());
        assert(tools@.to_set() =~= Set::<OpenToolCall>::empty());
    }
    if next_event_continues_same_turn(&events[last_index], &next) {
        return Err(ForkError::NotTurnBoundary { run_id, boundary });
    }
    Ok(())
}

/// Whether the event after the fork point continues the turn (see [`spec_next_continues_same_turn`]).
pub fn next_event_continues_same_turn(last: &EventRecord, next: &Option<EventRecord>) -> (res: bool)
    ensures
        res == spec_next_continues_same_turn(*last, *next),
{
    match (last.payload, next) {
        (EventPayload::AgentStream { emission: l, .. }, Some(n)) => match n.payload {
            EventPayload::AgentStream { emission: e, .. } => e.turn_id == l.turn_id && match e.frame {
                StreamFrame::ToolCallStarted | StreamFrame::ToolCallCompleted | StreamFrame::PendingStateChanged => true,
                _ => false,
            },
            _ => false,
        },
        _ => false,
    }
}

/// A durable row of a run's conversation.
#[derive(Debug)]
pub enum AgentTurnRow {
    Assistant { run_id: RunId, sequence: u64, turn_id: StreamItemKey, text: String },
    ToolCall {
        run_id: RunId,
        sequence: u64,
        turn_id: StreamItemKey,
        item_id: Option<StreamItemKey>,
        tool_name: String,
        input: String,
        output: String,
    },
    PendingState { run_id: RunId, sequence: u64, turn_id: StreamItemKey },
}

/// A tool call as the provider sees it.
#[derive(Debug)]
pub struct ToolCallRecord {
    pub id: StreamItemKey,
    pub name: String,
    pub input: serde_json::Value,
}

/// A message of the conversation handed to a forked run.
#[derive(Debug)]
pub enum StreamMessage {
    User { text: String },
    Assistant { text: String, tool_calls: Vec<ToolCallRecord> },
    Tool { tool_call_id: StreamItemKey, output: String },
}

/// The plain content of a message: role-tagged texts, tool call ids and
/// names, and parsed tool inputs.
pub enum MessageView {
    User { text: Seq<char> },
    Assistant { text: Seq<char>, tool_calls: Seq<(StreamItemKey, Seq<char>, serde_json::Value)> },
    Tool { tool_call_id: StreamItemKey, output: Seq<char> },
}

impl StreamMessage {
    /// The plain content of the message.
    pub open spec fn view_message(&self) -> MessageView {
        match self {
            StreamMessage::User { text } => MessageView::User { text: text@ },
            StreamMessage::Assistant { text, tool_calls } => MessageView::Assistant {
                text: text@,
                tool_calls: tool_calls@.map_values(|c: ToolCallRecord| (c.id, c.name@, c.input)),
            },
            StreamMessage::Tool { tool_call_id, output } => MessageView::Tool {
                tool_call_id: *tool_call_id,
                output: output@,
            },
        }
    }
}

/// The plain contents of a list of messages.
pub open spec fn spec_message_views(m: Seq<StreamMessage>) -> Seq<MessageView> {
    m.map_values(|x: StreamMessage| x.view_message())
}

/// Whether row `r` continues the group of assistant turn `turn`.
pub open spec fn spec_row_in_group(r: AgentTurnRow, turn: StreamItemKey) -> bool {
    match r {
        AgentTurnRow::ToolCall { turn_id, .. } => turn_id == turn,
        AgentTurnRow::PendingState { turn_id, .. } => turn_id == turn,
        _ => false,
    }
}

/// The end of the group that starts after index `from` for `turn`.
pub open spec fn spec_group_end(rows: Seq<AgentTurnRow>, turn: StreamItemKey, from: int) -> int
    decreases rows.len() - from,
{
    if from < 0 || from >= rows.len() || !spec_row_in_group(rows[from], turn) {
        from
    } else {
        spec_group_end(rows, turn, from + 1)
    }
}

/// The tool rows among `rows[from..to]`.
pub open spec fn spec_tool_rows(rows: Seq<AgentTurnRow>, from: int, to: int) -> Seq<AgentTurnRow>
    decreases to - from,
{
    if from >= to {
        Seq::empty()
    } else {
        let rest = spec_tool_rows(rows, from, to - 1);
        if rows[to - 1] is ToolCall {
            rest.push(rows[to - 1])
        } else {
            rest
        }
    }
}

/// The call that a tool row becomes, or why it cannot.
pub open spec fn spec_tool_call(row: AgentTurnRow) -> Result<(StreamItemKey, Seq<char>, serde_json::Value), ForkError> {
    match row {
        AgentTurnRow::ToolCall { item_id, tool_name, input, .. } => match item_id {
            None => Err(ForkError::ToolRowWithoutItemId),
            Some(id) => match spec_json_parse(input@) {
                None => Err(ForkError::InvalidToolInput { item_id: id }),
                Some(v) => Ok((id, tool_name@, v)),
            },
        },
        _ => Err(ForkError::ToolRowWithoutAssistant),
    }
}

/// The calls that tool rows become, the first failure winning.
pub open spec fn spec_tool_calls(tools: Seq<AgentTurnRow>) -> Result<Seq<(StreamItemKey, Seq<char>, serde_json::Value)>, ForkError>
    decreases tools.len(),
{
    if tools.len() == 0 {
        Ok(Seq::empty())
    } else {
        match spec_tool_calls(tools.drop_last()) {
            Err(e) => Err(e),
            Ok(prev) => match spec_tool_call(tools.last()) {
                Err(e) => Err(e),
                Ok(c) => Ok(prev.push(c)),
            },
        }
    }
}

/// The tool-result messages of tool rows.
pub open spec fn spec_tool_messages(tools: Seq<AgentTurnRow>) -> Seq<MessageView>
    decreases tools.len(),
{
    if tools.len() == 0 {
        Seq::empty()
    } else {
        let prev = spec_tool_messages(tools.drop_last());
        match tools.last() {
            AgentTurnRow::ToolCall { item_id: Some(id), output, .. } => prev.push(
                MessageView::Tool { tool_call_id: id, output: output@ },
            ),
            _ => prev,
        }
    }
}

/// The messages that `rows[index..]` become: each assistant row, with the
/// tool and pending rows of its turn that follow it, becomes an assistant
/// message with its tool calls, followed by one tool message per tool row.
pub open spec fn spec_rows_to_messages(rows: Seq<AgentTurnRow>, index: int) -> Result<Seq<MessageView>, ForkError>
    decreases rows.len() - index,
{
    if index < 0 || index >= rows.len() {
        Ok(Seq::empty())
    } else {
        match rows[index] {
            AgentTurnRow::Assistant { turn_id, text, .. } => {
                let end = spec_group_end(rows, turn_id, index + 1);
                proof {
                    lemma_group_end_bounds(rows, turn_id, index + 1);
                }
                let tools = spec_tool_rows(rows, index + 1, end);
                match spec_tool_calls(tools) {
                    Err(e) => Err(e),
                    Ok(calls) => if end <= index {
                        Ok(Seq::empty())
                    } else {
                        match spec_rows_to_messages(rows, end) {
                            Err(e) => Err(e),
                            Ok(rest) => Ok(
                                seq![MessageView::Assistant { text: text@, tool_calls: calls }]
                                    + spec_tool_messages(tools) + rest,
                            ),
                        }
                    },
                }
            },
            _ => Err(ForkError::ToolRowWithoutAssistant),
        }
    }
}

pub proof fn lemma_group_end_bounds(rows: Seq<AgentTurnRow>, turn: StreamItemKey, from: int)
    requires
        0 <= from <= rows.len(),
    ensures
        from <= spec_group_end(rows, turn, from) <= rows.len(),
        forall|k: int| from <= k < spec_group_end(rows, turn, from) ==> spec_row_in_group(#[trigger] rows[k], turn),
        spec_group_end(rows, turn, from) < rows.len() ==> !spec_row_in_group(rows[spec_group_end(rows, turn, from)], turn),
    decreases rows.len() - from,
{
    if from < rows.len() && spec_row_in_group(rows[from], turn) {
        lemma_group_end_bounds(rows, turn, from + 1);
    }
}

proof fn lemma_tool_rows_step(rows: Seq<AgentTurnRow>, from: int, to: int)
    requires
        from <= to,
    ensures
        spec_tool_rows(rows, from, to + 1) == if rows[to] is ToolCall {
            spec_tool_rows(rows, from, to).push(rows[to])
        } else {
            spec_tool_rows(rows, from, to)
        },
{
}

fn tool_call_record(row: &AgentTurnRow) -> (res: Result<ToolCallRecord, ForkError>)
    ensures
        match res {
            Ok(c) => spec_tool_call(*row) == Ok::<(StreamItemKey, Seq<char>, serde_json::Value), ForkError>((c.id, c.name@, c.input)),
            Err(e) => spec_tool_call(*row) == Err::<(StreamItemKey, Seq<char>, serde_json::Value), ForkError>(e),
        },
{
    match row {
        AgentTurnRow::ToolCall { item_id, tool_name, input, .. } => {
            let id = match item_id {
                None => {
                    return Err(ForkError::ToolRowWithoutItemId);
                },
                Some(id) => *id,
            };
            match parse_json(input.as_str()) {
                Err(_) => Err(ForkError::InvalidToolInput { item_id: id }),
                Ok(v) => Ok(ToolCallRecord { id, name: tool_name.clone(), input: v }),
            }
        },
        _ => Err(ForkError::ToolRowWithoutAssistant),
    }
}

fn row_in_group(row: &AgentTurnRow, turn: StreamItemKey) -> (res: bool)
    ensures
        res == spec_row_in_group(*row, turn),
{
    match row {
        AgentTurnRow::ToolCall { turn_id: t, .. } => *t == turn,
        AgentTurnRow::PendingState { turn_id: t, .. } => *t == turn,
        _ => false,
    }
}

proof fn lemma_tool_calls_ok_have_ids(tools: Seq<AgentTurnRow>)
    requires
        spec_tool_calls(tools) is Ok,
    ensures
        spec_tool_calls(tools)->Ok_0.len() == tools.len(),
        forall|k: int| 0 <= k < tools.len() ==> (#[trigger] tools[k]) matches AgentTurnRow::ToolCall { item_id: Some(_), .. },
    decreases tools.len(),
{
    if tools.len() > 0 {
        lemma_tool_calls_ok_have_ids(tools.drop_last());
        assert forall|k: int| 0 <= k < tools.len() implies (#[trigger] tools[k]) matches AgentTurnRow::ToolCall { item_id: Some(_), .. } by {
            if k < tools.len() - 1 {
                assert(tools[k] == tools.drop_last()[k]);
            }
        }
    }
}

/// The conversation that a fork starts from: the parent's objective as the
/// user message, then the messages of its turn rows (see
/// [`spec_rows_to_messages`]); the rows are in sequence order.
pub fn turn_rows_to_messages(parent_objective: String, rows: &Vec<AgentTurnRow>) -> (res: Result<Vec<StreamMessage>, ForkError>)
    ensures
        match spec_rows_to_messages(rows@, 0) {
            Ok(ms) => res is Ok && spec_message_views(res->Ok_0@) == seq![MessageView::User { text: parent_objective@ }] + ms,
            Err(e) => res == Err::<Vec<StreamMessage>, ForkError>(e),
        },
{
    let ghost objective = parent_objective@;
    let mut messages: Vec<StreamMessage> = Vec::new();
    messages.push(StreamMessage::User { text: parent_objective });
    let mut index: usize = 0;
    let n = rows.len();
    assert(spec_message_views(messages@).skip(1) =~= Seq::<MessageView>::empty());
    while index < n
        invariant
            n == rows@.len(),
            0 <= index <= n,
            match spec_rows_to_messages(rows@, 0) {
                Ok(all) => match spec_rows_to_messages(rows@, index as int) {
                    Ok(rest) => all == spec_message_views(messages@).skip(1) + rest,
                    Err(_) => false,
                },
                Err(e) => spec_rows_to_messages(rows@, index as int) == Err::<Seq<MessageView>, ForkError>(e),
            },
            messages@.len() >= 1,
            spec_message_views(messages@)[0] == (MessageView::User { text: objective }),
        decreases n - index,
    {
        let turn_id = match &rows[index] {
            AgentTurnRow::Assistant { turn_id, .. } => *turn_id,
            _ => {
                return Err(ForkError::ToolRowWithoutAssistant);
            },
        };
        proof { lemma_group_end_bounds(rows@, turn_id, index + 1); }
        let ghost end = spec_group_end(rows@, turn_id, index + 1);
        let mut next = index + 1;
        let mut calls: Vec<ToolCallRecord> = Vec::new();
        let mut tool_rows: Vec<usize> = Vec::new();
        while next < n && row_in_group(&rows[next], turn_id)
            invariant
                n == rows@.len(),
                rows@[index as int] matches AgentTurnRow::Assistant { turn_id: tid, .. } && tid == turn_id,
                match spec_rows_to_messages(rows@, 0) {
                    Ok(_) => spec_rows_to_messages(rows@, index as int) is Ok,
                    Err(e) => spec_rows_to_messages(rows@, index as int) == Err::<Seq<MessageView>, ForkError>(e),
                },
                index < next <= end,
                end == spec_group_end(rows@, turn_id, index + 1),
                end <= n,
                forall|k: int| index + 1 <= k < end ==> spec_row_in_group(#[trigger] rows@[k], turn_id),
                end < n ==> !spec_row_in_group(rows@[end], turn_id),
                tool_rows@.len() == spec_tool_rows(rows@, index + 1, next as int).len(),
                forall|k: int| 0 <= k < tool_rows@.len() ==> (#[trigger] tool_rows@[k]) < n && rows@[tool_rows@[k] as int] == spec_tool_rows(rows@, index + 1, next as int)[k],
                spec_tool_calls(spec_tool_rows(rows@, index + 1, next as int)) is Ok,
                calls@.map_values(|c: ToolCallRecord| (c.id, c.name@, c.input)) == spec_tool_calls(spec_tool_rows(rows@, index + 1, next as int))->Ok_0,
            decreases n - next,
        {
            proof { lemma_tool_rows_step(rows@, index + 1, next as int); }
            let ghost prev_tools = spec_tool_rows(rows@, index + 1, next as int);
            if let AgentTurnRow::ToolCall { .. } = &rows[next] {
                let ghost prev_calls = calls@;
                proof {
                    let nt = spec_tool_rows(rows@, index + 1, (next + 1) as int);
                    assert(nt == prev_tools.push(rows@[next as int]));
                    assert(nt.drop_last() == prev_tools);
                    assert(nt.last() == rows@[next as int]);
                }
                match tool_call_record(&rows[next]) {
                    Err(e) => {
                        proof {
                            assert(spec_tool_calls(spec_tool_rows(rows@, index + 1, (next + 1) as int)) == Err::<Seq<(StreamItemKey, Seq<char>, serde_json::Value)>, ForkError>(e));
                            lemma_tool_calls_err_sticks(rows@, index + 1, (next + 1) as int, end, e);
                            assert(rows@[index as int] matches AgentTurnRow::Assistant { turn_id: tid, .. } && tid == turn_id);
                            assert(spec_rows_to_messages(rows@, index as int) == Err::<Seq<MessageView>, ForkError>(e));
                        }
                        return Err(e);
                    },
                    Ok(c) => {
                        calls.push(c);
                        tool_rows.push(next);
                        assert(calls@.map_values(|c: ToolCallRecord| (c.id, c.name@, c.input)) =~= prev_calls.map_values(|c: ToolCallRecord| (c.id, c.name@, c.input)).push((c.id, c.name@, c.input)));
                    },
                }
            }
            next = next + 1;
        }
        assert(next == end);
        let ghost tools = spec_tool_rows(rows@, index + 1, end);
        proof { lemma_tool_calls_ok_have_ids(tools); }
        let text = match &rows[index] {
            AgentTurnRow::Assistant { text, .. } => text.clone(),
            _ => {
                return Err(ForkError::ToolRowWithoutAssistant);
            },
        };
        let ghost asst = MessageView::Assistant { text: text@, tool_calls: spec_tool_calls(tools)->Ok_0 };
        let ghost before = messages@;
        messages.push(StreamMessage::Assistant { text, tool_calls: calls });
        assert(spec_message_views(messages@) =~= spec_message_views(before) + seq![asst] + spec_tool_messages(tools.take(0)));
        let mut t: usize = 0;
        while t < tool_rows.len()
            invariant
                n == rows@.len(),
                0 <= t <= tool_rows@.len(),
                tool_rows@.len() == tools.len(),
                forall|k: int| 0 <= k < tool_rows@.len() ==> (#[trigger] tool_rows@[k]) < n && rows@[tool_rows@[k] as int] == tools[k],
                forall|k: int| 0 <= k < tools.len() ==> (#[trigger] tools[k]) matches AgentTurnRow::ToolCall { item_id: Some(_), .. },
                spec_message_views(messages@) == spec_message_views(before) + seq![asst] + spec_tool_messages(tools.take(t as int)),
            decreases tool_rows@.len() - t,
        {
            let row_index = tool_rows[t];
            assert(rows@[row_index as int] == tools[t as int]);
            match &rows[row_index] {
                AgentTurnRow::ToolCall { item_id: Some(id), output, .. } => {
                    let ghost prev = messages@;
                    messages.push(StreamMessage::Tool { tool_call_id: *id, output: output.clone() });
                    proof {
                        assert(tools.take((t + 1) as int).drop_last() =~= tools.take(t as int));
                        assert(tools.take((t + 1) as int).last() == tools[t as int]);
                        assert(spec_message_views(messages@) =~= spec_message_views(prev).push(MessageView::Tool { tool_call_id: *id, output: output@ }));
                        assert(spec_message_views(messages@) =~= spec_message_views(before) + seq![asst] + spec_tool_messages(tools.take((t + 1) as int)));
                    }
                },
                _ => {
                    return Err(ForkError::ToolRowWithoutItemId);
                },
            }
            t = t + 1;
        }
        proof {
            assert(tools.take(tools.len() as int) =~= tools);
            assert(spec_message_views(messages@).skip(1) =~= spec_message_views(before).skip(1) + (seq![asst] + spec_tool_messages(tools)));
            assert(spec_message_views(messages@)[0] == spec_message_views(before)[0]);
        }
        index = next;
    }
    proof {
        assert(spec_message_views(messages@) =~= seq![MessageView::User { text: objective }] + spec_message_views(messages@).skip(1));
    }
    Ok(messages)
}

proof fn lemma_tool_calls_err_sticks(rows: Seq<AgentTurnRow>, from: int, to: int, end: int, e: ForkError)
    requires
        from <= to <= end,
        spec_tool_calls(spec_tool_rows(rows, from, to)) == Err::<Seq<(StreamItemKey, Seq<char>, serde_json::Value)>, ForkError>(e),
    ensures
        spec_tool_calls(spec_tool_rows(rows, from, end)) == Err::<Seq<(StreamItemKey, Seq<char>, serde_json::Value)>, ForkError>(e),
    decreases end - to,
{
    if to < end {
        lemma_tool_rows_step(rows, from, to);
        let t = spec_tool_rows(rows, from, to + 1);
        if rows[to] is ToolCall {
            assert(t.drop_last() == spec_tool_rows(rows, from, to));
        }
        lemma_tool_calls_err_sticks(rows, from, to + 1, end, e);
    }
}


/// Whether `e` starts the assistant turn `turn`.
pub open spec fn spec_starts_turn(e: EventRecord, turn: Option<StreamItemKey>) -> bool {
    e.payload matches EventPayload::AgentStream { emission, .. } && emission.frame == StreamFrame::AssistantTurnStarted
        && emission.turn_id == turn
}

/// Whether `e` completes the assistant turn `turn`.
pub open spec fn spec_completes_turn(e: EventRecord, turn: Option<StreamItemKey>) -> bool {
    e.payload matches EventPayload::AgentStream { emission, .. } && emission.frame
        == StreamFrame::AssistantTurnCompleted && emission.turn_id == turn
}

/// Whether `e` starts the tool call `item` of turn `turn`.
pub open spec fn spec_starts_tool_call(e: EventRecord, turn: Option<StreamItemKey>, item: Option<StreamItemKey>) -> bool {
    e.payload matches EventPayload::AgentStream { emission, .. } && emission.frame == StreamFrame::ToolCallStarted
        && emission.turn_id == turn && emission.item_id == item
}

/// Whether `e` completes the tool call `item` of turn `turn`.
pub open spec fn spec_completes_tool_call(e: EventRecord, turn: Option<StreamItemKey>, item: Option<StreamItemKey>) -> bool {
    e.payload matches EventPayload::AgentStream { emission, .. } && emission.frame == StreamFrame::ToolCallCompleted
        && emission.turn_id == turn && emission.item_id == item
}

/// Whether the events leave the assistant turn started at position `i`
/// open: no later event completes it.
pub open spec fn spec_turn_left_open(events: Seq<EventRecord>, i: int, turn: Option<StreamItemKey>) -> bool {
    &&& 0 <= i < events.len()
    &&& spec_starts_turn(events[i], turn)
    &&& forall|j: int| i < j < events.len() ==> !spec_completes_turn(#[trigger] events[j], turn)
}

/// Whether the events leave the tool call started at position `i` open:
/// no later event completes it.
pub open spec fn spec_tool_call_left_open(
    events: Seq<EventRecord>,
    i: int,
    turn: Option<StreamItemKey>,
    item: Option<StreamItemKey>,
) -> bool {
    &&& 0 <= i < events.len()
    &&& spec_starts_tool_call(events[i], turn, item)
    &&& forall|j: int| i < j < events.len() ==> !spec_completes_tool_call(#[trigger] events[j], turn, item)
}

proof fn lemma_open_turn_is_tracked(events: Seq<EventRecord>, i: int, turn: Option<StreamItemKey>, n: int)
    requires
        0 <= i < n <= events.len(),
        spec_starts_turn(events[i], turn),
        forall|j: int| i < j < n ==> !spec_completes_turn(#[trigger] events[j], turn),
    ensures
        spec_open_turns(events.take(n)).contains(OpenToolCall { turn_id: turn, item_id: None }),
    decreases n - i,
{
    let t = events.take(n);
    assert(t.drop_last() == events.take(n - 1));
    assert(t.last() == events[n - 1]);
    if n > i + 1 {
        lemma_open_turn_is_tracked(events, i, turn, n - 1);
        assert(!spec_completes_turn(events[n - 1], turn));
    }
}

proof fn lemma_open_tool_call_is_tracked(
    events: Seq<EventRecord>,
    i: int,
    turn: Option<StreamItemKey>,
    item: Option<StreamItemKey>,
    n: int,
)
    requires
        0 <= i < n <= events.len(),
        spec_starts_tool_call(events[i], turn, item),
        forall|j: int| i < j < n ==> !spec_completes_tool_call(#[trigger] events[j], turn, item),
    ensures
        spec_open_tool_calls(events.take(n)).contains(OpenToolCall { turn_id: turn, item_id: item }),
    decreases n - i,
{
    let t = events.take(n);
    assert(t.drop_last() == events.take(n - 1));
    assert(t.last() == events[n - 1]);
    if n > i + 1 {
        lemma_open_tool_call_is_tracked(events, i, turn, item, n - 1);
        assert(!spec_completes_tool_call(events[n - 1], turn, item));
    }
}

/// A fork point inside a turn is refused: when the parent's events up to
/// the fork point start an assistant turn that no later event completes, or
/// a tool call that no later event completes, the fork point is no turn
/// boundary (or, when no event has the fork sequence, no fork point at all).
pub proof fn law_open_turn_or_tool_call_is_not_a_boundary(
    run_id: RunId,
    boundary: u64,
    events: Seq<EventRecord>,
    next: Option<EventRecord>,
    i: int,
    turn: Option<StreamItemKey>,
    item: Option<StreamItemKey>,
)
    requires
        spec_turn_left_open(events, i, turn) || spec_tool_call_left_open(events, i, turn, item),
    ensures
        spec_validate_fork_boundary(run_id, boundary, events, next) is Err,
        (exists|k: int| 0 <= k < events.len() && events[k].sequence == boundary) ==> spec_validate_fork_boundary(
            run_id,
            boundary,
            events,
            next,
        ) == Err::<(), ForkError>(ForkError::NotTurnBoundary { run_id, boundary }),
{
    assert(events.take(events.len() as int) == events);
    if spec_turn_left_open(events, i, turn) {
        lemma_open_turn_is_tracked(events, i, turn, events.len() as int);
    } else {
        lemma_open_tool_call_is_tracked(events, i, turn, item, events.len() as int);
    }
    if exists|k: int| 0 <= k < events.len() && events[k].sequence == boundary {
        let w = choose|k: int| 0 <= k < events.len() && events[k].sequence == boundary;
        assert(spec_first_with_sequence(events, boundary) is Some);
    }
}

/// A fork point is accepted only at a turn boundary: when the boundary
/// check passes, every assistant turn and every tool call that the parent's
/// events start is completed by a later event.
pub proof fn law_accepted_fork_point_closes_every_turn(
    run_id: RunId,
    boundary: u64,
    events: Seq<EventRecord>,
    next: Option<EventRecord>,
)
    requires
        spec_validate_fork_boundary(run_id, boundary, events, next) is Ok,
    ensures
        forall|i: int, turn: Option<StreamItemKey>|
            0 <= i < events.len() && #[trigger] spec_starts_turn(events[i], turn) ==> exists|j: int|
                i < j < events.len() && #[trigger] spec_completes_turn(events[j], turn),
        forall|i: int, turn: Option<StreamItemKey>, item: Option<StreamItemKey>|
            0 <= i < events.len() && #[trigger] spec_starts_tool_call(events[i], turn, item) ==> exists|j: int|
                i < j < events.len() && #[trigger] spec_completes_tool_call(events[j], turn, item),
{
    assert forall|i: int, turn: Option<StreamItemKey>|
        0 <= i < events.len() && #[trigger] spec_starts_turn(events[i], turn) implies exists|j: int|
            i < j < events.len() && #[trigger] spec_completes_turn(events[j], turn) by {
        if !exists|j: int| i < j < events.len() && #[trigger] spec_completes_turn(events[j], turn) {
            law_open_turn_or_tool_call_is_not_a_boundary(run_id, boundary, events, next, i, turn, None);
        }
    }
    assert forall|i: int, turn: Option<StreamItemKey>, item: Option<StreamItemKey>|
        0 <= i < events.len() && #[trigger] spec_starts_tool_call(events[i], turn, item) implies exists|j: int|
            i < j < events.len() && #[trigger] spec_completes_tool_call(events[j], turn, item) by {
        if !exists|j: int| i < j < events.len() && #[trigger] spec_completes_tool_call(events[j], turn, item) {
            law_open_turn_or_tool_call_is_not_a_boundary(run_id, boundary, events, next, i, turn, item);
        }
    }
}

/// The most parent events one replay page asks for.
pub const FORK_REPLAY_BATCH_LIMIT: usize = 500;

/// The most parent events a fork may replay.
pub const FORK_REPLAY_TOTAL_LIMIT: usize = 10000;

/// The size of the next page of parent events to read, given how many were
/// collected: at most a batch and at most what the total limit leaves; a
/// replay that reached the total limit is refused.
pub fn next_replay_page_limit(run_id: RunId, boundary: u64, collected: usize) -> (r: Result<usize, ForkError>)
    ensures
        collected >= FORK_REPLAY_TOTAL_LIMIT ==> r == Err::<usize, ForkError>(ForkError::ForkPointNotFound { run_id, boundary }),
        collected < FORK_REPLAY_TOTAL_LIMIT ==> r == Ok::<usize, ForkError>(
            if FORK_REPLAY_TOTAL_LIMIT - collected < FORK_REPLAY_BATCH_LIMIT {
                (FORK_REPLAY_TOTAL_LIMIT - collected) as usize
            } else {
                FORK_REPLAY_BATCH_LIMIT
            },
        ),
{
    if collected >= FORK_REPLAY_TOTAL_LIMIT {
        return Err(ForkError::ForkPointNotFound { run_id, boundary });
    }
    let remaining = FORK_REPLAY_TOTAL_LIMIT - collected;
    if remaining < FORK_REPLAY_BATCH_LIMIT {
        Ok(remaining)
    } else {
        Ok(FORK_REPLAY_BATCH_LIMIT)
    }
}

/// What to do after a page of parent events was read.
#[derive(Debug, Clone, Copy, PartialEq, Eq, Structural)]
pub enum ReplayStep {
    /// Every event up to the fork point has been collected.
    Done,
    /// Read on after this sequence.
    Continue { after_sequence: u64 },
}

/// The number of leading events of a page that lie at or before the fork point.
pub open spec fn spec_prefix_within(page: Seq<EventRecord>, boundary: u64) -> int
    decreases page.len(),
{
    if page.len() == 0 {
        0
    } else if page[0].sequence > boundary {
        0
    } else {
        1 + spec_prefix_within(page.drop_first(), boundary)
    }
}

/// A replay keeps no event past the fork point and stops at the first one:
/// every kept event of a page lies at or before the fork point, and when a
/// page is cut short, the event where it was cut lies past it.
pub proof fn law_replay_stops_at_fork_point(page: Seq<EventRecord>, boundary: u64)
    ensures
        0 <= spec_prefix_within(page, boundary) <= page.len(),
        forall|k: int| 0 <= k < spec_prefix_within(page, boundary) ==> #[trigger] page[k].sequence <= boundary,
        spec_prefix_within(page, boundary) < page.len() ==> page[spec_prefix_within(page, boundary)].sequence > boundary,
    decreases page.len(),
{
    if page.len() > 0 && page[0].sequence <= boundary {
        law_replay_stops_at_fork_point(page.drop_first(), boundary);
        assert forall|k: int| 0 <= k < spec_prefix_within(page, boundary) implies #[trigger] page[k].sequence <= boundary by {
            if k > 0 {
                assert(page[k] == page.drop_first()[k - 1]);
            }
        }
    }
}

/// Add a page of parent events to what was collected: the events up to the
/// fork point are kept; the replay is done at an empty page or at the first
/// event past the fork point, and otherwise goes on after the page's last event.
pub fn absorb_replay_page(events: &mut Vec<EventRecord>, page: &Vec<EventRecord>, boundary: u64) -> (step: ReplayStep)
    ensures
        final(events)@ == old(events)@ + page@.take(spec_prefix_within(page@, boundary)),
        page@.len() == 0 || spec_prefix_within(page@, boundary) < page@.len() ==> step == ReplayStep::Done,
        page@.len() > 0 && spec_prefix_within(page@, boundary) == page@.len() ==> step == (ReplayStep::Continue {
            after_sequence: page@.last().sequence,
        }),
{
    proof { law_replay_stops_at_fork_point(page@, boundary); }
    if page.len() == 0 {
        assert(page@.take(0) =~= Seq::<EventRecord>::empty());
        assert(events@ =~= old(events)@ + page@.take(0));
        return ReplayStep::Done;
    }
    let mut i: usize = 0;
    while i < page.len()
        invariant
            0 <= i <= page.len(),
            i <= spec_prefix_within(page@, boundary) <= page@.len(),
            forall|k: int| 0 <= k < spec_prefix_within(page@, boundary) ==> #[trigger] page@[k].sequence <= boundary,
            spec_prefix_within(page@, boundary) < page@.len() ==> page@[spec_prefix_within(page@, boundary)].sequence
                > boundary,
            events@ == old(events)@ + page@.take(i as int),
        decreases page.len() - i,
    {
        if page[i].sequence > boundary {
            return ReplayStep::Done;
        }
        events.push(page[i]);
        assert(page@.take((i + 1) as int) == page@.take(i as int).push(page@[i as int]));
        assert(events@ =~= old(events)@ + page@.take((i + 1) as int));
        i = i + 1;
    }
    ReplayStep::Continue { after_sequence: page[page.len() - 1].sequence }
}

/// The checks on the parent of a fork whose initial state is rebuilt: a run
/// that is no fork needs none (`None`); a fork's parent must exist, belong
/// to the fork's session and run natively.
pub fn check_fork_replay_parent(run: &RunRecord, parent: Option<&RunRecord>) -> (r: Result<Option<(RunId, u64)>, ForkReplayError>)
    ensures
        !(run.source is Forked) ==> r == Ok::<Option<(RunId, u64)>, ForkReplayError>(None),
        run.source matches RunSource::Forked { parent_run_id, parent_event_seq } ==> match parent {
            None => r == Err::<Option<(RunId, u64)>, ForkReplayError>(ForkReplayError::ParentNotFound(parent_run_id)),
            Some(p) => if p.session_id != run.session_id {
                r == Err::<Option<(RunId, u64)>, ForkReplayError>(ForkReplayError::ParentSessionMismatch(p.id))
            } else if p.harness != RunHarnessKind::Native {
                r == Err::<Option<(RunId, u64)>, ForkReplayError>(ForkReplayError::ParentNotNative(p.id))
            } else {
                r == Ok::<Option<(RunId, u64)>, ForkReplayError>(Some((parent_run_id, parent_event_seq)))
            },
        },
{
    match &run.source {
        RunSource::Forked { parent_run_id, parent_event_seq } => match parent {
            None => Err(ForkReplayError::ParentNotFound(*parent_run_id)),
            Some(p) => if p.session_id != run.session_id {
                Err(ForkReplayError::ParentSessionMismatch(p.id))
            } else if p.harness != RunHarnessKind::Native {
                Err(ForkReplayError::ParentNotNative(p.id))
            } else {
                Ok(Some((*parent_run_id, *parent_event_seq)))
            },
        },
        _ => Ok(None),
    }
}

/// Refusals while rebuilding a fork's initial state from its parent.
#[derive(Debug, Clone, Copy, PartialEq, Eq, Structural)]
pub enum ForkReplayError {
    ParentNotFound(RunId),
    ParentSessionMismatch(RunId),
    ParentNotNative(RunId),
}

} // verus!
