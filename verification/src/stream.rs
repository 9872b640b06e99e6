//! The event-stream reader's state machine: skip protocol headers until
//! the blank-line terminator, then treat every delivered non-empty line
//! as one candidate event record.
//!
//! The surrounding process owns the long-lived connection and feeds each
//! decoded line to `step`; a decode failure is confined to its line and
//! never ends the stream.

use vstd::prelude::*;

use crate::events::{classify, spec_classify, DockerEvents, DockerEventsV};
use crate::parser::{parse_event, spec_parse_event, ParseError};

verus! {

/// The reader's two states: before and after the framing terminator.
#[derive(Debug, Clone, Copy, PartialEq, Eq, Structural)]
pub enum ReaderState {
    AwaitingFramingEnd,
    StreamingEvents,
}

/// What one delivered line produces.
#[derive(Debug, PartialEq, Eq)]
pub enum StreamOutput {
    Nothing,
    Event(DockerEvents),
    Failure(ParseError),
}

/// Mathematical image of a line's product.
pub ghost enum StreamOutputV {
    Nothing,
    Event(DockerEventsV),
    Failure(ParseError),
}

impl View for StreamOutput {
    type V = StreamOutputV;

    open spec fn view(&self) -> StreamOutputV {
        match self {
            StreamOutput::Nothing => StreamOutputV::Nothing,
            StreamOutput::Event(ev) => StreamOutputV::Event(ev@),
            StreamOutput::Failure(pe) => StreamOutputV::Failure(*pe),
        }
    }
}

/// The state after one line: the first empty line ends the header phase;
/// the streaming phase is never left.
pub open spec fn spec_step_state(state: ReaderState, line: Seq<char>) -> ReaderState {
    match state {
        ReaderState::AwaitingFramingEnd => if line.len() == 0 {
            ReaderState::StreamingEvents
        } else {
            ReaderState::AwaitingFramingEnd
        },
        ReaderState::StreamingEvents => ReaderState::StreamingEvents,
    }
}

/// What one line yields: nothing while headers are skipped and on empty
/// lines; otherwise one classified event, or one failure confined to a
/// line that does not decode.
pub open spec fn spec_step_output(state: ReaderState, line: Seq<char>) -> StreamOutputV {
    match state {
        ReaderState::AwaitingFramingEnd => StreamOutputV::Nothing,
        ReaderState::StreamingEvents => if line.len() == 0 {
            StreamOutputV::Nothing
        } else {
            match spec_parse_event(line) {
                Ok(e) => StreamOutputV::Event(spec_classify(e)),
                Err(pe) => StreamOutputV::Failure(pe),
            }
        },
    }
}

/// Feeds one delivered line to the reader.
pub fn step(state: ReaderState, line: &String) -> (r: (ReaderState, StreamOutput))
    ensures
        r.0 == spec_step_state(state, line@),
        r.1@ == spec_step_output(state, line@),
{
    match state {
        ReaderState::AwaitingFramingEnd => {
            if line.as_str().unicode_len() == 0 {
                (ReaderState::StreamingEvents, StreamOutput::Nothing)
            } else {
                (ReaderState::AwaitingFramingEnd, StreamOutput::Nothing)
            }
        },
        ReaderState::StreamingEvents => {
            if line.as_str().unicode_len() == 0 {
                (ReaderState::StreamingEvents, StreamOutput::Nothing)
            } else {
                match parse_event(line.clone()) {
                    Ok(e) => (ReaderState::StreamingEvents, StreamOutput::Event(classify(&e))),
                    Err(pe) => (ReaderState::StreamingEvents, StreamOutput::Failure(pe)),
                }
            }
        },
    }
}

/// The products of a run over `lines`, all taken in the streaming state —
/// sound because that state is never left.
pub open spec fn spec_stream_outputs(lines: Seq<Seq<char>>) -> Seq<StreamOutputV> {
    lines.map_values(|l: Seq<char>| spec_step_output(ReaderState::StreamingEvents, l))
}

/// How many products are delivered items: events or per-line failures.
pub open spec fn count_delivered(outs: Seq<StreamOutputV>) -> nat
    decreases outs.len(),
{
    if outs.len() == 0 {
        0
    } else {
        (if outs[0] is Event || outs[0] is Failure {
            1nat
        } else {
            0nat
        }) + count_delivered(outs.drop_first())
    }
}

/// How many lines are non-empty.
pub open spec fn count_nonempty(lines: Seq<Seq<char>>) -> nat
    decreases lines.len(),
{
    if lines.len() == 0 {
        0
    } else {
        (if lines[0].len() > 0 {
            1nat
        } else {
            0nat
        }) + count_nonempty(lines.drop_first())
    }
}

/// Law: once streaming, the reader stays streaming, whatever the line.
pub proof fn lemma_streaming_persists(line: Seq<char>)
    ensures
        spec_step_state(ReaderState::StreamingEvents, line) == ReaderState::StreamingEvents,
{
}

/// Law: over any sequence of lines fed after the framing terminator, the
/// count of classified events plus per-line failures equals the count of
/// non-empty lines.
pub proof fn lemma_stream_accounting(lines: Seq<Seq<char>>)
    ensures
        count_delivered(spec_stream_outputs(lines)) == count_nonempty(lines),
    decreases lines.len(),
{
    if lines.len() == 0 {
    } else {
        lemma_stream_accounting(lines.drop_first());
        assert(spec_stream_outputs(lines).drop_first() =~= spec_stream_outputs(
            lines.drop_first(),
        ));
    }
}

} // verus!
