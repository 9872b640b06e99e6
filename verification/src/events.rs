//! Classification of raw lifecycle events into the closed set the
//! consumer acts on.

use vstd::prelude::*;

use crate::parser::{parse_event, spec_parse_event, Events, EventsV};
use crate::text::str_eq;

verus! {

/// The entity a classified event pertains to.
#[derive(Debug, PartialEq, Eq)]
pub struct EventDetails {
    pub container_id: String,
}

/// A classified lifecycle event. Unrecognized statuses are deliberately
/// coarse: `OtherEvent` carries no identifying payload.
#[derive(Debug, PartialEq, Eq)]
pub enum DockerEvents {
    StartContainer(EventDetails),
    StopContainer(EventDetails),
    OtherEvent,
}

/// Mathematical image of a classified event.
pub ghost enum DockerEventsV {
    Started(Seq<char>),
    Stopped(Seq<char>),
    Other,
}

impl View for DockerEvents {
    type V = DockerEventsV;

    open spec fn view(&self) -> DockerEventsV {
        match self {
            DockerEvents::StartContainer(d) => DockerEventsV::Started(d.container_id@),
            DockerEvents::StopContainer(d) => DockerEventsV::Stopped(d.container_id@),
            DockerEvents::OtherEvent => DockerEventsV::Other,
        }
    }
}

/// Classification by status: `"start"` and `"stop"` carry the entity id;
/// every other status is `Other`.
pub open spec fn spec_classify(e: EventsV) -> DockerEventsV {
    if e.status == "start"@ {
        DockerEventsV::Started(e.id)
    } else if e.status == "stop"@ {
        DockerEventsV::Stopped(e.id)
    } else {
        DockerEventsV::Other
    }
}

/// Classifies one raw event record. Total: every record classifies.
pub fn classify(event: &Events) -> (r: DockerEvents)
    ensures
        r@ == spec_classify(event@),
{
    if str_eq(event.status.as_str(), "start") {
        DockerEvents::StartContainer(EventDetails { container_id: event.id.clone() })
    } else if str_eq(event.status.as_str(), "stop") {
        DockerEvents::StopContainer(EventDetails { container_id: event.id.clone() })
    } else {
        DockerEvents::OtherEvent
    }
}

/// Law: classification is total and its variant depends only on the
/// status field — two records with equal status classify alike, and the
/// payload, where one exists, is the record's id alone.
pub proof fn lemma_classify_depends_on_status(a: EventsV, b: EventsV)
    requires
        a.status == b.status,
    ensures
        spec_classify(a) is Started <==> spec_classify(b) is Started,
        spec_classify(a) is Stopped <==> spec_classify(b) is Stopped,
        spec_classify(a) is Other <==> spec_classify(b) is Other,
        spec_classify(a) is Started ==> spec_classify(a) == DockerEventsV::Started(a.id),
        spec_classify(a) is Stopped ==> spec_classify(a) == DockerEventsV::Stopped(a.id),
{
}

/// Decodes one stream line and classifies the result. The line must be
/// known to decode; `try_convert_to_event` is the checked entry point.
pub fn convert_to_event(event_string: &String) -> (r: DockerEvents)
    requires
        spec_parse_event(event_string@) is Ok,
    ensures
        r@ == spec_classify(spec_parse_event(event_string@)->Ok_0),
{
    match parse_event(event_string.clone()) {
        Ok(e) => classify(&e),
        Err(_) => {
            proof {
                assert(false);
            }
            DockerEvents::OtherEvent
        },
    }
}

/// Decodes and classifies one stream line, or reports that the line does
/// not decode to an event record.
pub fn try_convert_to_event(event_string: &String) -> (r: Option<DockerEvents>)
    ensures
        match r {
            Some(ev) => spec_parse_event(event_string@) is Ok && ev@ == spec_classify(
                spec_parse_event(event_string@)->Ok_0,
            ),
            None => spec_parse_event(event_string@) is Err,
        },
{
    match parse_event(event_string.clone()) {
        Ok(_e) => Some(convert_to_event(event_string)),
        Err(_) => None,
    }
}


} // verus!
