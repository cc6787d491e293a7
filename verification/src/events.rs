//! Parse events, as the outline builder consumes them: the heading-relevant
//! shapes are distinguished, every other event of the markdown transformer is
//! opaque.

use vstd::prelude::*;

verus! {

/// Mathematical model of one parse event.
pub enum EventModel {
    HeadingStart(u32),
    Text(Seq<char>),
    HeadingEnd,
    Other,
}

/// One event of the markdown transformer, abstracted to what the outline
/// builder reads: the start of a heading with its level, a text run, the end
/// of a heading, or anything else.
pub enum ParseEvent {
    HeadingStart(u32),
    Text(String),
    HeadingEnd,
    Other,
}

impl View for ParseEvent {
    type V = EventModel;

    open spec fn view(&self) -> EventModel {
        match self {
            ParseEvent::HeadingStart(level) => EventModel::HeadingStart(*level),
            ParseEvent::Text(t) => EventModel::Text(t@),
            ParseEvent::HeadingEnd => EventModel::HeadingEnd,
            ParseEvent::Other => EventModel::Other,
        }
    }
}

impl DeepView for ParseEvent {
    type V = EventModel;

    open spec fn deep_view(&self) -> EventModel {
        self.view()
    }
}

} // verus!
