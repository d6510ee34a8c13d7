//! The subjects under which changes to a build are announced. A message
//! on a subject says only that something changed: readers go back to the
//! store for what.

use crate::id::{printed, Id, IdView};
use crate::text::text_views;
use vstd::prelude::*;
use vstd::string::*;

verus! {

/// What of a build changed.
#[derive(Clone, Copy, Debug, PartialEq, Eq, Structural)]
pub enum Topic {
    Children,
    Log,
    Status,
}

/// After how many seconds a reader looks at the store again even though
/// no message arrived.
pub const TICK_SECONDS: u64 = 60;

/// The last part of a subject.
pub open spec fn topic_text(topic: Topic) -> Seq<char> {
    match topic {
        Topic::Children => "children"@,
        Topic::Log => "log"@,
        Topic::Status => "status"@,
    }
}

/// The subject under which a change to a build is announced.
pub open spec fn subject_text(id: IdView, topic: Topic) -> Seq<char> {
    "builds."@ + printed(id) + "."@ + topic_text(topic)
}

/// The subjects that a reader of a topic listens on: the topic's own and
/// that of the status, which tells it when the build has finished.
pub open spec fn reader_subject_texts(id: IdView, topic: Topic) -> Seq<Seq<char>> {
    if topic == Topic::Status {
        seq![subject_text(id, Topic::Status)]
    } else {
        seq![subject_text(id, topic), subject_text(id, Topic::Status)]
    }
}

/// The subject under which a change to a build is announced.
pub fn subject(id: &Id, topic: Topic) -> (s: String)
    ensures
        s@ == subject_text(id@, topic),
{
    let mut s: String = "builds.".to_owned();
    s.append(id.to_string().as_str());
    s.append(".");
    s.append(
        match topic {
            Topic::Children => "children",
            Topic::Log => "log",
            Topic::Status => "status",
        },
    );
    s
}

/// The subjects that a reader of a topic listens on.
pub fn reader_subjects(id: &Id, topic: Topic) -> (list: Vec<String>)
    ensures
        text_views(list@) == reader_subject_texts(id@, topic),
{
    let mut list: Vec<String> = Vec::new();
    list.push(subject(id, topic));
    match topic {
        Topic::Status => {},
        _ => {
            list.push(subject(id, Topic::Status));
        },
    }
    assert(text_views(list@) =~= reader_subject_texts(id@, topic));
    list
}

} // verus!
