use vstd::prelude::*;
use chrono::Local;
use uuid::Uuid;

verus! {

/// A point in time: whole seconds since 1970-01-01 00:00:00 UTC.
#[derive(Debug, PartialEq, Eq, Clone, Copy, Structural)]
pub struct Timestamp {
    pub seconds: i64,
}

/// Relies on `chrono::Local::now` and `DateTime::timestamp`: the current
/// time as seconds since the Unix epoch. Nothing is known of its value.
#[verifier::external_body]
fn current_time() -> (r: Timestamp) {
    Timestamp { seconds: Local::now().timestamp() }
}

/// Relies on `uuid::Uuid::new_v4` and its `Display`, which writes the
/// hyphenated form of 36 characters. The value is random.
#[verifier::external_body]
pub(crate) fn fresh_id() -> (r: String)
    ensures
        r@.len() == 36,
{
    Uuid::new_v4().to_string()
}

/// The state of a task. Tasks sort in this order.
#[derive(Debug, PartialEq, Eq, Clone, Copy, Hash, PartialOrd, Ord, Structural)]
pub enum ItemStatus {
    UnStarted,
    Started,
    Finished,
    WontFix,
}

/// The place of a status in the order tasks are shown in.
pub open spec fn status_rank(s: ItemStatus) -> nat {
    match s {
        ItemStatus::UnStarted => 0,
        ItemStatus::Started => 1,
        ItemStatus::Finished => 2,
        ItemStatus::WontFix => 3,
    }
}

/// Which tasks a view shows: all, or those of one status.
#[derive(Debug, PartialEq, Eq, Clone, Copy, Structural)]
pub enum AppFilterMode {
    All,
    Started,
    Finished,
    WontFix,
}

/// Whether a task of status `s` shows under filter `f`.
pub open spec fn shown_under(s: ItemStatus, f: AppFilterMode) -> bool {
    match f {
        AppFilterMode::All => true,
        AppFilterMode::Started => s == ItemStatus::Started,
        AppFilterMode::Finished => s == ItemStatus::Finished,
        AppFilterMode::WontFix => s == ItemStatus::WontFix,
    }
}

impl AppFilterMode {
    /// The filter's name.
    pub fn name(&self) -> (r: &'static str)
        ensures
            *self == AppFilterMode::All ==> r@ == "All"@,
            *self == AppFilterMode::Started ==> r@ == "Started"@,
            *self == AppFilterMode::Finished ==> r@ == "Finished"@,
            *self == AppFilterMode::WontFix ==> r@ == "WontFix"@,
    {
        match self {
            AppFilterMode::All => "All",
            AppFilterMode::Started => "Started",
            AppFilterMode::Finished => "Finished",
            AppFilterMode::WontFix => "WontFix",
        }
    }
}

/// A task.
#[derive(Debug, Clone)]
pub struct WorkItem {
    pub id: Option<String>,
    pub content: Option<String>,
    pub status: ItemStatus,
    pub created_time: Timestamp,
    pub started_time: Option<Timestamp>,
    pub finished_time: Option<Timestamp>,
}

/// Whether task `t` carries the identifier `id`.
pub open spec fn has_id(t: WorkItem, id: Seq<char>) -> bool {
    t.id is Some && t.id->0@ == id
}

/// `b` is `a` started: status Started, a start time, no finish time, the
/// rest kept.
pub open spec fn started_from(a: WorkItem, b: WorkItem) -> bool {
    &&& b.status == ItemStatus::Started
    &&& b.started_time is Some
    &&& b.finished_time is None
    &&& b.id == a.id
    &&& b.content == a.content
    &&& b.created_time == a.created_time
}

/// `b` is `a` finished: status Finished, a finish time, the rest kept.
pub open spec fn finished_from(a: WorkItem, b: WorkItem) -> bool {
    &&& b.status == ItemStatus::Finished
    &&& b.finished_time is Some
    &&& b.started_time == a.started_time
    &&& b.id == a.id
    &&& b.content == a.content
    &&& b.created_time == a.created_time
}

/// `b` is `a` given up on: status WontFix, the rest kept.
pub open spec fn given_up_from(a: WorkItem, b: WorkItem) -> bool {
    b == WorkItem { status: ItemStatus::WontFix, ..a }
}

/// `b` is `a` with its content replaced by `content`.
pub open spec fn renamed_from(a: WorkItem, b: WorkItem, content: Seq<char>) -> bool {
    &&& b.content is Some
    &&& b.content->0@ == content
    &&& b.id == a.id
    &&& b.status == a.status
    &&& b.created_time == a.created_time
    &&& b.started_time == a.started_time
    &&& b.finished_time == a.finished_time
}

/// The same optional string, separately owned.
fn copy_text(s: &Option<String>) -> (r: Option<String>)
    ensures
        r == *s,
{
    match s {
        Some(t) => Some(t.clone()),
        None => None,
    }
}

impl WorkItem {
    /// A task not started, without identifier or content, created at `now`.
    pub fn new_at(now: Timestamp) -> (r: WorkItem)
        ensures
            r.id is None,
            r.content is None,
            r.status == ItemStatus::UnStarted,
            r.created_time == now,
            r.started_time is None,
            r.finished_time is None,
    {
        WorkItem {
            id: None,
            content: None,
            status: ItemStatus::UnStarted,
            created_time: now,
            started_time: None,
            finished_time: None,
        }
    }

    /// A task not started, without identifier or content, created now.
    pub fn new() -> (r: WorkItem)
        ensures
            r.id is None,
            r.content is None,
            r.status == ItemStatus::UnStarted,
            r.started_time is None,
            r.finished_time is None,
    {
        WorkItem::new_at(current_time())
    }

    /// The same task, separately owned.
    pub fn duplicate(&self) -> (r: WorkItem)
        ensures
            r == *self,
    {
        WorkItem {
            id: copy_text(&self.id),
            content: copy_text(&self.content),
            status: self.status,
            created_time: self.created_time,
            started_time: self.started_time,
            finished_time: self.finished_time,
        }
    }

    /// Starts the task at `now`; a finish time it had is dropped.
    pub fn start_at(&mut self, now: Timestamp)
        ensures
            started_from(*old(self), *final(self)),
            final(self).started_time == Some(now),
    {
        self.started_time = Some(now);
        self.status = ItemStatus::Started;
        self.finished_time = None;
    }

    /// Starts the task now; a finish time it had is dropped.
    pub fn start(&mut self)
        ensures
            started_from(*old(self), *final(self)),
    {
        self.start_at(current_time());
    }

    /// Finishes the task at `now`, whatever its status was.
    pub fn finish_at(&mut self, now: Timestamp)
        ensures
            finished_from(*old(self), *final(self)),
            final(self).finished_time == Some(now),
    {
        self.finished_time = Some(now);
        self.status = ItemStatus::Finished;
    }

    /// Finishes the task now, whatever its status was.
    pub fn finish(&mut self)
        ensures
            finished_from(*old(self), *final(self)),
    {
        self.finish_at(current_time());
    }

    /// Marks the task as one that will not be done.
    pub fn wont_fix(&mut self)
        ensures
            given_up_from(*old(self), *final(self)),
    {
        self.status = ItemStatus::WontFix;
    }

    /// Whether the task shows under filter `a`.
    pub fn is_valid_for_mode(&self, a: AppFilterMode) -> (r: bool)
        ensures
            r == shown_under(self.status, a),
    {
        match a {
            AppFilterMode::All => true,
            AppFilterMode::Started => self.status == ItemStatus::Started,
            AppFilterMode::Finished => self.status == ItemStatus::Finished,
            AppFilterMode::WontFix => self.status == ItemStatus::WontFix,
        }
    }

    /// Whether the task carries the identifier `id`.
    pub fn id_is(&self, id: &str) -> (r: bool)
        ensures
            r == has_id(*self, id@),
    {
        match &self.id {
            Some(s) => *s == id.to_owned(),
            None => false,
        }
    }
}

} // verus!
