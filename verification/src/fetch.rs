//! The download of one file as a state machine.
//!
//! A download makes up to three attempts. Each attempt reads the file's
//! stored validators, sends a conditional request, and, if the server
//! sends the file, reads the body, writes it to a temporary path beside
//! the destination, renames it over the destination and stores the new
//! validators. A failed attempt is followed by a wait and another
//! attempt, until the attempts are used up.
//!
//! The machine does none of this itself. It is told what happened, as an
//! [`Event`], and answers with what to do next, as an [`Action`]; paths
//! in actions are relative to the mirror's root, or to the root of the
//! validator records.

use vstd::prelude::*;
use crate::metadata::{
    parse_validator, parsed_or_absent, record_path, record_path_of, render_validator, rendered,
    Validator,
};
use crate::text::join;

verus! {

/// How the download of one file ended.
#[derive(Clone, Copy, Debug, PartialEq, Eq, Structural)]
pub enum Outcome {
    /// The file was fetched and stored.
    Downloaded,
    /// The server reported the file unchanged; nothing was written.
    Skipped,
    /// Every attempt failed.
    Failed,
}

/// The number of attempts a download makes at most.
pub const MAX_ATTEMPTS: u32 = 3;

/// The wait before an attempt for which the list of delays has no entry.
/// With three attempts the list is never exhausted.
pub const FALLBACK_DELAY_MS: u64 = 5000;

/// What is appended to a file's path to name its temporary file.
pub const TEMP_SUFFIX: &'static str = ".tmp";

/// The status with which a server reports a file unchanged.
pub const NOT_MODIFIED: u16 = 304;

/// The waits, in milliseconds, after the first, the second and the third
/// failed attempt.
pub const RETRY_DELAYS: [u64; 3] = [500, 2000, 5000];

/// The wait, in milliseconds, after failed attempt number `failed`,
/// counted from 0: the entries of the list of delays in order, then the
/// fallback.
pub open spec fn delay_after(failed: nat) -> u64 {
    if failed < RETRY_DELAYS@.len() {
        RETRY_DELAYS@[failed as int]
    } else {
        FALLBACK_DELAY_MS
    }
}

/// Whether `status` says that the body of the file follows.
pub open spec fn is_success(status: u16) -> bool {
    200 <= status <= 299
}

/// Where the body of the file at `path` is written first.
pub open spec fn temp_path(path: Seq<char>) -> Seq<char> {
    path + TEMP_SUFFIX@
}

/// What a download waits for.
#[derive(Clone, Copy, Debug, PartialEq, Eq, Structural)]
pub enum Phase {
    /// To be started.
    Fresh,
    /// For the stored validators.
    ReadingValidator,
    /// For the server's response.
    Requesting,
    /// For the body.
    ReadingBody,
    /// For the temporary file to be written.
    WritingTemp,
    /// For the temporary file to be renamed over the destination.
    Renaming,
    /// For the temporary file to be removed after a failed rename.
    RemovingTemp,
    /// For the new validators to be stored.
    SavingValidator,
    /// For the wait before the next attempt to pass.
    Waiting,
    /// For nothing: the download has ended.
    Finished(Outcome),
}

/// What happened since the last action.
#[derive(Debug, PartialEq, Eq)]
pub enum Event {
    /// The download is to begin.
    Start,
    /// The record of the validators was read: its text, or `None` if it
    /// is missing or unreadable.
    ValidatorRead(Option<String>),
    /// No response came.
    RequestFailed,
    /// The server responded, with this status and these headers.
    Responded { status: u16, etag: Option<String>, last_modified: Option<String> },
    /// The body was read in full, or reading it failed.
    BodyRead(bool),
    /// The temporary file was written in full, or writing it failed.
    TempWritten(bool),
    /// The temporary file was renamed over the destination, or that failed.
    Renamed(bool),
    /// The removal of the temporary file was tried.
    TempRemoved,
    /// Storing the validators was tried.
    ValidatorSaved,
    /// The wait has passed.
    Waited,
}

pub enum EventView {
    Start,
    ValidatorRead(Option<Seq<char>>),
    RequestFailed,
    Responded { status: u16, etag: Option<Seq<char>>, last_modified: Option<Seq<char>> },
    BodyRead(bool),
    TempWritten(bool),
    Renamed(bool),
    TempRemoved,
    ValidatorSaved,
    Waited,
}

pub open spec fn text_view(text: Option<String>) -> Option<Seq<char>> {
    match text {
        Some(t) => Some(t@),
        None => None,
    }
}

impl View for Event {
    type V = EventView;

    open spec fn view(&self) -> EventView {
        match *self {
            Event::Start => EventView::Start,
            Event::ValidatorRead(text) => EventView::ValidatorRead(text_view(text)),
            Event::RequestFailed => EventView::RequestFailed,
            Event::Responded { status, etag, last_modified } => EventView::Responded {
                status,
                etag: text_view(etag),
                last_modified: text_view(last_modified),
            },
            Event::BodyRead(ok) => EventView::BodyRead(ok),
            Event::TempWritten(ok) => EventView::TempWritten(ok),
            Event::Renamed(ok) => EventView::Renamed(ok),
            Event::TempRemoved => EventView::TempRemoved,
            Event::ValidatorSaved => EventView::ValidatorSaved,
            Event::Waited => EventView::Waited,
        }
    }
}

/// What to do next.
#[derive(Debug, PartialEq, Eq)]
pub enum Action {
    /// Read the record at `path`, relative to the root of the records.
    ReadValidator { path: String },
    /// Send a GET for the file, with `If-None-Match` and
    /// `If-Modified-Since` set to the values that are there.
    Request { if_none_match: Option<String>, if_modified_since: Option<String> },
    /// Read the body of the response.
    ReadBody,
    /// Write the body to `path`.
    WriteTemp { path: String },
    /// Rename `from` to `to`, replacing it.
    Rename { from: String, to: String },
    /// Remove `path`; a failure does not matter.
    RemoveTemp { path: String },
    /// Store `text` as the record at `path`, relative to the root of the
    /// records; a failure does not matter.
    SaveValidator { path: String, text: String },
    /// Let `millis` milliseconds pass.
    Wait { millis: u64 },
    /// Nothing more: the download has ended.
    Finish(Outcome),
}

pub enum ActionView {
    ReadValidator { path: Seq<char> },
    Request { if_none_match: Option<Seq<char>>, if_modified_since: Option<Seq<char>> },
    ReadBody,
    WriteTemp { path: Seq<char> },
    Rename { from: Seq<char>, to: Seq<char> },
    RemoveTemp { path: Seq<char> },
    SaveValidator { path: Seq<char>, text: Seq<char> },
    Wait { millis: u64 },
    Finish(Outcome),
}

impl View for Action {
    type V = ActionView;

    open spec fn view(&self) -> ActionView {
        match *self {
            Action::ReadValidator { path } => ActionView::ReadValidator { path: path@ },
            Action::Request { if_none_match, if_modified_since } => ActionView::Request {
                if_none_match: text_view(if_none_match),
                if_modified_since: text_view(if_modified_since),
            },
            Action::ReadBody => ActionView::ReadBody,
            Action::WriteTemp { path } => ActionView::WriteTemp { path: path@ },
            Action::Rename { from, to } => ActionView::Rename { from: from@, to: to@ },
            Action::RemoveTemp { path } => ActionView::RemoveTemp { path: path@ },
            Action::SaveValidator { path, text } => ActionView::SaveValidator {
                path: path@,
                text: text@,
            },
            Action::Wait { millis } => ActionView::Wait { millis },
            Action::Finish(outcome) => ActionView::Finish(outcome),
        }
    }
}

/// Why an event was refused.
#[derive(Clone, Copy, Debug, PartialEq, Eq, Structural)]
pub enum StepError {
    /// The download was not waiting for this event.
    Unexpected,
}

/// A download at one moment.
#[verifier::ext_equal]
pub struct DownloadState {
    /// The file's path relative to the mirror's root.
    pub path: Seq<char>,
    /// The number of the current attempt, counted from 0.
    pub attempt: nat,
    pub phase: Phase,
    /// The `ETag` of the response being stored; empty if it had none.
    pub etag: Seq<char>,
    /// The `Last-Modified` of the response being stored; empty if it had
    /// none.
    pub last_modified: Seq<char>,
}

pub open spec fn or_empty(text: Option<Seq<char>>) -> Seq<char> {
    match text {
        Some(t) => t,
        None => Seq::empty(),
    }
}

impl DownloadState {
    /// A download of the file at `path` that has not begun.
    pub open spec fn fresh(path: Seq<char>) -> DownloadState {
        DownloadState {
            path,
            attempt: 0,
            phase: Phase::Fresh,
            etag: Seq::empty(),
            last_modified: Seq::empty(),
        }
    }

    pub open spec fn to(self, phase: Phase) -> DownloadState {
        DownloadState { phase, ..self }
    }

    /// The action that begins an attempt.
    pub open spec fn read_validator(self) -> ActionView {
        ActionView::ReadValidator { path: record_path(self.path) }
    }

    /// What follows a failed attempt: a wait and then another attempt
    /// while attempts are left, the end of the download otherwise.
    pub open spec fn after_failure(self) -> (DownloadState, ActionView) {
        if self.attempt + 1 < MAX_ATTEMPTS {
            (
                DownloadState { attempt: self.attempt + 1, phase: Phase::Waiting, ..self },
                ActionView::Wait { millis: delay_after(self.attempt) },
            )
        } else {
            (self.to(Phase::Finished(Outcome::Failed)), ActionView::Finish(Outcome::Failed))
        }
    }

    /// What follows a response with `status` and these headers: the end
    /// of the download if the file is unchanged, reading the body if it
    /// follows, and a failed attempt for every other status.
    pub open spec fn after_response(
        self,
        status: u16,
        etag: Option<Seq<char>>,
        last_modified: Option<Seq<char>>,
    ) -> (DownloadState, ActionView) {
        if status == NOT_MODIFIED {
            (self.to(Phase::Finished(Outcome::Skipped)), ActionView::Finish(Outcome::Skipped))
        } else if is_success(status) {
            (
                DownloadState {
                    phase: Phase::ReadingBody,
                    etag: or_empty(etag),
                    last_modified: or_empty(last_modified),
                    ..self
                },
                ActionView::ReadBody,
            )
        } else {
            self.after_failure()
        }
    }

    /// The download after `event` and the action it asks for, or `None`
    /// if it was not waiting for `event`.
    pub open spec fn next(self, event: EventView) -> Option<(DownloadState, ActionView)> {
        match (self.phase, event) {
            (Phase::Fresh, EventView::Start) => Some(
                (self.to(Phase::ReadingValidator), self.read_validator()),
            ),
            (Phase::Waiting, EventView::Waited) => Some(
                (self.to(Phase::ReadingValidator), self.read_validator()),
            ),
            (Phase::ReadingValidator, EventView::ValidatorRead(text)) => Some(
                (
                    self.to(Phase::Requesting),
                    ActionView::Request {
                        if_none_match: parsed_or_absent(text).etag,
                        if_modified_since: parsed_or_absent(text).last_modified,
                    },
                ),
            ),
            (Phase::Requesting, EventView::RequestFailed) => Some(self.after_failure()),
            (Phase::Requesting, EventView::Responded { status, etag, last_modified }) => Some(
                self.after_response(status, etag, last_modified),
            ),
            (Phase::ReadingBody, EventView::BodyRead(ok)) => Some(
                if ok {
                    (
                        self.to(Phase::WritingTemp),
                        ActionView::WriteTemp { path: temp_path(self.path) },
                    )
                } else {
                    self.after_failure()
                },
            ),
            (Phase::WritingTemp, EventView::TempWritten(ok)) => Some(
                if ok {
                    (
                        self.to(Phase::Renaming),
                        ActionView::Rename { from: temp_path(self.path), to: self.path },
                    )
                } else {
                    self.after_failure()
                },
            ),
            (Phase::Renaming, EventView::Renamed(ok)) => Some(
                if ok {
                    (
                        self.to(Phase::SavingValidator),
                        ActionView::SaveValidator {
                            path: record_path(self.path),
                            text: rendered(self.etag, self.last_modified),
                        },
                    )
                } else {
                    (
                        self.to(Phase::RemovingTemp),
                        ActionView::RemoveTemp { path: temp_path(self.path) },
                    )
                },
            ),
            (Phase::RemovingTemp, EventView::TempRemoved) => Some(self.after_failure()),
            (Phase::SavingValidator, EventView::ValidatorSaved) => Some(
                (
                    self.to(Phase::Finished(Outcome::Downloaded)),
                    ActionView::Finish(Outcome::Downloaded),
                ),
            ),
            _ => None,
        }
    }
}

/// The wait, in milliseconds, after failed attempt number `failed`,
/// counted from 0.
pub fn retry_delay(failed: u32) -> (millis: u64)
    ensures
        millis == delay_after(failed as nat),
{
    if failed < 3 {
        RETRY_DELAYS[failed as usize]
    } else {
        FALLBACK_DELAY_MS
    }
}

/// Whether `status` says that the body of the file follows.
pub fn status_is_success(status: u16) -> (yes: bool)
    ensures
        yes == is_success(status),
{
    200 <= status && status <= 299
}

/// Where the body of the file at `path` is written first.
pub fn temp_path_of(path: &str) -> (temp: String)
    ensures
        temp@ == temp_path(path@),
{
    join(path, TEMP_SUFFIX)
}

/// The download of one file.
pub struct Download {
    path: String,
    attempt: u32,
    phase: Phase,
    etag: String,
    last_modified: String,
}

impl View for Download {
    type V = DownloadState;

    closed spec fn view(&self) -> DownloadState {
        DownloadState {
            path: self.path@,
            attempt: self.attempt as nat,
            phase: self.phase,
            etag: self.etag@,
            last_modified: self.last_modified@,
        }
    }
}

impl Download {
    /// A download of the file at `path`, relative to the mirror's root,
    /// that has not begun.
    pub fn new(path: &str) -> (download: Download)
        ensures
            download@ == DownloadState::fresh(path@),
    {
        Download {
            path: path.to_owned(),
            attempt: 0,
            phase: Phase::Fresh,
            etag: String::new(),
            last_modified: String::new(),
        }
    }

    /// What the download waits for.
    pub fn phase(&self) -> (phase: Phase)
        ensures
            phase == self@.phase,
    {
        self.phase
    }

    /// The number of the current attempt, counted from 0.
    pub fn attempt(&self) -> (attempt: u32)
        ensures
            attempt == self@.attempt,
    {
        self.attempt
    }

    /// How the download ended, once it has.
    pub fn outcome(&self) -> (outcome: Option<Outcome>)
        ensures
            outcome == match self@.phase {
                Phase::Finished(o) => Some(o),
                _ => None,
            },
    {
        match self.phase {
            Phase::Finished(o) => Some(o),
            _ => None,
        }
    }

    fn begin_attempt(&mut self) -> (action: Action)
        ensures
            final(self)@ == old(self)@.to(Phase::ReadingValidator),
            action@ == old(self)@.read_validator(),
    {
        self.phase = Phase::ReadingValidator;
        Action::ReadValidator { path: record_path_of(self.path.as_str()) }
    }

    fn fail_attempt(&mut self) -> (action: Action)
        ensures
            (final(self)@, action@) == old(self)@.after_failure(),
    {
        if self.attempt < MAX_ATTEMPTS - 1 {
            let millis = retry_delay(self.attempt);
            self.attempt = self.attempt + 1;
            self.phase = Phase::Waiting;
            Action::Wait { millis }
        } else {
            self.phase = Phase::Finished(Outcome::Failed);
            Action::Finish(Outcome::Failed)
        }
    }

    fn respond(&mut self, status: u16, etag: Option<String>, last_modified: Option<String>) -> (action:
        Action)
        ensures
            (final(self)@, action@) == old(self)@.after_response(
                status,
                text_view(etag),
                text_view(last_modified),
            ),
    {
        if status == NOT_MODIFIED {
            self.phase = Phase::Finished(Outcome::Skipped);
            Action::Finish(Outcome::Skipped)
        } else if status_is_success(status) {
            self.etag = match etag {
                Some(t) => t,
                None => String::new(),
            };
            self.last_modified = match last_modified {
                Some(t) => t,
                None => String::new(),
            };
            self.phase = Phase::ReadingBody;
            Action::ReadBody
        } else {
            self.fail_attempt()
        }
    }

    /// Takes in what happened and says what to do next. An event that the
    /// download was not waiting for is refused and changes nothing.
    pub fn step(&mut self, event: Event) -> (result: Result<Action, StepError>)
        ensures
            match old(self)@.next(event@) {
                Some((state, action)) => {
                    &&& result matches Ok(a)
                    &&& a@ == action
                    &&& final(self)@ == state
                },
                None => result == Err::<Action, StepError>(StepError::Unexpected) && final(self)@
                    == old(self)@,
            },
    {
        match self.phase {
            Phase::Fresh => match event {
                Event::Start => Ok(self.begin_attempt()),
                _ => Err(StepError::Unexpected),
            },
            Phase::Waiting => match event {
                Event::Waited => Ok(self.begin_attempt()),
                _ => Err(StepError::Unexpected),
            },
            Phase::ReadingValidator => match event {
                Event::ValidatorRead(text) => {
                    let record = match &text {
                        Some(t) => parse_validator(t.as_str()),
                        None => Validator { etag: None, last_modified: None },
                    };
                    self.phase = Phase::Requesting;
                    Ok(
                        Action::Request {
                            if_none_match: record.etag,
                            if_modified_since: record.last_modified,
                        },
                    )
                },
                _ => Err(StepError::Unexpected),
            },
            Phase::Requesting => match event {
                Event::RequestFailed => Ok(self.fail_attempt()),
                Event::Responded { status, etag, last_modified } => Ok(
                    self.respond(status, etag, last_modified),
                ),
                _ => Err(StepError::Unexpected),
            },
            Phase::ReadingBody => match event {
                Event::BodyRead(ok) => {
                    if ok {
                        self.phase = Phase::WritingTemp;
                        Ok(Action::WriteTemp { path: temp_path_of(self.path.as_str()) })
                    } else {
                        Ok(self.fail_attempt())
                    }
                },
                _ => Err(StepError::Unexpected),
            },
            Phase::WritingTemp => match event {
                Event::TempWritten(ok) => {
                    if ok {
                        self.phase = Phase::Renaming;
                        Ok(
                            Action::Rename {
                                from: temp_path_of(self.path.as_str()),
                                to: self.path.clone(),
                            },
                        )
                    } else {
                        Ok(self.fail_attempt())
                    }
                },
                _ => Err(StepError::Unexpected),
            },
            Phase::Renaming => match event {
                Event::Renamed(ok) => {
                    if ok {
                        self.phase = Phase::SavingValidator;
                        Ok(
                            Action::SaveValidator {
                                path: record_path_of(self.path.as_str()),
                                text: render_validator(
                                    self.etag.as_str(),
                                    self.last_modified.as_str(),
                                ),
                            },
                        )
                    } else {
                        self.phase = Phase::RemovingTemp;
                        Ok(Action::RemoveTemp { path: temp_path_of(self.path.as_str()) })
                    }
                },
                _ => Err(StepError::Unexpected),
            },
            Phase::RemovingTemp => match event {
                Event::TempRemoved => Ok(self.fail_attempt()),
                _ => Err(StepError::Unexpected),
            },
            Phase::SavingValidator => match event {
                Event::ValidatorSaved => {
                    self.phase = Phase::Finished(Outcome::Downloaded);
                    Ok(Action::Finish(Outcome::Downloaded))
                },
                _ => Err(StepError::Unexpected),
            },
            Phase::Finished(_) => Err(StepError::Unexpected),
        }
    }
}

} // verus!
