//! What holds of every download, whatever the server and the local disk do.

use vstd::prelude::*;
use crate::fetch::{
    delay_after, is_success, or_empty, temp_path, ActionView, DownloadState, EventView, Outcome,
    Phase, MAX_ATTEMPTS, NOT_MODIFIED,
};
use crate::metadata::{
    is_one_line, law_stored_values_read_back, parsed_or_absent, record_path, rendered, stored,
};

verus! {

/// The download after `events`, and the actions it asked for, one for
/// each event; `None` if it was not waiting for one of them.
pub open spec fn run(start: DownloadState, events: Seq<EventView>) -> Option<
    (DownloadState, Seq<ActionView>),
>
    decreases events.len(),
{
    if events.len() == 0 {
        Some((start, Seq::empty()))
    } else {
        match run(start, events.drop_last()) {
            Some((state, actions)) => match state.next(events.last()) {
                Some((after, action)) => Some((after, actions.push(action))),
                None => None,
            },
            None => None,
        }
    }
}

/// The actions asked for in the course of `events`.
pub open spec fn actions_of(start: DownloadState, events: Seq<EventView>) -> Seq<ActionView> {
    match run(start, events) {
        Some((_, actions)) => actions,
        None => Seq::empty(),
    }
}

/// The download after `events`.
pub open spec fn state_of(start: DownloadState, events: Seq<EventView>) -> DownloadState {
    match run(start, events) {
        Some((state, _)) => state,
        None => start,
    }
}

/// Whether `event` is a request that brought no file and no word that the
/// file is unchanged: no response, or a status other than 304 and 2xx.
pub open spec fn is_failed_request(event: EventView) -> bool {
    match event {
        EventView::RequestFailed => true,
        EventView::Responded { status, .. } => status != NOT_MODIFIED && !is_success(status),
        _ => false,
    }
}

/// Whether `event` is a response that brings the file.
pub open spec fn brings_file(event: EventView) -> bool {
    event matches EventView::Responded { status, .. } && status != NOT_MODIFIED && is_success(
        status,
    )
}

/// Whether `action` changes what lies below the mirror's root.
pub open spec fn changes_mirror(action: ActionView) -> bool {
    action is WriteTemp || action is Rename || action is RemoveTemp
}

/// Whether `action` changes what lies at `path` below the mirror's root.
pub open spec fn changes_path(action: ActionView, path: Seq<char>) -> bool {
    match action {
        ActionView::WriteTemp { path: p } => p == path,
        ActionView::Rename { from, to } => from == path || to == path,
        ActionView::RemoveTemp { path: p } => p == path,
        _ => false,
    }
}

/// The number of requests among `actions`.
pub open spec fn requests(actions: Seq<ActionView>) -> nat
    decreases actions.len(),
{
    if actions.len() == 0 {
        0
    } else {
        requests(actions.drop_last()) + if actions.last() is Request {
            1nat
        } else {
            0nat
        }
    }
}

proof fn lemma_run_more(
    start: DownloadState,
    events: Seq<EventView>,
    event: EventView,
)
    ensures
        run(start, events.push(event)) == match run(start, events) {
            Some((state, actions)) => match state.next(event) {
                Some((after, action)) => Some((after, actions.push(action))),
                None => None,
            },
            None => None,
        },
{
    assert(events.push(event).drop_last() =~= events);
}

/// A file's temporary path differs from its path.
pub proof fn lemma_temp_path_differs(path: Seq<char>)
    ensures
        temp_path(path) != path,
{
    reveal_strlit(".tmp");
}

/// The server reports the file unchanged: the download ends as skipped on
/// the first attempt, having asked for nothing but the stored validators
/// and the request. No file is written and no validator is stored.
pub proof fn law_unchanged_is_skipped(
    path: Seq<char>,
    record: Option<Seq<char>>,
    etag: Option<Seq<char>>,
    last_modified: Option<Seq<char>>,
)
    ensures
        run(
            DownloadState::fresh(path),
            seq![
                EventView::Start,
                EventView::ValidatorRead(record),
                EventView::Responded { status: NOT_MODIFIED, etag, last_modified },
            ],
        ) == Some(
            (
                DownloadState::fresh(path).to(Phase::Finished(Outcome::Skipped)),
                seq![
                    ActionView::ReadValidator { path: record_path(path) },
                    ActionView::Request {
                        if_none_match: parsed_or_absent(record).etag,
                        if_modified_since: parsed_or_absent(record).last_modified,
                    },
                    ActionView::Finish(Outcome::Skipped),
                ],
            ),
        ),
{
    let start = DownloadState::fresh(path);
    let e0 = EventView::Start;
    let e1 = EventView::ValidatorRead(record);
    let e2 = EventView::Responded { status: NOT_MODIFIED, etag, last_modified };
    let none = Seq::<EventView>::empty();
    lemma_run_more(start, none, e0);
    lemma_run_more(start, none.push(e0), e1);
    lemma_run_more(start, none.push(e0).push(e1), e2);
    assert(seq![e0, e1, e2] =~= none.push(e0).push(e1).push(e2));
}

/// The request for a file whose validators were stored by an earlier
/// download carries exactly those validators, each left out if it was
/// empty or the word `null`.
pub proof fn law_request_carries_stored_validators(
    state: DownloadState,
    etag: Seq<char>,
    last_modified: Seq<char>,
)
    requires
        state.phase == Phase::ReadingValidator,
        is_one_line(etag),
        is_one_line(last_modified),
    ensures
        state.next(EventView::ValidatorRead(Some(rendered(etag, last_modified)))) == Some(
            (
                state.to(Phase::Requesting),
                ActionView::Request {
                    if_none_match: stored(etag),
                    if_modified_since: stored(last_modified),
                },
            ),
        ),
{
    law_stored_values_read_back(etag, last_modified);
}

/// The server sends the file and the disk takes it: the download ends as
/// downloaded on the first attempt. The body goes to the temporary path,
/// the temporary file is renamed over the destination, and the
/// validators of the response are stored in place of the old ones.
pub proof fn law_changed_is_downloaded(
    path: Seq<char>,
    record: Option<Seq<char>>,
    status: u16,
    etag: Option<Seq<char>>,
    last_modified: Option<Seq<char>>,
)
    requires
        status != NOT_MODIFIED,
        is_success(status),
    ensures
        run(
            DownloadState::fresh(path),
            seq![
                EventView::Start,
                EventView::ValidatorRead(record),
                EventView::Responded { status, etag, last_modified },
                EventView::BodyRead(true),
                EventView::TempWritten(true),
                EventView::Renamed(true),
                EventView::ValidatorSaved,
            ],
        ) matches Some((state, actions)) && state.phase == Phase::Finished(Outcome::Downloaded)
            && actions == seq![
            ActionView::ReadValidator { path: record_path(path) },
            ActionView::Request {
                if_none_match: parsed_or_absent(record).etag,
                if_modified_since: parsed_or_absent(record).last_modified,
            },
            ActionView::ReadBody,
            ActionView::WriteTemp { path: temp_path(path) },
            ActionView::Rename { from: temp_path(path), to: path },
            ActionView::SaveValidator {
                path: record_path(path),
                text: rendered(or_empty(etag), or_empty(last_modified)),
            },
            ActionView::Finish(Outcome::Downloaded),
        ],
{
    let start = DownloadState::fresh(path);
    let e0 = EventView::Start;
    let e1 = EventView::ValidatorRead(record);
    let e2 = EventView::Responded { status, etag, last_modified };
    let e3 = EventView::BodyRead(true);
    let e4 = EventView::TempWritten(true);
    let e5 = EventView::Renamed(true);
    let e6 = EventView::ValidatorSaved;
    let none = Seq::<EventView>::empty();
    let s1 = none.push(e0);
    let s2 = s1.push(e1);
    let s3 = s2.push(e2);
    let s4 = s3.push(e3);
    let s5 = s4.push(e4);
    let s6 = s5.push(e5);
    let s7 = s6.push(e6);
    lemma_run_more(start, none, e0);
    lemma_run_more(start, s1, e1);
    lemma_run_more(start, s2, e2);
    lemma_run_more(start, s3, e3);
    lemma_run_more(start, s4, e4);
    lemma_run_more(start, s5, e5);
    lemma_run_more(start, s6, e6);
    assert(seq![e0, e1, e2, e3, e4, e5, e6] =~= s7);
}

/// Two requests fail and the third brings the file: the download waits
/// 500 ms after the first failure and 2000 ms after the second, and ends
/// as downloaded.
pub proof fn law_third_attempt_downloads(
    path: Seq<char>,
    records: Seq<Option<Seq<char>>>,
    first: EventView,
    second: EventView,
    third: EventView,
)
    requires
        records.len() == 3,
        is_failed_request(first),
        is_failed_request(second),
        brings_file(third),
    ensures
        run(
            DownloadState::fresh(path),
            seq![
                EventView::Start,
                EventView::ValidatorRead(records[0]),
                first,
                EventView::Waited,
                EventView::ValidatorRead(records[1]),
                second,
                EventView::Waited,
                EventView::ValidatorRead(records[2]),
                third,
                EventView::BodyRead(true),
                EventView::TempWritten(true),
                EventView::Renamed(true),
                EventView::ValidatorSaved,
            ],
        ) matches Some((state, actions)) && {
            &&& state.phase == Phase::Finished(Outcome::Downloaded)
            &&& state.attempt == 2
            &&& actions.len() == 13
            &&& actions[2] == ActionView::Wait { millis: 500 }
            &&& actions[5] == ActionView::Wait { millis: 2000 }
            &&& forall|i: int| 0 <= i < 13 && i != 2 && i != 5 ==> !(actions[i] is Wait)
            &&& actions[12] == ActionView::Finish(Outcome::Downloaded)
        },
{
    let start = DownloadState::fresh(path);
    let none = Seq::<EventView>::empty();
    let s1 = none.push(EventView::Start);
    let s2 = s1.push(EventView::ValidatorRead(records[0]));
    let s3 = s2.push(first);
    let s4 = s3.push(EventView::Waited);
    let s5 = s4.push(EventView::ValidatorRead(records[1]));
    let s6 = s5.push(second);
    let s7 = s6.push(EventView::Waited);
    let s8 = s7.push(EventView::ValidatorRead(records[2]));
    let s9 = s8.push(third);
    let s10 = s9.push(EventView::BodyRead(true));
    let s11 = s10.push(EventView::TempWritten(true));
    let s12 = s11.push(EventView::Renamed(true));
    let s13 = s12.push(EventView::ValidatorSaved);
    lemma_run_more(start, none, EventView::Start);
    lemma_run_more(start, s1, EventView::ValidatorRead(records[0]));
    lemma_run_more(start, s2, first);
    lemma_run_more(start, s3, EventView::Waited);
    lemma_run_more(start, s4, EventView::ValidatorRead(records[1]));
    lemma_run_more(start, s5, second);
    lemma_run_more(start, s6, EventView::Waited);
    lemma_run_more(start, s7, EventView::ValidatorRead(records[2]));
    lemma_run_more(start, s8, third);
    lemma_run_more(start, s9, EventView::BodyRead(true));
    lemma_run_more(start, s10, EventView::TempWritten(true));
    lemma_run_more(start, s11, EventView::Renamed(true));
    lemma_run_more(start, s12, EventView::ValidatorSaved);
    assert(seq![
        EventView::Start,
        EventView::ValidatorRead(records[0]),
        first,
        EventView::Waited,
        EventView::ValidatorRead(records[1]),
        second,
        EventView::Waited,
        EventView::ValidatorRead(records[2]),
        third,
        EventView::BodyRead(true),
        EventView::TempWritten(true),
        EventView::Renamed(true),
        EventView::ValidatorSaved,
    ] =~= s13);
}

/// Three requests fail: the download ends as failed, and all it asked
/// for was to read the stored validators, to send the requests and to
/// wait. Nothing below the mirror's root is written, renamed or removed,
/// and no validator is stored.
pub proof fn law_three_failures_fail(
    path: Seq<char>,
    records: Seq<Option<Seq<char>>>,
    first: EventView,
    second: EventView,
    third: EventView,
)
    requires
        records.len() == 3,
        is_failed_request(first),
        is_failed_request(second),
        is_failed_request(third),
    ensures
        run(
            DownloadState::fresh(path),
            seq![
                EventView::Start,
                EventView::ValidatorRead(records[0]),
                first,
                EventView::Waited,
                EventView::ValidatorRead(records[1]),
                second,
                EventView::Waited,
                EventView::ValidatorRead(records[2]),
                third,
            ],
        ) matches Some((state, actions)) && {
            &&& state.phase == Phase::Finished(Outcome::Failed)
            &&& actions.len() == 9
            &&& actions[2] == ActionView::Wait { millis: 500 }
            &&& actions[5] == ActionView::Wait { millis: 2000 }
            &&& actions[8] == ActionView::Finish(Outcome::Failed)
            &&& forall|i: int|
                0 <= i < 9 ==> !changes_mirror(#[trigger] actions[i]) && !(actions[i]
                    is SaveValidator)
        },
{
    let start = DownloadState::fresh(path);
    let none = Seq::<EventView>::empty();
    let s1 = none.push(EventView::Start);
    let s2 = s1.push(EventView::ValidatorRead(records[0]));
    let s3 = s2.push(first);
    let s4 = s3.push(EventView::Waited);
    let s5 = s4.push(EventView::ValidatorRead(records[1]));
    let s6 = s5.push(second);
    let s7 = s6.push(EventView::Waited);
    let s8 = s7.push(EventView::ValidatorRead(records[2]));
    let s9 = s8.push(third);
    lemma_run_more(start, none, EventView::Start);
    lemma_run_more(start, s1, EventView::ValidatorRead(records[0]));
    lemma_run_more(start, s2, first);
    lemma_run_more(start, s3, EventView::Waited);
    lemma_run_more(start, s4, EventView::ValidatorRead(records[1]));
    lemma_run_more(start, s5, second);
    lemma_run_more(start, s6, EventView::Waited);
    lemma_run_more(start, s7, EventView::ValidatorRead(records[2]));
    lemma_run_more(start, s8, third);
    assert(seq![
        EventView::Start,
        EventView::ValidatorRead(records[0]),
        first,
        EventView::Waited,
        EventView::ValidatorRead(records[1]),
        second,
        EventView::Waited,
        EventView::ValidatorRead(records[2]),
        third,
    ] =~= s9);
}

/// A download that has ended takes no further event: it ends once.
pub proof fn law_finished_is_final(state: DownloadState, event: EventView)
    requires
        state.phase is Finished,
    ensures
        state.next(event) is None,
{
}

/// Whatever happens, the destination is never written in part: the only
/// action that ever changes what lies at the file's path is the rename of
/// the temporary file over it, and that is asked for only in answer to
/// the news that the temporary file was written in full, the action
/// before having been to write it. If the download is cut short at any
/// point, the destination holds the old file or the whole new one; at
/// most the temporary file is left behind.
pub proof fn law_destination_replaced_whole(path: Seq<char>, events: Seq<EventView>, at: int)
    requires
        run(DownloadState::fresh(path), events) is Some,
        0 <= at < events.len(),
        changes_path(actions_of(DownloadState::fresh(path), events)[at], path),
    ensures
        actions_of(DownloadState::fresh(path), events)[at] == (ActionView::Rename {
            from: temp_path(path),
            to: path,
        }),
        events[at] == EventView::TempWritten(true),
        at > 0,
        actions_of(DownloadState::fresh(path), events)[at - 1] == (ActionView::WriteTemp {
            path: temp_path(path),
        }),
    decreases events.len(),
{
    let earlier = events.drop_last();
    lemma_run_shape(path, events);
    lemma_run_shape(path, earlier);
    lemma_temp_path_differs(path);
    if at < events.len() - 1 {
        law_destination_replaced_whole(path, earlier, at);
    }
}

/// Validators are stored only for a file that has arrived: the action
/// that stores them is asked for only in answer to the news that the
/// temporary file was renamed over the destination, and what it stores are
/// the validators that the download took from the response.
pub proof fn law_validator_stored_after_rename(
    path: Seq<char>,
    events: Seq<EventView>,
    at: int,
)
    requires
        run(DownloadState::fresh(path), events) is Some,
        0 <= at < events.len(),
        actions_of(DownloadState::fresh(path), events)[at] is SaveValidator,
    ensures
        events[at] == EventView::Renamed(true),
        run(DownloadState::fresh(path), events.take(at)) is Some,
        actions_of(DownloadState::fresh(path), events)[at] == (ActionView::SaveValidator {
            path: record_path(path),
            text: rendered(
                state_of(DownloadState::fresh(path), events.take(at)).etag,
                state_of(DownloadState::fresh(path), events.take(at)).last_modified,
            ),
        }),
    decreases events.len(),
{
    let earlier = events.drop_last();
    lemma_run_shape(path, events);
    lemma_run_shape(path, earlier);
    if at < events.len() - 1 {
        law_validator_stored_after_rename(path, earlier, at);
        assert(earlier.take(at) =~= events.take(at));
    } else {
        assert(events.take(at) =~= earlier);
    }
}

/// The shape that every run keeps: one action for each event, the path
/// unchanged, the attempts within their limit, and the temporary file
/// awaited only right after the action that writes it.
proof fn lemma_run_shape(path: Seq<char>, events: Seq<EventView>)
    requires
        run(DownloadState::fresh(path), events) is Some,
    ensures
        run(DownloadState::fresh(path), events.drop_last()) is Some || events.len() == 0,
        ({
            let (state, actions) = run(DownloadState::fresh(path), events)->0;
            &&& actions.len() == events.len()
            &&& state.path == path
            &&& state.attempt < MAX_ATTEMPTS
            &&& state.phase == Phase::WritingTemp ==> events.len() > 0 && actions.last() == (
            ActionView::WriteTemp { path: temp_path(path) })
            &&& requests(actions) == state.attempt + if state.phase == Phase::Fresh || state.phase
                == Phase::ReadingValidator || state.phase == Phase::Waiting {
                0nat
            } else {
                1nat
            }
        }),
    decreases events.len(),
{
    if events.len() > 0 {
        let earlier = events.drop_last();
        lemma_run_shape(path, earlier);
        assert(actions_of(DownloadState::fresh(path), events).drop_last() =~= actions_of(
            DownloadState::fresh(path),
            earlier,
        ));
    }
}

/// A download sends at most three requests.
pub proof fn law_at_most_three_requests(path: Seq<char>, events: Seq<EventView>)
    requires
        run(DownloadState::fresh(path), events) is Some,
    ensures
        requests(actions_of(DownloadState::fresh(path), events)) <= MAX_ATTEMPTS,
{
    lemma_run_shape(path, events);
}

/// As long as no response brings the file, nothing below the mirror's
/// root is written, renamed or removed, no validator is stored, and the
/// download does not end as downloaded: a file that is already there
/// stays as it is, and so does its record.
pub proof fn law_no_file_no_write(path: Seq<char>, events: Seq<EventView>)
    requires
        run(DownloadState::fresh(path), events) is Some,
        forall|i: int| 0 <= i < events.len() ==> !brings_file(#[trigger] events[i]),
    ensures
        state_of(DownloadState::fresh(path), events).phase != Phase::Finished(Outcome::Downloaded),
        forall|i: int|
            0 <= i < events.len() ==> {
                let action = #[trigger] actions_of(DownloadState::fresh(path), events)[i];
                !changes_mirror(action) && !(action is SaveValidator)
            },
{
    lemma_before_file(path, events);
}

proof fn lemma_before_file(path: Seq<char>, events: Seq<EventView>)
    requires
        run(DownloadState::fresh(path), events) is Some,
        forall|i: int| 0 <= i < events.len() ==> !brings_file(#[trigger] events[i]),
    ensures
        ({
            let (state, actions) = run(DownloadState::fresh(path), events)->0;
            &&& actions.len() == events.len()
            &&& state.phase == Phase::Fresh || state.phase == Phase::ReadingValidator || state.phase
                == Phase::Requesting || state.phase == Phase::Waiting || state.phase
                == Phase::Finished(Outcome::Skipped) || state.phase == Phase::Finished(
                Outcome::Failed,
            )
            &&& forall|i: int|
                0 <= i < actions.len() ==> !changes_mirror(#[trigger] actions[i]) && !(actions[i]
                    is SaveValidator)
        }),
    decreases events.len(),
{
    if events.len() > 0 {
        let earlier = events.drop_last();
        assert(forall|i: int| 0 <= i < earlier.len() ==> earlier[i] == events[i]);
        lemma_before_file(path, earlier);
    }
}

} // verus!
