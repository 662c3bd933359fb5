use mirror_caddy::fetch::{
    retry_delay, status_is_success, temp_path_of, Action, Download, Event, Outcome, Phase,
    StepError, FALLBACK_DELAY_MS, MAX_ATTEMPTS, RETRY_DELAYS,
};

fn responded(status: u16, etag: Option<&str>, last_modified: Option<&str>) -> Event {
    Event::Responded {
        status,
        etag: etag.map(|s| s.to_string()),
        last_modified: last_modified.map(|s| s.to_string()),
    }
}

fn request(etag: Option<&str>, last_modified: Option<&str>) -> Action {
    Action::Request {
        if_none_match: etag.map(|s| s.to_string()),
        if_modified_since: last_modified.map(|s| s.to_string()),
    }
}

fn read_validator(path: &str) -> Action {
    Action::ReadValidator { path: path.to_string() }
}

/// Feeds the events in order and collects the actions.
fn drive(download: &mut Download, events: Vec<Event>) -> Vec<Action> {
    events.into_iter().map(|e| download.step(e).unwrap()).collect()
}

#[test]
fn delays_follow_the_list_and_then_the_fallback() {
    assert_eq!(retry_delay(0), 500);
    assert_eq!(retry_delay(1), 2000);
    assert_eq!(retry_delay(2), 5000);
    assert_eq!(retry_delay(3), FALLBACK_DELAY_MS);
    assert_eq!(retry_delay(u32::MAX), 5000);
    assert_eq!(MAX_ATTEMPTS, 3);
    assert_eq!(RETRY_DELAYS, [500, 2000, 5000]);
}

#[test]
fn success_is_any_2xx_status() {
    assert!(!status_is_success(199));
    assert!(status_is_success(200));
    assert!(status_is_success(204));
    assert!(status_is_success(299));
    assert!(!status_is_success(300));
    assert!(!status_is_success(304));
    assert!(!status_is_success(404));
    assert!(!status_is_success(500));
}

#[test]
fn temporary_file_lies_beside_the_destination() {
    assert_eq!(temp_path_of("a/b.txt"), "a/b.txt.tmp");
}

#[test]
fn fresh_download_waits_to_be_started() {
    let mut d = Download::new("f");
    assert_eq!(d.phase(), Phase::Fresh);
    assert_eq!(d.attempt(), 0);
    assert_eq!(d.outcome(), None);
    assert_eq!(d.step(Event::Waited), Err(StepError::Unexpected));
    assert_eq!(d.step(Event::RequestFailed), Err(StepError::Unexpected));
    assert_eq!(d.phase(), Phase::Fresh);
    assert_eq!(d.step(Event::Start), Ok(read_validator("f.meta")));
    assert_eq!(d.phase(), Phase::ReadingValidator);
}

#[test]
fn request_without_record_is_unconditional() {
    let mut d = Download::new("f");
    d.step(Event::Start).unwrap();
    assert_eq!(d.step(Event::ValidatorRead(None)), Ok(request(None, None)));
}

#[test]
fn request_carries_the_stored_validators() {
    let mut d = Download::new("f");
    d.step(Event::Start).unwrap();
    let record = "etag=\"v1\"\nlast_modified=Mon, 01 Jan 2024 00:00:00 GMT\n".to_string();
    assert_eq!(
        d.step(Event::ValidatorRead(Some(record))),
        Ok(request(Some("\"v1\""), Some("Mon, 01 Jan 2024 00:00:00 GMT")))
    );
}

#[test]
fn request_carries_either_validator_alone() {
    let mut d = Download::new("f");
    d.step(Event::Start).unwrap();
    assert_eq!(
        d.step(Event::ValidatorRead(Some("etag=\nlast_modified=L\n".to_string()))),
        Ok(request(None, Some("L")))
    );
}

#[test]
fn unchanged_file_is_skipped_and_nothing_is_written() {
    let mut d = Download::new("docs/a.md");
    let actions = drive(
        &mut d,
        vec![
            Event::Start,
            Event::ValidatorRead(Some("etag=\"v1\"\nlast_modified=\n".to_string())),
            responded(304, Some("\"v1\""), None),
        ],
    );
    assert_eq!(
        actions,
        vec![
            read_validator("docs/a.md.meta"),
            request(Some("\"v1\""), None),
            Action::Finish(Outcome::Skipped),
        ]
    );
    assert_eq!(d.outcome(), Some(Outcome::Skipped));
    assert_eq!(d.attempt(), 0);
}

#[test]
fn changed_file_is_downloaded_and_its_validator_replaced() {
    let mut d = Download::new("docs/a.md");
    let actions = drive(
        &mut d,
        vec![
            Event::Start,
            Event::ValidatorRead(Some("etag=\"v1\"\nlast_modified=old\n".to_string())),
            responded(200, Some("\"v2\""), Some("new")),
            Event::BodyRead(true),
            Event::TempWritten(true),
            Event::Renamed(true),
            Event::ValidatorSaved,
        ],
    );
    assert_eq!(
        actions,
        vec![
            read_validator("docs/a.md.meta"),
            request(Some("\"v1\""), Some("old")),
            Action::ReadBody,
            Action::WriteTemp { path: "docs/a.md.tmp".to_string() },
            Action::Rename { from: "docs/a.md.tmp".to_string(), to: "docs/a.md".to_string() },
            Action::SaveValidator {
                path: "docs/a.md.meta".to_string(),
                text: "etag=\"v2\"\nlast_modified=new\n".to_string(),
            },
            Action::Finish(Outcome::Downloaded),
        ]
    );
    assert_eq!(d.outcome(), Some(Outcome::Downloaded));
}

#[test]
fn missing_response_headers_are_stored_as_empty() {
    let mut d = Download::new("f");
    let actions = drive(
        &mut d,
        vec![
            Event::Start,
            Event::ValidatorRead(None),
            responded(206, None, None),
            Event::BodyRead(true),
            Event::TempWritten(true),
            Event::Renamed(true),
        ],
    );
    assert_eq!(
        actions[5],
        Action::SaveValidator {
            path: "f.meta".to_string(),
            text: "etag=\nlast_modified=\n".to_string()
        }
    );
}

#[test]
fn third_attempt_succeeds_after_waits_of_500_and_2000() {
    let mut d = Download::new("f");
    let actions = drive(
        &mut d,
        vec![
            Event::Start,
            Event::ValidatorRead(None),
            Event::RequestFailed,
            Event::Waited,
            Event::ValidatorRead(None),
            responded(503, None, None),
            Event::Waited,
            Event::ValidatorRead(None),
            responded(200, Some("e"), Some("l")),
            Event::BodyRead(true),
            Event::TempWritten(true),
            Event::Renamed(true),
            Event::ValidatorSaved,
        ],
    );
    let waits: Vec<u64> = actions
        .iter()
        .filter_map(|a| match a {
            Action::Wait { millis } => Some(*millis),
            _ => None,
        })
        .collect();
    assert_eq!(waits, vec![500, 2000]);
    assert_eq!(actions[2], Action::Wait { millis: 500 });
    assert_eq!(actions[5], Action::Wait { millis: 2000 });
    assert_eq!(actions[12], Action::Finish(Outcome::Downloaded));
    assert_eq!(d.attempt(), 2);
    assert_eq!(d.outcome(), Some(Outcome::Downloaded));
}

#[test]
fn three_failed_attempts_fail_and_touch_no_file() {
    let mut d = Download::new("f");
    let actions = drive(
        &mut d,
        vec![
            Event::Start,
            Event::ValidatorRead(Some("etag=x\n".to_string())),
            Event::RequestFailed,
            Event::Waited,
            Event::ValidatorRead(Some("etag=x\n".to_string())),
            responded(404, None, None),
            Event::Waited,
            Event::ValidatorRead(Some("etag=x\n".to_string())),
            responded(500, None, None),
        ],
    );
    assert_eq!(
        actions,
        vec![
            read_validator("f.meta"),
            request(Some("x"), None),
            Action::Wait { millis: 500 },
            read_validator("f.meta"),
            request(Some("x"), None),
            Action::Wait { millis: 2000 },
            read_validator("f.meta"),
            request(Some("x"), None),
            Action::Finish(Outcome::Failed),
        ]
    );
    assert_eq!(d.outcome(), Some(Outcome::Failed));
}

#[test]
fn every_other_status_is_retried_alike() {
    for status in [100u16, 199, 300, 301, 400, 404, 410, 500, 503, 999] {
        let mut d = Download::new("f");
        d.step(Event::Start).unwrap();
        d.step(Event::ValidatorRead(None)).unwrap();
        assert_eq!(d.step(responded(status, None, None)), Ok(Action::Wait { millis: 500 }));
        assert_eq!(d.phase(), Phase::Waiting);
        assert_eq!(d.attempt(), 1);
    }
}

#[test]
fn failed_body_read_is_retried() {
    let mut d = Download::new("f");
    let actions = drive(
        &mut d,
        vec![
            Event::Start,
            Event::ValidatorRead(None),
            responded(200, None, None),
            Event::BodyRead(false),
        ],
    );
    assert_eq!(actions[2], Action::ReadBody);
    assert_eq!(actions[3], Action::Wait { millis: 500 });
}

#[test]
fn failed_temporary_write_is_retried_without_a_rename() {
    let mut d = Download::new("f");
    let actions = drive(
        &mut d,
        vec![
            Event::Start,
            Event::ValidatorRead(None),
            responded(200, None, None),
            Event::BodyRead(true),
            Event::TempWritten(false),
        ],
    );
    assert_eq!(actions[3], Action::WriteTemp { path: "f.tmp".to_string() });
    assert_eq!(actions[4], Action::Wait { millis: 500 });
}

#[test]
fn failed_rename_removes_the_temporary_file_and_is_retried() {
    let mut d = Download::new("f");
    let actions = drive(
        &mut d,
        vec![
            Event::Start,
            Event::ValidatorRead(None),
            responded(200, None, None),
            Event::BodyRead(true),
            Event::TempWritten(true),
            Event::Renamed(false),
            Event::TempRemoved,
            Event::Waited,
        ],
    );
    assert_eq!(actions[5], Action::RemoveTemp { path: "f.tmp".to_string() });
    assert_eq!(actions[6], Action::Wait { millis: 500 });
    assert_eq!(actions[7], read_validator("f.meta"));
}

#[test]
fn failure_on_the_last_attempt_ends_the_download() {
    let mut d = Download::new("f");
    drive(
        &mut d,
        vec![
            Event::Start,
            Event::ValidatorRead(None),
            Event::RequestFailed,
            Event::Waited,
            Event::ValidatorRead(None),
            Event::RequestFailed,
            Event::Waited,
            Event::ValidatorRead(None),
            responded(200, None, None),
            Event::BodyRead(true),
            Event::TempWritten(true),
        ],
    );
    assert_eq!(d.step(Event::Renamed(false)), Ok(Action::RemoveTemp { path: "f.tmp".to_string() }));
    assert_eq!(d.step(Event::TempRemoved), Ok(Action::Finish(Outcome::Failed)));
    assert_eq!(d.outcome(), Some(Outcome::Failed));
}

#[test]
fn finished_download_takes_no_event() {
    let mut d = Download::new("f");
    drive(&mut d, vec![Event::Start, Event::ValidatorRead(None), responded(304, None, None)]);
    for event in [
        Event::Start,
        Event::ValidatorRead(None),
        Event::RequestFailed,
        responded(200, None, None),
        Event::BodyRead(true),
        Event::TempWritten(true),
        Event::Renamed(true),
        Event::TempRemoved,
        Event::ValidatorSaved,
        Event::Waited,
    ] {
        assert_eq!(d.step(event), Err(StepError::Unexpected));
    }
    assert_eq!(d.outcome(), Some(Outcome::Skipped));
}

#[test]
fn event_out_of_turn_changes_nothing() {
    let mut d = Download::new("f");
    d.step(Event::Start).unwrap();
    d.step(Event::ValidatorRead(None)).unwrap();
    assert_eq!(d.step(Event::Renamed(true)), Err(StepError::Unexpected));
    assert_eq!(d.step(Event::BodyRead(true)), Err(StepError::Unexpected));
    assert_eq!(d.phase(), Phase::Requesting);
    assert_eq!(d.step(responded(200, None, None)), Ok(Action::ReadBody));
}

fn alphabet() -> Vec<Event> {
    vec![
        Event::Start,
        Event::ValidatorRead(None),
        Event::ValidatorRead(Some("etag=e\nlast_modified=l\n".to_string())),
        Event::RequestFailed,
        responded(200, Some("e2"), None),
        responded(304, None, None),
        responded(500, None, None),
        Event::BodyRead(true),
        Event::BodyRead(false),
        Event::TempWritten(true),
        Event::TempWritten(false),
        Event::Renamed(true),
        Event::Renamed(false),
        Event::TempRemoved,
        Event::ValidatorSaved,
        Event::Waited,
    ]
}

/// Replays the events numbered in `trail` on a fresh download; `None` if
/// one of them is refused.
fn replay(trail: &[usize]) -> Option<(Download, Vec<Action>)> {
    let mut download = Download::new("dir/f");
    let mut actions = Vec::new();
    for &i in trail {
        match download.step(alphabet().swap_remove(i)) {
            Ok(action) => actions.push(action),
            Err(_) => return None,
        }
    }
    Some((download, actions))
}

/// Visits every run of a download over the alphabet, and counts the runs
/// that end.
fn visit(trail: &mut Vec<usize>, ended: &mut usize) {
    let (download, actions) = replay(trail).unwrap();
    let events: Vec<Event> = trail.iter().map(|&i| alphabet().swap_remove(i)).collect();

    for (i, action) in actions.iter().enumerate() {
        let touches_destination = match action {
            Action::WriteTemp { path } | Action::RemoveTemp { path } => path == "dir/f",
            Action::Rename { from, to } => from == "dir/f" || to == "dir/f",
            _ => false,
        };
        if touches_destination {
            assert_eq!(
                *action,
                Action::Rename { from: "dir/f.tmp".to_string(), to: "dir/f".to_string() }
            );
            assert_eq!(events[i], Event::TempWritten(true));
            assert_eq!(actions[i - 1], Action::WriteTemp { path: "dir/f.tmp".to_string() });
        }
    }
    let requests = actions.iter().filter(|a| matches!(a, Action::Request { .. })).count();
    assert!(requests <= 3);
    assert!(trail.len() <= 30, "a download that does not end");

    if download.outcome().is_some() {
        assert!(matches!(actions.last(), Some(Action::Finish(_))));
        *ended += 1;
    }
    for i in 0..alphabet().len() {
        trail.push(i);
        if replay(trail).is_some() {
            assert!(download.outcome().is_none(), "an ended download took an event");
            visit(trail, ended);
        }
        trail.pop();
    }
}

#[test]
fn destination_is_only_replaced_by_a_whole_temporary_file() {
    let mut ended = 0;
    visit(&mut Vec::new(), &mut ended);
    assert!(ended > 100);
}
