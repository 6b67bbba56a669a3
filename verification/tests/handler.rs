use inline_blame::blame::LineBlame;
use inline_blame::commit::{CommitInfo, Message, Signature};
use inline_blame::handler::{
    annotate, BlameHandler, Completion, DocumentId, EditDelta, PendingRequest, Publication,
    Reaction, State,
};
use inline_blame::store::{AttributionError, BlameEntry, FileBlame, RevisionId};

fn request(document: u64, target_line: u32, format: &str) -> PendingRequest {
    PendingRequest {
        document: DocumentId(document),
        target_line,
        edit_delta: EditDelta { inserted: 0, deleted: 0 },
        format: format.to_owned(),
    }
}

fn record(author: &str) -> LineBlame {
    LineBlame { author_name: Some(author.to_owned()), ..LineBlame::unknown() }
}

fn found(author: &str) -> Option<Completion> {
    Some(Completion { outcome: Ok(record(author)), uncommitted: false })
}

fn nothing() -> Reaction {
    Reaction { publish: None, start: None, arm_timer: false }
}

fn waiting() -> Reaction {
    Reaction { publish: None, start: None, arm_timer: true }
}

fn shown(document: u64, text: &str) -> Option<Publication> {
    Some(Publication { document: DocumentId(document), annotation: Some(text.to_owned()) })
}

#[test]
fn a_new_handler_is_idle() {
    assert_eq!(BlameHandler::default().state(), &State::Idle);
    let mut handler = BlameHandler::new();
    assert_eq!(handler.state(), &State::Idle);
    assert_eq!(handler.finish_debounce(None), nothing());
    assert_eq!(handler.finish_debounce(found("Bob")), nothing());
    assert_eq!(handler.state(), &State::Idle);
}

#[test]
fn a_request_to_an_idle_handler_is_started() {
    let mut handler = BlameHandler::new();
    let first = request(1, 10, "{author}");
    assert_eq!(
        handler.handle_event(first.clone()),
        Reaction { publish: None, start: Some(first.clone()), arm_timer: true }
    );
    assert_eq!(handler.state(), &State::Computing { current: first });
}

#[test]
fn an_unfinished_computation_is_waited_for() {
    let mut handler = BlameHandler::new();
    let first = request(1, 10, "{author}");
    handler.handle_event(first.clone());
    assert_eq!(handler.finish_debounce(None), waiting());
    assert_eq!(handler.finish_debounce(None), waiting());
    assert_eq!(handler.state(), &State::Computing { current: first.clone() });
    handler.handle_event(request(1, 11, "{author}"));
    assert_eq!(handler.finish_debounce(None), waiting());
    assert_eq!(
        handler.state(),
        &State::ComputingWithPending { current: first, pending: request(1, 11, "{author}") }
    );
}

#[test]
fn a_finished_computation_is_published() {
    let mut handler = BlameHandler::new();
    handler.handle_event(request(7, 10, "by {author}"));
    assert_eq!(
        handler.finish_debounce(found("Bob")),
        Reaction { publish: shown(7, "by Bob"), start: None, arm_timer: false }
    );
    assert_eq!(handler.state(), &State::Idle);
}

#[test]
fn requests_in_one_burst_start_one_computation() {
    let mut handler = BlameHandler::new();
    let requests: Vec<PendingRequest> =
        (0..5).map(|line| request(1, line, &format!("{line}: {{author}}"))).collect();
    let mut started = Vec::new();
    for request in &requests {
        let reaction = handler.handle_event(request.clone());
        assert_eq!(reaction.publish, None);
        assert!(reaction.arm_timer);
        started.extend(reaction.start);
    }
    assert_eq!(started, vec![requests[0].clone()]);
    assert_eq!(
        handler.state(),
        &State::ComputingWithPending {
            current: requests[0].clone(),
            pending: requests[4].clone(),
        }
    );

    let reaction = handler.finish_debounce(found("Bob"));
    assert_eq!(reaction.publish, shown(1, "0: Bob"));
    assert_eq!(reaction.start, Some(requests[4].clone()));
    assert!(reaction.arm_timer);
    assert_eq!(handler.state(), &State::Computing { current: requests[4].clone() });

    let reaction = handler.finish_debounce(found("Bob"));
    assert_eq!(reaction, Reaction { publish: shown(1, "4: Bob"), start: None, arm_timer: false });
    assert_eq!(handler.state(), &State::Idle);
}

#[test]
fn a_slow_result_never_replaces_a_newer_one() {
    let mut handler = BlameHandler::new();
    let slow = request(1, 3, "slow {author}");
    let fast = request(1, 4, "fast {author}");
    let mut published = Vec::new();

    assert_eq!(handler.handle_event(slow.clone()).start, Some(slow));
    published.extend(handler.finish_debounce(None).publish);
    // the newer request is not started while the older one is computed
    assert_eq!(handler.handle_event(fast.clone()).start, None);
    published.extend(handler.finish_debounce(None).publish);
    assert!(published.is_empty());

    let reaction = handler.finish_debounce(found("Bob"));
    assert_eq!(reaction.start, Some(fast));
    published.extend(reaction.publish);
    published.extend(handler.finish_debounce(found("Bob")).publish);
    published.extend(handler.finish_debounce(found("Bob")).publish);
    published.extend(handler.finish_debounce(None).publish);

    let texts: Vec<Option<String>> = published.into_iter().map(|p| p.annotation).collect();
    assert_eq!(texts, vec![Some("slow Bob".to_owned()), Some("fast Bob".to_owned())]);
    assert_eq!(handler.state(), &State::Idle);
}

#[test]
fn the_publication_names_the_document_of_its_request() {
    let mut handler = BlameHandler::new();
    handler.handle_event(request(1, 3, "{author}"));
    handler.handle_event(request(2, 3, "{author}"));
    assert_eq!(handler.finish_debounce(found("Ann")).publish, shown(1, "Ann"));
    assert_eq!(handler.finish_debounce(found("Bob")).publish, shown(2, "Bob"));
}

#[test]
fn a_failed_computation_shows_nothing() {
    for error in [
        AttributionError::NotARepository,
        AttributionError::PathOutsideRepository,
        AttributionError::NoHistory,
        AttributionError::RevisionResolutionFailed,
    ] {
        let mut handler = BlameHandler::new();
        handler.handle_event(request(3, 0, "{author}"));
        let reaction =
            handler.finish_debounce(Some(Completion { outcome: Err(error), uncommitted: false }));
        assert_eq!(
            reaction.publish,
            Some(Publication { document: DocumentId(3), annotation: None })
        );
    }
}

#[test]
fn annotate_writes_the_record_in_the_template_of_the_request() {
    let done = Completion { outcome: Ok(record("Bob")), uncommitted: false };
    assert_eq!(annotate(&request(1, 0, "{author}, {date}"), &done), Some("Bob".to_owned()));
    let hidden = Completion { outcome: Ok(record("Bob")), uncommitted: true };
    assert_eq!(annotate(&request(1, 0, "{author}, {date}"), &hidden), None);
}

#[test]
fn a_cursor_on_an_inserted_line_gets_no_annotation() {
    let a = RevisionId { bytes: [0xa; 20] };
    let committed = vec![BlameEntry { start: 0, len: 3, revision: a }];
    let blame = FileBlame::from_entries("/work/file.txt".to_owned(), &committed);

    // one line was inserted after the first, and the cursor stands on it
    let asked = PendingRequest {
        document: DocumentId(1),
        target_line: 1,
        edit_delta: EditDelta { inserted: 1, deleted: 0 },
        format: "{author}, {date} • {message} • {commit}".to_owned(),
    };
    let mut handler = BlameHandler::new();
    let started = handler.handle_event(asked).start.expect("the handler was idle");

    // the committed line that the cursor is mapped to belongs to other text
    let revision = blame.blame_for_line(
        started.target_line,
        started.edit_delta.inserted,
        started.edit_delta.deleted,
    );
    assert_eq!(revision, Some(a));
    let commit = CommitInfo {
        short_hash: Some("0a0a0a0".to_owned()),
        author: Some(Signature {
            name: "Ann".to_owned(),
            email: "ann@ann.com".to_owned(),
            seconds: 0,
            offset: 0,
        }),
        message: Some(Message { title: "first".to_owned(), body: None }),
    };
    let done = Completion { outcome: LineBlame::resolve(Some(commit)), uncommitted: true };

    let reaction = handler.finish_debounce(Some(done));
    assert_eq!(reaction.publish, Some(Publication { document: DocumentId(1), annotation: None }));
    assert_eq!(handler.state(), &State::Idle);
}
