use maconomy_cli::day::{Day, Days};
use maconomy_cli::document::{
    Card, CardData, CardMeta, CardRecord, Link, Meta, Panes, Table, TableData, TableMeta,
    TableRecord, TimeRegistration,
};
use maconomy_cli::line_number::LineNumber;
use maconomy_cli::protocol::{
    classify_row_creation, Event, RepoError, Request, RowCreationReading,
};
use maconomy_cli::errors::ErrorStack;
use maconomy_cli::repository::{StepResult, TimeSheetRepository};
use maconomy_cli::service::{set_time_error_from, SetTimeError, TimeSheetService};
use maconomy_cli::search::{first_job_number, Jobs, Record, Tasks};
use maconomy_cli::session::{
    authorization_header_value, cookie_header_value, AuthCookie, SendDecision, SendFlow,
};
use maconomy_cli::time_sheet::sheet_from_registration;
use maconomy_cli::week::{WeekNumber, WeekPart};

fn record(job_name: &str, task_name: &str) -> TableRecord {
    TableRecord {
        data: TableData {
            jobnumber: "1001".to_string(),
            numberday1: 0,
            numberday2: 0,
            numberday3: 0,
            numberday4: 0,
            numberday5: 0,
            numberday6: 0,
            numberday7: 0,
            entrytext: String::new(),
            taskname: "T1".to_string(),
            approvalstatus: "open".to_string(),
            instancekey: "k".to_string(),
            timeregistrationunit: "hours".to_string(),
            jobnamevar: job_name.to_string(),
            tasktextvar: task_name.to_string(),
        },
    }
}

fn document(lines: Vec<TableRecord>, needs_init: bool) -> TimeRegistration {
    let links = if needs_init {
        vec![Link { rel: "action:createtimesheet".to_string(), href: "/create".to_string() }]
    } else {
        Vec::new()
    };
    TimeRegistration {
        meta: Meta { container_instance_id: "ci-1".to_string() },
        panes: Panes {
            card: Card {
                meta: CardMeta { pane_name: "card".to_string(), row_count: 1, row_offset: 0 },
                links,
                records: vec![CardRecord {
                    data: CardData {
                        employeenumber: "e1".to_string(),
                        periodstartvar: "2024-11-11".to_string(),
                        periodendvar: "2024-11-17".to_string(),
                        employeenamevar: "Employee".to_string(),
                        datevar: "2024-11-11".to_string(),
                        weeknumbervar: 46,
                        partvar: String::new(),
                    },
                }],
            },
            table: Table {
                meta: TableMeta { pane_name: "table".to_string(), row_count: 0, row_offset: 0 },
                records: lines,
            },
        },
    }
}

fn task_record(short: &str, long: &str) -> Record<Tasks> {
    Record {
        data: Tasks {
            taskname: short.to_string(),
            tasklist: "list".to_string(),
            description: long.to_string(),
        },
    }
}

fn week46() -> WeekNumber {
    WeekNumber::new(46, WeekPart::Whole, 2024).unwrap()
}

fn monday() -> Days {
    let mut d = Days::empty();
    d.insert(Day::Monday);
    d
}

fn request_token(r: &StepResult) -> Option<String> {
    match r {
        StepResult::Issue(q) => match q {
            Request::AdvanceWeek { instance, .. }
            | Request::CreateTimesheet { instance }
            | Request::CreateRow { instance, .. }
            | Request::SetField { instance, .. }
            | Request::DeleteRow { instance, .. }
            | Request::Submit { instance } => Some(instance.concurrency_control.0.clone()),
            _ => None,
        },
        _ => None,
    }
}

// A session that receives 401 once reauthenticates and then succeeds.
#[test]
fn session_retries_once_after_unauthorized() {
    let mut flow = SendFlow::begin();
    assert_eq!(flow.on_status(401), SendDecision::Reauthenticate);
    assert!(!flow.done);
    assert_eq!(flow.on_status(200), SendDecision::Accept);
    assert!(flow.done);
}

// A session that receives 401 twice in a row fails fatally, with no
// third attempt possible.
#[test]
fn session_fails_fatally_on_second_unauthorized() {
    let mut flow = SendFlow::begin();
    assert_eq!(flow.on_status(401), SendDecision::Reauthenticate);
    assert_eq!(flow.on_status(401), SendDecision::FatalAuthFailure);
    assert!(flow.done);
}

#[test]
fn session_accepts_any_other_status_at_once() {
    let mut flow = SendFlow::begin();
    assert_eq!(flow.on_status(500), SendDecision::Accept);
    assert!(flow.done);
}

#[test]
fn cookie_headers_carry_name_and_value() {
    let c = AuthCookie { name: "Maconomy-X".to_string(), value: "secret".to_string() };
    assert_eq!(cookie_header_value(&c), "Maconomy-X=secret");
    assert_eq!(authorization_header_value(&c), "X-Cookie Maconomy-X");
}

// Setting hours on a (job, task) pair with no existing line triggers
// exactly one row-creation call before the field-set call, and the
// concurrency token of every request is the one the previous response
// returned.
#[test]
fn missing_line_is_created_exactly_once() {
    let mut repo = TimeSheetRepository::new();
    let r = repo.start_set_time(480, &monday(), week46(), "Job One".to_string(), "Task One".to_string());
    assert!(matches!(r, StepResult::Issue(Request::AcquireInstance)));

    let r = repo.on_event(Event::Acquired { instance_id: "ci-1".to_string(), token: "t1".to_string() });
    assert!(matches!(r, StepResult::Issue(Request::AdvanceWeek { .. })));
    assert_eq!(request_token(&r).unwrap(), "t1");

    // The fetched sheet has no line for the job and task.
    let r = repo.on_event(Event::Doc { doc: document(vec![record("Other", "Task")], false), token: "t2".to_string() });
    let query = match &r {
        StepResult::Issue(Request::SearchJob { query }) => query.clone(),
        other => panic!("expected a job search, got {:?}", std::mem::discriminant(other)),
    };
    assert_eq!(query, "Job One");

    let r = repo.on_event(Event::JobFound { job_number: Some("1001".to_string()) });
    match &r {
        StepResult::Issue(Request::SearchTasks { job_number }) => assert_eq!(job_number, "1001"),
        _ => panic!("expected a task search"),
    }

    let r = repo.on_event(Event::TasksFound {
        records: vec![task_record("T1", "Some other task"), task_record("T2", "Task One")],
    });
    match &r {
        StepResult::Issue(Request::CreateRow { job_number, task_name, instance }) => {
            assert_eq!(job_number, "1001");
            // The short name of the matching long name, not the long name.
            assert_eq!(task_name, "T2");
            assert_eq!(instance.concurrency_control.0, "t2");
        },
        _ => panic!("expected a row creation"),
    }
    assert_eq!(repo.created_rows, 1);

    // The creation's document now holds the line; exactly one creation
    // happened before the field write.
    let r = repo.on_event(Event::Doc {
        doc: document(vec![record("Other", "Task"), record("Job One", "Task One")], false),
        token: "t3".to_string(),
    });
    match &r {
        StepResult::Issue(Request::SetField { row, minutes, days, instance }) => {
            assert_eq!(*row, 1);
            assert_eq!(*minutes, 480);
            assert_eq!(days.as_slice(), &[Day::Monday]);
            assert_eq!(instance.concurrency_control.0, "t3");
        },
        _ => panic!("expected the field write"),
    }
    assert_eq!(repo.created_rows, 1);

    let r = repo.on_event(Event::TokenOnly { token: "t4".to_string() });
    assert!(matches!(r, StepResult::Done));
}

// Setting hours when the target week is uninitialized triggers exactly
// one create-timesheet call before the row lookup.
#[test]
fn uninitialized_week_is_initialized_once_before_lookup() {
    let mut repo = TimeSheetRepository::new();
    let r = repo.start_set_time(240, &monday(), week46(), "Job One".to_string(), "Task One".to_string());
    assert!(matches!(r, StepResult::Issue(Request::AcquireInstance)));

    let r = repo.on_event(Event::Acquired { instance_id: "ci-1".to_string(), token: "t1".to_string() });
    assert!(matches!(r, StepResult::Issue(Request::AdvanceWeek { .. })));

    // The sheet demands initialization: one create-timesheet call comes
    // before any row lookup.
    let r = repo.on_event(Event::Doc { doc: document(vec![], true), token: "t2".to_string() });
    assert!(matches!(r, StepResult::Issue(Request::CreateTimesheet { .. })));
    assert_eq!(request_token(&r).unwrap(), "t2");
    assert_eq!(repo.created_sheets, 1);

    // After the action the sheet is refetched.
    let r = repo.on_event(Event::TokenOnly { token: "t3".to_string() });
    assert!(matches!(r, StepResult::Issue(Request::AdvanceWeek { .. })));
    assert_eq!(request_token(&r).unwrap(), "t3");

    // Now the line exists and the field write follows, with no second
    // initialization.
    let r = repo.on_event(Event::Doc {
        doc: document(vec![record("Job One", "Task One")], false),
        token: "t4".to_string(),
    });
    match &r {
        StepResult::Issue(Request::SetField { row, minutes, .. }) => {
            assert_eq!(*row, 0);
            assert_eq!(*minutes, 240);
        },
        _ => panic!("expected the field write"),
    }
    assert_eq!(repo.created_sheets, 1);
    assert_eq!(repo.created_rows, 0);
}

// Row creation reporting an uninitialized week is recovered from exactly
// once: initialize, retry the creation, and a second report is fatal.
#[test]
fn row_creation_retried_once_after_uninitialized_report() {
    let mut repo = TimeSheetRepository::new();
    repo.start_set_time(60, &monday(), week46(), "Job One".to_string(), "Task One".to_string());
    repo.on_event(Event::Acquired { instance_id: "ci-1".to_string(), token: "t1".to_string() });
    repo.on_event(Event::Doc { doc: document(vec![], false), token: "t2".to_string() });
    repo.on_event(Event::JobFound { job_number: Some("1001".to_string()) });
    let r = repo.on_event(Event::TasksFound { records: vec![task_record("T2", "Task One")] });
    assert!(matches!(r, StepResult::Issue(Request::CreateRow { .. })));
    assert_eq!(repo.created_rows, 1);

    // The creation reports the week uninitialized: initialize once.
    let r = repo.on_event(Event::RowRejectedUninitialized);
    assert!(matches!(r, StepResult::Issue(Request::CreateTimesheet { .. })));

    // Then the creation is retried exactly once.
    let r = repo.on_event(Event::TokenOnly { token: "t3".to_string() });
    match &r {
        StepResult::Issue(Request::CreateRow { job_number, task_name, .. }) => {
            assert_eq!(job_number, "1001");
            assert_eq!(task_name, "T2");
        },
        _ => panic!("expected the row creation to be retried"),
    }
    assert_eq!(repo.created_rows, 2);

    // A second report is fatal, not retried again.
    let r = repo.on_event(Event::RowRejectedUninitialized);
    assert!(matches!(r, StepResult::Fail(RepoError::Unknown(_))));
}

#[test]
fn unknown_job_and_task_surface_typed_errors() {
    let mut repo = TimeSheetRepository::new();
    repo.start_set_time(60, &monday(), week46(), "Nope".to_string(), "Task".to_string());
    repo.on_event(Event::Acquired { instance_id: "ci".to_string(), token: "t1".to_string() });
    repo.on_event(Event::Doc { doc: document(vec![], false), token: "t2".to_string() });
    let r = repo.on_event(Event::JobFound { job_number: None });
    match r {
        StepResult::Fail(RepoError::JobNotFound(name)) => assert_eq!(name, "Nope"),
        _ => panic!("expected the job-not-found error"),
    }

    let mut repo = TimeSheetRepository::new();
    repo.start_set_time(60, &monday(), week46(), "Job One".to_string(), "Task Two".to_string());
    repo.on_event(Event::Acquired { instance_id: "ci".to_string(), token: "t1".to_string() });
    repo.on_event(Event::Doc { doc: document(vec![], false), token: "t2".to_string() });
    repo.on_event(Event::JobFound { job_number: Some("1001".to_string()) });
    let r = repo.on_event(Event::TasksFound { records: vec![task_record("T1", "Task One")] });
    match r {
        StepResult::Fail(RepoError::TaskNotFound(name)) => assert_eq!(name, "Task Two"),
        _ => panic!("expected the task-not-found error"),
    }
}

// Deleting line "last" when the sheet has N lines deletes row index
// N - 1 on the wire.
#[test]
fn deleting_last_line_uses_final_row_index() {
    let mut repo = TimeSheetRepository::new();
    let r = repo.start_delete(LineNumber::Last, week46());
    assert!(matches!(r, StepResult::Issue(Request::AcquireInstance)));
    repo.on_event(Event::Acquired { instance_id: "ci".to_string(), token: "t1".to_string() });
    let r = repo.on_event(Event::Doc {
        doc: document(
            vec![record("A", "a"), record("B", "b"), record("C", "c")],
            false,
        ),
        token: "t2".to_string(),
    });
    match &r {
        StepResult::Issue(Request::DeleteRow { row, .. }) => assert_eq!(*row, 2),
        _ => panic!("expected the deletion"),
    }
    let r = repo.on_event(Event::Doc { doc: document(vec![record("A", "a"), record("B", "b")], false), token: "t3".to_string() });
    assert!(matches!(r, StepResult::Done));
}

#[test]
fn deleting_numbered_line_converts_to_zero_based_row() {
    let mut repo = TimeSheetRepository::new();
    repo.start_delete(LineNumber::Number(2), week46());
    repo.on_event(Event::Acquired { instance_id: "ci".to_string(), token: "t1".to_string() });
    let r = repo.on_event(Event::Doc { doc: document(vec![record("A", "a"), record("B", "b")], false), token: "t2".to_string() });
    match &r {
        StepResult::Issue(Request::DeleteRow { row, .. }) => assert_eq!(*row, 1),
        _ => panic!("expected the deletion"),
    }
}

// The concurrency-control token used in request K+1 is always the value
// returned by the response to request K, never an earlier one.
#[test]
fn token_threads_from_each_response_to_the_next_request() {
    let mut repo = TimeSheetRepository::new();
    repo.start_submit(week46());
    let r = repo.on_event(Event::Acquired { instance_id: "ci".to_string(), token: "first".to_string() });
    assert_eq!(request_token(&r).unwrap(), "first");
    let r = repo.on_event(Event::Doc { doc: document(vec![], false), token: "second".to_string() });
    assert!(matches!(r, StepResult::Issue(Request::Submit { .. })));
    assert_eq!(request_token(&r).unwrap(), "second");
    let r = repo.on_event(Event::TokenOnly { token: "third".to_string() });
    assert!(matches!(r, StepResult::Done));
}

#[test]
fn server_failure_carries_status_and_body() {
    let mut repo = TimeSheetRepository::new();
    repo.start_get(week46());
    let r = repo.on_event(Event::Failed { status: 503, body: "down".to_string() });
    match r {
        StepResult::Fail(RepoError::Unknown(stack)) => {
            assert_eq!(stack.message, "server responded with status 503");
            assert_eq!(stack.sources, vec!["down".to_string()]);
        },
        _ => panic!("expected the opaque failure"),
    }
}

// A cached sheet of the same week answers a get at once; a mutation
// invalidates it.
#[test]
fn sheet_cache_serves_repeat_get_and_is_invalidated_by_mutation() {
    let mut repo = TimeSheetRepository::new();
    repo.start_get(week46());
    repo.on_event(Event::Acquired { instance_id: "ci".to_string(), token: "t1".to_string() });
    let r = repo.on_event(Event::Doc { doc: document(vec![record("A", "a")], false), token: "t2".to_string() });
    let sheet = match r {
        StepResult::DoneSheet(s) => s,
        _ => panic!("expected the sheet"),
    };
    assert_eq!(sheet.lines.len(), 1);

    // The second get of the same week is answered from the cache.
    let r = repo.start_get(week46());
    assert!(matches!(r, StepResult::DoneSheet(_)));

    // A mutation invalidates the cache: the next get goes to the wire.
    repo.start_set_time(60, &monday(), week46(), "A".to_string(), "a".to_string());
    repo.on_event(Event::Doc { doc: document(vec![record("A", "a")], false), token: "t3".to_string() });
    let r = repo.on_event(Event::TokenOnly { token: "t4".to_string() });
    assert!(matches!(r, StepResult::Done));
    let r = repo.start_get(week46());
    assert!(matches!(r, StepResult::Issue(Request::AdvanceWeek { .. })));
}

// The uninitialized-week payload is recognized by its vendor prefix in
// the JSON error message, and by nothing else.
#[test]
fn uninitialized_week_payload_is_recognized_by_prefix() {
    let uninit = "{\"errorMessage\": \"Maconomy system error: no timesheet\"}";
    assert_eq!(classify_row_creation(409, uninit), RowCreationReading::Uninitialized);

    let other_error = "{\"errorMessage\": \"row out of range\"}";
    assert_eq!(classify_row_creation(409, other_error), RowCreationReading::Failure);

    // The prefix outside a JSON error message is not the signal.
    let not_json = "Maconomy system error: no timesheet";
    assert_eq!(classify_row_creation(409, not_json), RowCreationReading::Failure);

    let ok_body = "{\"meta\": {}}";
    assert_eq!(classify_row_creation(200, ok_body), RowCreationReading::Document);
    assert_eq!(classify_row_creation(500, ok_body), RowCreationReading::Failure);
}

// Line lookup matches job and task names case-insensitively (through
// real Unicode lowercasing).
#[test]
fn line_lookup_ignores_case() {
    let doc = document(vec![record("Job One", "Task One")], false);
    let sheet = sheet_from_registration(&doc, week46());
    assert_eq!(sheet.find_line_nr("JOB ONE", "task one"), Some(0));
    assert_eq!(sheet.find_line_nr("job one", "TASK ONE"), Some(0));
    assert_eq!(sheet.find_line_nr("job one", "task two"), None);
}

// Clearing is setting to zero: the service's clear drives the same flow
// with zero minutes.
#[test]
fn clearing_writes_zero_minutes() {
    let mut service = TimeSheetService::new(TimeSheetRepository::new());
    let r = service.clear(&monday(), week46(), "Job One".to_string(), "Task One".to_string());
    assert!(matches!(r, StepResult::Issue(Request::AcquireInstance)));
    service.on_event(Event::Acquired { instance_id: "ci".to_string(), token: "t1".to_string() });
    let r = service.on_event(Event::Doc {
        doc: document(vec![record("Job One", "Task One")], false),
        token: "t2".to_string(),
    });
    match &r {
        StepResult::Issue(Request::SetField { minutes, row, .. }) => {
            assert_eq!(*minutes, 0);
            assert_eq!(*row, 0);
        },
        _ => panic!("expected the field write"),
    }
}

#[test]
fn service_errors_map_variant_for_variant() {
    let e = set_time_error_from(RepoError::JobNotFound("j".to_string()));
    assert!(matches!(e, SetTimeError::JobNotFound(name) if name == "j"));
    let e = set_time_error_from(RepoError::TaskNotFound("t".to_string()));
    assert!(matches!(e, SetTimeError::TaskNotFound(name) if name == "t"));
    let e = set_time_error_from(RepoError::Unknown(ErrorStack {
        message: "m".to_string(),
        sources: vec![],
    }));
    assert!(matches!(e, SetTimeError::Unknown(stack) if stack.message == "m"));
}

// The job search resolves to the first record the server returned.
#[test]
fn job_search_resolves_to_first_record() {
    let records: Vec<Record<Jobs>> = vec![
        Record { data: Jobs { jobnumber: "1001".to_string() } },
        Record { data: Jobs { jobnumber: "2002".to_string() } },
    ];
    assert_eq!(first_job_number(&records), Some("1001".to_string()));
    assert_eq!(first_job_number(&Vec::new()), None);
}
