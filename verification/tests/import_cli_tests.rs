use chirp::cli::{
    add_task, done_lines, export_records, list_name, list_summaries, parse_command, AddError, Command, DaemonCommand,
};
use chirp::db::Database;
use chirp::app::rank_matches;
use chirp::import::{
    default_list, due_from_parses, format_of_lower, import_due, import_format, import_tasks, Format, ImportTask,
};

fn args(v: &[&str]) -> Vec<String> {
    v.iter().map(|s| s.to_string()).collect()
}

#[test]
fn default_list_is_inbox() {
    assert_eq!(default_list(), "Inbox");
}

#[test]
fn import_formats() {
    assert_eq!(import_format("json"), Ok(Format::Json));
    assert_eq!(import_format("CSV"), Ok(Format::Csv));
    assert_eq!(
        import_format("TXT"),
        Err("Unsupported file format '.txt'. Use .json or .csv".to_string())
    );
    assert_eq!(import_format(""), Err("Unsupported file format '.'. Use .json or .csv".to_string()));
}

#[test]
fn import_due_times() {
    assert_eq!(import_due("2024-01-02T03:04:05Z"), Some(1704164645000));
    assert_eq!(import_due("2024-01-02T03:04:05+01:00"), Some(1704161045000));
    assert!(import_due("tomorrow 5pm").is_some());
    assert_eq!(import_due("nothing at all"), None);
}

#[test]
fn import_records() {
    let mut db = Database::in_memory();
    let recs = vec![
        ImportTask {
            content: "a".to_string(),
            list: "Inbox".to_string(),
            priority: Some(2),
            due: None,
            ping: Some("30m".to_string()),
            recurrence: Some("weekly".to_string()),
        },
        ImportTask {
            content: "b".to_string(),
            list: "work".to_string(),
            priority: Some(7),
            due: Some("2024-01-02T03:04:05Z".to_string()),
            ping: Some("bad".to_string()),
            recurrence: Some("yearly".to_string()),
        },
        ImportTask {
            content: "c".to_string(),
            list: "WORK".to_string(),
            priority: None,
            due: None,
            ping: None,
            recurrence: None,
        },
    ];
    assert_eq!(import_tasks(&mut db, &recs), 3);
    let lists = db.get_all_lists();
    assert_eq!(lists.len(), 2);
    assert_eq!(lists[1].name, "work");
    let all = db.get_all_tasks();
    let a = all.iter().find(|t| t.content == "a").unwrap();
    assert_eq!(a.priority, Some(2));
    assert_eq!(a.ping_interval, Some(30));
    assert_eq!(a.recurrence.as_deref(), Some("weekly"));
    assert_eq!(a.list_id, lists[0].id);
    let b = all.iter().find(|t| t.content == "b").unwrap();
    assert_eq!(b.priority, None);
    assert_eq!(b.ping_interval, None);
    assert_eq!(b.recurrence, None);
    assert_eq!(b.due_at, Some(1704164645000));
    let c = all.iter().find(|t| t.content == "c").unwrap();
    assert_eq!(c.list_id, lists[1].id);
}

#[test]
fn commands() {
    assert_eq!(parse_command(&args(&["chirp"])), Command::Tui { list: None });
    assert_eq!(parse_command(&args(&["chirp", "--list", "Work"])), Command::Tui { list: Some("Work".to_string()) });
    assert_eq!(parse_command(&args(&["chirp", "--list"])), Command::MissingListName);
    assert_eq!(parse_command(&args(&["chirp", "daemon"])), Command::Daemon(DaemonCommand::Start));
    assert_eq!(parse_command(&args(&["chirp", "daemon", "stop"])), Command::Daemon(DaemonCommand::Stop));
    assert_eq!(
        parse_command(&args(&["chirp", "daemon", "zap"])),
        Command::Daemon(DaemonCommand::Unknown("zap".to_string()))
    );
    assert_eq!(parse_command(&args(&["chirp", "list", "--json"])), Command::ListLists { json: true });
    assert_eq!(parse_command(&args(&["chirp", "done"])), Command::Done { json: false });
    assert_eq!(parse_command(&args(&["chirp", "--import"])), Command::Import(None));
    assert_eq!(parse_command(&args(&["chirp", "-h"])), Command::Help);
    assert_eq!(parse_command(&args(&["chirp", "export"])), Command::Export);
    assert_eq!(parse_command(&args(&["chirp", "add", "x"])), Command::Add);
}

#[test]
fn add_from_command_line() {
    let mut db = Database::in_memory();
    let msg = add_task(&mut db, &args(&["chirp", "add", "buy", "milk", "p1"])).unwrap();
    assert_eq!(msg, "Added to Inbox: buy milk");
    let msg2 = add_task(&mut db, &args(&["chirp", "add", "--list", "Work", "email", "bob"])).unwrap();
    assert_eq!(msg2, "Added to Work: email bob");
    assert_eq!(db.get_all_lists().len(), 2);
    assert_eq!(add_task(&mut db, &args(&["chirp", "add"])), Err(AddError::EmptyText));
    assert_eq!(add_task(&mut db, &args(&["chirp", "add", "x", "--list"])), Err(AddError::MissingListName));
    let all = db.get_all_tasks();
    assert_eq!(all.len(), 2);
    assert!(all.iter().any(|t| t.content == "buy milk" && t.priority == Some(1)));
}

#[test]
fn export_and_list() {
    let mut db = Database::in_memory();
    let lid = db.get_all_lists()[0].id.clone();
    db.create_task(&lid, "one", None, Some(90), Some(2), Some("daily"));
    db.create_task(&lid, "two", None, None, None, None);
    let recs = export_records(&db);
    assert_eq!(recs.len(), 2);
    assert_eq!(recs[0].content, "one");
    assert_eq!(recs[0].list, "Inbox");
    assert_eq!(recs[0].ping.as_deref(), Some("1h30m"));
    assert_eq!(recs[0].priority, Some(2));
    assert_eq!(recs[1].content, "two");
    assert_eq!(recs[1].ping, None);
    let sums = list_summaries(&db);
    assert_eq!(sums.len(), 1);
    assert_eq!(sums[0].name, "Inbox");
    assert_eq!((sums[0].pending, sums[0].total), (2, 2));
}

#[test]
fn format_from_lower_case_extension() {
    assert_eq!(format_of_lower("json"), Ok(Format::Json));
    assert_eq!(format_of_lower("csv"), Ok(Format::Csv));
    assert_eq!(format_of_lower("JSON"), Err("Unsupported file format '.JSON'. Use .json or .csv".to_string()));
    assert_eq!(format_of_lower(""), Err("Unsupported file format '.'. Use .json or .csv".to_string()));
}

#[test]
fn due_from_parser_results() {
    assert_eq!(due_from_parses("whatever", Some(5), Some(7)), Some(5));
    assert_eq!(due_from_parses("whatever", None, Some(7)), Some(7));
    assert_eq!(due_from_parses("no date here", None, None), None);
    assert!(due_from_parses("tomorrow 5pm", None, None).is_some());
}

#[test]
fn ranking_by_score() {
    assert_eq!(rank_matches(&vec![]), Vec::<usize>::new());
    assert_eq!(rank_matches(&vec![None, Some(3), Some(9), None, Some(3)]), vec![2, 1, 4]);
    assert_eq!(rank_matches(&vec![Some(-1), Some(0)]), vec![1, 0]);
}

#[test]
fn done_report_lines() {
    let db = Database::in_memory();
    let inbox = db.lists[0].id.clone();
    assert_eq!(done_lines(&db, &vec![]), vec!["  nothing completed today".to_string()]);
    let done = vec![("pay rent".to_string(), inbox.clone()), ("walk".to_string(), "gone".to_string())];
    assert_eq!(
        done_lines(&db, &done),
        vec![
            "  completed today (2):".to_string(),
            "  \u{2713} pay rent  [Inbox]".to_string(),
            "  \u{2713} walk  [?]".to_string(),
        ]
    );
    assert_eq!(list_name(&db.lists, &inbox), "Inbox");
    assert_eq!(list_name(&db.lists, "nope"), "?");
}
