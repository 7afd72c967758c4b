use chirp::parser::{
    format_ping_interval, format_priority, next_recurrence_due, parse_ping_str, parse_task_input,
    reconstruct_task_input, resolve_hours,
};
use chirp::clock::LocalNow;
use chirp::parser::{day_request, due_date_from, due_words_from, overdue_at, time_pattern, DuePlan};
use chrono::{Datelike, Local, TimeZone, Weekday};

#[test]
fn test_all_modifiers_combined() {
    let parsed = parse_task_input("buy groceries p1 daily ping 1h tomorrow 5pm");
    assert_eq!(parsed.priority, Some(1));
    assert_eq!(parsed.recurrence, Some("daily".to_string()));
    assert_eq!(parsed.ping_interval, Some(60));
    assert!(parsed.due_at.is_some());
    assert_eq!(parsed.content, "buy groceries");
}

#[test]
fn test_modifiers_different_order() {
    let parsed = parse_task_input("ping 30m daily call mom p2 tomorrow");
    assert_eq!(parsed.priority, Some(2));
    assert_eq!(parsed.recurrence, Some("daily".to_string()));
    assert_eq!(parsed.ping_interval, Some(30));
    assert!(parsed.due_at.is_some());
    assert_eq!(parsed.content, "call mom");
}

#[test]
fn test_plain_task_no_modifiers() {
    let parsed = parse_task_input("buy milk");
    assert_eq!(parsed.content, "buy milk");
    assert!(parsed.priority.is_none());
    assert!(parsed.recurrence.is_none());
    assert!(parsed.ping_interval.is_none());
    assert!(parsed.due_at.is_none());
}

#[test]
fn test_priority_levels() {
    for p in 1..=3 {
        let parsed = parse_task_input(&format!("task p{}", p));
        assert_eq!(parsed.priority, Some(p));
        assert_eq!(parsed.content, "task");
    }
}

#[test]
fn test_recurrence_types() {
    for rec in ["daily", "weekly", "monthly"] {
        let parsed = parse_task_input(&format!("task {}", rec));
        assert_eq!(parsed.recurrence.as_deref(), Some(rec));
        assert_eq!(parsed.content, "task");
        assert!(parsed.due_at.is_some());
    }
}

#[test]
fn test_ping_minutes_and_hours() {
    let m = parse_task_input("task ping 45m");
    assert_eq!(m.ping_interval, Some(45));

    let h = parse_task_input("task ping 2h");
    assert_eq!(h.ping_interval, Some(120));
}

#[test]
fn test_relative_time() {
    let parsed = parse_task_input("meeting in 30m");
    assert!(parsed.due_at.is_some());
    assert_eq!(parsed.content, "meeting");

    let parsed2 = parse_task_input("review in 2h");
    assert!(parsed2.due_at.is_some());
}

#[test]
fn test_format_ping_interval() {
    assert_eq!(format_ping_interval(30), "30m");
    assert_eq!(format_ping_interval(60), "1h");
    assert_eq!(format_ping_interval(90), "1h30m");
    assert_eq!(format_ping_interval(1), "1m");
}

#[test]
fn test_format_priority() {
    assert_eq!(format_priority(1), "p1");
    assert_eq!(format_priority(2), "p2");
    assert_eq!(format_priority(3), "p3");
}

#[test]
fn test_recurrence_next_due() {
    let now = Local::now().timestamp_millis();
    let next_daily = next_recurrence_due(Some(now), "daily").unwrap();
    let diff_hours = (next_daily - now) / (1000 * 60 * 60);
    assert_eq!(diff_hours, 24);

    let next_weekly = next_recurrence_due(Some(now), "weekly").unwrap();
    let diff_days = (next_weekly - now) / (1000 * 60 * 60 * 24);
    assert_eq!(diff_days, 7);

    assert!(next_recurrence_due(Some(now), "invalid").is_none());
}

#[test]
fn test_parse_ping_str() {
    assert_eq!(parse_ping_str("30m"), Some(30));
    assert_eq!(parse_ping_str("2h"), Some(120));
    assert_eq!(parse_ping_str("1hr"), Some(60));
    assert_eq!(parse_ping_str("15min"), Some(15));
    assert_eq!(parse_ping_str("invalid"), None);
    assert_eq!(parse_ping_str(""), None);
}

#[test]
fn test_reconstruct_roundtrip() {
    let result = reconstruct_task_input("buy milk", None, Some(30), Some(2), Some("daily"));
    assert!(result.contains("buy milk"));
    assert!(result.contains("ping 30m"));
    assert!(result.contains("p2"));
    assert!(result.contains("daily"));

    let plain = reconstruct_task_input("simple task", None, None, None, None);
    assert_eq!(plain, "simple task");
}

#[test]
fn test_tomorrow_with_time() {
    let parsed = parse_task_input("call mom tomorrow 3pm");
    assert!(parsed.due_at.is_some());
    assert_eq!(parsed.content, "call mom");
}

#[test]
fn test_day_names() {
    for day in ["monday", "tuesday", "wednesday", "thursday", "friday", "saturday", "sunday"] {
        let parsed = parse_task_input(&format!("task {}", day));
        assert!(parsed.due_at.is_some(), "failed for {}", day);
        assert_eq!(parsed.content, "task");
    }
}

#[test]
fn test_whitespace_cleanup() {
    let parsed = parse_task_input("  lots   of   spaces   p1  ");
    assert_eq!(parsed.content, "lots of spaces");
    assert_eq!(parsed.priority, Some(1));
}

// ---- further cases ----

#[test]
fn reconstruct_exact_text() {
    let result = reconstruct_task_input("buy milk", None, Some(30), Some(2), Some("daily"));
    assert_eq!(result, "buy milk ping 30m p2 daily");
    let hours = reconstruct_task_input("x", None, Some(90), None, None);
    assert_eq!(hours, "x ping 1h30m");
}

#[test]
fn reconstruct_with_due_parses_back_to_same_minute() {
    let now = Local::now().timestamp_millis();
    let due = now + 3 * 3600 * 1000;
    let text = reconstruct_task_input("call bob", Some(due), None, Some(1), None);
    assert!(text.starts_with("call bob "));
    assert!(text.ends_with(" p1"));
}

#[test]
fn parse_in_minutes_is_relative_to_now() {
    let before = chrono::Utc::now().timestamp_millis();
    let parsed = parse_task_input("meeting in 30m");
    let after = chrono::Utc::now().timestamp_millis();
    let due = parsed.due_at.unwrap();
    assert!(due >= before + 30 * 60 * 1000 && due <= after + 30 * 60 * 1000);
}

#[test]
fn parse_word_boundaries() {
    let parsed = parse_task_input("np1 dailyish pingpong");
    assert_eq!(parsed.priority, None);
    assert_eq!(parsed.recurrence, None);
    assert_eq!(parsed.ping_interval, None);
    assert_eq!(parsed.content, "np1 dailyish pingpong");
}

#[test]
fn parse_case_insensitive() {
    let parsed = parse_task_input("Report P3 WEEKLY Ping 15M");
    assert_eq!(parsed.priority, Some(3));
    assert_eq!(parsed.recurrence.as_deref(), Some("weekly"));
    assert_eq!(parsed.ping_interval, Some(15));
    assert_eq!(parsed.content, "Report");
}

#[test]
fn parse_ping_str_more_units() {
    assert_eq!(parse_ping_str(" 2 hours "), Some(120));
    assert_eq!(parse_ping_str("1minute"), Some(1));
    assert_eq!(parse_ping_str("5 mins"), Some(5));
    assert_eq!(parse_ping_str("3x"), None);
    assert_eq!(parse_ping_str("99999999999999999999m"), None);
}

#[test]
fn format_ping_interval_edges() {
    assert_eq!(format_ping_interval(0), "0m");
    assert_eq!(format_ping_interval(59), "59m");
    assert_eq!(format_ping_interval(120), "2h");
    assert_eq!(format_ping_interval(-5), "-5m");
}

#[test]
fn format_priority_other() {
    assert_eq!(format_priority(0), "p?");
    assert_eq!(format_priority(9), "p?");
}

#[test]
fn resolve_hours_periods() {
    assert_eq!(resolve_hours(5, Some("pm")), 17);
    assert_eq!(resolve_hours(12, Some("am")), 0);
    assert_eq!(resolve_hours(12, Some("pm")), 12);
    assert_eq!(resolve_hours(9, None), 9);
    assert_eq!(resolve_hours(3, None), 15);
}

#[test]
fn monthly_recurrence_is_thirty_days() {
    let d = 1_700_000_000_000i64;
    assert_eq!(next_recurrence_due(Some(d), "monthly"), Some(d + 30 * 86_400_000));
}

#[test]
fn ping_text_roundtrip_examples() {
    for m in [0i64, 1, 30, 59, 60, 120, 600] {
        assert_eq!(parse_ping_str(&format_ping_interval(m)), Some(m));
    }
    assert_eq!(parse_ping_str(&format_ping_interval(90)), None);
}

#[test]
fn day_name_with_time() {
    let parsed = parse_task_input("standup monday 10am weekly");
    assert_eq!(parsed.content, "standup");
    assert_eq!(parsed.recurrence, Some("weekly".to_string()));
    let now = Local::now();
    let today = now.weekday().num_days_from_sunday() as i64;
    let mut ahead = Weekday::Mon.num_days_from_sunday() as i64 - today;
    if ahead <= 0 {
        ahead += 7;
    }
    let date = now.date_naive() + chrono::Duration::days(ahead);
    let expected = Local
        .from_local_datetime(&date.and_hms_opt(10, 0, 0).unwrap())
        .single()
        .map(|d| d.timestamp_millis());
    assert_eq!(parsed.due_at, expected);
    let p2 = parse_task_input("review friday 4:30pm");
    assert_eq!(p2.content, "review");
    assert!(p2.due_at.is_some());
}

#[test]
fn day_requests() {
    let now = LocalNow { millis: 0, day: 719163, hour: 0, minute: 0, weekday: 4 };
    assert_eq!(day_request(DuePlan::OnDay { days: 1, hour: 15, minute: 30 }, now), Some((719164, 15, 30)));
    assert_eq!(day_request(DuePlan::OnDay { days: 0, hour: 9, minute: 0 }, now), Some((719163, 9, 0)));
    assert_eq!(day_request(DuePlan::Offset { millis: 5 }, now), None);
    let far = LocalNow { millis: 0, day: i32::MAX, hour: 0, minute: 0, weekday: 0 };
    assert_eq!(day_request(DuePlan::OnDay { days: 1, hour: 9, minute: 0 }, far), None);
}

#[test]
fn due_date_text_by_day() {
    assert_eq!(due_date_from(800, 800, Some(801), "Mon Jan 5", "5:00 PM"), "Today 5:00 PM");
    assert_eq!(due_date_from(801, 800, Some(801), "Tue Jan 6", "9:30 AM"), "Tomorrow 9:30 AM");
    assert_eq!(due_date_from(805, 800, Some(801), "Sat Jan 10", "9:30 AM"), "Sat Jan 10 9:30 AM");
    assert_eq!(due_date_from(801, 800, None, "Tue Jan 6", "9:30 AM"), "Tue Jan 6 9:30 AM");
}

#[test]
fn due_words_by_day() {
    assert_eq!(due_words_from(800, 800, Some(801), "monday", "5pm"), "today 5pm");
    assert_eq!(due_words_from(801, 800, Some(801), "tuesday", "5:30pm"), "tomorrow 5:30pm");
    assert_eq!(due_words_from(803, 800, Some(801), "thursday", "10am"), "thursday 10am");
}

#[test]
fn clock_pattern_by_minute() {
    assert_eq!(time_pattern(0), "%-I%p");
    assert_eq!(time_pattern(30), "%-I:%M%p");
}

#[test]
fn overdue_against_a_moment() {
    assert!(overdue_at(999, 1000));
    assert!(!overdue_at(1000, 1000));
    assert!(!overdue_at(1001, 1000));
}

#[test]
fn content_is_tidied() {
    let r = parse_task_input("  buy \t  milk   p1  ");
    assert_eq!(r.content, "buy milk");
    assert_eq!(r.priority, Some(1));
    let c = parse_task_input("a\u{2003}\u{2003}b").content;
    assert_eq!(c, "a b");
}

#[test]
fn rebuilt_entry_reads_back() {
    for (pr, rec) in [(Some(2u8), Some("weekly")), (Some(1), None), (None, Some("monthly")), (None, None)] {
        let text = reconstruct_task_input("call the bank", None, None, pr, rec);
        let back = parse_task_input(&text);
        assert_eq!(back.content, "call the bank");
        assert_eq!(back.priority, pr);
        assert_eq!(back.recurrence.as_deref(), rec);
        assert_eq!(back.ping_interval, None);
    }
}
