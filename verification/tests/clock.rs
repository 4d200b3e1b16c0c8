use timesheet::timesheet::{ClockOutcome, Timesheet, TimesheetEntry};

fn entry(time_in: &str, time_out: &str, message: &str) -> TimesheetEntry {
    TimesheetEntry {
        time_in: time_in.to_string(),
        time_out: time_out.to_string(),
        message: message.to_string(),
    }
}

fn closed_count(store: &Timesheet) -> usize {
    store.entries().iter().filter(|e| !e.time_out.is_empty()).count()
}

#[test]
fn new_store_is_clocked_out() {
    let mut store = Timesheet::new();
    assert!(!store.is_clocked_in());
    assert!(store.is_clocked_out());
    assert_eq!(store.entries().len(), 0);
    assert!(store.is_well_formed());
}

#[test]
fn clock_in_opens_first_entry_with_prefix() {
    let mut store = Timesheet::new();
    let outcome = store.clock_in_at("2024-01-01T10:00:00+00:00", &"write report".to_string());
    assert_eq!(outcome, ClockOutcome::OpenedFirst);
    assert!(store.is_clocked_in());
    assert_eq!(
        store.entries(),
        &vec![entry("2024-01-01T10:00:00+00:00", "", "IN: write report")]
    );
}

#[test]
fn clock_in_with_empty_message_gives_bare_prefix() {
    let mut store = Timesheet::new();
    store.clock_in_at("2024-01-01T10:00:00+00:00", &String::new());
    assert_eq!(store.entries()[0].message, "IN: ");
}

#[test]
fn clock_in_after_closed_entry_opens_new() {
    let mut store = Timesheet::from_entries(vec![entry("a", "b", "IN: x")]);
    let outcome = store.clock_in_at("c", &"y".to_string());
    assert_eq!(outcome, ClockOutcome::OpenedNew);
    assert_eq!(store.entries().len(), 2);
    assert_eq!(store.entries()[1], entry("c", "", "IN: y"));
    assert_eq!(store.entries()[0], entry("a", "b", "IN: x"));
}

#[test]
fn clock_in_twice_second_is_noop() {
    let mut store = Timesheet::new();
    store.clock_in_at("t1", &"one".to_string());
    let before = store.clone();
    let outcome = store.clock_in_at("t2", &"two".to_string());
    assert_eq!(outcome, ClockOutcome::AlreadyClockedIn);
    assert_eq!(store, before);
    let open = store.entries().iter().filter(|e| e.time_out.is_empty()).count();
    assert_eq!(open, 1);
}

#[test]
fn clock_out_on_empty_store_changes_nothing() {
    let mut store = Timesheet::new();
    let outcome = store.clock_out_at("t", &"m".to_string());
    assert_eq!(outcome, ClockOutcome::NotClockedIn);
    assert_eq!(store.entries().len(), 0);
}

#[test]
fn clock_out_on_closed_store_changes_nothing() {
    let mut store = Timesheet::from_entries(vec![entry("a", "b", "IN: x")]);
    let before = store.clone();
    let outcome = store.clock_out_at("t", &"m".to_string());
    assert_eq!(outcome, ClockOutcome::NotClockedIn);
    assert_eq!(store, before);
}

#[test]
fn clock_out_appends_out_message() {
    let mut store = Timesheet::new();
    store.clock_in_at("t1", &"start".to_string());
    let outcome = store.clock_out_at("t2", &"done".to_string());
    assert_eq!(outcome, ClockOutcome::Closed);
    assert_eq!(store.entries(), &vec![entry("t1", "t2", "IN: start | OUT: done")]);
    assert!(store.is_clocked_out());
}

#[test]
fn clock_out_with_empty_message_keeps_message() {
    let mut store = Timesheet::new();
    store.clock_in_at("t1", &"start".to_string());
    store.clock_out_at("t2", &String::new());
    assert_eq!(store.entries(), &vec![entry("t1", "t2", "IN: start")]);
}

#[test]
fn clock_out_sets_message_verbatim_when_entry_had_none() {
    let mut store = Timesheet::from_entries(vec![entry("t1", "", "")]);
    store.clock_out_at("t2", &"done".to_string());
    assert_eq!(store.entries(), &vec![entry("t1", "t2", "done")]);
}

#[test]
fn clock_in_then_out_adds_one_closed_entry() {
    let mut store = Timesheet::from_entries(vec![entry("a", "b", "IN: x")]);
    let before = closed_count(&store);
    store.clock_in_at("c", &"y".to_string());
    store.clock_out_at("d", &"z".to_string());
    assert!(store.is_clocked_out());
    assert_eq!(closed_count(&store), before + 1);
    assert_eq!(store.entries().len(), 2);
}

#[test]
fn clock_in_then_out_on_open_store_closes_open_entry() {
    let mut store = Timesheet::from_entries(vec![entry("a", "", "IN: x")]);
    let before = closed_count(&store);
    store.clock_in_at("c", &"y".to_string());
    store.clock_out_at("d", &String::new());
    assert!(store.is_clocked_out());
    assert_eq!(closed_count(&store), before + 1);
    assert_eq!(store.entries().len(), 1);
}

#[test]
fn clock_toggles_between_states() {
    let mut store = Timesheet::new();
    assert_eq!(store.clock_at("t1", &"a".to_string()), ClockOutcome::OpenedFirst);
    assert!(store.is_clocked_in());
    assert_eq!(store.clock_at("t2", &"b".to_string()), ClockOutcome::Closed);
    assert!(store.is_clocked_out());
    assert_eq!(store.clock_at("t3", &"c".to_string()), ClockOutcome::OpenedNew);
    assert_eq!(store.entries().len(), 2);
}

#[test]
fn well_formedness_is_checked() {
    assert!(Timesheet::from_entries(vec![entry("a", "b", ""), entry("c", "", "")]).is_well_formed());
    assert!(!Timesheet::from_entries(vec![entry("a", "", ""), entry("c", "d", "")]).is_well_formed());
    assert!(!Timesheet::from_entries(vec![entry("", "b", "")]).is_well_formed());
}

#[test]
fn clock_in_with_machine_time_records_readable_time() {
    let mut store = Timesheet::new();
    let outcome = store.clock_in(&"now".to_string());
    assert_eq!(outcome, ClockOutcome::OpenedFirst);
    assert!(store.is_clocked_in());
    let time_in = store.entries()[0].time_in.clone();
    assert!(!time_in.is_empty());
    assert!(chrono::DateTime::parse_from_rfc3339(&time_in).is_ok());
    assert_eq!(store.entries()[0].message, "IN: now");
}

#[test]
fn clock_out_with_machine_time_closes_entry() {
    let mut store = Timesheet::new();
    store.clock_in(&String::new());
    let outcome = store.clock_out(&"bye".to_string());
    assert_eq!(outcome, ClockOutcome::Closed);
    assert!(store.is_clocked_out());
    assert!(chrono::DateTime::parse_from_rfc3339(&store.entries()[0].time_out).is_ok());
    assert_eq!(store.entries()[0].message, "IN:  | OUT: bye");
    assert!(store.is_well_formed());
}

#[test]
fn clock_with_machine_time_toggles() {
    let mut store = Timesheet::new();
    assert_eq!(store.clock(&"a".to_string()), ClockOutcome::OpenedFirst);
    assert_eq!(store.clock(&"b".to_string()), ClockOutcome::Closed);
    assert_eq!(store.entries().len(), 1);
}
