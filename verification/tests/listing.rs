use dirlist::calendar::MonthNames;
use dirlist::line::{render_line, EntryView};
use dirlist::listing::{react, run, Action, Event, Report, EXIT_FAILURE, EXIT_OK};

const UNREADABLE: &str = "Error: cannot read current directory";
const NO_WORKING_DIR: &str = "Error: cannot get current directory";

fn file(name: &str, size: u64) -> EntryView {
    EntryView {
        name: name.to_string(),
        is_directory: false,
        permission_bits: 0o644,
        size_bytes: size,
        owner_id: 0,
        owner_name: Some("root".to_string()),
        group_id: 0,
        group_name: Some("root".to_string()),
        modified_at: 0,
    }
}

fn line_of(entry: &EntryView) -> String {
    render_line(entry, &MonthNames::english()).unwrap()
}

#[test]
fn exit_codes() {
    assert_eq!(EXIT_OK, 0);
    assert_eq!(EXIT_FAILURE, 1);
}

#[test]
fn an_empty_directory_prints_nothing_and_exits_with_zero() {
    let report = run(&Vec::new(), &MonthNames::english());
    assert_eq!(report, Report { lines: Vec::new(), exit_code: 0 });
}

#[test]
fn an_unreadable_directory_exits_with_one_and_no_entry_line() {
    let report = run(&vec![Event::DirUnreadable], &MonthNames::english());
    assert_eq!(report.exit_code, 1);
    assert_eq!(report.lines, vec![UNREADABLE.to_string()]);
}

#[test]
fn an_unknown_working_directory_exits_with_one() {
    let report = run(&vec![Event::NoWorkingDir], &MonthNames::english());
    assert_eq!(report.exit_code, 1);
    assert_eq!(report.lines, vec![NO_WORKING_DIR.to_string()]);
}

#[test]
fn every_entry_gets_its_line_in_the_order_given() {
    let a = file("b.txt", 1);
    let b = file("a.txt", 2);
    let c = file("c.txt", 3);
    let events = vec![Event::Entry(a.clone()), Event::Entry(b.clone()), Event::Entry(c.clone())];
    let report = run(&events, &MonthNames::english());
    assert_eq!(report.exit_code, 0);
    assert_eq!(report.lines, vec![line_of(&a), line_of(&b), line_of(&c)]);
}

#[test]
fn a_failure_stops_the_listing_after_the_lines_before_it() {
    let a = file("a.txt", 1);
    let b = file("b.txt", 2);
    let events = vec![Event::Entry(a.clone()), Event::EntryUnreadable, Event::Entry(b)];
    let report = run(&events, &MonthNames::english());
    assert_eq!(report.exit_code, 1);
    assert_eq!(report.lines, vec![line_of(&a), UNREADABLE.to_string()]);
}

#[test]
fn only_the_first_failure_is_reported() {
    let events = vec![Event::EntryUnreadable, Event::NoWorkingDir, Event::DirUnreadable];
    let report = run(&events, &MonthNames::english());
    assert_eq!(report.exit_code, 1);
    assert_eq!(report.lines, vec![UNREADABLE.to_string()]);
}

#[test]
fn an_entry_without_a_date_stops_the_listing() {
    let a = file("a.txt", 1);
    let mut late = file("late.txt", 2);
    late.modified_at = i64::MAX;
    let events = vec![Event::Entry(a.clone()), Event::Entry(late), Event::Entry(file("z", 3))];
    let report = run(&events, &MonthNames::english());
    assert_eq!(report.exit_code, 1);
    assert_eq!(report.lines, vec![line_of(&a), UNREADABLE.to_string()]);
}

#[test]
fn react_prints_entries_and_fails_on_the_rest() {
    let english = MonthNames::english();
    let a = file("a.txt", 1);
    assert_eq!(react(&Event::Entry(a.clone()), &english), Action::Print(line_of(&a)));
    assert_eq!(react(&Event::NoWorkingDir, &english), Action::Fail(NO_WORKING_DIR.to_string()));
    assert_eq!(react(&Event::DirUnreadable, &english), Action::Fail(UNREADABLE.to_string()));
    assert_eq!(react(&Event::EntryUnreadable, &english), Action::Fail(UNREADABLE.to_string()));
    let mut late = a;
    late.modified_at = i64::MIN;
    assert_eq!(react(&Event::Entry(late), &english), Action::Fail(UNREADABLE.to_string()));
}

#[test]
fn run_agrees_with_reacting_to_each_event_in_turn() {
    let english = MonthNames::english();
    let events = vec![
        Event::Entry(file("one", 1)),
        Event::Entry(file("two", 22)),
        Event::DirUnreadable,
        Event::Entry(file("three", 333)),
    ];
    let mut lines = Vec::new();
    let mut code = 0;
    for event in &events {
        match react(event, &english) {
            Action::Print(line) => lines.push(line),
            Action::Fail(message) => {
                lines.push(message);
                code = 1;
                break;
            }
        }
    }
    assert_eq!(run(&events, &english), Report { lines, exit_code: code });
}
