use task_manager::calendar::{Date, UtcDateTime};
use task_manager::error::AppError;
use task_manager::status::Status;
use task_manager::task::{Listing, Task, TaskChanges, TaskManager};

fn day(year: i32, month: u32, day: u32) -> Date {
    Date::from_ymd(year, month, day).unwrap()
}

fn task(id: u32, due: Date, status: Status, categories: &[&str]) -> Task {
    Task {
        id,
        name: format!("task {id}"),
        description: String::new(),
        creation_date: UtcDateTime::new(day(2024, 12, 24), 3_600, 7).unwrap(),
        due_date: UtcDateTime::at_midnight(due),
        status,
        categories: categories.iter().map(|c| c.to_string()).collect(),
    }
}

fn ids(manager: &TaskManager) -> Vec<u32> {
    manager.tasks.iter().map(|t| t.id).collect()
}

fn listed(listing: Listing<'_>) -> Vec<u32> {
    match listing {
        Listing::Tasks(tasks) => tasks.iter().map(|t| t.id).collect(),
        other => panic!("{other:?}"),
    }
}

fn no_changes() -> TaskChanges {
    TaskChanges { name: None, description: None, due_date: None, status: None, categories: None }
}

#[test]
fn empty_store_starts_at_zero() {
    let manager = TaskManager::new(Vec::new());
    assert_eq!(manager.last_id(), 0);
    assert!(manager.tasks.is_empty());
    assert!(manager.tasks().is_empty());
}

#[test]
fn loaded_store_starts_at_its_largest_identifier() {
    let manager = TaskManager::new(vec![
        task(4, day(2025, 1, 1), Status::NotStarted, &[]),
        task(9, day(2025, 1, 1), Status::NotStarted, &[]),
        task(2, day(2025, 1, 1), Status::NotStarted, &[]),
    ]);
    assert_eq!(manager.last_id(), 9);
    assert_eq!(ids(&manager), vec![4, 9, 2]);
}

#[test]
fn first_task_gets_identifier_one() {
    let mut manager = TaskManager::new(Vec::new());
    let id = manager.add_task("Buy milk".to_string(), String::new(), day(2025, 1, 1), Vec::new());
    assert_eq!(id, 1);
    assert_eq!(manager.last_id(), 1);
    let added = &manager.tasks[0];
    assert_eq!(added.id, 1);
    assert_eq!(added.name, "Buy milk");
    assert_eq!(added.description, "");
    assert_eq!(added.status, Status::NotStarted);
    assert_eq!(added.due_date, UtcDateTime::at_midnight(day(2025, 1, 1)));
    assert!(added.categories.is_empty());
}

#[test]
fn added_task_is_stamped_with_the_present() {
    let mut manager = TaskManager::new(Vec::new());
    manager.add_task("now".to_string(), String::new(), day(2025, 1, 1), Vec::new());
    let now = chrono::Utc::now();
    let created = manager.tasks[0].creation_date;
    let stamped = chrono::NaiveDate::from_ymd_opt(created.date().year(), created.date().month(), created.date().day())
        .unwrap()
        .and_hms_opt(0, 0, 0)
        .unwrap()
        .and_utc()
        + chrono::TimeDelta::seconds(created.second_of_day() as i64);
    let apart = (now - stamped).num_seconds();
    assert!((0..=5).contains(&apart), "{apart}");
}

#[test]
fn added_task_is_created_when_told() {
    let mut manager = TaskManager::new(Vec::new());
    let created = UtcDateTime::new(day(2020, 2, 29), 12, 34).unwrap();
    let id = manager.add_task_at(
        "x".to_string(),
        "y".to_string(),
        day(2025, 3, 4),
        vec!["home".to_string()],
        created,
    );
    assert_eq!(id, 1);
    let added = &manager.tasks[0];
    assert_eq!(added.creation_date, created);
    assert_eq!(added.description, "y");
    assert_eq!(added.categories, vec!["home".to_string()]);
    assert_eq!(added.due_date, UtcDateTime::new(day(2025, 3, 4), 0, 0).unwrap());
}

#[test]
fn identifiers_count_up() {
    let mut manager = TaskManager::new(Vec::new());
    let mut given = Vec::new();
    for _ in 0..5 {
        given.push(manager.add_task("t".to_string(), String::new(), day(2025, 1, 1), Vec::new()));
    }
    assert_eq!(given, vec![1, 2, 3, 4, 5]);
    assert_eq!(ids(&manager), vec![1, 2, 3, 4, 5]);
}

#[test]
fn deleted_identifier_is_not_given_again() {
    let mut manager = TaskManager::new(Vec::new());
    for _ in 0..3 {
        manager.add_task("t".to_string(), String::new(), day(2025, 1, 1), Vec::new());
    }
    manager.delete_task(3).unwrap();
    assert_eq!(manager.last_id(), 3);
    let id = manager.add_task("t".to_string(), String::new(), day(2025, 1, 1), Vec::new());
    assert_eq!(id, 4);
    assert_eq!(ids(&manager), vec![1, 2, 4]);
}

#[test]
fn loaded_store_goes_on_after_its_largest_identifier() {
    let mut manager = TaskManager::new(vec![
        task(7, day(2025, 1, 1), Status::NotStarted, &[]),
        task(3, day(2025, 1, 1), Status::NotStarted, &[]),
    ]);
    let id = manager.add_task("t".to_string(), String::new(), day(2025, 1, 1), Vec::new());
    assert_eq!(id, 8);
}

#[test]
fn store_made_again_from_its_tasks_holds_the_same() {
    let mut manager = TaskManager::new(Vec::new());
    for _ in 0..4 {
        manager.add_task("t".to_string(), String::new(), day(2025, 1, 1), Vec::new());
    }
    manager.delete_task(2).unwrap();
    let before = format!("{:?}", manager.tasks);
    let again = TaskManager::new(manager.tasks.clone());
    assert_eq!(format!("{:?}", again.tasks), before);
    assert_eq!(again.last_id(), 4);
    // The mark is the largest identifier that is left.
    manager.delete_task(4).unwrap();
    assert_eq!(manager.last_id(), 4);
    assert_eq!(TaskManager::new(manager.tasks.clone()).last_id(), 3);
}

#[test]
fn contains_finds_what_is_there() {
    let manager = TaskManager::new(vec![task(4, day(2025, 1, 1), Status::NotStarted, &[])]);
    assert!(manager.contains(4));
    assert!(!manager.contains(0));
    assert!(!manager.contains(5));
}

#[test]
fn find_task_mut_hands_out_the_task() {
    let mut manager = TaskManager::new(vec![
        task(1, day(2025, 1, 1), Status::NotStarted, &[]),
        task(2, day(2025, 1, 2), Status::NotStarted, &[]),
    ]);
    {
        let found = manager.find_task_mut(2).unwrap();
        assert_eq!(found.id, 2);
        found.name = "renamed".to_string();
    }
    assert_eq!(manager.tasks[1].name, "renamed");
    assert_eq!(manager.tasks[0].name, "task 1");
    assert!(manager.find_task_mut(3).is_none());
}

#[test]
fn find_task_mut_takes_the_first_of_equal_identifiers() {
    let mut manager = TaskManager::new(vec![
        task(1, day(2025, 1, 1), Status::NotStarted, &[]),
        task(1, day(2025, 1, 2), Status::Completed, &[]),
    ]);
    assert_eq!(manager.find_task_mut(1).unwrap().status, Status::NotStarted);
}

#[test]
fn delete_removes_the_task() {
    let mut manager = TaskManager::new(vec![
        task(1, day(2025, 1, 1), Status::NotStarted, &[]),
        task(2, day(2025, 1, 2), Status::NotStarted, &[]),
        task(3, day(2025, 1, 3), Status::NotStarted, &[]),
    ]);
    assert!(manager.delete_task(2).is_ok());
    assert_eq!(ids(&manager), vec![1, 3]);
    assert_eq!(manager.last_id(), 3);
}

#[test]
fn delete_of_unknown_identifier_changes_nothing() {
    let mut manager = TaskManager::new(vec![
        task(1, day(2025, 1, 1), Status::NotStarted, &["a"]),
        task(2, day(2025, 1, 2), Status::Completed, &[]),
    ]);
    let before = format!("{:?}", manager.tasks);
    match manager.delete_task(9) {
        Err(AppError::TaskNotFound(9)) => {}
        other => panic!("{other:?}"),
    }
    assert_eq!(format!("{:?}", manager.tasks), before);
    assert_eq!(manager.last_id(), 2);
}

#[test]
fn delete_removes_every_task_with_the_identifier() {
    let mut manager = TaskManager::new(vec![
        task(1, day(2025, 1, 1), Status::NotStarted, &[]),
        task(2, day(2025, 1, 2), Status::NotStarted, &[]),
        task(1, day(2025, 1, 3), Status::NotStarted, &[]),
    ]);
    assert!(manager.delete_task(1).is_ok());
    assert_eq!(ids(&manager), vec![2]);
}

#[test]
fn update_without_a_field_is_refused() {
    let mut manager = TaskManager::new(vec![task(1, day(2025, 1, 1), Status::NotStarted, &["a"])]);
    let before = format!("{:?}", manager.tasks);
    match manager.update_task(1, no_changes()) {
        Err(AppError::Custom(message)) => assert_eq!(
            message,
            "Se debe proporcionar al menos un flag (--name, --desc, --due, --status o --cat) para actualizar."
        ),
        other => panic!("{other:?}"),
    }
    assert_eq!(format!("{:?}", manager.tasks), before);
    // The same holds where no task carries the identifier.
    assert!(matches!(manager.update_task(5, no_changes()), Err(AppError::Custom(_))));
}

#[test]
fn update_of_unknown_identifier_is_refused() {
    let mut manager = TaskManager::new(vec![task(1, day(2025, 1, 1), Status::NotStarted, &[])]);
    let before = format!("{:?}", manager.tasks);
    let changes = TaskChanges { name: Some("x".to_string()), ..no_changes() };
    assert!(matches!(manager.update_task(2, changes), Err(AppError::TaskNotFound(2))));
    assert_eq!(format!("{:?}", manager.tasks), before);
}

#[test]
fn update_of_status_leaves_the_rest() {
    let mut manager = TaskManager::new(vec![
        task(1, day(2025, 1, 1), Status::NotStarted, &["a", "b"]),
        task(2, day(2025, 1, 2), Status::NotStarted, &[]),
    ]);
    let before = task(1, day(2025, 1, 1), Status::NotStarted, &["a", "b"]);
    let other = format!("{:?}", manager.tasks[1]);
    let changes = TaskChanges { status: Some(Status::Completed), ..no_changes() };
    manager.update_task(1, changes).unwrap();
    let after = &manager.tasks[0];
    assert_eq!(after.status, Status::Completed);
    assert_eq!(after.id, before.id);
    assert_eq!(after.name, before.name);
    assert_eq!(after.description, before.description);
    assert_eq!(after.creation_date, before.creation_date);
    assert_eq!(after.due_date, before.due_date);
    assert_eq!(after.categories, before.categories);
    assert_eq!(format!("{:?}", manager.tasks[1]), other);
    assert_eq!(manager.last_id(), 2);
}

#[test]
fn update_sets_every_field_it_holds() {
    let mut manager = TaskManager::new(vec![task(1, day(2025, 1, 1), Status::NotStarted, &["a", "b"])]);
    let created = manager.tasks[0].creation_date;
    let changes = TaskChanges {
        name: Some("new name".to_string()),
        description: Some("new description".to_string()),
        due_date: Some(day(2026, 2, 3)),
        status: Some(Status::InProgress),
        categories: Some(vec!["c".to_string()]),
    };
    manager.update_task(1, changes).unwrap();
    let after = &manager.tasks[0];
    assert_eq!(after.id, 1);
    assert_eq!(after.name, "new name");
    assert_eq!(after.description, "new description");
    assert_eq!(after.due_date, UtcDateTime::at_midnight(day(2026, 2, 3)));
    assert_eq!(after.status, Status::InProgress);
    assert_eq!(after.categories, vec!["c".to_string()]);
    assert_eq!(after.creation_date, created);
}

#[test]
fn update_changes_the_first_of_equal_identifiers() {
    let mut manager = TaskManager::new(vec![
        task(1, day(2025, 1, 1), Status::NotStarted, &[]),
        task(1, day(2025, 1, 2), Status::NotStarted, &[]),
    ]);
    let changes = TaskChanges { status: Some(Status::Completed), ..no_changes() };
    manager.update_task(1, changes).unwrap();
    assert_eq!(manager.tasks[0].status, Status::Completed);
    assert_eq!(manager.tasks[1].status, Status::NotStarted);
}

#[test]
fn listing_of_empty_store_finds_no_tasks() {
    let manager = TaskManager::new(Vec::new());
    assert!(matches!(manager.list_tasks(None), Listing::NoTasks));
    assert!(matches!(manager.list_tasks(Some("home")), Listing::NoneInCategory));
}

#[test]
fn listing_of_unused_category_finds_none_and_changes_nothing() {
    let manager = TaskManager::new(vec![
        task(1, day(2025, 1, 1), Status::NotStarted, &["home"]),
        task(2, day(2025, 1, 2), Status::NotStarted, &[]),
    ]);
    let before = format!("{:?}", manager.tasks);
    assert!(matches!(manager.list_tasks(Some("work")), Listing::NoneInCategory));
    assert!(matches!(manager.list_tasks(Some("")), Listing::NoneInCategory));
    assert_eq!(format!("{:?}", manager.tasks), before);
    assert_eq!(manager.last_id(), 2);
}

#[test]
fn listing_goes_by_due_date() {
    let manager = TaskManager::new(vec![
        task(1, day(2025, 3, 1), Status::NotStarted, &[]),
        task(2, day(2025, 1, 1), Status::InProgress, &[]),
        task(3, day(2025, 2, 1), Status::NotStarted, &[]),
    ]);
    assert_eq!(listed(manager.list_tasks(None)), vec![2, 3, 1]);
    assert_eq!(ids(&manager), vec![1, 2, 3]);
}

#[test]
fn listing_puts_completed_tasks_last() {
    let manager = TaskManager::new(vec![
        task(1, day(2025, 1, 1), Status::Completed, &[]),
        task(2, day(2025, 6, 1), Status::NotStarted, &[]),
        task(3, day(2024, 1, 1), Status::Completed, &[]),
        task(4, day(2025, 5, 1), Status::InProgress, &[]),
    ]);
    assert_eq!(listed(manager.list_tasks(None)), vec![4, 2, 3, 1]);
}

#[test]
fn listing_keeps_the_order_of_tasks_due_together() {
    let manager = TaskManager::new(vec![
        task(5, day(2025, 1, 1), Status::NotStarted, &[]),
        task(3, day(2025, 1, 1), Status::InProgress, &[]),
        task(9, day(2024, 1, 1), Status::Completed, &[]),
        task(4, day(2025, 1, 1), Status::NotStarted, &[]),
        task(1, day(2024, 1, 1), Status::Completed, &[]),
    ]);
    assert_eq!(listed(manager.list_tasks(None)), vec![5, 3, 4, 9, 1]);
}

#[test]
fn listing_goes_by_the_time_of_day_too() {
    let mut early = task(1, day(2025, 1, 1), Status::NotStarted, &[]);
    early.due_date = UtcDateTime::new(day(2025, 1, 1), 10, 0).unwrap();
    let mut late = task(2, day(2025, 1, 1), Status::NotStarted, &[]);
    late.due_date = UtcDateTime::new(day(2025, 1, 1), 10, 1).unwrap();
    let manager = TaskManager::new(vec![late, early]);
    assert_eq!(listed(manager.list_tasks(None)), vec![1, 2]);
}

#[test]
fn listing_is_ordered_for_any_two_of_its_tasks() {
    let mut tasks = Vec::new();
    let mut seed: u32 = 12345;
    for id in 1..=40u32 {
        seed = seed.wrapping_mul(1_103_515_245).wrapping_add(12_345);
        let status = match (seed >> 16) % 3 {
            0 => Status::NotStarted,
            1 => Status::InProgress,
            _ => Status::Completed,
        };
        let due = day(2025, 1 + (seed >> 20) % 12, 1 + (seed >> 8) % 28);
        tasks.push(task(id, due, status, &[]));
    }
    let manager = TaskManager::new(tasks);
    let shown = match manager.list_tasks(None) {
        Listing::Tasks(shown) => shown,
        other => panic!("{other:?}"),
    };
    assert_eq!(shown.len(), 40);
    for a in 0..shown.len() {
        for b in a + 1..shown.len() {
            let (first, second) = (shown[a], shown[b]);
            let done = (first.status == Status::Completed, second.status == Status::Completed);
            assert!(
                done == (false, true) || (done.0 == done.1 && first.due_date.not_after(&second.due_date)),
                "{} before {}",
                first.id,
                second.id
            );
            assert!(first.shown_no_later(second));
        }
    }
    let mut seen: Vec<u32> = shown.iter().map(|t| t.id).collect();
    seen.sort();
    assert_eq!(seen, (1..=40).collect::<Vec<u32>>());
}

#[test]
fn listing_filters_by_category_in_any_case() {
    let manager = TaskManager::new(vec![
        task(1, day(2025, 3, 1), Status::NotStarted, &["Home", "urgent"]),
        task(2, day(2025, 1, 1), Status::NotStarted, &["work"]),
        task(3, day(2025, 2, 1), Status::Completed, &["x", "HOME"]),
        task(4, day(2025, 1, 1), Status::NotStarted, &["homework"]),
        task(5, day(2025, 1, 1), Status::NotStarted, &[]),
    ]);
    assert_eq!(listed(manager.list_tasks(Some("home"))), vec![1, 3]);
    assert_eq!(listed(manager.list_tasks(Some("WORK"))), vec![2]);
    assert_eq!(listed(manager.list_tasks(None)), vec![2, 4, 5, 1, 3]);
}

#[test]
fn task_is_in_its_categories() {
    let task = task(1, day(2025, 1, 1), Status::NotStarted, &["Home", ""]);
    assert!(task.in_category("home"));
    assert!(task.in_category("HOME"));
    assert!(task.in_category(""));
    assert!(!task.in_category("hom"));
    assert!(!task.in_category("work"));
}

#[test]
fn row_shows_the_task() {
    let mut shown = task(12, day(2025, 1, 31), Status::InProgress, &["home", "work"]);
    shown.name = "Pay rent".to_string();
    shown.description = "to the landlord".to_string();
    let row = shown.table_row();
    assert_eq!(row.id, 12);
    assert_eq!(row.status, "In progress");
    assert_eq!(row.due, "2025-01-31");
    assert_eq!(row.name, "Pay rent");
    assert_eq!(row.categories, "home, work");
    assert_eq!(row.description, "to the landlord");
}

#[test]
fn row_cuts_a_long_description() {
    let mut shown = task(1, day(2025, 1, 31), Status::Completed, &[]);
    shown.description = "This description is far too long to be shown in full".to_string();
    let row = shown.table_row();
    assert_eq!(row.description, "This description is far too long to b...");
    assert_eq!(row.categories, "");
    assert_eq!(row.status, "Completed");
}

#[test]
fn row_never_cuts_a_character() {
    let mut shown = task(1, day(2025, 1, 31), Status::NotStarted, &[]);
    shown.description = "\u{e9}".repeat(21);
    assert_eq!(shown.table_row().description, format!("{}...", "\u{e9}".repeat(18)));
}

#[test]
fn every_listed_task_has_a_row() {
    let mut manager = TaskManager::new(Vec::new());
    manager.add_task("a".to_string(), "\u{e9}".repeat(21), day(2025, 1, 1), Vec::new());
    manager.add_task("b".to_string(), "\u{1f600}".repeat(40), day(2025, 1, 2), Vec::new());
    manager.add_task("c".to_string(), String::new(), day(2025, 1, 3), Vec::new());
    let rows: Vec<(u32, String)> = match manager.list_tasks(None) {
        Listing::Tasks(tasks) => tasks.iter().map(|t| t.table_row()).map(|r| (r.id, r.description)).collect(),
        other => panic!("{other:?}"),
    };
    assert_eq!(
        rows,
        vec![
            (1, format!("{}...", "\u{e9}".repeat(18))),
            (2, format!("{}...", "\u{1f600}".repeat(9))),
            (3, String::new()),
        ]
    );
}
