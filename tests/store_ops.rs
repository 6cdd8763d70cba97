use taskz::matching::{find_closest_task, first_minimum};
use taskz::store::{tasks_from_parsed, undo_slot_from_file, TaskStore, UndoError, UndoSlot};
use taskz::task::Task;

fn task(description: &str, created_at: i64) -> Task {
    Task { description: description.to_string(), created_at }
}

fn pairs(tasks: &[Task]) -> Vec<(String, i64)> {
    tasks.iter().map(|t| (t.description.clone(), t.created_at)).collect()
}

fn sorted_pairs(tasks: &[Task]) -> Vec<(String, i64)> {
    let mut p = pairs(tasks);
    p.sort();
    p
}

#[test]
fn add_done_undo_scenario() {
    let mut store = TaskStore::new(Vec::new(), UndoSlot::Empty);
    store.push_task(task("buy milk", 100));
    store.push_task(task("walk dog", 200));
    let original = sorted_pairs(&store.tasks);
    assert_eq!(store.mark_done("buy milk"), Some(0));
    assert_eq!(pairs(&store.tasks), vec![("walk dog".to_string(), 200)]);
    match &store.undo {
        UndoSlot::Held(t) => assert_eq!(t.description, "buy milk"),
        other => panic!("unexpected undo slot {:?}", other),
    }
    assert_eq!(store.undo_last(), Ok(true));
    assert_eq!(sorted_pairs(&store.tasks), original);
    assert!(matches!(store.undo, UndoSlot::Empty));
    assert_eq!(store.undo_last(), Ok(false));
}

#[test]
fn done_tolerates_typos() {
    let mut store = TaskStore::new(vec![task("buy milk", 1), task("walk dog", 2)], UndoSlot::Empty);
    assert_eq!(store.mark_done("WALK DGO"), Some(1));
    assert_eq!(pairs(&store.tasks), vec![("buy milk".to_string(), 1)]);
}

#[test]
fn done_on_empty_store_keeps_pending_undo() {
    let mut store = TaskStore::new(Vec::new(), UndoSlot::Held(task("old", 5)));
    assert_eq!(store.mark_done("anything"), None);
    assert!(store.tasks.is_empty());
    assert!(matches!(store.undo, UndoSlot::Held(ref t) if t.description == "old"));
}

#[test]
fn second_done_replaces_undo() {
    let mut store = TaskStore::new(
        vec![task("a task", 1), task("b thing", 2), task("c item", 3)],
        UndoSlot::Empty,
    );
    assert_eq!(store.mark_done("a task"), Some(0));
    assert_eq!(store.mark_done("c item"), Some(1));
    assert_eq!(store.undo_last(), Ok(true));
    assert_eq!(
        sorted_pairs(&store.tasks),
        vec![("b thing".to_string(), 2), ("c item".to_string(), 3)]
    );
    assert_eq!(store.undo_last(), Ok(false));
}

#[test]
fn unreadable_undo_leaves_store() {
    let mut store = TaskStore::new(vec![task("x", 1)], UndoSlot::Unreadable);
    assert_eq!(store.undo_last(), Err(UndoError::Unreadable));
    assert_eq!(pairs(&store.tasks), vec![("x".to_string(), 1)]);
    assert!(matches!(store.undo, UndoSlot::Unreadable));
}

#[test]
fn clear_keeps_undo() {
    let mut store = TaskStore::new(vec![task("x", 1), task("y", 2)], UndoSlot::Held(task("z", 3)));
    store.clear_tasks();
    assert!(store.tasks.is_empty());
    assert!(matches!(store.undo, UndoSlot::Held(ref t) if t.description == "z"));
}

#[test]
fn edit_renames_closest_and_keeps_time() {
    let mut store = TaskStore::new(vec![task("buy milk", 10), task("walk dog", 20)], UndoSlot::Empty);
    assert_eq!(store.edit_task("walk dgo", "walk cat".to_string()), Some(1));
    assert_eq!(
        pairs(&store.tasks),
        vec![("buy milk".to_string(), 10), ("walk cat".to_string(), 20)]
    );
    let mut empty = TaskStore::new(Vec::new(), UndoSlot::Empty);
    assert_eq!(empty.edit_task("x", "y".to_string()), None);
}

#[test]
fn exact_match_wins_over_near_one() {
    let tasks = vec![task("buy milks", 1), task("Buy Milk", 2)];
    assert_eq!(find_closest_task(&tasks, "buy milk"), Some(1));
    assert_eq!(find_closest_task(&Vec::new(), "buy milk"), None);
}

#[test]
fn closest_ties_go_to_first() {
    let tasks = vec![task("abc", 1), task("abd", 2), task("abe", 3)];
    assert_eq!(find_closest_task(&tasks, "abz"), Some(0));
}

#[test]
fn first_minimum_values() {
    assert_eq!(first_minimum(&vec![]), None);
    assert_eq!(first_minimum(&vec![3, 1, 1, 2]), Some(1));
    assert_eq!(first_minimum(&vec![0]), Some(0));
    assert_eq!(first_minimum(&vec![5, 4, 3, 2, 1]), Some(4));
}

#[test]
fn list_by_time_and_by_name() {
    let store = TaskStore::new(
        vec![task("banana", 30), task("Apple", 20), task("cherry", 10), task("apple", 20)],
        UndoSlot::Empty,
    );
    assert_eq!(
        pairs(&store.list_tasks(false)),
        vec![
            ("cherry".to_string(), 10),
            ("Apple".to_string(), 20),
            ("apple".to_string(), 20),
            ("banana".to_string(), 30)
        ]
    );
    assert_eq!(
        pairs(&store.list_tasks(true)),
        vec![
            ("Apple".to_string(), 20),
            ("apple".to_string(), 20),
            ("banana".to_string(), 30),
            ("cherry".to_string(), 10)
        ]
    );
    assert_eq!(store.tasks.len(), 4);
    assert_eq!(store.tasks[0].description, "banana");
}

#[test]
fn list_empty() {
    let store = TaskStore::new(Vec::new(), UndoSlot::Empty);
    assert!(store.list_tasks(true).is_empty());
    assert!(store.list_tasks(false).is_empty());
}

#[test]
fn search_is_case_insensitive_substring() {
    let store = TaskStore::new(
        vec![task("Buy MILK", 1), task("walk dog", 2), task("milkshake", 3)],
        UndoSlot::Empty,
    );
    assert_eq!(
        pairs(&store.search_tasks("milk")),
        vec![("Buy MILK".to_string(), 1), ("milkshake".to_string(), 3)]
    );
    assert!(store.search_tasks("cat").is_empty());
    assert_eq!(store.search_tasks("").len(), 3);
    assert_eq!(store.tasks.len(), 3);
}

#[test]
fn parsed_store_recovery() {
    assert_eq!(pairs(&tasks_from_parsed(Some(vec![task("a", 1)]))), vec![("a".to_string(), 1)]);
    assert!(tasks_from_parsed(None).is_empty());
}

#[test]
fn undo_slot_from_file_cases() {
    assert!(matches!(undo_slot_from_file(false, None), UndoSlot::Empty));
    assert!(matches!(undo_slot_from_file(true, None), UndoSlot::Unreadable));
    assert!(matches!(undo_slot_from_file(true, Some(task("t", 4))), UndoSlot::Held(ref t) if t.created_at == 4));
}

#[test]
fn add_task_stamps_current_time() {
    let mut store = TaskStore::new(vec![task("first", 1)], UndoSlot::Empty);
    store.add_task("second".to_string());
    assert_eq!(store.tasks.len(), 2);
    assert_eq!(store.tasks[1].description, "second");
    assert!(store.tasks[1].created_at > 1_600_000_000);
    let t = Task::new("fresh".to_string());
    assert_eq!(t.description, "fresh");
    assert_eq!(t.clone().created_at, t.created_at);
}

#[test]
fn add_done_undo_with_current_time() {
    let mut store = TaskStore::new(Vec::new(), UndoSlot::Empty);
    store.add_task("buy milk".to_string());
    store.add_task("walk dog".to_string());
    let before = sorted_pairs(&store.tasks);
    assert_eq!(store.mark_done("buy milk"), Some(0));
    assert_eq!(store.tasks.len(), 1);
    assert_eq!(store.tasks[0].description, "walk dog");
    assert_eq!(store.undo_last(), Ok(true));
    assert_eq!(sorted_pairs(&store.tasks), before);
    assert!(matches!(store.undo, UndoSlot::Empty));
}
