use todo_app::{Todo, TodoManager};

#[test]
fn test_todo_manager_new() {
    let manager = TodoManager::new();
    assert!(manager.is_empty());
    assert_eq!(manager.get_completed_count(), 0);
    assert_eq!(manager.get_pending_count(), 0);
}

#[test]
fn test_add_todo_success() {
    let mut manager = TodoManager::new();

    let result = manager.add_todo("Buy groceries".to_string());
    assert!(result.is_ok());
    assert_eq!(result.unwrap(), 1);

    assert!(!manager.is_empty());
    assert_eq!(manager.get_todos().len(), 1);
    assert_eq!(manager.get_pending_count(), 1);
    assert_eq!(manager.get_completed_count(), 0);

    let todo = manager.get_todo_by_id(1).unwrap();
    assert_eq!(todo.title, "Buy groceries");
    assert!(!todo.is_completed);
}

#[test]
fn test_add_todo_empty() {
    let mut manager = TodoManager::new();

    let result = manager.add_todo("".to_string());
    assert!(result.is_err());
    assert_eq!(result.unwrap_err().message(), "Todo cannot be empty!");

    let result = manager.add_todo("   ".to_string());
    assert!(result.is_err());
    assert_eq!(result.unwrap_err().message(), "Todo cannot be empty!");
}

#[test]
fn test_add_todo_with_whitespace() {
    let mut manager = TodoManager::new();

    let result = manager.add_todo("  Buy groceries  ".to_string());
    assert!(result.is_ok());

    let todo = manager.get_todo_by_id(1).unwrap();
    assert_eq!(todo.title, "Buy groceries");
}

#[test]
fn test_add_multiple_todos() {
    let mut manager = TodoManager::new();

    assert_eq!(manager.add_todo("First todo".to_string()).unwrap(), 1);
    assert_eq!(manager.add_todo("Second todo".to_string()).unwrap(), 2);
    assert_eq!(manager.add_todo("Third todo".to_string()).unwrap(), 3);

    assert_eq!(manager.get_todos().len(), 3);
    assert_eq!(manager.get_pending_count(), 3);
    assert_eq!(manager.get_completed_count(), 0);
}

#[test]
fn test_toggle_todo_success() {
    let mut manager = TodoManager::new();
    manager.add_todo("Test todo".to_string()).unwrap();

    let todo = manager.get_todo_by_id(1).unwrap();
    assert!(!todo.is_completed);

    let result = manager.toggle_todo(1);
    assert!(result.is_ok());
    assert!(result.unwrap());

    let todo = manager.get_todo_by_id(1).unwrap();
    assert!(todo.is_completed);
    assert_eq!(manager.get_completed_count(), 1);
    assert_eq!(manager.get_pending_count(), 0);

    let result = manager.toggle_todo(1);
    assert!(result.is_ok());
    assert!(!result.unwrap());

    let todo = manager.get_todo_by_id(1).unwrap();
    assert!(!todo.is_completed);
    assert_eq!(manager.get_completed_count(), 0);
    assert_eq!(manager.get_pending_count(), 1);
}

#[test]
fn test_toggle_todo_not_found() {
    let mut manager = TodoManager::new();

    let result = manager.toggle_todo(999);
    assert!(result.is_err());
    assert_eq!(result.unwrap_err().message(), "Todo with ID 999 not found!");
}

#[test]
fn test_get_todo_by_id() {
    let mut manager = TodoManager::new();
    manager.add_todo("Test todo".to_string()).unwrap();

    let todo = manager.get_todo_by_id(1);
    assert!(todo.is_some());
    assert_eq!(todo.unwrap().title, "Test todo");

    let todo = manager.get_todo_by_id(999);
    assert!(todo.is_none());
}

#[test]
fn test_todo_struct() {
    let todo = Todo {
        id: 1,
        title: "Test".to_string(),
        is_completed: false,
    };

    assert_eq!(todo.id, 1);
    assert_eq!(todo.title, "Test");
    assert!(!todo.is_completed);
}

#[test]
fn test_todo_equality() {
    let todo1 = Todo {
        id: 1,
        title: "Test".to_string(),
        is_completed: false,
    };

    let todo2 = Todo {
        id: 1,
        title: "Test".to_string(),
        is_completed: false,
    };

    let todo3 = Todo {
        id: 2,
        title: "Test".to_string(),
        is_completed: false,
    };

    assert_eq!(todo1, todo2);
    assert_ne!(todo1, todo3);
}

#[test]
fn test_complex_scenario() {
    let mut manager = TodoManager::new();

    manager.add_todo("Task 1".to_string()).unwrap();
    manager.add_todo("Task 2".to_string()).unwrap();
    manager.add_todo("Task 3".to_string()).unwrap();

    assert_eq!(manager.get_todos().len(), 3);
    assert_eq!(manager.get_pending_count(), 3);
    assert_eq!(manager.get_completed_count(), 0);

    manager.toggle_todo(1).unwrap();
    manager.toggle_todo(3).unwrap();

    assert_eq!(manager.get_todos().len(), 3);
    assert_eq!(manager.get_pending_count(), 1);
    assert_eq!(manager.get_completed_count(), 2);

    assert!(manager.get_todo_by_id(1).unwrap().is_completed);
    assert!(!manager.get_todo_by_id(2).unwrap().is_completed);
    assert!(manager.get_todo_by_id(3).unwrap().is_completed);
}
