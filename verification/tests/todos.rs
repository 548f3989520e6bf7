use todo_service::handlers::{
    create_todo, delete_todo, error_status, find_all, find_todo, root, update_todo, HandlerError,
};
use todo_service::repositories::{
    CreateTodo, RepositoryError, Todo, TodoRepository, TodoRepositoryForMemory, UpdateTodo,
    ValidationError,
};

fn create_payload(text: &str) -> CreateTodo {
    CreateTodo { text: text.to_string() }
}

#[test]
fn create_sets_text_and_not_completed() {
    let mut repo = TodoRepositoryForMemory::new();
    let todo = repo.create(create_payload("buy milk")).unwrap();
    assert_eq!(todo.id, 1);
    assert_eq!(todo.text, "buy milk");
    assert!(!todo.completed);
}

#[test]
fn todo_new_starts_not_completed() {
    let todo = Todo::new(7, "water plants".to_string());
    assert_eq!(todo.id, 7);
    assert_eq!(todo.text, "water plants");
    assert!(!todo.completed);
}

#[test]
fn find_returns_what_create_stored() {
    let mut repo = TodoRepositoryForMemory::new();
    let created = repo.create(create_payload("a")).unwrap();
    let found = repo.find(created.id).unwrap();
    assert_eq!(found, created);
}

#[test]
fn find_returns_what_update_last_stored() {
    let mut repo = TodoRepositoryForMemory::new();
    let created = repo.create(create_payload("first")).unwrap();
    let updated = repo
        .update(created.id, UpdateTodo { text: Some("second".to_string()), completed: None })
        .unwrap();
    let found = repo.find(created.id).unwrap();
    assert_eq!(found, updated);
    assert_eq!(found.text, "second");
}

#[test]
fn update_with_both_fields_absent_returns_record_unchanged() {
    let mut repo = TodoRepositoryForMemory::new();
    let created = repo.create(create_payload("keep me")).unwrap();
    let updated = repo.update(created.id, UpdateTodo { text: None, completed: None }).unwrap();
    assert_eq!(updated, created);
    assert_eq!(repo.find(created.id).unwrap(), created);
}

#[test]
fn operations_on_missing_id_fail_not_found_and_do_not_mutate() {
    let mut repo = TodoRepositoryForMemory::new();
    repo.create(create_payload("only one")).unwrap();

    assert!(matches!(repo.find(5), Err(RepositoryError::NotFound(5))));
    assert!(matches!(
        repo.update(5, UpdateTodo { text: None, completed: Some(true) }),
        Err(RepositoryError::NotFound(5))
    ));
    assert!(matches!(repo.delete(5), Err(RepositoryError::NotFound(5))));

    let all = repo.all().unwrap();
    assert_eq!(all.len(), 1);
    assert_eq!(all[0].text, "only one");
    assert!(!all[0].completed);
}

#[test]
fn validation_rejects_length_zero_and_one_hundred_one() {
    let empty = create_payload("");
    assert_eq!(empty.validate(), Err(ValidationError::Empty));
    let over = create_payload(&"x".repeat(101));
    assert_eq!(over.validate(), Err(ValidationError::TooLong));

    let update_empty = UpdateTodo { text: Some(String::new()), completed: None };
    assert_eq!(update_empty.validate(), Err(ValidationError::Empty));
    let update_over = UpdateTodo { text: Some("x".repeat(101)), completed: Some(true) };
    assert_eq!(update_over.validate(), Err(ValidationError::TooLong));
}

#[test]
fn validation_accepts_length_one_and_one_hundred() {
    assert_eq!(create_payload("x").validate(), Ok(()));
    assert_eq!(create_payload(&"x".repeat(100)).validate(), Ok(()));
    let update_one = UpdateTodo { text: Some("x".to_string()), completed: None };
    assert_eq!(update_one.validate(), Ok(()));
    let update_hundred = UpdateTodo { text: Some("x".repeat(100)), completed: None };
    assert_eq!(update_hundred.validate(), Ok(()));
    let update_absent = UpdateTodo { text: None, completed: Some(false) };
    assert_eq!(update_absent.validate(), Ok(()));
}

#[test]
fn validation_counts_characters_not_bytes() {
    let hundred_umlauts = "\u{e4}".repeat(100);
    assert_eq!(hundred_umlauts.len(), 200);
    assert_eq!(create_payload(&hundred_umlauts).validate(), Ok(()));
}

#[test]
fn round_trip_create_then_find_returns_identical_record() {
    let mut repo = TodoRepositoryForMemory::new();
    let created = repo.create(create_payload("a")).unwrap();
    let found = repo.find(created.id).unwrap();
    assert_eq!(found, created);
}

#[test]
fn scenario_create_update_delete_then_find_fails() {
    let mut repo = TodoRepositoryForMemory::new();

    let created = repo.create(create_payload("buy milk")).unwrap();
    assert_eq!(created.id, 1);
    assert!(!created.completed);

    let updated = repo.update(1, UpdateTodo { text: None, completed: Some(true) }).unwrap();
    assert_eq!(updated.id, 1);
    assert_eq!(updated.text, "buy milk");
    assert!(updated.completed);

    assert!(repo.delete(1).is_ok());
    assert!(matches!(repo.find(1), Err(RepositoryError::NotFound(1))));
}

#[test]
fn scenario_empty_text_is_rejected_and_store_unchanged() {
    let mut repo = TodoRepositoryForMemory::new();
    let result = create_todo(&mut repo, create_payload(""));
    match result {
        Err(HandlerError::Validation(e)) => {
            assert_eq!(e.message(), "Can not be empty");
        }
        other => panic!("expected a validation failure, got {:?}", other),
    }
    assert_eq!(repo.all().unwrap().len(), 0);
}

#[test]
fn over_long_text_is_rejected_with_its_message() {
    let mut repo = TodoRepositoryForMemory::new();
    let result = create_todo(&mut repo, create_payload(&"y".repeat(101)));
    match result {
        Err(HandlerError::Validation(e)) => {
            assert_eq!(e.message(), "Over text length");
        }
        other => panic!("expected a validation failure, got {:?}", other),
    }
    assert_eq!(repo.all().unwrap().len(), 0);
}

#[test]
fn update_handler_rejects_bad_text_and_keeps_record() {
    let mut repo = TodoRepositoryForMemory::new();
    let created = create_todo(&mut repo, create_payload("walk the dog")).unwrap();
    let result = update_todo(
        &mut repo,
        created.id,
        UpdateTodo { text: Some(String::new()), completed: Some(true) },
    );
    assert!(matches!(result, Err(HandlerError::Validation(ValidationError::Empty))));
    assert_eq!(find_todo(&repo, created.id).unwrap(), created);
}

#[test]
fn handlers_report_missing_ids_as_not_found() {
    let mut repo = TodoRepositoryForMemory::new();
    assert!(matches!(find_todo(&repo, 3), Err(HandlerError::NotFound(3))));
    assert!(matches!(
        update_todo(&mut repo, 3, UpdateTodo { text: None, completed: None }),
        Err(HandlerError::NotFound(3))
    ));
    assert!(matches!(delete_todo(&mut repo, 3), Err(HandlerError::NotFound(3))));
}

#[test]
fn all_returns_every_stored_record() {
    let mut repo = TodoRepositoryForMemory::new();
    repo.create(create_payload("one")).unwrap();
    repo.create(create_payload("two")).unwrap();
    repo.create(create_payload("three")).unwrap();

    let mut all = find_all(&repo).unwrap();
    assert_eq!(all.len(), 3);
    all.sort_by_key(|t| t.id);
    assert_eq!(all[0].text, "one");
    assert_eq!(all[1].text, "two");
    assert_eq!(all[2].text, "three");
    assert!(all.iter().all(|t| !t.completed));
}

#[test]
fn id_is_current_size_plus_one_even_after_deletes() {
    let mut repo = TodoRepositoryForMemory::new();
    assert_eq!(repo.create(create_payload("a")).unwrap().id, 1);
    assert_eq!(repo.create(create_payload("b")).unwrap().id, 2);
    repo.delete(2).unwrap();
    let reused = repo.create(create_payload("c")).unwrap();
    assert_eq!(reused.id, 2);
    assert_eq!(repo.find(2).unwrap().text, "c");
    assert_eq!(repo.all().unwrap().len(), 2);
}

#[test]
fn error_statuses_match_the_routes() {
    assert_eq!(error_status(&HandlerError::Validation(ValidationError::Empty)), 400);
    assert_eq!(error_status(&HandlerError::NotFound(9)), 404);
    assert_eq!(error_status(&HandlerError::Unexpected("connection lost".to_string())), 500);
}

#[test]
fn root_greets() {
    assert_eq!(root(), "Hello world");
}
