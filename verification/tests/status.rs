use task_manager::error::AppError;
use task_manager::status::Status;

#[test]
fn status_is_read_by_its_letter() {
    assert_eq!(Status::from_str("n").unwrap(), Status::NotStarted);
    assert_eq!(Status::from_str("i").unwrap(), Status::InProgress);
    assert_eq!(Status::from_str("c").unwrap(), Status::Completed);
}

#[test]
fn status_is_read_by_its_phrase() {
    assert_eq!(Status::from_str("no iniciado").unwrap(), Status::NotStarted);
    assert_eq!(Status::from_str("en progreso").unwrap(), Status::InProgress);
    assert_eq!(Status::from_str("completado").unwrap(), Status::Completed);
}

#[test]
fn status_is_read_in_any_case() {
    assert_eq!(Status::from_str("C").unwrap(), Status::Completed);
    assert_eq!(Status::from_str("COMPLETADO").unwrap(), Status::Completed);
    assert_eq!(Status::from_str("En Progreso").unwrap(), Status::InProgress);
    assert_eq!(Status::from_str("N").unwrap(), Status::NotStarted);
}

#[test]
fn status_is_read_with_underscores_for_spaces() {
    assert_eq!(Status::from_str("no_iniciado").unwrap(), Status::NotStarted);
    assert_eq!(Status::from_str("EN_PROGRESO").unwrap(), Status::InProgress);
}

#[test]
fn other_text_is_no_status_and_comes_back() {
    for text in ["", "x", "done", "completed", " c", "c ", "no  iniciado", "noiniciado", "Completado!"] {
        match Status::from_str(text) {
            Err(AppError::InvalidStatus(offending)) => assert_eq!(offending, text),
            other => panic!("{text:?} gave {other:?}"),
        }
    }
}

#[test]
fn normalized_text_is_compared_as_it_stands() {
    assert_eq!(Status::from_normalized("c"), Some(Status::Completed));
    assert_eq!(Status::from_normalized("en progreso"), Some(Status::InProgress));
    assert_eq!(Status::from_normalized("C"), None);
    assert_eq!(Status::from_normalized("en_progreso"), None);
}

#[test]
fn status_is_shown_in_words() {
    assert_eq!(Status::NotStarted.to_string(), "Not started");
    assert_eq!(Status::InProgress.to_string(), "In progress");
    assert_eq!(Status::Completed.to_string(), "Completed");
}

#[test]
fn only_completed_is_completed() {
    assert!(Status::Completed.is_completed());
    assert!(!Status::InProgress.is_completed());
    assert!(!Status::NotStarted.is_completed());
}
