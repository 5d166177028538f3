use godot_nvm::launcher::{is_log_file, logs_to_remove, KEPT_LOGS};

#[test]
fn the_oldest_logs_go_so_five_remain_after_a_launch() {
    let names: Vec<String> = vec![
        "20240105T000000Z.log",
        "notes.txt",
        "20240101T000000Z.log",
        "20240103T000000Z.log",
        "20240102T000000Z.log",
        "20240104T000000Z.log",
        "20240106T000000Z.log",
    ]
    .into_iter()
    .map(String::from)
    .collect();
    assert_eq!(
        logs_to_remove(&names, KEPT_LOGS),
        vec!["20240101T000000Z.log".to_string(), "20240102T000000Z.log".to_string()]
    );
}

#[test]
fn few_logs_are_kept() {
    let names = vec!["a.log".to_string(), "b.log".to_string()];
    assert!(logs_to_remove(&names, KEPT_LOGS).is_empty());
}

#[test]
fn only_log_files_count() {
    assert!(is_log_file("x.log"));
    assert!(!is_log_file(".log"));
    assert!(!is_log_file("x.log.txt"));
}
