//! Tests of the task-record ledger: sequence-number assignment, the
//! authorization gate, and the per-party indices.

use record_ledger::errors::Errors;
use record_ledger::task_record::TaskRecordContract;

#[test]
fn test_test_initialize_success() {
    let mut ledger = TaskRecordContract::new();
    let admin = "admin-1".to_string();

    ledger.initialize(&admin).unwrap();

    assert_eq!(ledger.task_counter(), 0);
}

#[test]
fn test_initialize_already_initialized() {
    let mut ledger = TaskRecordContract::new();
    let admin = "admin-1".to_string();

    ledger.initialize(&admin).unwrap();

    let result = ledger.initialize(&admin);
    assert_eq!(result, Err(Errors::AlreadyInitialized));
}

#[test]
fn test_record_task_outcome_success() {
    let mut ledger = TaskRecordContract::new();
    let admin = "admin-1".to_string();

    ledger.initialize(&admin).unwrap();

    let project_id = "project_001".to_string();
    let freelancer_id = "freelancer_001".to_string();
    let client_id = "client_001".to_string();

    let result = ledger
        .record_task_outcome(&admin, &project_id, &freelancer_id, &client_id, true, 0)
        .unwrap();

    assert_eq!(result, 1);
}

#[test]
fn test_record_task_outcome_not_initialized() {
    let mut ledger = TaskRecordContract::new();
    let admin = "admin-1".to_string();

    let project_id = "project_001".to_string();
    let freelancer_id = "freelancer_001".to_string();
    let client_id = "client_001".to_string();

    let result =
        ledger.record_task_outcome(&admin, &project_id, &freelancer_id, &client_id, true, 0);

    assert_eq!(result, Err(Errors::NotInitialized));
}

#[test]
fn test_record_multiple_tasks() {
    let mut ledger = TaskRecordContract::new();
    let admin = "admin-1".to_string();

    ledger.initialize(&admin).unwrap();

    let freelancer_id = "freelancer_001".to_string();
    let client_id = "client_001".to_string();

    let task1 = ledger
        .record_task_outcome(
            &admin,
            &"project_001".to_string(),
            &freelancer_id,
            &client_id,
            true,
            0,
        )
        .unwrap();
    assert_eq!(task1, 1);

    let task2 = ledger
        .record_task_outcome(
            &admin,
            &"project_002".to_string(),
            &freelancer_id,
            &client_id,
            false,
            0,
        )
        .unwrap();
    assert_eq!(task2, 2);

    let task3 = ledger
        .record_task_outcome(
            &admin,
            &"project_003".to_string(),
            &freelancer_id,
            &client_id,
            true,
            0,
        )
        .unwrap();
    assert_eq!(task3, 3);
}

#[test]
fn test_get_tasks_for_freelancer() {
    let mut ledger = TaskRecordContract::new();
    let admin = "admin-1".to_string();

    ledger.initialize(&admin).unwrap();

    let freelancer_id = "freelancer_001".to_string();
    let client_id = "client_001".to_string();

    ledger
        .record_task_outcome(
            &admin,
            &"project_001".to_string(),
            &freelancer_id,
            &client_id,
            true,
            0,
        )
        .unwrap();
    ledger
        .record_task_outcome(
            &admin,
            &"project_002".to_string(),
            &freelancer_id,
            &client_id,
            false,
            0,
        )
        .unwrap();

    let tasks = ledger.get_tasks_for_freelancer(&freelancer_id);

    assert_eq!(tasks.len(), 2);
    assert_eq!(tasks[0].task_id, 1);
    assert_eq!(tasks[0].completed, true);
    assert_eq!(tasks[1].task_id, 2);
    assert_eq!(tasks[1].completed, false);
}

#[test]
fn test_get_tasks_for_client() {
    let mut ledger = TaskRecordContract::new();
    let admin = "admin-1".to_string();

    ledger.initialize(&admin).unwrap();

    let freelancer_id = "freelancer_001".to_string();
    let client_id = "client_001".to_string();

    ledger
        .record_task_outcome(
            &admin,
            &"project_001".to_string(),
            &freelancer_id,
            &client_id,
            true,
            0,
        )
        .unwrap();
    ledger
        .record_task_outcome(
            &admin,
            &"project_002".to_string(),
            &freelancer_id,
            &client_id,
            false,
            0,
        )
        .unwrap();

    let tasks = ledger.get_tasks_for_client(&client_id);

    assert_eq!(tasks.len(), 2);
    assert_eq!(tasks[0].client_id, client_id);
    assert_eq!(tasks[1].client_id, client_id);
}

#[test]
fn test_get_tasks_for_nonexistent_freelancer() {
    let mut ledger = TaskRecordContract::new();
    let admin = "admin-1".to_string();

    ledger.initialize(&admin).unwrap();

    let nonexistent_freelancer = "freelancer_999".to_string();
    let tasks = ledger.get_tasks_for_freelancer(&nonexistent_freelancer);

    assert_eq!(tasks.len(), 0);
}

#[test]
fn test_get_tasks_for_nonexistent_client() {
    let mut ledger = TaskRecordContract::new();
    let admin = "admin-1".to_string();

    ledger.initialize(&admin).unwrap();

    let nonexistent_client = "client_999".to_string();
    let tasks = ledger.get_tasks_for_client(&nonexistent_client);

    assert_eq!(tasks.len(), 0);
}

#[test]
fn test_multiple_freelancers_same_client() {
    let mut ledger = TaskRecordContract::new();
    let admin = "admin-1".to_string();

    ledger.initialize(&admin).unwrap();

    let freelancer1 = "freelancer_001".to_string();
    let freelancer2 = "freelancer_002".to_string();
    let client_id = "client_001".to_string();

    ledger
        .record_task_outcome(
            &admin,
            &"project_001".to_string(),
            &freelancer1,
            &client_id,
            true,
            0,
        )
        .unwrap();
    ledger
        .record_task_outcome(
            &admin,
            &"project_002".to_string(),
            &freelancer2,
            &client_id,
            true,
            0,
        )
        .unwrap();

    let tasks1 = ledger.get_tasks_for_freelancer(&freelancer1);
    assert_eq!(tasks1.len(), 1);
    assert_eq!(tasks1[0].freelancer_id, freelancer1);

    let tasks2 = ledger.get_tasks_for_freelancer(&freelancer2);
    assert_eq!(tasks2.len(), 1);
    assert_eq!(tasks2[0].freelancer_id, freelancer2);

    let client_tasks = ledger.get_tasks_for_client(&client_id);
    assert_eq!(client_tasks.len(), 2);
}

#[test]
fn test_task_record_timestamp() {
    let mut ledger = TaskRecordContract::new();
    let admin = "admin-1".to_string();

    ledger.initialize(&admin).unwrap();

    let freelancer_id = "freelancer_001".to_string();
    let client_id = "client_001".to_string();

    let timestamp_before = 0u64;

    ledger
        .record_task_outcome(
            &admin,
            &"project_001".to_string(),
            &freelancer_id,
            &client_id,
            true,
            timestamp_before,
        )
        .unwrap();

    let tasks = ledger.get_tasks_for_freelancer(&freelancer_id);
    assert_eq!(tasks.len(), 1);

    assert!(tasks[0].timestamp >= timestamp_before);
}

#[test]
fn test_task_record_fields() {
    let mut ledger = TaskRecordContract::new();
    let admin = "admin-1".to_string();

    ledger.initialize(&admin).unwrap();

    let project_id = "project_001".to_string();
    let freelancer_id = "freelancer_001".to_string();
    let client_id = "client_001".to_string();

    ledger
        .record_task_outcome(&admin, &project_id, &freelancer_id, &client_id, true, 0)
        .unwrap();

    let tasks = ledger.get_tasks_for_freelancer(&freelancer_id);
    let task = &tasks[0];

    assert_eq!(task.task_id, 1);
    assert_eq!(task.project_id, project_id);
    assert_eq!(task.freelancer_id, freelancer_id);
    assert_eq!(task.client_id, client_id);
    assert_eq!(task.completed, true);
    assert!(task.timestamp == 0);
}

#[test]
fn test_task_counter_increments() {
    let mut ledger = TaskRecordContract::new();
    let admin = "admin-1".to_string();

    ledger.initialize(&admin).unwrap();

    let freelancer_id = "freelancer_001".to_string();
    let client_id = "client_001".to_string();

    let task1 = ledger
        .record_task_outcome(
            &admin,
            &"project_001".to_string(),
            &freelancer_id,
            &client_id,
            true,
            0,
        )
        .unwrap();
    assert_eq!(task1, 1);

    let task2 = ledger
        .record_task_outcome(
            &admin,
            &"project_002".to_string(),
            &freelancer_id,
            &client_id,
            true,
            0,
        )
        .unwrap();
    assert_eq!(task2, 2);

    let task3 = ledger
        .record_task_outcome(
            &admin,
            &"project_003".to_string(),
            &freelancer_id,
            &client_id,
            true,
            0,
        )
        .unwrap();
    assert_eq!(task3, 3);

    let task4 = ledger
        .record_task_outcome(
            &admin,
            &"project_004".to_string(),
            &freelancer_id,
            &client_id,
            true,
            0,
        )
        .unwrap();
    assert_eq!(task4, 4);

    let task5 = ledger
        .record_task_outcome(
            &admin,
            &"project_005".to_string(),
            &freelancer_id,
            &client_id,
            true,
            0,
        )
        .unwrap();
    assert_eq!(task5, 5);
}

#[test]
fn test_completed_and_failed_tasks() {
    let mut ledger = TaskRecordContract::new();
    let admin = "admin-1".to_string();

    ledger.initialize(&admin).unwrap();

    let freelancer_id = "freelancer_001".to_string();
    let client_id = "client_001".to_string();

    for name in ["project_001", "project_002", "project_003"] {
        ledger
            .record_task_outcome(
                &admin,
                &name.to_string(),
                &freelancer_id,
                &client_id,
                true,
                0,
            )
            .unwrap();
    }
    for name in ["project_004", "project_005"] {
        ledger
            .record_task_outcome(
                &admin,
                &name.to_string(),
                &freelancer_id,
                &client_id,
                false,
                0,
            )
            .unwrap();
    }

    let tasks = ledger.get_tasks_for_freelancer(&freelancer_id);
    assert_eq!(tasks.len(), 5);

    let mut completed_count: u32 = 0;
    let mut failed_count: u32 = 0;

    for task in &tasks {
        if task.completed {
            completed_count += 1;
        } else {
            failed_count += 1;
        }
    }

    assert_eq!(completed_count, 3);
    assert_eq!(failed_count, 2);
}

#[test]
fn test_record_task_outcome_unauthorized_caller() {
    let mut ledger = TaskRecordContract::new();
    let admin = "admin-1".to_string();
    let intruder = "intruder-1".to_string();

    ledger.initialize(&admin).unwrap();

    let result = ledger.record_task_outcome(
        &intruder,
        &"project_001".to_string(),
        &"freelancer_001".to_string(),
        &"client_001".to_string(),
        true,
        0,
    );

    assert_eq!(result, Err(Errors::Unauthorized));
    assert_eq!(ledger.task_counter(), 0);
}

#[test]
fn test_empty_strings() {
    let mut ledger = TaskRecordContract::new();
    let admin = "admin-1".to_string();

    ledger.initialize(&admin).unwrap();

    let empty = String::new();
    let result = ledger
        .record_task_outcome(&admin, &empty, &empty, &empty, true, 0)
        .unwrap();

    assert_eq!(result, 1);
}

#[test]
fn test_long_strings() {
    let mut ledger = TaskRecordContract::new();
    let admin = "admin-1".to_string();

    ledger.initialize(&admin).unwrap();

    let long_string = "a".repeat(101);

    let result = ledger
        .record_task_outcome(&admin, &long_string, &long_string, &long_string, true, 0)
        .unwrap();

    assert_eq!(result, 1);
}

#[test]
fn test_stress_test_many_tasks() {
    let mut ledger = TaskRecordContract::new();
    let admin = "admin-1".to_string();

    ledger.initialize(&admin).unwrap();

    let freelancer_id = "freelancer_001".to_string();
    let client_id = "client_001".to_string();

    for i in 1..=20u32 {
        let project_id = format!("project_{:03}", i);
        ledger
            .record_task_outcome(
                &admin,
                &project_id,
                &freelancer_id,
                &client_id,
                i % 2 == 1,
                0,
            )
            .unwrap();
    }

    let tasks = ledger.get_tasks_for_freelancer(&freelancer_id);
    assert_eq!(tasks.len(), 20);
}

#[test]
fn test_no_gap_after_failed_call() {
    let mut ledger = TaskRecordContract::new();
    let admin = "admin-1".to_string();
    let intruder = "intruder-1".to_string();

    ledger.initialize(&admin).unwrap();

    let freelancer_id = "freelancer_001".to_string();
    let client_id = "client_001".to_string();

    let first = ledger
        .record_task_outcome(
            &admin,
            &"project_001".to_string(),
            &freelancer_id,
            &client_id,
            true,
            0,
        )
        .unwrap();
    assert_eq!(first, 1);

    // A rejected write assigns no number ...
    let rejected = ledger.record_task_outcome(
        &intruder,
        &"project_002".to_string(),
        &freelancer_id,
        &client_id,
        true,
        0,
    );
    assert_eq!(rejected, Err(Errors::Unauthorized));

    // ... so the next successful write continues without a gap.
    let second = ledger
        .record_task_outcome(
            &admin,
            &"project_003".to_string(),
            &freelancer_id,
            &client_id,
            true,
            0,
        )
        .unwrap();
    assert_eq!(second, 2);
}
