use tick_bridge::lifecycle::lifecycle_tick;
use tick_bridge::lifecycle::TaskRuntime;
use tick_bridge::registry::JobState;
use tick_bridge::registry::Registry;
use tick_bridge::registry::TaskHandle;

#[test]
fn an_id_holds_a_single_lifecycle_state() {
    let mut reg = Registry::new();
    assert!(reg.submit_request(1, 3000));
    // A second request under the same id is refused, so the id never
    // holds two states at once.
    assert!(!reg.submit_request(1, 4000));
    assert_eq!(reg.state_of(1), Some(JobState::Requested { port: 3000 }));
    assert_eq!(reg.len(), 1);

    let mut rt = TaskRuntime::new();
    lifecycle_tick(&mut reg, &mut rt);
    // Once running, the id is just as exclusive: no new request for it.
    assert!(!reg.submit_request(1, 3000));
    assert_eq!(
        reg.state_of(1),
        Some(JobState::Running { task: TaskHandle { handle_id: 0 } })
    );
    assert_eq!(reg.len(), 1);
}

#[test]
fn second_scan_without_new_requests_is_a_no_op() {
    let mut reg = Registry::new();
    let mut rt = TaskRuntime::new();
    assert!(reg.submit_request(7, 3000));
    assert!(reg.submit_request(9, 8080));

    let first = lifecycle_tick(&mut reg, &mut rt);
    assert_eq!(first.len(), 2);
    let state_7 = reg.state_of(7);
    let state_9 = reg.state_of(9);
    let handles_after_first = rt.next_handle;

    let second = lifecycle_tick(&mut reg, &mut rt);
    assert!(second.is_empty());
    assert_eq!(reg.state_of(7), state_7);
    assert_eq!(reg.state_of(9), state_9);
    assert_eq!(rt.next_handle, handles_after_first);
    assert_eq!(reg.len(), 2);
}

#[test]
fn scan_promotes_each_request_under_a_fresh_handle() {
    let mut reg = Registry::new();
    let mut rt = TaskRuntime::new();
    assert!(reg.submit_request(2, 3000));
    let first = lifecycle_tick(&mut reg, &mut rt);
    assert_eq!(first[0].task, TaskHandle { handle_id: 0 });

    assert!(reg.submit_request(5, 3001));
    assert!(reg.submit_request(6, 3002));
    let second = lifecycle_tick(&mut reg, &mut rt);
    assert_eq!(second.len(), 2);
    assert_eq!(second[0].id, 5);
    assert_eq!(second[0].task, TaskHandle { handle_id: 1 });
    assert_eq!(second[1].id, 6);
    assert_eq!(second[1].task, TaskHandle { handle_id: 2 });
    // The running row from the first scan was not spawned again.
    assert_eq!(
        reg.state_of(2),
        Some(JobState::Running { task: TaskHandle { handle_id: 0 } })
    );
}

#[test]
fn scan_of_an_empty_table_spawns_nothing() {
    let mut reg = Registry::new();
    let mut rt = TaskRuntime::new();
    let orders = lifecycle_tick(&mut reg, &mut rt);
    assert!(orders.is_empty());
    assert_eq!(reg.len(), 0);
    assert_eq!(rt.next_handle, 0);
}

#[test]
fn count_requested_counts_only_requested_rows() {
    let mut reg = Registry::new();
    let mut rt = TaskRuntime::new();
    assert!(reg.submit_request(1, 3000));
    lifecycle_tick(&mut reg, &mut rt);
    assert!(reg.submit_request(2, 3001));
    assert!(reg.submit_request(3, 3002));
    assert_eq!(reg.count_requested(), 2);
    assert_eq!(reg.len(), 3);
    assert_eq!(reg.state_of(4), None);
}
