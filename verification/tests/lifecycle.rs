use hojo::connect::{next_connect_action, ConnectAction, CONNECT_ATTEMPTS, INITIAL_BACKOFF_MS};
use hojo::worker::{CleanupPlan, Worker};

#[test]
fn backoff_schedule_is_exponential_from_ten() {
    assert_eq!(CONNECT_ATTEMPTS, 5);
    assert_eq!(INITIAL_BACKOFF_MS, 10);
    let mut delays: Vec<u64> = Vec::new();
    let mut attempts: u64 = 0;
    loop {
        match next_connect_action(attempts) {
            ConnectAction::TryAfter(d) => delays.push(d),
            ConnectAction::GiveUp(plan) => {
                assert!(plan.kill_process);
                assert!(plan.remove_socket);
                break;
            }
        }
        attempts += 1;
    }
    assert_eq!(delays, vec![10, 20, 40, 80, 160]);
    assert_eq!(delays.iter().sum::<u64>(), 310);
}

#[test]
fn give_up_only_after_the_last_attempt() {
    for attempts in 0..5u64 {
        assert!(matches!(next_connect_action(attempts), ConnectAction::TryAfter(_)));
    }
    assert!(matches!(next_connect_action(5), ConnectAction::GiveUp(_)));
    assert!(matches!(next_connect_action(100), ConnectAction::GiveUp(_)));
}

#[test]
fn first_release_asks_for_full_teardown() {
    let mut w = Worker::new(4242, String::from("/tmp/plugin-sock"));
    assert_eq!(w.pid(), 4242);
    assert_eq!(w.socket_file(), "/tmp/plugin-sock");
    assert!(!w.is_released());
    let plan = w.release();
    assert_eq!(plan, CleanupPlan { kill_process: true, remove_socket: true });
    assert!(w.is_released());
}

#[test]
fn second_release_is_a_no_op() {
    let mut w = Worker::new(7, String::from("/tmp/plugin-sock"));
    let first = w.release();
    let second = w.release();
    let third = w.release();
    assert_eq!(first, CleanupPlan { kill_process: true, remove_socket: true });
    assert_eq!(second, CleanupPlan { kill_process: false, remove_socket: false });
    assert_eq!(third, CleanupPlan { kill_process: false, remove_socket: false });
    assert!(w.is_released());
    assert_eq!(w.pid(), 7);
}
