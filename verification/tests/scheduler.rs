use rust_proxy::channel::oneshot_pair;
use rust_proxy::timer::HealthCheckTimer;
use rust_proxy::timer::DEFAULT_HEALTH_CHECK_INTERVAL;
use rust_proxy::timer::TaskPool;
use rust_proxy::timer::TimerAction;
use rust_proxy::timer::timer_step;
use rust_proxy::AppError;

#[test]
fn submit_then_remove_round_trip() {
    let mut pool = TaskPool::new();
    let receiver = pool.submit_task("task-1".to_string());
    assert!(pool.remove_task("task-1".to_string()).is_ok());
    // Removing the entry dropped its sender, so the probe holding the
    // receiver observes cancellation and never runs its check again.
    let mut timer = HealthCheckTimer::new(
        DEFAULT_HEALTH_CHECK_INTERVAL,
        DEFAULT_HEALTH_CHECK_INTERVAL,
        receiver,
    );
    assert_eq!(timer.run(), TimerAction::Stop);
}

#[test]
fn remove_unknown_task_fails_with_task_not_found() {
    let mut pool = TaskPool::new();
    assert_eq!(pool.remove_task("never-submitted".to_string()), Err(AppError::TaskNotFound));
    let _receiver = pool.submit_task("once".to_string());
    assert!(pool.remove_task("once".to_string()).is_ok());
    assert_eq!(pool.remove_task("once".to_string()), Err(AppError::TaskNotFound));
}

#[test]
fn resubmit_replaces_instead_of_duplicating() {
    let mut pool = TaskPool::new();
    let _r1 = pool.submit_task("same".to_string());
    let _r2 = pool.submit_task("same".to_string());
    assert!(pool.remove_task("same".to_string()).is_ok());
    assert_eq!(pool.remove_task("same".to_string()), Err(AppError::TaskNotFound));
}

#[test]
fn cancellation_always_wins_over_tick() {
    assert_eq!(timer_step(true, true), TimerAction::Stop);
    assert_eq!(timer_step(true, false), TimerAction::Stop);
    assert_eq!(timer_step(false, true), TimerAction::RunCheck);
    assert_eq!(timer_step(false, false), TimerAction::Wait);
}

#[test]
fn cancel_before_first_tick_never_runs_check() {
    let (sender, receiver) = oneshot_pair();
    let mut timer = HealthCheckTimer::new(
        DEFAULT_HEALTH_CHECK_INTERVAL,
        DEFAULT_HEALTH_CHECK_INTERVAL,
        receiver,
    );
    sender.send(()).unwrap();
    assert_eq!(timer.run(), TimerAction::Stop);
}

#[test]
fn uncancelled_timer_runs_its_check() {
    let (sender, receiver) = oneshot_pair();
    let mut timer = HealthCheckTimer::new(
        DEFAULT_HEALTH_CHECK_INTERVAL,
        DEFAULT_HEALTH_CHECK_INTERVAL,
        receiver,
    );
    assert_eq!(timer.run(), TimerAction::RunCheck);
    drop(sender);
}

#[test]
fn timer_new_keeps_schedule() {
    let (_sender, receiver) = oneshot_pair();
    let timer = HealthCheckTimer::new(7, 11, receiver);
    assert_eq!(timer.interval, 7);
    assert_eq!(timer.timeout, 11);
}

#[test]
fn default_interval_is_twenty_time_units() {
    assert_eq!(DEFAULT_HEALTH_CHECK_INTERVAL, 20);
}
