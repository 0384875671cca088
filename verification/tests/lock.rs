use tmux_agent_hook::lock::{
    acquire, lock_file_path, try_flock, try_lock_until, FlockError, LockEvent, LockStep, LOCK_WAIT,
    POLL_INTERVAL,
};

const MILLI: u64 = 1_000_000;

/// Runs a poll on a simulated clock. `grant` tells what an attempt at a given
/// time comes to. Gives back whether the lock is held, and the time.
fn poll(
    start: u64,
    deadline: u64,
    opens: bool,
    grant: fn(u64) -> Result<(), FlockError>,
) -> (bool, u64) {
    let mut now = start;
    let mut event = if opens {
        LockEvent::Opened
    } else {
        LockEvent::OpenFailed
    };
    loop {
        match try_lock_until(event, deadline) {
            LockStep::Try => {
                event = LockEvent::Tried {
                    result: grant(now),
                    now,
                }
            }
            LockStep::Sleep { nanos } => {
                now += nanos;
                event = LockEvent::Slept;
            }
            LockStep::Proceed { held } => return (held, now),
        }
    }
}

#[test]
fn lock_file_path_encodes_pane_id_like_the_activity_log() {
    assert_eq!(
        lock_file_path("%5").as_str(),
        "/tmp/tmux-agent-hook_5.lock"
    );
}

#[test]
fn lock_file_path_encodes_every_percent_and_nothing_else() {
    assert_eq!(lock_file_path(""), "/tmp/tmux-agent-hook.lock");
    assert_eq!(lock_file_path("%%é%"), "/tmp/tmux-agent-hook__é_.lock");
    assert_ne!(lock_file_path("%1"), lock_file_path("%11"));
}

#[test]
fn contender_waits_out_the_deadline_then_proceeds_unlocked() {
    let wait = 60 * MILLI;
    let started = 7 * MILLI;
    let (held, now) = poll(started, started + wait, true, |_| {
        try_flock(-1, FlockError::WouldBlock)
    });
    let elapsed = now - started;

    assert!(!held, "a held lock must not be granted twice");
    assert!(
        elapsed >= wait,
        "the contender must wait out its deadline before giving up, waited {elapsed:?}"
    );
    assert!(
        elapsed < wait * 10,
        "the bounded wait must not stretch far past the deadline, waited {elapsed:?}"
    );
}

#[test]
fn unopenable_lock_path_yields_an_unheld_guard_without_panicking() {
    let (held, now) = poll(0, 1_000 * MILLI, false, |_| try_flock(0, FlockError::Other));
    assert!(!held);
    assert_eq!(now, 0);
}

#[test]
fn free_lock_is_held_at_once() {
    let (held, now) = poll(3, 4, true, |_| try_flock(0, FlockError::Other));
    assert!(held);
    assert_eq!(now, 3);
}

#[test]
fn interrupted_attempt_is_repeated() {
    let (held, now) = poll(0, 1_000 * MILLI, true, |now| {
        try_flock(if now < 20 * MILLI { -1 } else { 0 }, FlockError::Interrupted)
    });
    assert!(held);
    assert_eq!(now, 20 * MILLI);
}

#[test]
fn other_error_is_not_repeated() {
    let (held, now) = poll(0, 1_000 * MILLI, true, |_| try_flock(-1, FlockError::Other));
    assert!(!held);
    assert_eq!(now, 0);
}

#[test]
fn flock_succeeds_by_its_return_code() {
    assert_eq!(try_flock(0, FlockError::Other), Ok(()));
    assert_eq!(
        try_flock(-1, FlockError::WouldBlock),
        Err(FlockError::WouldBlock)
    );
    assert_eq!(try_flock(1, FlockError::Other), Err(FlockError::Other));
}

#[test]
fn retry_stops_exactly_at_the_deadline() {
    let tried = |now| LockEvent::Tried {
        result: Err(FlockError::WouldBlock),
        now,
    };
    assert_eq!(
        try_lock_until(tried(99), 100),
        LockStep::Sleep {
            nanos: POLL_INTERVAL
        }
    );
    assert_eq!(
        try_lock_until(tried(100), 100),
        LockStep::Proceed { held: false }
    );
}

#[test]
fn acquire_asks_for_the_lock_file_of_the_pane_within_two_seconds() {
    let request = acquire("%12", 5);
    assert_eq!(request.path, "/tmp/tmux-agent-hook_12.lock");
    assert_eq!(request.deadline, 2_000_000_005);
    assert_eq!(LOCK_WAIT, 2_000_000_000);
    assert_eq!(POLL_INTERVAL, 10_000_000);
    let (held, now) = poll(5, request.deadline, true, |_| {
        try_flock(-1, FlockError::WouldBlock)
    });
    assert!(!held);
    assert_eq!(now, 2_000_000_005);
}
