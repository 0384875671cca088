//! The advisory lock that serialises the hooks of one pane.
//!
//! Every hook is its own short-lived process, and each handler reads and then
//! writes the pane's options. Holding the pane's lock for that time makes a hook
//! see the state that its predecessor left. The wait is bounded: a hook whose
//! predecessor is stuck goes on without the lock rather than lose its event.
//!
//! The lock file is polled with non-blocking attempts. The caller opens it,
//! makes the attempts, reads the clock and sleeps; what to do next is decided
//! here. Times are nanoseconds on the caller's monotonic clock.

use vstd::prelude::*;

verus! {

/// How long a hook waits for its predecessor on the same pane, at most: two
/// seconds.
pub const LOCK_WAIT: u64 = 2_000_000_000;

/// The time between two attempts: ten milliseconds.
pub const POLL_INTERVAL: u64 = 10_000_000;

/// A pane id as it stands in a file name: `%` becomes `_`.
pub open spec fn encoded(pane_id: Seq<char>) -> Seq<char> {
    pane_id.map_values(|c: char| if c == '%' { '_' } else { c })
}

/// The path of a pane's lock file.
pub open spec fn lock_path(pane_id: Seq<char>) -> Seq<char> {
    "/tmp/tmux-agent-hook"@ + encoded(pane_id) + ".lock"@
}

/// The lock file for `pane_id`.
pub fn lock_file_path(pane_id: &str) -> (path: String)
    ensures
        path@ == lock_path(pane_id@),
{
    let n: usize = pane_id.unicode_len();
    let mut path: String = "/tmp/tmux-agent-hook".to_owned();
    let mut i: usize = 0;
    assert(encoded(pane_id@.take(0)) =~= Seq::<char>::empty());
    while i < n
        invariant
            n == pane_id@.len(),
            i <= n,
            path@ == "/tmp/tmux-agent-hook"@ + encoded(pane_id@.take(i as int)),
        decreases n - i,
    {
        proof {
            reveal_strlit("_");
        }
        let ghost before = encoded(pane_id@.take(i as int));
        if pane_id.get_char(i) == '%' {
            path.append("_");
            assert(encoded(pane_id@.take(i + 1)) =~= before + seq!['_']);
            assert("_"@ =~= seq!['_']);
        } else {
            path.append(pane_id.substring_char(i, i + 1));
            assert(encoded(pane_id@.take(i + 1)) =~= before + pane_id@.subrange(i as int, i + 1));
        }
        assert(path@ =~= "/tmp/tmux-agent-hook"@ + encoded(pane_id@.take(i + 1)));
        i = i + 1;
    }
    assert(pane_id@.take(n as int) =~= pane_id@);
    path.append(".lock");
    path
}

/// Two panes share a lock file only where their ids read the same in a file
/// name. Ids without an underscore, as all that tmux gives out are, never do.
pub proof fn panes_do_not_share_a_lock_file(a: Seq<char>, b: Seq<char>)
    ensures
        lock_path(a) == lock_path(b) <==> encoded(a) == encoded(b),
        !a.contains('_') && !b.contains('_') && lock_path(a) == lock_path(b) ==> a == b,
{
    let front = "/tmp/tmux-agent-hook"@;
    let pa = lock_path(a);
    let pb = lock_path(b);
    assert(pa.len() == front.len() + a.len() + ".lock"@.len());
    assert(pb.len() == front.len() + b.len() + ".lock"@.len());
    if pa == pb {
        assert forall|i: int| 0 <= i < a.len() implies encoded(a)[i] == encoded(b)[i] by {
            assert(pa[front.len() + i] == encoded(a)[i]);
            assert(pb[front.len() + i] == encoded(b)[i]);
        }
        assert(encoded(a) =~= encoded(b));
        if !a.contains('_') && !b.contains('_') {
            assert forall|i: int| 0 <= i < a.len() implies a[i] == b[i] by {
                assert(encoded(a)[i] == encoded(b)[i]);
                assert(a.contains(a[i]));
                assert(b.contains(b[i]));
            }
            assert(a =~= b);
        }
    }
}

/// The part of a lock file's name that stands for the pane holds no `%`.
pub proof fn encoded_id_has_no_percent(pane_id: Seq<char>)
    ensures
        encoded(pane_id).len() == pane_id.len(),
        !encoded(pane_id).contains('%'),
{
}

/// The name of a lock file, character by character: the common front, the pane id
/// with every `%` as `_` and all else as it is, and the ending.
pub proof fn lock_file_is_named_after_the_pane(pane_id: Seq<char>)
    ensures
        ({
            let front = "/tmp/tmux-agent-hook"@;
            let ending = ".lock"@;
            let path = lock_path(pane_id);
            &&& path.len() == front.len() + pane_id.len() + ending.len()
            &&& forall|i: int| 0 <= i < front.len() ==> #[trigger] path[i] == front[i]
            &&& forall|i: int|
                0 <= i < pane_id.len() ==> path[front.len() + i] == (if #[trigger] pane_id[i]
                    == '%' {
                    '_'
                } else {
                    pane_id[i]
                })
            &&& forall|i: int|
                0 <= i < ending.len() ==> path[front.len() + pane_id.len() + i]
                    == #[trigger] ending[i]
        }),
{
}

/// The wait is two seconds at most, and an attempt follows every ten
/// milliseconds.
pub proof fn wait_and_interval()
    ensures
        LOCK_WAIT == 2 * 1_000_000_000,
        POLL_INTERVAL == 10 * 1_000_000,
{
}

/// Why an attempt at the lock failed.
#[derive(Clone, Copy, Debug, PartialEq, Eq, Structural)]
pub enum FlockError {
    /// Another hook holds the lock.
    WouldBlock,
    /// A signal came in first.
    Interrupted,
    /// The lock cannot be had at all.
    Other,
}

/// What has just happened on the way to the lock.
#[derive(Clone, Copy, Debug)]
pub enum LockEvent {
    /// The lock file could not be opened.
    OpenFailed,
    /// The lock file is open.
    Opened,
    /// A non-blocking attempt at the exclusive lock came back, at time `now`.
    Tried { result: Result<(), FlockError>, now: u64 },
    /// The interval between two attempts is over.
    Slept,
}

/// What to do next.
#[derive(Clone, Copy, Debug, PartialEq, Eq, Structural)]
pub enum LockStep {
    /// Make a non-blocking attempt at the exclusive lock.
    Try,
    /// Sleep for this long.
    Sleep { nanos: u64 },
    /// Run the handler, with the lock or without it.
    Proceed { held: bool },
}

/// A request for a pane's lock.
#[derive(Debug)]
pub struct LockRequest {
    pub path: String,
    pub deadline: u64,
}

/// Whether another attempt may do better.
pub open spec fn may_retry(error: FlockError) -> bool {
    error == FlockError::WouldBlock || error == FlockError::Interrupted
}

/// What follows an event. The lock is held after an attempt that succeeded, and
/// only then. An attempt that may do better later is repeated until the
/// deadline.
pub open spec fn next_step(event: LockEvent, deadline: u64) -> LockStep {
    match event {
        LockEvent::OpenFailed => LockStep::Proceed { held: false },
        LockEvent::Opened => LockStep::Try,
        LockEvent::Slept => LockStep::Try,
        LockEvent::Tried { result: Ok(_), now } => LockStep::Proceed { held: true },
        LockEvent::Tried { result: Err(error), now } => if may_retry(error) && now < deadline {
            LockStep::Sleep { nanos: POLL_INTERVAL }
        } else {
            LockStep::Proceed { held: false }
        },
    }
}

/// The request of a hook on `pane` that fires at time `now`.
pub fn acquire(pane: &str, now: u64) -> (request: LockRequest)
    requires
        now + LOCK_WAIT <= u64::MAX,
    ensures
        request.path@ == lock_path(pane@),
        request.deadline == now + LOCK_WAIT,
        request.deadline == now + 2_000_000_000,
{
    LockRequest { path: lock_file_path(pane), deadline: now + LOCK_WAIT }
}

/// What `flock` says by its return code, where `error` is the error that it
/// left behind.
pub fn try_flock(rc: i32, error: FlockError) -> (result: Result<(), FlockError>)
    ensures
        result == (if rc == 0 {
            Ok::<(), FlockError>(())
        } else {
            Err(error)
        }),
{
    if rc == 0 {
        Ok(())
    } else {
        Err(error)
    }
}

/// The next step of polling for a lock until `deadline`. It neither blocks for
/// good nor fails the hook: where the lock cannot be had, the caller proceeds
/// without it.
pub fn try_lock_until(event: LockEvent, deadline: u64) -> (step: LockStep)
    ensures
        step == next_step(event, deadline),
        event is OpenFailed ==> step == (LockStep::Proceed { held: false }),
        event is Opened || event is Slept ==> step == LockStep::Try,
        event matches LockEvent::Tried { result, now } ==> match result {
            Ok(_) => step == (LockStep::Proceed { held: true }),
            Err(error) => step == (if error != FlockError::Other && now < deadline {
                LockStep::Sleep { nanos: 10_000_000 }
            } else {
                LockStep::Proceed { held: false }
            }),
        },
{
    match event {
        LockEvent::OpenFailed => LockStep::Proceed { held: false },
        LockEvent::Opened => LockStep::Try,
        LockEvent::Slept => LockStep::Try,
        LockEvent::Tried { result, now } => match result {
            Ok(_) => LockStep::Proceed { held: true },
            Err(error) => match error {
                FlockError::WouldBlock | FlockError::Interrupted => if now >= deadline {
                    LockStep::Proceed { held: false }
                } else {
                    LockStep::Sleep { nanos: POLL_INTERVAL }
                },
                FlockError::Other => LockStep::Proceed { held: false },
            },
        },
    }
}

/// One attempt at the lock: what came of it, and when.
pub ghost struct Attempt {
    pub result: Result<(), FlockError>,
    pub now: u64,
}

/// Whether a hook that started at `start` can have made these attempts: each but
/// the last was followed by a sleep, which took at least the interval.
pub open spec fn is_polling(attempts: Seq<Attempt>, start: u64, deadline: u64) -> bool {
    &&& attempts.len() > 0 ==> start <= attempts[0].now
    &&& forall|i: int|
        0 <= i < attempts.len() - 1 ==> next_step(
            LockEvent::Tried { result: (#[trigger] attempts[i]).result, now: attempts[i].now },
            deadline,
        ) == (LockStep::Sleep { nanos: POLL_INTERVAL })
    &&& forall|i: int, j: int|
        0 <= i < j < attempts.len() ==> (#[trigger] attempts[i]).now + POLL_INTERVAL <= (
        #[trigger] attempts[j]).now
}

proof fn lemma_polling_time(attempts: Seq<Attempt>, start: u64, deadline: u64, i: int)
    requires
        is_polling(attempts, start, deadline),
        0 <= i < attempts.len(),
    ensures
        attempts[i].now >= start + i * POLL_INTERVAL,
    decreases i,
{
    if i > 0 {
        lemma_polling_time(attempts, start, deadline, i - 1);
        assert(attempts[i - 1].now + POLL_INTERVAL <= attempts[i].now);
    }
}

/// The wait is bounded: a hook that polls until its deadline makes only so many
/// attempts before it proceeds, with the lock or without.
pub proof fn polling_is_bounded(attempts: Seq<Attempt>, start: u64, deadline: u64)
    requires
        is_polling(attempts, start, deadline),
        attempts.len() >= 2,
    ensures
        start + (attempts.len() - 2) * POLL_INTERVAL < deadline,
{
    let last_sleep = attempts.len() - 2;
    lemma_polling_time(attempts, start, deadline, last_sleep);
    assert(next_step(
        LockEvent::Tried {
            result: attempts[last_sleep].result,
            now: attempts[last_sleep].now,
        },
        deadline,
    ) == (LockStep::Sleep { nanos: POLL_INTERVAL }));
}

/// A hook makes at most one attempt more than intervals fit into the wait.
pub proof fn acquire_is_bounded(attempts: Seq<Attempt>, start: u64, deadline: u64)
    requires
        is_polling(attempts, start, deadline),
        deadline == start + LOCK_WAIT,
    ensures
        attempts.len() <= LOCK_WAIT / POLL_INTERVAL + 1,
{
    if attempts.len() >= 2 {
        polling_is_bounded(attempts, start, deadline);
    }
}

/// A contender waits out its deadline: where the lock is only held by another
/// hook, a hook gives up at the deadline or after it, and never before.
pub proof fn contender_waits_out_its_deadline(error: FlockError, now: u64, deadline: u64)
    requires
        may_retry(error),
    ensures
        next_step(LockEvent::Tried { result: Err(error), now }, deadline) == (LockStep::Proceed {
            held: false,
        }) <==> now >= deadline,
{
}

/// An attempt that another hook blocks, or a signal interrupts, before the
/// deadline is followed by a sleep of exactly one interval, ten milliseconds, and
/// then by another attempt, however far off the deadline is.
pub proof fn blocked_attempt_is_repeated_after_one_interval(
    error: FlockError,
    now: u64,
    deadline: u64,
)
    requires
        error == FlockError::WouldBlock || error == FlockError::Interrupted,
        now < deadline,
    ensures
        next_step(LockEvent::Tried { result: Err(error), now }, deadline) == (LockStep::Sleep {
            nanos: 10_000_000,
        }),
        next_step(LockEvent::Slept, deadline) == LockStep::Try,
{
}

/// A hook that cannot have the lock goes on without it: at once where the file
/// does not open or the attempt fails for good, and else from the deadline on.
pub proof fn hook_goes_on_without_the_lock(error: FlockError, now: u64, deadline: u64)
    requires
        error == FlockError::Other || now >= deadline,
    ensures
        next_step(LockEvent::OpenFailed, deadline) == (LockStep::Proceed { held: false }),
        next_step(LockEvent::Tried { result: Err(error), now }, deadline) == (LockStep::Proceed {
            held: false,
        }),
{
}

/// An open file is tried at once, and a granted lock is used at once, whatever
/// the time is.
pub proof fn free_lock_is_taken_at_once(now: u64, deadline: u64)
    ensures
        next_step(LockEvent::Opened, deadline) == LockStep::Try,
        next_step(LockEvent::Tried { result: Ok(()), now }, deadline) == (LockStep::Proceed {
            held: true,
        }),
{
}

/// How a hook ends that follows its steps from `event` at time `now`, where the
/// lock is free from the time `released` on and nothing but sleeping takes time:
/// whether it holds the lock, and when it goes on. `None` where `steps` are too
/// few.
pub open spec fn followed(
    event: LockEvent,
    now: int,
    deadline: u64,
    released: int,
    steps: nat,
) -> Option<(bool, int)>
    decreases steps,
{
    if steps == 0 {
        None
    } else {
        let left = (steps - 1) as nat;
        match next_step(event, deadline) {
            LockStep::Proceed { held } => Some((held, now)),
            LockStep::Sleep { nanos } => followed(
                LockEvent::Slept,
                now + nanos,
                deadline,
                released,
                left,
            ),
            LockStep::Try => {
                let result = if now >= released {
                    Ok(())
                } else {
                    Err(FlockError::WouldBlock)
                };
                followed(
                    LockEvent::Tried { result, now: now as u64 },
                    now,
                    deadline,
                    released,
                    left,
                )
            },
        }
    }
}

/// A hook that contends for a lock, from its first attempt to its end, which
/// comes after two steps and two more for each interval that is left. Where its
/// predecessor lets go by the deadline, it has the lock within one interval of
/// that. Where not, and the lock is not free when it looks for the last time, it
/// goes on without the lock, at the deadline or less than an interval after it.
pub proof fn contending_hook_ends_in_time(
    first: bool,
    now: int,
    deadline: u64,
    released: int,
    intervals: nat,
    steps: nat,
)
    requires
        0 <= now,
        now <= u64::MAX,
        deadline + 10_000_000 <= u64::MAX,
        now + intervals * 10_000_000 >= deadline,
        steps >= 2 * intervals + 2,
    ensures
        ({
            let event = if first {
                LockEvent::Opened
            } else {
                LockEvent::Slept
            };
            let end = followed(event, now, deadline, released, steps);
            &&& end matches Some((held, at))
            &&& held <==> at >= released
            &&& at >= now
            &&& released <= deadline ==> held
            &&& held && now < released ==> at < released + 10_000_000
            &&& held && now >= released ==> at == now
            &&& !held ==> at >= deadline
            &&& now < deadline ==> at < deadline + 10_000_000
            &&& now >= deadline ==> at == now
        }),
    decreases intervals,
{
    reveal_with_fuel(followed, 3);
    if now < released && now < deadline {
        contending_hook_ends_in_time(
            false,
            now + 10_000_000,
            deadline,
            released,
            (intervals - 1) as nat,
            (steps - 2) as nat,
        );
    }
}

/// Only an attempt that another hook blocked or a signal interrupted may do
/// better when repeated.
pub proof fn only_contention_is_worth_a_retry(error: FlockError)
    ensures
        may_retry(error) <==> error == FlockError::WouldBlock || error
            == FlockError::Interrupted,
        may_retry(error) <==> error != FlockError::Other,
{
}

/// The lock counts as held after a successful attempt and after nothing else.
pub proof fn lock_is_held_only_when_granted(event: LockEvent, deadline: u64)
    ensures
        next_step(event, deadline) == (LockStep::Proceed { held: true }) <==> (
        event is Tried && event->result is Ok),
{
}

} // verus!
