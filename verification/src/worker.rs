//! The caller-visible worker handle and its lifecycle.
//!
//! One handle stands for one spawned process running exactly one job: it
//! carries the process id and the socket path used for cleanup.  The
//! process handle, the socket and the queue's receiving end live outside,
//! behind exclusive access.  Releasing the handle yields a cleanup plan —
//! kill the process, remove the socket path — whose steps are each
//! best-effort for the holder: a dead process or a missing path is
//! tolerated, never escalated.  Release itself cannot fail and is
//! idempotent: a second release asks for nothing.

use vstd::prelude::*;

verus! {

/// The cleanup steps a holder must attempt, each best-effort: a failure
/// of one (the process already gone, the path already removed) is logged
/// by the holder, not escalated, and does not block the other.
#[derive(Clone, Copy, Debug, PartialEq, Eq, Structural)]
pub struct CleanupPlan {
    /// Terminate the worker process.
    pub kill_process: bool,
    /// Remove the socket path from the filesystem.
    pub remove_socket: bool,
}

impl CleanupPlan {
    /// The plan that asks for nothing.
    pub open spec fn empty() -> CleanupPlan {
        CleanupPlan { kill_process: false, remove_socket: false }
    }

    /// The plan that tears a worker fully down.
    pub open spec fn full() -> CleanupPlan {
        CleanupPlan { kill_process: true, remove_socket: true }
    }
}

/// Mathematical shape of a `Worker`.
pub struct WorkerView {
    pub pid: u32,
    pub socket_file: Seq<char>,
    pub released: bool,
}

/// The handle for one spawned worker process.  It is constructed only
/// once the handshake has gone through, and is not reusable for a second
/// job.
#[derive(Debug)]
pub struct Worker {
    pid: u32,
    socket_file: String,
    released: bool,
}

impl View for Worker {
    type V = WorkerView;

    closed spec fn view(&self) -> WorkerView {
        WorkerView { pid: self.pid, socket_file: self.socket_file@, released: self.released }
    }
}

/// What releasing a worker in this state asks its holder to do: a full
/// teardown the first time, nothing after that.
pub open spec fn release_plan(w: WorkerView) -> CleanupPlan {
    if w.released {
        CleanupPlan::empty()
    } else {
        CleanupPlan::full()
    }
}

/// The state after a release: the same worker, marked released.
pub open spec fn released_state(w: WorkerView) -> WorkerView {
    WorkerView { pid: w.pid, socket_file: w.socket_file, released: true }
}

impl Worker {
    /// Makes the handle for a freshly spawned, connected worker.
    pub fn new(pid: u32, socket_file: String) -> (w: Worker)
        ensures
            w@ == (WorkerView { pid, socket_file: socket_file@, released: false }),
    {
        Worker { pid, socket_file, released: false }
    }

    /// The spawned process's id.
    pub fn pid(&self) -> (r: u32)
        ensures
            r == self@.pid,
    {
        self.pid
    }

    /// The socket path the worker was bound to.
    pub fn socket_file(&self) -> (r: &str)
        ensures
            r@ == self@.socket_file,
    {
        self.socket_file.as_str()
    }

    /// Whether the handle has already been released.
    pub fn is_released(&self) -> (r: bool)
        ensures
            r == self@.released,
    {
        self.released
    }

    /// Law: releasing never fails and is idempotent.  It always returns
    /// a plan — a full teardown the first time, the empty plan on every
    /// later call — and leaves the handle released either way.
    pub fn release(&mut self) -> (plan: CleanupPlan)
        ensures
            plan == release_plan(old(self)@),
            final(self)@ == released_state(old(self)@),
    {
        if self.released {
            CleanupPlan { kill_process: false, remove_socket: false }
        } else {
            self.released = true;
            CleanupPlan { kill_process: true, remove_socket: true }
        }
    }
}

/// Law: idempotent release.  After one release the handle is released;
/// a second release (in particular one after the process already exited
/// or the socket path was already removed — the plan's steps are
/// best-effort and tolerate both) asks for nothing and changes nothing.
pub proof fn lemma_release_idempotent(w: WorkerView)
    ensures
        released_state(released_state(w)) == released_state(w),
        release_plan(released_state(w)) == CleanupPlan::empty(),
        !w.released ==> release_plan(w) == CleanupPlan::full(),
{
}

} // verus!
