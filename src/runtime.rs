use vstd::prelude::*;

verus! {

/// The run state of a client or server: whether it runs and whether its
/// workers have been told to stop.
#[derive(Debug)]
pub struct Lifecycle {
    time_to_die: bool,
    running: bool,
}

impl Lifecycle {
    pub closed spec fn spec_running(&self) -> bool {
        self.running
    }

    pub closed spec fn spec_stopping(&self) -> bool {
        self.time_to_die
    }

    pub fn new() -> (r: Lifecycle)
        ensures
            !r.spec_running(),
            !r.spec_stopping(),
    {
        Lifecycle { time_to_die: false, running: false }
    }

    /// Marks the workers started.
    pub fn mark_started(&mut self)
        ensures
            final(self).spec_running(),
            final(self).spec_stopping() == old(self).spec_stopping(),
    {
        self.running = true;
    }

    pub fn is_running(&self) -> (r: bool)
        ensures
            r == self.spec_running(),
    {
        self.running
    }

    /// Whether a worker should leave its loop.
    pub fn should_exit(&self) -> (r: bool)
        ensures
            r == self.spec_stopping(),
    {
        self.time_to_die
    }

    /// First step of a shutdown: the workers are told to stop. Returns
    /// whether the helper that unblocks them can be started, which needs the
    /// local address and port.
    pub fn begin_shutdown(&mut self, endpoint_known: bool) -> (r: bool)
        ensures
            final(self).spec_stopping(),
            final(self).spec_running() == old(self).spec_running(),
            r == endpoint_known,
    {
        self.time_to_die = true;
        endpoint_known
    }

    /// Last step of a shutdown, once the workers have been joined: the
    /// service no longer runs. Returns whether every join succeeded.
    pub fn finish_shutdown(&mut self, all_joined: bool) -> (r: bool)
        requires
            old(self).spec_stopping(),
        ensures
            !final(self).spec_running(),
            final(self).spec_stopping(),
            r == all_joined,
    {
        self.running = false;
        all_joined
    }
}

/// Whether the last socket operation failed, and whether the application
/// has been told so.
#[derive(Debug)]
pub struct ConnectionState {
    current: bool,
    previous: bool,
}

impl ConnectionState {
    pub closed spec fn spec_degraded(&self) -> bool {
        self.current
    }

    pub closed spec fn spec_reported(&self) -> bool {
        self.previous
    }

    pub fn new() -> (r: ConnectionState)
        ensures
            !r.spec_degraded(),
            !r.spec_reported(),
    {
        ConnectionState { current: false, previous: false }
    }

    pub fn is_degraded(&self) -> (r: bool)
        ensures
            r == self.spec_degraded(),
    {
        self.current
    }

    /// Records the outcome of a socket operation.
    pub fn set_outcome(&mut self, ok: bool)
        ensures
            final(self).spec_degraded() == !ok,
            final(self).spec_reported() == old(self).spec_reported(),
    {
        self.current = !ok;
    }

    /// The new state when it differs from the last one reported, which it
    /// then becomes; `None` when nothing changed.
    pub fn take_change(&mut self) -> (r: Option<bool>)
        ensures
            final(self).spec_degraded() == old(self).spec_degraded(),
            final(self).spec_reported() == old(self).spec_degraded(),
            r == if old(self).spec_degraded() != old(self).spec_reported() {
                Some(old(self).spec_degraded())
            } else {
                None
            },
    {
        if self.current != self.previous {
            self.previous = self.current;
            Some(self.current)
        } else {
            None
        }
    }
}

} // verus!
