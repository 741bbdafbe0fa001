//! Counter for active downstream connections.
//!
//! The server process owns one shared instance and exposes it to an exporter;
//! the streaming core only calls the open/close hooks, so observability never
//! touches the core's own state.

use vstd::prelude::*;

verus! {

/// Tracks how many downstream connections are currently open.
pub struct ConnectionMetrics {
    active: usize,
}

impl ConnectionMetrics {
    /// A fresh counter with no connections recorded.
    pub fn new() -> (r: Self)
        ensures
            r.active_count() == 0,
    {
        ConnectionMetrics { active: 0 }
    }

    /// The number of connections currently recorded as open.
    pub closed spec fn active_count(&self) -> int {
        self.active as int
    }

    /// Record that one more connection was opened.
    pub fn ws_connection_opened(&mut self)
        requires
            old(self).active_count() < usize::MAX,
        ensures
            final(self).active_count() == old(self).active_count() + 1,
    {
        self.active = self.active + 1;
    }

    /// Record that one connection was closed; never drops below zero.
    pub fn ws_connection_closed(&mut self)
        ensures
            final(self).active_count() == if old(self).active_count() > 0 {
                old(self).active_count() - 1
            } else {
                0
            },
    {
        if self.active > 0 {
            self.active = self.active - 1;
        }
    }

    /// The current count of open connections.
    pub fn get_active_ws_connections(&self) -> (r: usize)
        ensures
            r as int == self.active_count(),
    {
        self.active
    }

    /// Forget all recorded connections.
    pub fn reset_ws_connections(&mut self)
        ensures
            final(self).active_count() == 0,
    {
        self.active = 0;
    }
}

} // verus!
