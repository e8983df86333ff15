//! Discovery of the display protocol's global objects.
//!
//! Several protocol capabilities must all be bound before a feature may
//! activate: a display can be configured only once the shared-memory,
//! compositor and layer-shell globals are bound, and window-manager state
//! can be watched only once the seat and the status manager are bound.
//! Instead of scattering nullable globals across event handlers, the
//! bindings are one explicit record with a phase derived from it, and
//! guards that refuse to act too early.

use vstd::prelude::*;

verus! {

/// A protocol global the bar needs.
pub enum Capability {
    /// Shared-memory buffer support.
    Shm,
    /// The compositor, which creates surfaces.
    Compositor,
    /// The layer shell, which anchors the bar's surfaces.
    LayerShell,
    /// The seat, whose keyboard delivers the termination key.
    Seat,
    /// The window-manager status source for tags and titles.
    StatusManager,
}

/// How far discovery has progressed.
#[derive(PartialEq, Eq, Structural, Debug)]
pub enum DiscoveryPhase {
    /// Some core capability is still missing; nothing may be configured.
    Discovering,
    /// Displays may be configured, but window-manager state cannot be
    /// watched yet.
    CoreBound,
    /// Everything the bar needs is bound.
    Ready,
}

/// Which of the required protocol globals have been bound so far. Bindings
/// only ever appear; none is ever unbound.
pub struct DiscoveryState {
    pub shm: bool,
    pub compositor: bool,
    pub layer_shell: bool,
    pub seat: bool,
    pub status_manager: bool,
}

impl DiscoveryState {
    /// The core capabilities a display's surface setup needs.
    pub open spec fn core_bound(self) -> bool {
        self.shm && self.compositor && self.layer_shell
    }

    /// The capabilities needed to watch window-manager state.
    pub open spec fn status_bound(self) -> bool {
        self.seat && self.status_manager
    }

    /// Nothing bound yet.
    pub fn new() -> (s: DiscoveryState)
        ensures
            !s.shm && !s.compositor && !s.layer_shell && !s.seat && !s.status_manager,
    {
        DiscoveryState {
            shm: false,
            compositor: false,
            layer_shell: false,
            seat: false,
            status_manager: false,
        }
    }

    /// Records that one global was bound. Bindings never disappear: every
    /// capability bound before stays bound.
    pub fn bind(&mut self, cap: Capability)
        ensures
            final(self).shm == (old(self).shm || cap is Shm),
            final(self).compositor == (old(self).compositor || cap is Compositor),
            final(self).layer_shell == (old(self).layer_shell || cap is LayerShell),
            final(self).seat == (old(self).seat || cap is Seat),
            final(self).status_manager == (old(self).status_manager || cap is StatusManager),
    {
        match cap {
            Capability::Shm => {
                self.shm = true;
            },
            Capability::Compositor => {
                self.compositor = true;
            },
            Capability::LayerShell => {
                self.layer_shell = true;
            },
            Capability::Seat => {
                self.seat = true;
            },
            Capability::StatusManager => {
                self.status_manager = true;
            },
        }
    }

    /// Guard for display setup: true exactly when the shared-memory,
    /// compositor and layer-shell globals are all bound.
    pub fn can_configure_output(&self) -> (r: bool)
        ensures
            r == self.core_bound(),
    {
        self.shm && self.compositor && self.layer_shell
    }

    /// Guard for watching window-manager state: true exactly when the seat
    /// and the status manager are both bound.
    pub fn can_watch_status(&self) -> (r: bool)
        ensures
            r == self.status_bound(),
    {
        self.seat && self.status_manager
    }

    /// The phase discovery is in: `Ready` once everything is bound,
    /// `CoreBound` once displays may be configured, `Discovering` before
    /// that.
    pub fn phase(&self) -> (p: DiscoveryPhase)
        ensures
            p == (if self.core_bound() && self.status_bound() {
                DiscoveryPhase::Ready
            } else if self.core_bound() {
                DiscoveryPhase::CoreBound
            } else {
                DiscoveryPhase::Discovering
            }),
    {
        if self.shm && self.compositor && self.layer_shell {
            if self.seat && self.status_manager {
                DiscoveryPhase::Ready
            } else {
                DiscoveryPhase::CoreBound
            }
        } else {
            DiscoveryPhase::Discovering
        }
    }
}

} // verus!
