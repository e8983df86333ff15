use riverbar::discovery::{Capability, DiscoveryPhase, DiscoveryState};

#[test]
fn test_discovery_phases() {
    let mut d = DiscoveryState::new();
    assert_eq!(d.phase(), DiscoveryPhase::Discovering);
    assert!(!d.can_configure_output());
    assert!(!d.can_watch_status());

    d.bind(Capability::Shm);
    d.bind(Capability::Compositor);
    assert_eq!(d.phase(), DiscoveryPhase::Discovering);
    assert!(!d.can_configure_output());

    d.bind(Capability::LayerShell);
    assert_eq!(d.phase(), DiscoveryPhase::CoreBound);
    assert!(d.can_configure_output());
    assert!(!d.can_watch_status());

    d.bind(Capability::Seat);
    assert_eq!(d.phase(), DiscoveryPhase::CoreBound);

    d.bind(Capability::StatusManager);
    assert_eq!(d.phase(), DiscoveryPhase::Ready);
    assert!(d.can_watch_status());
}

#[test]
fn test_discovery_bindings_never_disappear() {
    let mut d = DiscoveryState::new();
    d.bind(Capability::Shm);
    d.bind(Capability::Shm);
    assert!(d.shm);
    d.bind(Capability::Seat);
    assert!(d.shm && d.seat);
    assert!(!d.compositor && !d.layer_shell && !d.status_manager);
}
