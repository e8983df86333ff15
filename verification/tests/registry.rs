use riverbar::registry::{buffer_layout, OutputContext, OutputRegistry};

#[test]
fn test_buffer_index_alternates() {
    let mut reg = OutputRegistry::new(2);
    assert_eq!(reg.add_output(OutputContext::new(800, 24)).unwrap(), 0);
    assert_eq!(reg.add_output(OutputContext::new(640, 20)).unwrap(), 1);
    reg.mark_ready(0);

    // The buffer index of display 0 strictly alternates 0, 1, 0, 1, ...
    assert_eq!(reg.contexts[0].current_buffer_index, 0);
    let req = reg.commit_output(0, 0, 800);
    assert_eq!(req.buffer_index, 1);
    assert_eq!(reg.contexts[0].current_buffer_index, 1);
    let req = reg.commit_output(0, 0, 800);
    assert_eq!(req.buffer_index, 0);
    assert_eq!(reg.contexts[0].current_buffer_index, 0);
    let req = reg.commit_output(0, 0, 800);
    assert_eq!(req.buffer_index, 1);
    assert_eq!(reg.contexts[0].current_buffer_index, 1);

    // ... independent of the other display, which is untouched.
    assert_eq!(reg.contexts[1].current_buffer_index, 0);
    assert!(!reg.contexts[1].ready_to_draw);
    assert_eq!(reg.contexts[1].width, 640);
}

#[test]
fn test_begin_draw_noops_until_ready() {
    let ctx = OutputContext::new(800, 24);
    assert!(ctx.begin_draw().is_none());
    let mut reg = OutputRegistry::new(1);
    reg.add_output(ctx).unwrap();
    reg.mark_ready(0);
    // Draw target is the buffer the display server does not own.
    assert_eq!(reg.contexts[0].begin_draw(), Some(1));
}

#[test]
fn test_registry_grows_only_to_capacity() {
    let mut reg = OutputRegistry::new(1);
    assert!(reg.add_output(OutputContext::new(800, 24)).is_ok());
    let err = reg.add_output(OutputContext::new(640, 20));
    assert!(err.is_err());
    assert_eq!(err.unwrap_err().capacity, 1);
    assert_eq!(reg.contexts.len(), 1);
    assert_eq!(reg.contexts[0].width, 800);
}

#[test]
fn test_commit_damage_passes_through() {
    let mut reg = OutputRegistry::new(1);
    reg.add_output(OutputContext::new(1920, 29)).unwrap();
    reg.mark_ready(0);
    let req = reg.commit_output(0, 1500, 420);
    assert_eq!(req.damage_x, 1500);
    assert_eq!(req.damage_width, 420);
}

#[test]
fn test_buffer_layout_values() {
    let l = buffer_layout(100, 20).unwrap();
    assert_eq!(l.stride, 400);
    assert_eq!(l.buffer_size, 8000);
    assert_eq!(l.offset0, 0);
    assert_eq!(l.offset1, 8000);
    assert_eq!(l.pool_size, 16000);
}

#[test]
fn test_buffer_layout_rejects_oversized_pool() {
    // 8 * 20000 * 20000 does not fit the protocol's signed 32-bit size.
    assert!(buffer_layout(20000, 20000).is_none());
    assert!(buffer_layout(i32::MAX, 1).is_none());
    assert!(buffer_layout(1, 1).is_some());
}
