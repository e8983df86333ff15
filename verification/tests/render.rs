use riverbar::render::{bar_fraction, bitflag_to_pos, layout_blocks, BarState, BLOCK_SPACING};

#[test]
fn test_bitflag() {
    assert_eq!(bitflag_to_pos(0b1), 1);
    assert_eq!(bitflag_to_pos(0b100), 3);
}

#[test]
fn test_bitflag_to_pos_more_values() {
    assert_eq!(bitflag_to_pos(0), 0);
    assert_eq!(bitflag_to_pos(0b10), 2);
    assert_eq!(bitflag_to_pos(1 << 31), 32);
}

#[test]
fn test_bar_fraction_floor_divides() {
    assert_eq!(bar_fraction(1000), 15);
    assert_eq!(bar_fraction(1920), 28);
    assert_eq!(bar_fraction(66), 0);
    assert_eq!(bar_fraction(0), 0);
}

#[test]
fn test_layout_blocks_right_to_left() {
    assert_eq!(BLOCK_SPACING, 10);
    let widths = vec![30, 50];
    let plan = layout_blocks(&widths, 500);
    assert_eq!(plan.offsets, vec![460, 400]);
    assert_eq!(plan.damage_x, 400);
    assert_eq!(plan.damage_width, 100);
}

#[test]
fn test_layout_blocks_empty_line() {
    let widths: Vec<i32> = Vec::new();
    let plan = layout_blocks(&widths, 500);
    assert!(plan.offsets.is_empty());
    assert_eq!(plan.damage_x, 500);
    assert_eq!(plan.damage_width, 0);
}

#[test]
fn test_rendered_tags_inserts_focused_tag() {
    let mut bar = BarState::new();
    bar.set_view_tags(&vec![1, 4]);
    bar.set_focused_tag(2);
    // The focused tag joins the rendered set, in ascending order.
    assert_eq!(bar.rendered_tags(), vec![1, 2, 4]);
}

#[test]
fn test_rendered_tags_without_insertion() {
    let mut bar = BarState::new();
    bar.set_view_tags(&vec![4, 1, 4]);
    bar.set_focused_tag(4);
    assert_eq!(bar.rendered_tags(), vec![1, 4]);
}

#[test]
fn test_draw_plan_marks_focused_cell() {
    let mut bar = BarState::new();
    bar.set_view_tags(&vec![1, 4]);
    bar.set_focused_tag(2);
    let shown = bar.rendered_tags();
    let plan = bar.compute_draw_plan(1000, 40, &shown);
    assert_eq!(plan.cell_width, 15);
    assert_eq!(plan.cells.len(), 3);
    // Cells left to right in ascending tag order, focused tag marked even
    // though it is not an active tag.
    assert_eq!(plan.cells[0].offset, 0);
    assert_eq!(plan.cells[1].offset, 15);
    assert_eq!(plan.cells[2].offset, 30);
    assert!(!plan.cells[0].focused);
    assert!(plan.cells[1].focused);
    assert!(!plan.cells[2].focused);
    // Labels are bit positions: 0b1 -> 1, 0b10 -> 2, 0b100 -> 3.
    assert_eq!(plan.cells[0].label, 1);
    assert_eq!(plan.cells[1].label, 2);
    assert_eq!(plan.cells[2].label, 3);
    assert_eq!(plan.title_x, 45);
    assert_eq!(plan.new_length, 85);
}

#[test]
fn test_first_draw_clears_whole_output() {
    let mut bar = BarState::new();
    let shown = bar.rendered_tags();
    assert_eq!(bar.previous_tags_and_title_length, -1);
    let plan = bar.compute_draw_plan(1000, 20, &shown);
    assert!(plan.clear_all);
    // With the sentinel resolved, the first draw damages its own extent.
    assert_eq!(plan.new_length, 15 + 20);
    assert_eq!(plan.damage_width, 35);
    assert_eq!(plan.erase_width, 35);
    assert_eq!(bar.previous_tags_and_title_length, 35);

    let shown = bar.rendered_tags();
    let plan = bar.compute_draw_plan(1000, 20, &shown);
    assert!(!plan.clear_all);
    assert_eq!(plan.damage_width, 35);
}

#[test]
fn test_damage_never_under_covers_shrinking_title() {
    let mut bar = BarState::new();
    let cell = bar_fraction(1000);
    let title_ab = 20;  // measured width of a title like "AB"
    let title_a = 10;  // measured width of the shorter title "A"

    let shown = bar.rendered_tags();
    bar.compute_draw_plan(1000, title_ab, &shown);

    let shown = bar.rendered_tags();
    let plan = bar.compute_draw_plan(1000, title_a, &shown);
    // The second draw's damage covers everything the first draw painted:
    // at least the wider title plus a tag cell, not just the new title.
    assert!(plan.damage_width >= title_ab + cell);
    assert_eq!(plan.damage_width, cell + title_ab);
    assert!(plan.erase_width >= plan.damage_width);
}
