//! Layout policy of the two draw passes.
//!
//! The block line lays the cached block outputs out right-to-left from the
//! display's right edge with a fixed gap, erases and repaints only the
//! measured boxes, and damages from the leftmost repainted pixel to the
//! right edge. The bar-state pass lays tag cells out left-to-right in
//! ascending tag order, paints the focused window title after the last
//! cell, and damages the width recorded by the previous draw. Text is
//! measured by the rasterization backend outside this crate; every
//! function here takes measured pixel widths as plain integers.

use vstd::prelude::*;
use vstd::arithmetic::div_mod::{lemma_div_is_ordered, lemma_div_multiples_vanish};
use vstd::arithmetic::power2::{lemma2_to64, lemma_pow2_pos, lemma_pow2_unfold, pow2};
use crate::tags::{insert_sorted, normalize_tags, strictly_sorted};

verus! {

/// Horizontal gap, in pixels, left of each block on the block line.
pub const BLOCK_SPACING: i32 = 10;

/// The position at which a tag value is displayed: one more than the index
/// of its highest set bit, and 0 only for the value 0.
pub open spec fn spec_pos(b: nat) -> nat
    decreases b,
{
    if b == 0 {
        0
    } else {
        1 + spec_pos(b / 2)
    }
}

/// Any value below `pow2(n)` has its highest set bit below index `n`.
proof fn lemma_pos_le(b: nat, n: nat)
    requires
        b < pow2(n),
    ensures
        spec_pos(b) <= n,
    decreases n,
{
    if b > 0 {
        assert(pow2(0) == 1) by {
            lemma2_to64();
        }
        assert(n > 0) by {
            if n == 0 {
                assert(b < 1);
            }
        }
        assert(pow2(n) == 2 * pow2((n - 1) as nat)) by {
            lemma_pow2_unfold(n);
        }
        assert(b / 2 < pow2((n - 1) as nat));
        lemma_pos_le(b / 2, (n - 1) as nat);
    }
}

/// Bit-position mapping for a single-bit tag value: the tag `pow2(k)` is
/// displayed at position `k + 1`, one more than the index of its set bit.
pub proof fn lemma_single_bit_position(k: nat)
    ensures
        spec_pos(pow2(k)) == k + 1,
    decreases k,
{
    lemma_pow2_pos(k);
    if k == 0 {
        assert(pow2(0) == 1) by {
            lemma2_to64();
        }
        assert(spec_pos(0) == 0);
        assert(spec_pos(1) == 1 + spec_pos(1nat / 2));
    } else {
        lemma_pow2_unfold(k);
        let p = pow2((k - 1) as nat);
        assert(pow2(k) == 2 * p);
        assert((2 * p) / 2 == p) by {
            lemma_div_multiples_vanish(p as int, 2);
        }
        assert(pow2(k) / 2 == p);
        lemma_single_bit_position((k - 1) as nat);
        assert(spec_pos(pow2(k)) == 1 + spec_pos(p));
    }
}

/// The display position of a tag bit flag: 0 for the value 0, otherwise
/// one more than the index of the highest set bit (so the lowest bit is
/// position 1).
pub fn bitflag_to_pos(bitflag: u32) -> (pos: u32)
    ensures
        pos == spec_pos(bitflag as nat),
        pos <= 32,
{
    proof {
        assert(bitflag < pow2(32)) by {
            lemma2_to64();
        }
        lemma_pos_le(bitflag as nat, 32);
    }
    let mut b = bitflag;
    let mut pos: u32 = 0;
    while b != 0
        invariant
            pos + spec_pos(b as nat) == spec_pos(bitflag as nat),
            spec_pos(bitflag as nat) <= 32,
        decreases b,
    {
        b = b / 2;
        pos = pos + 1;
    }
    pos
}

/// Pixels taken up on the block line by the blocks with these measured
/// text widths: each block's box plus its gap.
pub open spec fn occupied(widths: Seq<i32>) -> int
    decreases widths.len(),
{
    if widths.len() == 0 {
        0
    } else {
        occupied(widths.drop_last()) + widths.last() + BLOCK_SPACING
    }
}

/// With non-negative widths, the occupied width is non-negative.
proof fn lemma_occupied_nonneg(s: Seq<i32>)
    requires
        forall|i: int| 0 <= i < s.len() ==> s[i] >= 0,
    ensures
        occupied(s) >= 0,
    decreases s.len(),
{
    if s.len() > 0 {
        lemma_occupied_nonneg(s.drop_last());
    }
}

/// With non-negative widths, a prefix occupies at most the whole line.
proof fn lemma_occupied_prefix_le(s: Seq<i32>, k: int)
    requires
        0 <= k <= s.len(),
        forall|i: int| 0 <= i < s.len() ==> s[i] >= 0,
    ensures
        occupied(s.take(k)) <= occupied(s),
    decreases s.len() - k,
{
    if k == s.len() {
        assert(s.take(k) =~= s);
    } else {
        assert(s.drop_last().take(k) =~= s.take(k));
        lemma_occupied_prefix_le(s.drop_last(), k);
    }
}

/// The block line, laid out: where each block's bounding box starts, and
/// the damage covering everything that was repainted.
pub struct BlockLinePlan {
    pub offsets: Vec<i32>,
    pub damage_x: i32,
    pub damage_width: i32,
}

/// Lays the blocks out right-to-left from the display's right edge, in
/// block order, each box `BLOCK_SPACING` left of the previous one. The
/// damage rectangle runs from the leftmost offset reached to the right
/// edge, bounding the redraw to the part of the line that can have
/// changed.
pub fn layout_blocks(widths: &Vec<i32>, output_width: i32) -> (plan: BlockLinePlan)
    requires
        output_width >= 0,
        forall|i: int| 0 <= i < widths@.len() ==> widths@[i] >= 0,
        occupied(widths@) <= i32::MAX,
    ensures
        plan.offsets@.len() == widths@.len(),
        forall|i: int|
            0 <= i < widths@.len() ==> plan.offsets@[i] == output_width - occupied(
                widths@.take(i + 1),
            ),
        plan.damage_x == output_width - occupied(widths@),
        plan.damage_width == occupied(widths@),
{
    let n = widths.len();
    let mut offsets: Vec<i32> = Vec::new();
    let mut prev: i32 = output_width;
    let mut i: usize = 0;
    while i < n
        invariant
            i <= n,
            n == widths@.len(),
            output_width >= 0,
            forall|k: int| 0 <= k < widths@.len() ==> widths@[k] >= 0,
            occupied(widths@) <= i32::MAX,
            offsets@.len() == i,
            prev == output_width - occupied(widths@.take(i as int)),
            forall|k: int|
                0 <= k < i ==> offsets@[k] == output_width - occupied(widths@.take(k + 1)),
        decreases n - i,
    {
        proof {
            assert(widths@.take(i + 1).drop_last() =~= widths@.take(i as int));
            assert(widths@.take(i + 1).last() == widths@[i as int]);
            lemma_occupied_prefix_le(widths@, i + 1);
            lemma_occupied_nonneg(widths@.take(i as int));
        }
        let off = prev - widths[i] - BLOCK_SPACING;
        offsets.push(off);
        prev = off;
        i = i + 1;
    }
    proof {
        assert(widths@.take(n as int) =~= widths@);
        lemma_occupied_nonneg(widths@);
    }
    BlockLinePlan { offsets, damage_x: prev, damage_width: output_width - prev }
}

/// The fixed fraction of a display dimension used by the bar: 1.5%,
/// floor-divided. It sizes the bar's height from the display's height and
/// each tag cell's width from the display's width.
pub open spec fn spec_bar_fraction(v: int) -> int {
    v * 15 / 1000
}

/// 1.5% of `v`, floor-divided: the bar's height for a display `v` pixels
/// tall, and a tag cell's width for a display `v` pixels wide.
pub fn bar_fraction(v: i32) -> (r: i32)
    requires
        v >= 0,
    ensures
        r == spec_bar_fraction(v as int),
        0 <= r <= v,
{
    proof {
        assert(v * 15 <= v * 1000) by (nonlinear_arith)
            requires
                v >= 0,
        ;
        lemma_div_is_ordered(v * 15, v * 1000, 1000);
        lemma_div_multiples_vanish(v as int, 1000);
        assert(v * 1000 == 1000 * v);
        assert(v * 15 >= 0) by (nonlinear_arith)
            requires
                v >= 0,
        ;
        lemma_div_is_ordered(0, v * 15, 1000);
    }
    ((v as u64) * 15 / 1000) as i32
}

/// One tag cell of the bar-state pass: where it starts, the position
/// number drawn in it, and whether it is filled as the focused tag.
pub struct TagCell {
    pub offset: i32,
    pub label: u32,
    pub focused: bool,
}

/// One bar-state draw, fully decided: clear the whole output first (only
/// on the very first draw, when the buffer contents are undefined), erase
/// `erase_width` pixels of background, paint the tag cells, paint the
/// title at `title_x`, and damage `[0, damage_width)` at full height.
pub struct BarDrawPlan {
    pub clear_all: bool,
    pub cell_width: i32,
    pub cells: Vec<TagCell>,
    pub title_x: i32,
    pub erase_width: i32,
    pub damage_width: i32,
    pub new_length: i32,
}

/// Total width a bar-state draw paints: the tag cells plus the measured
/// title.
pub open spec fn spec_new_length(cell_width: int, shown_len: nat, title_width: int) -> int {
    cell_width * shown_len + title_width
}

/// The width recorded before a draw, with the first-draw sentinel
/// resolved: a state that has never drawn (-1) records the new length
/// before erasing and damaging.
pub open spec fn spec_effective_previous(previous: int, new_length: int) -> int {
    if previous == -1 {
        new_length
    } else {
        previous
    }
}

/// Live window-manager state shown by the bar: the active tag set in
/// ascending order, the focused tag, the focused window's title, and the
/// width the previous bar-state draw painted (-1 until the first draw).
pub struct BarState {
    pub tags: Vec<u32>,
    pub focused_tag: u32,
    pub title: String,
    pub previous_tags_and_title_length: i32,
}

impl BarState {
    /// The tag list is a sorted set and the recorded width is -1 ("never
    /// drawn") or non-negative.
    pub open spec fn wf(self) -> bool {
        &&& strictly_sorted(self.tags@)
        &&& self.tags@.len() < usize::MAX
        &&& self.previous_tags_and_title_length >= -1
    }

    /// The initial bar state: tag 1 active and focused, a greeting as the
    /// title, nothing drawn yet.
    pub fn new() -> (s: BarState)
        ensures
            s.wf(),
            s.tags@.len() == 1 && s.tags@[0] == 1,
            s.focused_tag == 1,
            s.previous_tags_and_title_length == -1,
    {
        let mut tags: Vec<u32> = Vec::new();
        tags.push(1);
        BarState {
            tags,
            focused_tag: 1,
            title: "Have a nice day!".to_owned(),
            previous_tags_and_title_length: -1,
        }
    }

    /// Replaces the focused window's title.
    pub fn set_title(&mut self, title: String)
        requires
            old(self).wf(),
        ensures
            final(self).wf(),
            final(self).title == title,
            final(self).tags == old(self).tags,
            final(self).focused_tag == old(self).focused_tag,
            final(self).previous_tags_and_title_length == old(
                self,
            ).previous_tags_and_title_length,
    {
        self.title = title;
    }

    /// Replaces the focused tag.
    pub fn set_focused_tag(&mut self, tag: u32)
        requires
            old(self).wf(),
        ensures
            final(self).wf(),
            final(self).focused_tag == tag,
            final(self).tags == old(self).tags,
            final(self).title == old(self).title,
            final(self).previous_tags_and_title_length == old(
                self,
            ).previous_tags_and_title_length,
    {
        self.focused_tag = tag;
    }

    /// Replaces the active tag set with the raw tag words reported by the
    /// window manager, sorted ascending and with duplicates dropped.
    pub fn set_view_tags(&mut self, raw: &Vec<u32>)
        requires
            old(self).wf(),
            raw@.len() < usize::MAX,
        ensures
            final(self).wf(),
            forall|y: u32| final(self).tags@.contains(y) <==> raw@.contains(y),
            final(self).focused_tag == old(self).focused_tag,
            final(self).title == old(self).title,
            final(self).previous_tags_and_title_length == old(
                self,
            ).previous_tags_and_title_length,
    {
        self.tags = normalize_tags(raw);
    }

    /// The tag set actually rendered: the active tags with the focused tag
    /// inserted, in ascending order. The focused tag is never silently
    /// dropped, even when it is not an active tag.
    pub fn rendered_tags(&self) -> (shown: Vec<u32>)
        requires
            self.wf(),
        ensures
            strictly_sorted(shown@),
            forall|y: u32| shown@.contains(y) <==> self.tags@.contains(y) || y
                == self.focused_tag,
            shown@.len() <= self.tags@.len() + 1,
            shown@.contains(self.focused_tag),
    {
        let mut shown = self.tags.clone();
        proof {
            assert(shown@ =~= self.tags@);
        }
        insert_sorted(&mut shown, self.focused_tag);
        shown
    }

    /// Decides one bar-state draw for a display `output_width` pixels
    /// wide, given the rendered tag set (see [`Self::rendered_tags`]) and
    /// the title's measured pixel width, and records the painted width for
    /// the next draw. The damage always spans the width recorded before
    /// this draw, so it covers everything the previous draw painted; the
    /// erased background covers both the previous and the new content.
    pub fn compute_draw_plan(
        &mut self,
        output_width: i32,
        title_width: i32,
        shown: &Vec<u32>,
    ) -> (plan: BarDrawPlan)
        requires
            old(self).wf(),
            output_width >= 0,
            title_width >= 0,
            strictly_sorted(shown@),
            forall|y: u32|
                shown@.contains(y) <==> old(self).tags@.contains(y) || y == old(
                    self,
                ).focused_tag,
            spec_bar_fraction(output_width as int) * shown@.len() + title_width <= i32::MAX,
        ensures
            final(self).wf(),
            final(self).tags == old(self).tags,
            final(self).focused_tag == old(self).focused_tag,
            final(self).title == old(self).title,
            plan.cell_width == spec_bar_fraction(output_width as int),
            plan.cells@.len() == shown@.len(),
            forall|i: int|
                0 <= i < shown@.len() ==> (#[trigger] plan.cells@[i]).offset == plan.cell_width
                    * i,
            forall|i: int|
                0 <= i < shown@.len() ==> (#[trigger] plan.cells@[i]).label == spec_pos(
                    shown@[i] as nat,
                ),
            forall|i: int|
                0 <= i < shown@.len() ==> ((#[trigger] plan.cells@[i]).focused <==> shown@[i]
                    == old(self).focused_tag),
            plan.title_x == plan.cell_width * shown@.len(),
            plan.new_length == spec_new_length(
                plan.cell_width as int,
                shown@.len() as nat,
                title_width as int,
            ),
            plan.clear_all <==> old(self).previous_tags_and_title_length == -1,
            plan.damage_width == spec_effective_previous(
                old(self).previous_tags_and_title_length as int,
                plan.new_length as int,
            ),
            plan.erase_width == vstd::math::max(plan.damage_width as int, plan.new_length as int),
            final(self).previous_tags_and_title_length == plan.new_length,
    {
        let cw = bar_fraction(output_width);
        let n = shown.len();
        let mut cells: Vec<TagCell> = Vec::new();
        let mut off: i32 = 0;
        let mut i: usize = 0;
        while i < n
            invariant
                i <= n,
                n == shown@.len(),
                cw >= 0,
                title_width >= 0,
                cw * n + title_width <= i32::MAX,
                cells@.len() == i,
                off == cw * i,
                forall|k: int| 0 <= k < i ==> (#[trigger] cells@[k]).offset == cw * k,
                forall|k: int|
                    0 <= k < i ==> (#[trigger] cells@[k]).label == spec_pos(shown@[k] as nat),
                forall|k: int|
                    0 <= k < i ==> ((#[trigger] cells@[k]).focused <==> shown@[k]
                        == self.focused_tag),
            decreases n - i,
        {
            proof {
                assert(cw * i + cw == cw * (i + 1)) by (nonlinear_arith);
                assert(cw * (i + 1) <= cw * n) by (nonlinear_arith)
                    requires
                        cw >= 0,
                        i + 1 <= n,
                ;
                assert(cw * i >= 0) by (nonlinear_arith)
                    requires
                        cw >= 0,
                        i >= 0,
                ;
            }
            let t = shown[i];
            let label = bitflag_to_pos(t);
            cells.push(TagCell { offset: off, label, focused: t == self.focused_tag });
            off = off + cw;
            i = i + 1;
        }
        proof {
            assert(cw * n >= 0) by (nonlinear_arith)
                requires
                    cw >= 0,
                    n >= 0,
            ;
        }
        let title_x = off;
        let new_length = off + title_width;
        let damage_width = if self.previous_tags_and_title_length == -1 {
            new_length
        } else {
            self.previous_tags_and_title_length
        };
        let erase_width = if damage_width >= new_length {
            damage_width
        } else {
            new_length
        };
        let clear_all = self.previous_tags_and_title_length == -1;
        self.previous_tags_and_title_length = new_length;
        BarDrawPlan { clear_all, cell_width: cw, cells, title_x, erase_width, damage_width, new_length }
    }
}

/// Bar-state damage never under-covers. A draw paints
/// `spec_new_length(cell_width, shown_len, title_width)` pixels and the
/// next draw damages exactly the width so recorded — so after drawing any
/// title, the following draw's damage is at least that title's width plus
/// one tag cell, never just the width of the newer, possibly shorter
/// title.
pub proof fn lemma_damage_never_under_covers(
    cell_width: int,
    len1: nat,
    title_width1: int,
    len2: nat,
    title_width2: int,
)
    requires
        cell_width >= 0,
        title_width1 >= 0,
        len1 >= 1,
    ensures
        spec_effective_previous(
            spec_new_length(cell_width, len1, title_width1),
            spec_new_length(cell_width, len2, title_width2),
        ) >= title_width1 + cell_width,
{
    assert(cell_width * len1 >= cell_width * 1) by (nonlinear_arith)
        requires
            cell_width >= 0,
            len1 >= 1,
    ;
}

} // verus!
