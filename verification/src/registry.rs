//! Per-display render contexts and the double-buffer commit protocol.
//!
//! Each physical display gets one [`OutputContext`]: its geometry, a
//! readiness flag, and the index of the pixel buffer currently owned by the
//! display server. Drawing always targets the other buffer; committing a
//! frame attaches the drawn buffer, declares a damage rectangle, requests a
//! surface commit and flips the index. The [`OutputRegistry`] holds the
//! contexts behind one exclusive lock in the surrounding program; it only
//! grows, and only up to the display count its backing memory was sized
//! for.

use vstd::prelude::*;

verus! {

/// Render state of one physical display. `current_buffer_index` selects
/// the buffer owned by the display server, so the draw target is always
/// the other one. The pixel buffers themselves, the surface handle and the
/// buffer handles live with the display-protocol collaborator; they are
/// addressed from here by index.
pub struct OutputContext {
    pub ready_to_draw: bool,
    pub width: i32,
    pub height: i32,
    pub current_buffer_index: usize,
}

/// One finished redraw, as the requests the display server must see:
/// attach buffer `buffer_index`, declare the damage rectangle
/// `[damage_x, damage_x + damage_width) x [0, height)`, commit.
pub struct CommitRequest {
    pub buffer_index: usize,
    pub damage_x: i32,
    pub damage_width: i32,
}

/// `c` with its buffer index flipped to the other buffer.
pub open spec fn spec_flipped(c: OutputContext) -> OutputContext {
    OutputContext { current_buffer_index: (1 - c.current_buffer_index as int) as usize, ..c }
}

impl OutputContext {
    /// Geometry is non-negative and the buffer index picks one of the two
    /// buffers.
    pub open spec fn wf(self) -> bool {
        self.width >= 0 && self.height >= 0 && self.current_buffer_index < 2
    }

    /// A freshly discovered display: not yet ready to draw (its surface
    /// configuration has not been acknowledged), buffer 0 owned by the
    /// display server.
    pub fn new(width: i32, height: i32) -> (c: OutputContext)
        requires
            width >= 0,
            height >= 0,
        ensures
            c.wf(),
            !c.ready_to_draw,
            c.width == width,
            c.height == height,
            c.current_buffer_index == 0,
    {
        OutputContext { ready_to_draw: false, width, height, current_buffer_index: 0 }
    }

    /// The index of the buffer to draw into, if this context may be drawn
    /// at all: always the buffer not owned by the display server, and
    /// nothing (the draw must no-op) while the context is not ready.
    pub fn begin_draw(&self) -> (r: Option<usize>)
        requires
            self.wf(),
        ensures
            r is Some <==> self.ready_to_draw,
            r is Some ==> r->0 == 1 - self.current_buffer_index && r->0 < 2,
    {
        if self.ready_to_draw {
            Some(1 - self.current_buffer_index)
        } else {
            None
        }
    }

    /// Finishes one redraw of this output: returns the attach + damage +
    /// commit request for the drawn buffer and flips the buffer index, so
    /// the display server now owns what was just drawn.
    pub fn commit(&mut self, damage_x: i32, damage_width: i32) -> (req: CommitRequest)
        requires
            old(self).wf(),
            old(self).ready_to_draw,
        ensures
            final(self).wf(),
            *final(self) == spec_flipped(*old(self)),
            final(self).current_buffer_index == 1 - old(self).current_buffer_index,
            req.buffer_index == 1 - old(self).current_buffer_index,
            req.damage_x == damage_x,
            req.damage_width == damage_width,
    {
        let drawn = 1 - self.current_buffer_index;
        self.current_buffer_index = drawn;
        CommitRequest { buffer_index: drawn, damage_x, damage_width }
    }
}

/// Flipping picks the other of the two buffers and is an involution: the
/// index after a commit differs from the index before it, and two commits
/// return to the starting index. A display's buffer index therefore
/// strictly alternates 0, 1, 0, 1, … across successive commits.
pub proof fn lemma_buffer_index_alternates(c: OutputContext)
    requires
        c.wf(),
    ensures
        spec_flipped(c).current_buffer_index != c.current_buffer_index,
        spec_flipped(spec_flipped(c)) == c,
{
}

/// Where one display's two pixel buffers live inside the shared-memory
/// pool handed to the display server: 4 bytes per pixel, the two buffers
/// back to back.
pub struct BufferLayout {
    pub stride: i32,
    pub buffer_size: i32,
    pub offset0: i32,
    pub offset1: i32,
    pub pool_size: i32,
}

/// Sizes the shared-memory pool backing one display's double buffer:
/// `width * height` pixels of 4 bytes per buffer, two buffers back to
/// back. Returns nothing when the pool would not fit the display
/// protocol's signed 32-bit size — the display cannot be driven then, and
/// the caller must fail rather than attempt partial rendering.
pub fn buffer_layout(width: i32, height: i32) -> (r: Option<BufferLayout>)
    requires
        width >= 0,
        height >= 0,
    ensures
        r is Some <==> 4 * width <= i32::MAX && 8 * width * height <= i32::MAX,
        (r matches Some(l) ==> l.stride == 4 * width && l.buffer_size == 4 * width * height
            && l.offset0 == 0 && l.offset1 == l.buffer_size && l.pool_size == 8 * width
            * height),
{
    let stride64: i64 = 4 * (width as i64);
    if stride64 > i32::MAX as i64 {
        proof {
            assert(8 * (width as int) * (height as int) > i32::MAX || height == 0)
                by (nonlinear_arith)
                requires
                    4 * (width as int) > i32::MAX,
                    height >= 0,
            ;
            if height == 0 {
                assert(8 * (width as int) * (height as int) == 0) by (nonlinear_arith)
                    requires
                        height == 0,
                ;
            }
        }
        return None;
    }
    proof {
        assert(stride64 * (height as int) == 4 * (width as int) * (height as int))
            by (nonlinear_arith)
            requires
                stride64 == 4 * (width as int),
        ;
        assert(0 <= stride64 * (height as int) <= 0x7fff_ffff * 0x7fff_ffff)
            by (nonlinear_arith)
            requires
                0 <= stride64 <= 0x7fff_ffff,
                0 <= (height as int) <= 0x7fff_ffff,
        ;
    }
    let buf64: i64 = stride64 * (height as i64);
    let pool64: i64 = 2 * buf64;
    if pool64 > i32::MAX as i64 {
        proof {
            assert(2 * (4 * (width as int) * (height as int)) == 8 * (width as int) * (
            height as int)) by (nonlinear_arith);
        }
        return None;
    }
    proof {
        assert(2 * (4 * (width as int) * (height as int)) == 8 * (width as int) * (height as int))
            by (nonlinear_arith);
    }
    Some(
        BufferLayout {
            stride: stride64 as i32,
            buffer_size: buf64 as i32,
            offset0: 0,
            offset1: buf64 as i32,
            pool_size: pool64 as i32,
        },
    )
}

/// The registry could not take another display: its backing memory was
/// pre-sized for a fixed display count and growing it is not defined.
#[derive(Debug)]
pub struct RegistryFull {
    pub capacity: usize,
}

/// The collection of per-display render contexts. Index-stable and
/// append-only: a context, once added, is never removed or reordered. The
/// surrounding program guards the whole registry with one exclusive lock
/// and holds it for at most one output's redraw at a time.
pub struct OutputRegistry {
    pub contexts: Vec<OutputContext>,
    pub capacity: usize,
}

impl OutputRegistry {
    /// Within capacity, and every context well-formed.
    pub open spec fn wf(self) -> bool {
        &&& self.contexts@.len() <= self.capacity
        &&& forall|i: int| 0 <= i < self.contexts@.len() ==> (#[trigger] self.contexts@[i]).wf()
    }

    /// An empty registry whose backing memory is pre-sized for `capacity`
    /// displays.
    pub fn new(capacity: usize) -> (r: OutputRegistry)
        ensures
            r.wf(),
            r.capacity == capacity,
            r.contexts@.len() == 0,
    {
        OutputRegistry { contexts: Vec::new(), capacity }
    }

    /// Appends the context of a newly discovered display and returns its
    /// stable index. Beyond the pre-sized capacity this fails loudly —
    /// the growth path of the backing memory is undefined and silent
    /// mis-rendering is not an option — and leaves the registry unchanged.
    pub fn add_output(&mut self, ctx: OutputContext) -> (r: Result<usize, RegistryFull>)
        requires
            old(self).wf(),
            ctx.wf(),
        ensures
            final(self).wf(),
            final(self).capacity == old(self).capacity,
            r is Ok <==> old(self).contexts@.len() < old(self).capacity,
            (r matches Ok(idx) ==> idx == old(self).contexts@.len() && final(self).contexts@
                == old(self).contexts@.push(ctx)),
            r is Err ==> final(self).contexts@ == old(self).contexts@,
    {
        if self.contexts.len() < self.capacity {
            let idx = self.contexts.len();
            self.contexts.push(ctx);
            Ok(idx)
        } else {
            Err(RegistryFull { capacity: self.capacity })
        }
    }

    /// Marks output `index` ready to draw, once the display server has
    /// acknowledged its initial surface configuration. No other context is
    /// touched.
    pub fn mark_ready(&mut self, index: usize)
        requires
            old(self).wf(),
            index < old(self).contexts@.len(),
        ensures
            final(self).wf(),
            final(self).capacity == old(self).capacity,
            final(self).contexts@.len() == old(self).contexts@.len(),
            final(self).contexts@[index as int].ready_to_draw,
            final(self).contexts@[index as int] == (OutputContext {
                ready_to_draw: true,
                ..old(self).contexts@[index as int]
            }),
            forall|j: int|
                0 <= j < old(self).contexts@.len() && j != index ==> final(self).contexts@[j]
                    == old(self).contexts@[j],
    {
        self.contexts[index].ready_to_draw = true;
    }

    /// Runs the commit protocol on output `index` alone: every other
    /// display's state is untouched, so redraws of different outputs are
    /// independent.
    pub fn commit_output(&mut self, index: usize, damage_x: i32, damage_width: i32) -> (req:
        CommitRequest)
        requires
            old(self).wf(),
            index < old(self).contexts@.len(),
            old(self).contexts@[index as int].ready_to_draw,
        ensures
            final(self).wf(),
            final(self).capacity == old(self).capacity,
            final(self).contexts@.len() == old(self).contexts@.len(),
            final(self).contexts@[index as int] == spec_flipped(
                old(self).contexts@[index as int],
            ),
            forall|j: int|
                0 <= j < old(self).contexts@.len() && j != index ==> final(self).contexts@[j]
                    == old(self).contexts@[j],
            req.buffer_index == 1 - old(self).contexts@[index as int].current_buffer_index,
            req.damage_x == damage_x,
            req.damage_width == damage_width,
    {
        let ctx = &mut self.contexts[index];
        ctx.commit(damage_x, damage_width)
    }
}

} // verus!
