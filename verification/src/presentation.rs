//! Presentation: the swapchain settings chosen from what the surface
//! supports, and the bookkeeping around it: which acquire semaphore comes
//! next, when the swapchain must be recreated, and when the resources of
//! an old swapchain may be destroyed.
use vstd::prelude::*;

use crate::device_select::PresentMode;

verus! {

pub const PRESENT_MODE_IMMEDIATE: i32 = 0i32;
pub const PRESENT_MODE_MAILBOX: i32 = 1i32;
pub const PRESENT_MODE_FIFO: i32 = 2i32;

pub const COMPOSITE_ALPHA_OPAQUE: u32 = 0x1u32;
pub const COMPOSITE_ALPHA_PRE_MULTIPLIED: u32 = 0x2u32;
pub const COMPOSITE_ALPHA_POST_MULTIPLIED: u32 = 0x4u32;

/// The 8-bit BGRA sRGB format and the sRGB non-linear color space.
pub const FORMAT_B8G8R8A8_SRGB: i32 = 50i32;
pub const COLOR_SPACE_SRGB_NONLINEAR: i32 = 0i32;

/// The result code of an acquire from a swapchain that no longer matches
/// its surface.
pub const ERROR_OUT_OF_DATE: i32 = -1000001004i32;

/// Frames that a retired set of semaphores outlives its swapchain.
pub const CONDEMNED_FRAMES: u32 = 4u32;

/// What the surface supports, as the swapchain reads it.
#[derive(Debug, Clone, Copy)]
pub struct SurfaceCapabilities {
    /// `u32::MAX` in width when the swapchain decides the extent.
    pub current_extent: (u32, u32),
    pub min_image_extent: (u32, u32),
    pub max_image_extent: (u32, u32),
    pub min_image_count: u32,
    /// 0 when there is no limit.
    pub max_image_count: u32,
    pub supported_composite_alpha: u32,
}

#[derive(Debug, Clone, Copy, PartialEq, Eq, Structural)]
pub struct SurfaceFormat {
    pub format: i32,
    pub color_space: i32,
}

/// The raw present mode of `mode`.
pub open spec fn present_mode_value(mode: PresentMode) -> i32 {
    match mode {
        PresentMode::Vsync => PRESENT_MODE_FIFO,
        PresentMode::Mailbox => PRESENT_MODE_MAILBOX,
    }
}

pub fn present_mode_raw(mode: PresentMode) -> (r: i32)
    ensures
        r == present_mode_value(mode),
{
    match mode {
        PresentMode::Vsync => PRESENT_MODE_FIFO,
        PresentMode::Mailbox => PRESENT_MODE_MAILBOX,
    }
}

fn contains_mode(modes: &Vec<i32>, m: i32) -> (b: bool)
    ensures
        b == modes@.contains(m),
{
    let mut i: usize = 0;
    while i < modes.len()
        invariant
            i <= modes@.len(),
            forall|j: int| 0 <= j < i ==> modes@[j] != m,
        decreases modes@.len() - i,
    {
        if modes[i] == m {
            return true;
        }
        i = i + 1;
    }
    false
}

/// The requested present mode when the surface supports it, else mailbox
/// when supported, else FIFO, which every surface supports.
pub fn choose_present_mode(requested: i32, supported: &Vec<i32>) -> (m: i32)
    ensures
        m == (if supported@.contains(requested) {
            requested
        } else if supported@.contains(PRESENT_MODE_MAILBOX) {
            PRESENT_MODE_MAILBOX
        } else {
            PRESENT_MODE_FIFO
        }),
{
    if contains_mode(supported, requested) {
        requested
    } else if contains_mode(supported, PRESENT_MODE_MAILBOX) {
        PRESENT_MODE_MAILBOX
    } else {
        PRESENT_MODE_FIFO
    }
}

/// Pre-multiplied alpha when supported, else post-multiplied, else opaque.
pub fn select_composite_alpha(caps: &SurfaceCapabilities) -> (a: u32)
    ensures
        a == (if caps.supported_composite_alpha & COMPOSITE_ALPHA_PRE_MULTIPLIED == COMPOSITE_ALPHA_PRE_MULTIPLIED {
            COMPOSITE_ALPHA_PRE_MULTIPLIED
        } else if caps.supported_composite_alpha & COMPOSITE_ALPHA_POST_MULTIPLIED == COMPOSITE_ALPHA_POST_MULTIPLIED {
            COMPOSITE_ALPHA_POST_MULTIPLIED
        } else {
            COMPOSITE_ALPHA_OPAQUE
        }),
{
    if caps.supported_composite_alpha & COMPOSITE_ALPHA_PRE_MULTIPLIED == COMPOSITE_ALPHA_PRE_MULTIPLIED {
        COMPOSITE_ALPHA_PRE_MULTIPLIED
    } else if caps.supported_composite_alpha & COMPOSITE_ALPHA_POST_MULTIPLIED == COMPOSITE_ALPHA_POST_MULTIPLIED {
        COMPOSITE_ALPHA_POST_MULTIPLIED
    } else {
        COMPOSITE_ALPHA_OPAQUE
    }
}

pub open spec fn clamp(v: u32, lo: u32, hi: u32) -> u32 {
    if v < lo {
        lo
    } else if v > hi {
        hi
    } else {
        v
    }
}

fn clamp_u32(v: u32, lo: u32, hi: u32) -> (r: u32)
    requires
        lo <= hi,
    ensures
        r == clamp(v, lo, hi),
{
    if v < lo {
        lo
    } else if v > hi {
        hi
    } else {
        v
    }
}

/// The surface's current extent when it has one; else the window's size,
/// clamped to what the surface allows.
pub fn resolve_extent(caps: &SurfaceCapabilities, width: u32, height: u32) -> (e: (u32, u32))
    requires
        caps.current_extent.0 == u32::MAX ==> caps.min_image_extent.0 <= caps.max_image_extent.0
            && caps.min_image_extent.1 <= caps.max_image_extent.1,
    ensures
        e == (if caps.current_extent.0 != u32::MAX {
            caps.current_extent
        } else {
            (
                clamp(width, caps.min_image_extent.0, caps.max_image_extent.0),
                clamp(height, caps.min_image_extent.1, caps.max_image_extent.1),
            )
        }),
{
    if caps.current_extent.0 != u32::MAX {
        caps.current_extent
    } else {
        (
            clamp_u32(width, caps.min_image_extent.0, caps.max_image_extent.0),
            clamp_u32(height, caps.min_image_extent.1, caps.max_image_extent.1),
        )
    }
}

/// One image more than the minimum, within the maximum when there is one.
pub fn select_image_count(caps: &SurfaceCapabilities) -> (n: u32)
    requires
        caps.min_image_count < u32::MAX,
    ensures
        n == (if caps.max_image_count == 0 || caps.min_image_count + 1 <= caps.max_image_count {
            caps.min_image_count + 1
        } else {
            caps.max_image_count as int
        }),
{
    let limit = if caps.max_image_count == 0 {
        u32::MAX
    } else {
        caps.max_image_count
    };
    let want = caps.min_image_count + 1;
    if want <= limit {
        want
    } else {
        limit
    }
}

/// The 8-bit BGRA sRGB format in the sRGB non-linear color space.
pub open spec fn preferred_format() -> SurfaceFormat {
    SurfaceFormat { format: FORMAT_B8G8R8A8_SRGB, color_space: COLOR_SPACE_SRGB_NONLINEAR }
}

/// The preferred format when the surface offers it, else its first format;
/// none when the surface offers none.
pub fn choose_surface_format(formats: &Vec<SurfaceFormat>) -> (f: Option<SurfaceFormat>)
    ensures
        f == (if formats@.contains(preferred_format()) {
            Some(preferred_format())
        } else if formats@.len() > 0 {
            Some(formats@[0])
        } else {
            None
        }),
{
    let want = SurfaceFormat { format: FORMAT_B8G8R8A8_SRGB, color_space: COLOR_SPACE_SRGB_NONLINEAR };
    let mut i: usize = 0;
    while i < formats.len()
        invariant
            i <= formats@.len(),
            want == preferred_format(),
            forall|j: int| 0 <= j < i ==> formats@[j] != want,
        decreases formats@.len() - i,
    {
        if formats[i].format == want.format && formats[i].color_space == want.color_space {
            assert(formats@[i as int] == want);
            return Some(want);
        }
        i = i + 1;
    }
    if formats.len() > 0 {
        Some(formats[0])
    } else {
        None
    }
}

/// What the frame loop does after looking at the window's size.
#[derive(Debug, Clone, Copy, PartialEq, Eq, Structural)]
pub enum ResizeStep {
    /// Render the frame.
    Proceed,
    /// Recreate the swapchain instead, and rebuild the decorations' layout
    /// when asked.
    Recreate { rebuild_layout: bool },
}

/// The entries of `s` that wait for a timeline value after `completed`.
pub open spec fn still_retired<R>(s: Seq<(R, u64)>, completed: u64) -> Seq<(R, u64)>
    decreases s.len(),
{
    if s.len() == 0 {
        s
    } else {
        let rest = still_retired(s.drop_last(), completed);
        if s.last().1 > completed {
            rest.push(s.last())
        } else {
            rest
        }
    }
}

/// The entries of `s` whose timeline value has completed.
pub open spec fn released<R>(s: Seq<(R, u64)>, completed: u64) -> Seq<R>
    decreases s.len(),
{
    if s.len() == 0 {
        Seq::empty()
    } else {
        let rest = released(s.drop_last(), completed);
        if s.last().1 > completed {
            rest
        } else {
            rest.push(s.last().0)
        }
    }
}

/// Each condemned entry one frame older; the entries whose time is up leave.
pub open spec fn aged<C>(s: Seq<(C, u32)>) -> Seq<(C, u32)>
    decreases s.len(),
{
    if s.len() == 0 {
        s
    } else {
        let rest = aged(s.drop_last());
        if s.last().1 > 1 {
            rest.push((s.last().0, (s.last().1 - 1) as u32))
        } else {
            rest
        }
    }
}

/// The condemned entries whose time is up after one more frame.
pub open spec fn expired<C>(s: Seq<(C, u32)>) -> Seq<C>
    decreases s.len(),
{
    if s.len() == 0 {
        Seq::empty()
    } else {
        let rest = expired(s.drop_last());
        if s.last().1 > 1 {
            rest
        } else {
            rest.push(s.last().0)
        }
    }
}

/// The presentation state around a swapchain: its extent and present mode,
/// a pending recreation, the resources of old swapchains with the graphics
/// timeline value after which they may go, the acquire semaphores' turn,
/// and the semaphores of old swapchains with the frames they still live.
pub struct Presentation<R, C> {
    extent: (u32, u32),
    present_mode: PresentMode,
    pending_resize: Option<(u32, u32)>,
    retired: Vec<(R, u64)>,
    acquire_slots: usize,
    acquire_index: usize,
    condemned: Vec<(C, u32)>,
}

impl<R, C> Presentation<R, C> {
    pub closed spec fn extent_spec(&self) -> (u32, u32) {
        self.extent
    }

    pub closed spec fn mode_spec(&self) -> PresentMode {
        self.present_mode
    }

    pub closed spec fn pending_spec(&self) -> Option<(u32, u32)> {
        self.pending_resize
    }

    pub closed spec fn retired_spec(&self) -> Seq<(R, u64)> {
        self.retired@
    }

    pub closed spec fn condemned_spec(&self) -> Seq<(C, u32)> {
        self.condemned@
    }

    pub closed spec fn slots_spec(&self) -> usize {
        self.acquire_slots
    }

    pub closed spec fn index_spec(&self) -> usize {
        self.acquire_index
    }

    /// The acquire turn stays among the semaphores.
    pub closed spec fn wf(&self) -> bool {
        self.acquire_slots > 0 ==> self.acquire_index < self.acquire_slots
    }

    /// Presentation of a new swapchain of `extent`, with `frames_in_flight`
    /// acquire semaphores, presenting with vsync.
    pub fn new(extent: (u32, u32), frames_in_flight: usize) -> (p: Self)
        ensures
            p.wf(),
            p.extent_spec() == extent,
            p.mode_spec() == PresentMode::Vsync,
            p.pending_spec() is None,
            p.retired_spec().len() == 0,
            p.condemned_spec().len() == 0,
            p.slots_spec() == frames_in_flight,
            p.index_spec() == 0,
    {
        Presentation {
            extent,
            present_mode: PresentMode::Vsync,
            pending_resize: None,
            retired: Vec::new(),
            acquire_slots: frames_in_flight,
            acquire_index: 0,
            condemned: Vec::new(),
        }
    }

    /// The acquire semaphore to use now; the next call takes the following
    /// one, in turn.
    pub fn next_acquire_slot(&mut self) -> (i: usize)
        requires
            old(self).wf(),
            old(self).slots_spec() > 0,
        ensures
            final(self).wf(),
            i == old(self).index_spec(),
            final(self).index_spec() == (old(self).index_spec() + 1) % (old(self).slots_spec() as int),
            final(self).slots_spec() == old(self).slots_spec(),
            final(self).extent_spec() == old(self).extent_spec(),
            final(self).mode_spec() == old(self).mode_spec(),
            final(self).pending_spec() == old(self).pending_spec(),
            final(self).retired_spec() == old(self).retired_spec(),
            final(self).condemned_spec() == old(self).condemned_spec(),
    {
        let i = self.acquire_index;
        self.acquire_index = (self.acquire_index + 1) % self.acquire_slots;
        i
    }

    /// The swapchain was recreated at `extent`: the old one's resources may
    /// go once the graphics timeline passes `retire_at`, and its semaphores
    /// after a few more frames.
    pub fn recreated(&mut self, extent: (u32, u32), old_resources: R, retire_at: u64, old_semaphores: C)
        requires
            old(self).wf(),
        ensures
            final(self).wf(),
            final(self).extent_spec() == extent,
            final(self).retired_spec() == old(self).retired_spec().push((old_resources, retire_at)),
            final(self).condemned_spec() == old(self).condemned_spec().push((old_semaphores, CONDEMNED_FRAMES)),
            final(self).mode_spec() == old(self).mode_spec(),
            final(self).pending_spec() == old(self).pending_spec(),
            final(self).slots_spec() == old(self).slots_spec(),
            final(self).index_spec() == old(self).index_spec(),
    {
        self.extent = extent;
        self.retired.push((old_resources, retire_at));
        self.condemned.push((old_semaphores, CONDEMNED_FRAMES));
    }

    pub fn schedule_resize(&mut self, width: u32, height: u32)
        ensures
            final(self).pending_spec() == Some((width, height)),
            final(self).same_except_pending(old(self)),
    {
        self.pending_resize = Some((width, height));
    }

    /// Everything but the pending recreation is as in `other`.
    pub open spec fn same_except_pending(&self, other: &Self) -> bool {
        &&& self.extent_spec() == other.extent_spec()
        &&& self.mode_spec() == other.mode_spec()
        &&& self.retired_spec() == other.retired_spec()
        &&& self.condemned_spec() == other.condemned_spec()
        &&& self.slots_spec() == other.slots_spec()
        &&& self.index_spec() == other.index_spec()
        &&& (other.wf() ==> self.wf())
    }

    /// A present-mode change recreates the swapchain at its own extent,
    /// unless a resize is already pending.
    pub fn schedule_present_mode_change(&mut self)
        ensures
            final(self).pending_spec() == (match old(self).pending_spec() {
                Some(p) => Some(p),
                None => Some(old(self).extent_spec()),
            }),
            final(self).same_except_pending(old(self)),
    {
        if self.pending_resize.is_none() {
            self.pending_resize = Some(self.extent);
        }
    }

    pub fn needs_recreate(&self) -> (b: bool)
        ensures
            b == self.pending_spec() is Some,
    {
        self.pending_resize.is_some()
    }

    /// The size to recreate the swapchain at, if a recreation is pending;
    /// none is pending afterwards.
    pub fn take_pending_resize(&mut self) -> (r: Option<(u32, u32)>)
        ensures
            r == old(self).pending_spec(),
            final(self).pending_spec() is None,
            final(self).same_except_pending(old(self)),
    {
        let r = self.pending_resize;
        self.pending_resize = None;
        r
    }

    /// Releases the resources of old swapchains whose timeline value has
    /// completed, in retirement order; the others stay.
    pub fn gc_retired(&mut self, completed: u64) -> (gone: Vec<R>)
        ensures
            final(self).retired_spec() == still_retired(old(self).retired_spec(), completed),
            gone@ == released(old(self).retired_spec(), completed),
            forall|i: int|
                0 <= i < final(self).retired_spec().len() ==> #[trigger] final(self).retired_spec()[i].1 > completed,
            final(self).extent_spec() == old(self).extent_spec(),
            final(self).mode_spec() == old(self).mode_spec(),
            final(self).pending_spec() == old(self).pending_spec(),
            final(self).condemned_spec() == old(self).condemned_spec(),
            final(self).slots_spec() == old(self).slots_spec(),
            final(self).index_spec() == old(self).index_spec(),
            old(self).wf() ==> final(self).wf(),
    {
        let mut rest: Vec<(R, u64)> = Vec::new();
        std::mem::swap(&mut rest, &mut self.retired);
        let ghost all = rest@;
        let mut kept: Vec<(R, u64)> = Vec::new();
        let mut gone: Vec<R> = Vec::new();
        let ghost mut k: int = 0;
        proof {
            assert(all.take(0) =~= Seq::<(R, u64)>::empty());
        }
        while rest.len() > 0
            invariant
                0 <= k <= all.len(),
                rest@ == all.skip(k),
                kept@ == still_retired(all.take(k), completed),
                gone@ == released(all.take(k), completed),
                forall|i: int| 0 <= i < kept@.len() ==> #[trigger] kept@[i].1 > completed,
            decreases rest@.len(),
        {
            let e = rest.remove(0);
            proof {
                assert(e == all[k]);
                assert(all.take(k + 1).drop_last() =~= all.take(k));
                assert(all.take(k + 1).last() == all[k]);
                assert(all.skip(k + 1) =~= all.skip(k).drop_first());
                k = k + 1;
            }
            if e.1 > completed {
                kept.push(e);
            } else {
                gone.push(e.0);
            }
        }
        proof {
            assert(all.take(k) =~= all);
        }
        self.retired = kept;
        gone
    }

    /// Ages the semaphores of old swapchains by one frame and releases those
    /// whose time is up, in the order they were condemned.
    pub fn tick_condemned(&mut self) -> (gone: Vec<C>)
        ensures
            final(self).condemned_spec() == aged(old(self).condemned_spec()),
            gone@ == expired(old(self).condemned_spec()),
            final(self).extent_spec() == old(self).extent_spec(),
            final(self).mode_spec() == old(self).mode_spec(),
            final(self).pending_spec() == old(self).pending_spec(),
            final(self).retired_spec() == old(self).retired_spec(),
            final(self).slots_spec() == old(self).slots_spec(),
            final(self).index_spec() == old(self).index_spec(),
            old(self).wf() ==> final(self).wf(),
    {
        let mut rest: Vec<(C, u32)> = Vec::new();
        std::mem::swap(&mut rest, &mut self.condemned);
        let ghost all = rest@;
        let mut kept: Vec<(C, u32)> = Vec::new();
        let mut gone: Vec<C> = Vec::new();
        let ghost mut k: int = 0;
        proof {
            assert(all.take(0) =~= Seq::<(C, u32)>::empty());
        }
        while rest.len() > 0
            invariant
                0 <= k <= all.len(),
                rest@ == all.skip(k),
                kept@ == aged(all.take(k)),
                gone@ == expired(all.take(k)),
            decreases rest@.len(),
        {
            let (c, frames) = rest.remove(0);
            proof {
                assert((c, frames) == all[k]);
                assert(all.take(k + 1).drop_last() =~= all.take(k));
                assert(all.take(k + 1).last() == all[k]);
                assert(all.skip(k + 1) =~= all.skip(k).drop_first());
                k = k + 1;
            }
            let left = frames.saturating_sub(1);
            if left > 0 {
                kept.push((c, left));
            } else {
                gone.push(c);
            }
        }
        proof {
            assert(all.take(k) =~= all);
        }
        self.condemned = kept;
        gone
    }

    pub fn set_present_mode(&mut self, mode: PresentMode)
        ensures
            final(self).mode_spec() == mode,
            final(self).extent_spec() == old(self).extent_spec(),
            final(self).pending_spec() == old(self).pending_spec(),
            final(self).retired_spec() == old(self).retired_spec(),
            final(self).condemned_spec() == old(self).condemned_spec(),
            final(self).slots_spec() == old(self).slots_spec(),
            final(self).index_spec() == old(self).index_spec(),
            old(self).wf() ==> final(self).wf(),
    {
        self.present_mode = mode;
    }

    pub fn present_mode(&self) -> (m: PresentMode)
        ensures
            m == self.mode_spec(),
    {
        self.present_mode
    }

    pub fn extent(&self) -> (e: (u32, u32))
        ensures
            e == self.extent_spec(),
    {
        self.extent
    }

    /// The start of a frame: a window whose size differs from the
    /// swapchain's schedules a recreation at the window's size; a configure
    /// or a pending recreation turns the frame into a recreation, which
    /// rebuilds the decorations' layout when the size changed or the window
    /// was configured.
    pub fn check_resize(&mut self, is_configure: bool, window: (u32, u32)) -> (step: ResizeStep)
        ensures
            final(self).pending_spec() == (if window != old(self).extent_spec() {
                Some(window)
            } else {
                old(self).pending_spec()
            }),
            final(self).same_except_pending(old(self)),
            step == (if is_configure || final(self).pending_spec() is Some {
                ResizeStep::Recreate { rebuild_layout: window != old(self).extent_spec() || is_configure }
            } else {
                ResizeStep::Proceed
            }),
    {
        let mismatch = window.0 != self.extent.0 || window.1 != self.extent.1;
        if mismatch {
            self.schedule_resize(window.0, window.1);
        }
        if is_configure || self.needs_recreate() {
            ResizeStep::Recreate { rebuild_layout: mismatch || is_configure }
        } else {
            ResizeStep::Proceed
        }
    }

    /// After an acquire: an out-of-date swapchain (`None`) or a suboptimal
    /// image schedules a recreation at the window's size; the frame goes on
    /// only when an image was acquired.
    pub fn on_acquire(&mut self, suboptimal: Option<bool>, window: (u32, u32)) -> (proceed: bool)
        ensures
            proceed == suboptimal is Some,
            final(self).pending_spec() == (if suboptimal != Some(false) {
                Some(window)
            } else {
                old(self).pending_spec()
            }),
            final(self).same_except_pending(old(self)),
    {
        match suboptimal {
            Some(s) => {
                if s {
                    self.schedule_resize(window.0, window.1);
                }
                true
            },
            None => {
                self.schedule_resize(window.0, window.1);
                false
            },
        }
    }

    /// After a present: a stale surface schedules a recreation at the
    /// window's size.
    pub fn on_present(&mut self, stale: bool, window: (u32, u32))
        ensures
            final(self).pending_spec() == (if stale {
                Some(window)
            } else {
                old(self).pending_spec()
            }),
            final(self).same_except_pending(old(self)),
    {
        if stale {
            self.schedule_resize(window.0, window.1);
        }
    }
}

/// An acquire's result code: an image (with whether it is suboptimal), an
/// out-of-date swapchain, or another error.
pub fn classify_acquire(r: Result<(u32, bool), i32>) -> (c: Result<Option<(u32, bool)>, i32>)
    ensures
        c == (match r {
            Ok(v) => Ok(Some(v)),
            Err(e) => if e == ERROR_OUT_OF_DATE {
                Ok(None)
            } else {
                Err(e)
            },
        }),
{
    match r {
        Ok(v) => Ok(Some(v)),
        Err(e) => if e == ERROR_OUT_OF_DATE {
            Ok(None)
        } else {
            Err(e)
        },
    }
}


/// An acquired swapchain image: its index, the semaphore the acquire
/// signals, the image's own render semaphore, and whether the swapchain no
/// longer matches the surface exactly.
#[derive(Debug, Clone, Copy, PartialEq, Eq, Structural)]
pub struct AcquireResult {
    pub image_index: u32,
    pub acquire_semaphore: u64,
    pub render_semaphore: u64,
    pub suboptimal: bool,
}

/// What an acquire through `acquire_semaphore` came to, given its result
/// code and the render semaphores of the swapchain's images: the image, or
/// none when the swapchain is out of date, or the error.
pub fn acquire_result(code: Result<(u32, bool), i32>, acquire_semaphore: u64, render_semaphores: &Vec<u64>) -> (r:
    Result<Option<AcquireResult>, i32>)
    requires
        code matches Ok((i, _)) ==> i < render_semaphores@.len(),
    ensures
        r == (match code {
            Ok((i, s)) => Ok(
                Some(
                    AcquireResult {
                        image_index: i,
                        acquire_semaphore,
                        render_semaphore: render_semaphores@[i as int],
                        suboptimal: s,
                    },
                ),
            ),
            Err(e) => if e == ERROR_OUT_OF_DATE {
                Ok(None)
            } else {
                Err(e)
            },
        }),
{
    match classify_acquire(code) {
        Ok(Some((i, s))) => Ok(
            Some(
                AcquireResult {
                    image_index: i,
                    acquire_semaphore,
                    render_semaphore: render_semaphores[i as usize],
                    suboptimal: s,
                },
            ),
        ),
        Ok(None) => Ok(None),
        Err(e) => Err(e),
    }
}

} // verus!
