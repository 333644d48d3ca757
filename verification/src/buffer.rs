//! The shared pixel memory: an owned byte arena cut into frames of one size.
//!
//! A frame that the compositor may still read is marked busy and is never
//! handed out again until it is released.

use crate::pixel::RgbaPixel;
use vstd::prelude::*;

verus! {

/// The most bytes the arena may hold: the wire carries pool sizes and frame
/// offsets as signed 32-bit numbers.
pub const MAX_POOL_BYTES: usize = 0x7fff_ffff;

/// Bytes in one frame of the given size.
pub open spec fn frame_bytes(width: u32, height: u32) -> int {
    width as int * height as int * 4
}

/// A size for which a frame can exist: not empty, and small enough for the
/// arena to hold at least one.
pub open spec fn presentable(width: u32, height: u32) -> bool {
    &&& width > 0
    &&& height > 0
    &&& frame_bytes(width, height) <= MAX_POOL_BYTES
}

/// The bytes of a frame of `len` bytes that shows `pixels`: each pixel in wire
/// order, row after row, cut off where the frame ends and continued with
/// zeros where the pixels end.
pub open spec fn frame_image(pixels: Seq<RgbaPixel>, len: int) -> Seq<u8> {
    Seq::new(
        len as nat,
        |i: int|
            if i / 4 < pixels.len() {
                pixels[i / 4].wire()[i % 4]
            } else {
                0u8
            },
    )
}

/// A frame of `len` zero bytes.
pub open spec fn blank_frame(len: int) -> Seq<u8> {
    Seq::new(len as nat, |i: int| 0u8)
}

/// `slot` is free and every slot before it is busy.
pub open spec fn is_first_free(busy: Seq<bool>, slot: int) -> bool {
    &&& 0 <= slot < busy.len()
    &&& !busy[slot]
    &&& forall|j: int| 0 <= j < slot ==> busy[j]
}

/// No slot is free.
pub open spec fn all_busy(busy: Seq<bool>) -> bool {
    forall|j: int| 0 <= j < busy.len() ==> busy[j]
}

/// What a pool holds: its frame size, the bytes of each frame, and which
/// frames are busy.
pub struct PoolModel {
    pub width: u32,
    pub height: u32,
    pub frames: Seq<Seq<u8>>,
    pub busy: Seq<bool>,
}

impl PoolModel {
    pub open spec fn frame_len(self) -> int {
        frame_bytes(self.width, self.height)
    }

    pub open spec fn wf(self) -> bool {
        &&& presentable(self.width, self.height)
        &&& self.frames.len() == self.busy.len()
        &&& self.frames.len() * self.frame_len() <= MAX_POOL_BYTES
        &&& forall|k: int| 0 <= k < self.frames.len() ==> (#[trigger] self.frames[k]).len() == self.frame_len()
    }

    /// A pool just made for the given size: one blank frame, free.
    pub open spec fn fresh(width: u32, height: u32) -> PoolModel {
        PoolModel {
            width,
            height,
            frames: seq![blank_frame(frame_bytes(width, height))],
            busy: seq![false],
        }
    }

    /// One more frame still fits into the arena.
    pub open spec fn can_grow(self) -> bool {
        (self.frames.len() + 1) * self.frame_len() <= MAX_POOL_BYTES
    }

    /// The slot that the next acquisition hands out: the first free one, or a
    /// new one behind the last where all are busy and the arena can grow.
    pub open spec fn acquired(self) -> Option<int> {
        if !all_busy(self.busy) {
            Some(choose|k: int| is_first_free(self.busy, k))
        } else if self.can_grow() {
            Some(self.frames.len() as int)
        } else {
            None
        }
    }

    pub open spec fn after_acquire(self) -> PoolModel {
        match self.acquired() {
            Some(k) => if k < self.frames.len() {
                PoolModel { busy: self.busy.update(k, true), ..self }
            } else {
                PoolModel {
                    frames: self.frames.push(blank_frame(self.frame_len())),
                    busy: self.busy.push(true),
                    ..self
                }
            },
            None => self,
        }
    }

    pub open spec fn after_release(self, slot: int) -> PoolModel {
        if 0 <= slot < self.busy.len() {
            PoolModel { busy: self.busy.update(slot, false), ..self }
        } else {
            self
        }
    }

    pub open spec fn after_composite(self, slot: int, pixels: Seq<RgbaPixel>) -> PoolModel {
        PoolModel { frames: self.frames.update(slot, frame_image(pixels, self.frame_len())), ..self }
    }

    /// The pool after a request for the given size: unchanged where it has
    /// that size already or the size cannot be presented, else made anew.
    pub open spec fn after_resize(self, width: u32, height: u32) -> PoolModel {
        if (width == self.width && height == self.height) || !presentable(width, height) {
            self
        } else {
            PoolModel::fresh(width, height)
        }
    }
}

/// Where a slot is free, one of them is the first.
pub proof fn lemma_first_free_exists(busy: Seq<bool>, from: int) -> (k: int)
    requires
        0 <= from <= busy.len(),
        forall|j: int| 0 <= j < from ==> busy[j],
        !all_busy(busy),
    ensures
        is_first_free(busy, k),
    decreases busy.len() - from,
{
    if from == busy.len() {
        assert(all_busy(busy));
        from
    } else if !busy[from] {
        from
    } else {
        lemma_first_free_exists(busy, from + 1)
    }
}

impl PoolModel {
    /// What an acquisition hands out and leaves behind: a slot that was free,
    /// or a new one behind the others; busy afterwards, with every other slot
    /// as it was.
    pub proof fn lemma_acquire(self)
        requires
            self.wf(),
        ensures
            self.after_acquire().wf(),
            self.after_acquire().width == self.width,
            self.after_acquire().height == self.height,
            match self.acquired() {
                Some(k) => {
                    &&& 0 <= k <= self.busy.len()
                    &&& k < self.busy.len() ==> !self.busy[k]
                    &&& k < self.after_acquire().busy.len()
                    &&& self.after_acquire().busy.len() <= self.busy.len() + 1
                    &&& self.after_acquire().busy[k]
                    &&& forall|j: int|
                        0 <= j < self.busy.len() && j != k ==> self.after_acquire().busy[j]
                            == self.busy[j]
                    &&& forall|j: int|
                        0 <= j < self.frames.len() ==> self.after_acquire().frames[j]
                            == self.frames[j]
                },
                None => self.after_acquire() == self,
            },
    {
        if !all_busy(self.busy) {
            let k = lemma_first_free_exists(self.busy, 0);
            let chosen = choose|c: int| is_first_free(self.busy, c);
            lemma_first_free_unique(self.busy, k, chosen);
        } else if self.can_grow() {
            let after = self.after_acquire();
            assert forall|j: int| 0 <= j < after.frames.len() implies (#[trigger] after.frames[j]).len()
                == after.frame_len() by {
                if j < self.frames.len() {
                    assert(after.frames[j] == self.frames[j]);
                }
            }
        }
    }

    /// A pool has no more slots than the arena has bytes.
    pub proof fn lemma_slots_bound(self)
        requires
            self.wf(),
        ensures
            self.frames.len() <= MAX_POOL_BYTES,
            self.busy.len() <= MAX_POOL_BYTES,
    {
        lemma_presentable_bounds(self.width, self.height);
        assert(self.frames.len() <= self.frames.len() * self.frame_len()) by (nonlinear_arith)
            requires
                self.frame_len() >= 1,
                self.frames.len() >= 0,
        ;
    }

    /// A release frees the slot and touches nothing else.
    pub proof fn lemma_release(self, slot: int)
        requires
            self.wf(),
        ensures
            self.after_release(slot).wf(),
            self.after_release(slot).frames == self.frames,
            self.after_release(slot).width == self.width,
            self.after_release(slot).height == self.height,
            self.after_release(slot).busy.len() == self.busy.len(),
            forall|j: int|
                0 <= j < self.busy.len() ==> self.after_release(slot).busy[j] == (self.busy[j] && j
                    != slot),
    {
    }

    /// Compositing writes one frame and touches nothing else.
    pub proof fn lemma_composite(self, slot: int, pixels: Seq<RgbaPixel>)
        requires
            self.wf(),
            0 <= slot < self.frames.len(),
        ensures
            self.after_composite(slot, pixels).wf(),
            self.after_composite(slot, pixels).busy == self.busy,
            self.after_composite(slot, pixels).frames[slot] == frame_image(pixels, self.frame_len()),
            forall|j: int|
                0 <= j < self.frames.len() && j != slot ==> self.after_composite(
                    slot,
                    pixels,
                ).frames[j] == self.frames[j],
    {
        lemma_presentable_bounds(self.width, self.height);
    }

    /// A pool just made is well formed.
    pub proof fn lemma_fresh(width: u32, height: u32)
        requires
            presentable(width, height),
        ensures
            PoolModel::fresh(width, height).wf(),
    {
        lemma_presentable_bounds(width, height);
        assert(1 * frame_bytes(width, height) == frame_bytes(width, height)) by (nonlinear_arith);
    }
}

/// At most one slot is the first free one.
pub proof fn lemma_first_free_unique(busy: Seq<bool>, a: int, b: int)
    requires
        is_first_free(busy, a),
        is_first_free(busy, b),
    ensures
        a == b,
{
    if a < b {
        assert(busy[a]);
    } else if b < a {
        assert(busy[b]);
    }
}

/// A presentable size has a stride and a height that fit the wire's signed
/// 32-bit numbers.
pub proof fn lemma_presentable_bounds(width: u32, height: u32)
    requires
        presentable(width, height),
    ensures
        width as int * 4 <= MAX_POOL_BYTES,
        height as int <= MAX_POOL_BYTES,
        frame_bytes(width, height) >= 4,
        frame_bytes(width, height) % 4 == 0,
{
    assert(width as int * 4 <= width as int * height as int * 4) by (nonlinear_arith)
        requires
            width as int >= 0,
            height as int >= 1,
    ;
    assert(height as int <= width as int * height as int * 4) by (nonlinear_arith)
        requires
            width as int >= 1,
            height as int >= 0,
    ;
    assert(width as int * height as int * 4 >= 4) by (nonlinear_arith)
        requires
            width as int >= 1,
            height as int >= 1,
    ;
    assert((width as int * height as int * 4) % 4 == 0) by (nonlinear_arith);
}

proof fn lemma_slot_range(slot: int, slots: int, len: int)
    requires
        0 <= slot < slots,
        0 <= len,
    ensures
        0 <= slot * len,
        slot * len + len == (slot + 1) * len,
        (slot + 1) * len <= slots * len,
{
    assert(0 <= slot * len) by (nonlinear_arith)
        requires
            0 <= slot,
            0 <= len,
    ;
    assert(slot * len + len == (slot + 1) * len) by (nonlinear_arith);
    assert((slot + 1) * len <= slots * len) by (nonlinear_arith)
        requires
            slot + 1 <= slots,
            0 <= len,
    ;
}

proof fn lemma_slots_apart(a: int, b: int, len: int)
    requires
        0 <= a < b,
        0 <= len,
    ensures
        (a + 1) * len <= b * len,
{
    assert((a + 1) * len <= b * len) by (nonlinear_arith)
        requires
            a + 1 <= b,
            0 <= len,
    ;
}

/// The size in bytes of a frame, where the size can be presented.
pub fn frame_size(width: u32, height: u32) -> (size: Option<usize>)
    ensures
        size == (if presentable(width, height) {
            Some(frame_bytes(width, height) as usize)
        } else {
            None::<usize>
        }),
{
    if width == 0 || height == 0 {
        return None;
    }
    assert(width as int * height as int <= 0xffff_ffff * 0xffff_ffff) by (nonlinear_arith)
        requires
            0 <= width as int <= 0xffff_ffff,
            0 <= height as int <= 0xffff_ffff,
    ;
    let area: u64 = width as u64 * height as u64;
    if area > (MAX_POOL_BYTES / 4) as u64 {
        None
    } else {
        Some((area * 4) as usize)
    }
}

/// Shared pixel memory for frames of one size.
pub struct BufferPool {
    width: u32,
    height: u32,
    frame_len: usize,
    arena: Vec<u8>,
    busy: Vec<bool>,
}

impl View for BufferPool {
    type V = PoolModel;

    closed spec fn view(&self) -> PoolModel {
        PoolModel {
            width: self.width,
            height: self.height,
            frames: Seq::new(
                self.busy@.len(),
                |k: int| self.arena@.subrange(k * self.frame_len, (k + 1) * self.frame_len),
            ),
            busy: self.busy@,
        }
    }
}

impl BufferPool {
    /// The arena is cut into as many frames as there are slots, each of the
    /// size the pool was made for.
    pub closed spec fn wf(&self) -> bool {
        &&& presentable(self.width, self.height)
        &&& self.frame_len == frame_bytes(self.width, self.height)
        &&& self.arena@.len() == self.busy@.len() * self.frame_len
        &&& self.arena@.len() <= MAX_POOL_BYTES
    }

    /// A well-formed pool has a well-formed model.
    pub proof fn lemma_wf(&self)
        requires
            self.wf(),
        ensures
            self@.wf(),
    {
        let fl = self.frame_len as int;
        assert forall|k: int| 0 <= k < self@.frames.len() implies (#[trigger] self@.frames[k]).len()
            == self@.frame_len() by {
            lemma_slot_range(k, self.busy@.len() as int, fl);
        }
    }

    /// Makes a pool for frames of the given size, with one blank frame, and
    /// none where the size cannot be presented.
    pub fn new(width: u32, height: u32) -> (pool: Option<BufferPool>)
        ensures
            pool is Some <==> presentable(width, height),
            pool matches Some(p) ==> p.wf() && p@ == PoolModel::fresh(width, height),
    {
        match frame_size(width, height) {
            None => None,
            Some(frame_len) => {
                let arena: Vec<u8> = vec![0u8; frame_len];
                let busy: Vec<bool> = vec![false];
                let pool = BufferPool { width, height, frame_len, arena, busy };
                proof {
                    assert(1 * frame_len == frame_len) by (nonlinear_arith);
                    assert(0 * frame_len == 0) by (nonlinear_arith);
                    assert(pool.busy@ =~= seq![false]);
                    assert(pool@.frames[0] =~= blank_frame(frame_bytes(width, height)));
                    assert(pool@.frames =~= seq![blank_frame(frame_bytes(width, height))]);
                }
                Some(pool)
            },
        }
    }

    pub fn width(&self) -> (width: u32)
        ensures
            width == self@.width,
    {
        self.width
    }

    pub fn height(&self) -> (height: u32)
        ensures
            height == self@.height,
    {
        self.height
    }

    /// Number of frames in the arena, busy or free.
    pub fn slots(&self) -> (slots: usize)
        requires
            self.wf(),
        ensures
            slots == self@.frames.len(),
    {
        self.busy.len()
    }

    /// Bytes in one frame.
    pub fn frame_len(&self) -> (len: usize)
        requires
            self.wf(),
        ensures
            len == self@.frame_len(),
            0 < len <= MAX_POOL_BYTES,
    {
        proof {
            lemma_presentable_bounds(self.width, self.height);
        }
        self.frame_len
    }

    /// Whether the given slot is busy; a slot that does not exist is not.
    pub fn is_busy(&self, slot: usize) -> (busy: bool)
        ensures
            busy == (slot < self@.busy.len() && self@.busy[slot as int]),
    {
        slot < self.busy.len() && self.busy[slot]
    }

    /// Hands out a frame that is not busy and marks it busy: the first free
    /// one, or a new blank one where all are busy and the arena can still
    /// grow. Hands out none, and changes nothing, where neither is possible.
    pub fn acquire(&mut self) -> (slot: Option<usize>)
        requires
            old(self).wf(),
        ensures
            final(self).wf(),
            match slot {
                Some(k) => old(self)@.acquired() == Some(k as int),
                None => old(self)@.acquired() is None,
            },
            final(self)@ == old(self)@.after_acquire(),
    {
        let ghost before = self@;
        let slots = self.busy.len();
        let mut k: usize = 0;
        while k < slots
            invariant
                self.wf(),
                self@ == before,
                *self == *old(self),
                slots == self.busy@.len(),
                0 <= k <= slots,
                forall|j: int| 0 <= j < k ==> self.busy@[j],
            decreases slots - k,
        {
            if !self.busy[k] {
                proof {
                    assert(is_first_free(before.busy, k as int));
                    let chosen = choose|c: int| is_first_free(before.busy, c);
                    lemma_first_free_unique(before.busy, k as int, chosen);
                }
                self.busy[k] = true;
                proof {
                    assert(self@.frames =~= before.frames);
                }
                return Some(k);
            }
            k = k + 1;
        }
        assert(all_busy(before.busy));
        proof {
            lemma_presentable_bounds(self.width, self.height);
        }
        let room: usize = MAX_POOL_BYTES - self.arena.len();
        if self.frame_len > room {
            assert(self.busy@.len() * self.frame_len + self.frame_len == (self.busy@.len() + 1)
                * self.frame_len) by (nonlinear_arith);
            return None;
        }
        let ghost old_arena = self.arena@;
        let grown: usize = self.arena.len() + self.frame_len;
        self.arena.resize(grown, 0u8);
        self.busy.push(true);
        proof {
            let fl = self.frame_len as int;
            assert(slots * fl + fl == (slots + 1) * fl) by (nonlinear_arith);
            assert(self.arena@.subrange(0, old_arena.len() as int) == old_arena);
            assert forall|j: int| 0 <= j < slots implies #[trigger] self@.frames[j]
                == before.frames[j] by {
                lemma_slot_range(j, slots as int, fl);
                assert(self.arena@.subrange(j * fl, (j + 1) * fl) =~= self.arena@.subrange(
                    0,
                    old_arena.len() as int,
                ).subrange(j * fl, (j + 1) * fl));
            }
            assert(self@.frames[slots as int] =~= blank_frame(fl));
            assert(self@.frames =~= before.frames.push(blank_frame(fl)));
        }
        Some(slots)
    }

    /// Marks the given frame free. A slot that does not exist is ignored.
    pub fn release(&mut self, slot: usize)
        requires
            old(self).wf(),
        ensures
            final(self).wf(),
            final(self)@ == old(self)@.after_release(slot as int),
    {
        if slot < self.busy.len() {
            self.busy[slot] = false;
            proof {
                assert(self@.frames =~= old(self)@.frames);
            }
        }
    }

    /// Asks for frames of the given size. Where the pool has that size
    /// already nothing changes; where the size can be presented the arena is
    /// made anew with one blank frame; else the pool stays as it is. Tells
    /// whether the pool now has the size asked for.
    pub fn resize(&mut self, width: u32, height: u32) -> (fitted: bool)
        requires
            old(self).wf(),
        ensures
            final(self).wf(),
            final(self)@ == old(self)@.after_resize(width, height),
            fitted == (final(self)@.width == width && final(self)@.height == height),
            fitted == ((width == old(self)@.width && height == old(self)@.height) || presentable(
                width,
                height,
            )),
    {
        if width == self.width && height == self.height {
            return true;
        }
        match BufferPool::new(width, height) {
            Some(pool) => {
                *self = pool;
                true
            },
            None => false,
        }
    }

    /// Writes the image of `pixels` into the given frame: the pixels in wire
    /// order as far as the frame reaches, zeros behind them.
    pub fn composite(&mut self, slot: usize, pixels: &Vec<RgbaPixel>)
        requires
            old(self).wf(),
            slot < old(self)@.frames.len(),
        ensures
            final(self).wf(),
            final(self)@ == old(self)@.after_composite(slot as int, pixels@),
    {
        let len = self.frame_len;
        proof {
            lemma_slot_range(slot as int, self.busy@.len() as int, len as int);
        }
        let start: usize = slot * len;
        let ghost image = frame_image(pixels@, len as int);
        let mut i: usize = 0;
        while i < len
            invariant
                0 <= i <= len,
                len == self.frame_len,
                start == slot * len,
                start + len <= self.arena@.len() <= MAX_POOL_BYTES,
                self.arena@.len() == old(self).arena@.len(),
                self.busy == old(self).busy,
                self.width == old(self).width,
                self.height == old(self).height,
                self.frame_len == old(self).frame_len,
                image == frame_image(pixels@, len as int),
                forall|j: int| 0 <= j < i ==> self.arena@[start + j] == image[j],
                forall|j: int|
                    0 <= j < self.arena@.len() && !(start <= j < start + len) ==> self.arena@[j]
                        == old(self).arena@[j],
            decreases len - i,
        {
            let cell: usize = i / 4;
            let byte: u8 = if cell < pixels.len() {
                let wire = pixels[cell].wire_bytes();
                wire[i % 4]
            } else {
                0u8
            };
            self.arena[start + i] = byte;
            i = i + 1;
        }
        proof {
            let fl = len as int;
            let slots = self.busy@.len() as int;
            assert forall|k: int| 0 <= k < slots implies #[trigger] self@.frames[k] == old(
                self,
            )@.after_composite(slot as int, pixels@).frames[k] by {
                lemma_slot_range(k, slots, fl);
                if k == slot {
                    assert(self.arena@.subrange(k * fl, (k + 1) * fl) =~= image);
                } else {
                    if k < slot {
                        lemma_slots_apart(k, slot as int, fl);
                    } else {
                        lemma_slots_apart(slot as int, k, fl);
                    }
                    assert(self.arena@.subrange(k * fl, (k + 1) * fl) =~= old(self).arena@.subrange(
                        k * fl,
                        (k + 1) * fl,
                    ));
                }
            }
            assert(self@.frames =~= old(self)@.after_composite(slot as int, pixels@).frames);
        }
    }

    /// The bytes of the given frame.
    pub fn frame(&self, slot: usize) -> (bytes: &[u8])
        requires
            self.wf(),
            slot < self@.frames.len(),
        ensures
            bytes@ == self@.frames[slot as int],
    {
        proof {
            lemma_slot_range(slot as int, self.busy@.len() as int, self.frame_len as int);
        }
        let start: usize = slot * self.frame_len;
        vstd::slice::slice_subrange(self.arena.as_slice(), start, start + self.frame_len)
    }

    /// Where the given frame starts in the arena, in bytes.
    pub fn offset(&self, slot: usize) -> (offset: usize)
        requires
            self.wf(),
            slot < self@.frames.len(),
        ensures
            offset == slot * self@.frame_len(),
            offset + self@.frame_len() <= MAX_POOL_BYTES,
    {
        proof {
            lemma_slot_range(slot as int, self.busy@.len() as int, self.frame_len as int);
        }
        slot * self.frame_len
    }
}

} // verus!
