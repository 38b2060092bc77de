//! Physical frames: the allocator that hands out the usable frames of the
//! firmware's memory map, and the address of the active page table.
use vstd::prelude::*;
use x86_64::structures::paging::Size4KiB;
use x86_64::{PhysAddr, VirtAddr};

verus! {

/// Size in bytes of one frame.
pub const PAGE_SIZE: u64 = 4096;

/// One more than the largest frame number whose addresses fit the 52 bits of
/// a physical address.
pub const FRAME_NUMBER_LIMIT: u64 = 0x100_0000_0000;

/// One more than the largest physical address.
pub const PHYS_ADDR_LIMIT: u64 = 0x10_0000_0000_0000;

/// A range of frames, given by the number of its first frame and the number
/// of the first frame behind it.
#[derive(Debug, Clone, Copy, PartialEq, Eq, Structural)]
pub struct FrameRange {
    pub start_frame_number: u64,
    pub end_frame_number: u64,
}

/// One region of the firmware's memory map.
#[derive(Debug, Clone, Copy, PartialEq, Eq, Structural)]
pub struct MemoryRegion {
    /// The frames of the region.
    pub range: FrameRange,
    /// Whether the kernel may use the region freely.
    pub usable: bool,
}

/// A frame of physical memory: 4 KiB that start at a multiple of 4 KiB.
#[derive(Debug, Clone, Copy, PartialEq, Eq, Structural)]
pub struct PhysFrame {
    start_address: u64,
}

/// The start of the frame that contains the physical address `address`.
pub open spec fn frame_start(address: int) -> int {
    address - address % 4096
}

/// `PhysFrame::containing_address` on `PhysAddr::new(address)`, read back
/// with `start_address` and `as_u64`: the address rounded down to a multiple
/// of the frame size. `PhysAddr::new` panics on an address with a bit above
/// bit 51 set.
#[verifier::external_body]
fn containing_frame_start(address: u64) -> (start: u64)
    requires
        address < PHYS_ADDR_LIMIT,
    ensures
        start == frame_start(address as int),
{
    x86_64::structures::paging::PhysFrame::<Size4KiB>::containing_address(
        PhysAddr::new(address),
    ).start_address().as_u64()
}

impl PhysFrame {
    /// The address of the frame's first byte.
    pub closed spec fn start(&self) -> int {
        self.start_address as int
    }

    /// The frame whose first byte has the address `start`.
    pub closed spec fn starting_at(start: int) -> PhysFrame {
        PhysFrame { start_address: start as u64 }
    }

    /// A frame is the frame that starts at its start.
    pub proof fn lemma_starting_at(self)
        ensures
            Self::starting_at(self.start()) == self,
    {
    }

    /// The frame that contains the physical address `address`.
    pub fn containing_address(address: u64) -> (frame: PhysFrame)
        requires
            address < PHYS_ADDR_LIMIT,
        ensures
            frame.start() == frame_start(address as int),
    {
        PhysFrame { start_address: containing_frame_start(address) }
    }

    /// The address of the frame's first byte.
    pub fn start_address(&self) -> (address: u64)
        ensures
            address == self.start(),
    {
        self.start_address
    }
}

/// How many frames the region offers: those of its range if it is usable,
/// none otherwise.
pub open spec fn region_frame_count(region: MemoryRegion) -> nat {
    if region.usable && region.range.start_frame_number < region.range.end_frame_number {
        (region.range.end_frame_number - region.range.start_frame_number) as nat
    } else {
        0
    }
}

/// The start addresses of the frames that the region offers, ascending.
pub open spec fn region_frames(region: MemoryRegion) -> Seq<int> {
    Seq::new(
        region_frame_count(region),
        |k: int| (region.range.start_frame_number + k) * 4096,
    )
}

/// The start addresses of the usable frames of a memory map: those of its
/// first region, then those of its second, and so on.
pub open spec fn usable_frames(memory_map: Seq<MemoryRegion>) -> Seq<int>
    decreases memory_map.len(),
{
    if memory_map.len() == 0 {
        Seq::empty()
    } else {
        usable_frames(memory_map.drop_last()) + region_frames(memory_map.last())
    }
}

/// The `n`th usable frame of a memory map, counting from zero, if the map has
/// so many.
pub open spec fn frame_at(memory_map: Seq<MemoryRegion>, n: int) -> Option<int> {
    if 0 <= n < usable_frames(memory_map).len() {
        Some(usable_frames(memory_map)[n])
    } else {
        None
    }
}

/// What the allocator can work with: the frames of each usable region lie
/// below the limit of physical addresses, and the usable frames can be
/// counted in a `usize`.
pub open spec fn valid_memory_map(memory_map: Seq<MemoryRegion>) -> bool {
    &&& forall|r: int|
        0 <= r < memory_map.len() && (#[trigger] memory_map[r]).usable ==> {
            &&& memory_map[r].range.start_frame_number <= FRAME_NUMBER_LIMIT
            &&& memory_map[r].range.end_frame_number <= FRAME_NUMBER_LIMIT
        }
    &&& usable_frames(memory_map).len() <= usize::MAX
}

/// The usable frames of the first regions of a map are the first usable
/// frames of the map.
pub proof fn lemma_usable_frames_prefix(memory_map: Seq<MemoryRegion>, regions: int)
    requires
        0 <= regions <= memory_map.len(),
    ensures
        usable_frames(memory_map.take(regions)).is_prefix_of(usable_frames(memory_map)),
    decreases memory_map.len() - regions,
{
    if regions == memory_map.len() {
        assert(memory_map.take(regions) =~= memory_map);
    } else {
        lemma_usable_frames_prefix(memory_map, regions + 1);
        let longer = memory_map.take(regions + 1);
        assert(longer.drop_last() =~= memory_map.take(regions));
        assert(usable_frames(memory_map.take(regions)).is_prefix_of(usable_frames(longer)));
    }
}

/// How many usable frames lie in the first `regions` regions of a map.
pub open spec fn frames_before(memory_map: Seq<MemoryRegion>, regions: int) -> nat {
    usable_frames(memory_map.take(regions)).len()
}

/// Whether no frame belongs to two usable regions of the map.
pub open spec fn regions_disjoint(memory_map: Seq<MemoryRegion>) -> bool {
    forall|a: int, b: int|
        0 <= a < b < memory_map.len() && region_frame_count(#[trigger] memory_map[a]) > 0
            && region_frame_count(#[trigger] memory_map[b]) > 0 ==> {
            ||| memory_map[a].range.end_frame_number <= memory_map[b].range.start_frame_number
            ||| memory_map[b].range.end_frame_number <= memory_map[a].range.start_frame_number
        }
}

/// Whether the `n`th usable frame of the map is the frame with number
/// `number` of the usable region `region`.
pub open spec fn frame_comes_from(
    memory_map: Seq<MemoryRegion>,
    n: int,
    region: int,
    number: int,
) -> bool {
    &&& 0 <= region < memory_map.len()
    &&& memory_map[region].usable
    &&& memory_map[region].range.start_frame_number <= number
        < memory_map[region].range.end_frame_number
    &&& number == memory_map[region].range.start_frame_number + (n - frames_before(
        memory_map,
        region,
    ))
    &&& usable_frames(memory_map)[n] == number * 4096
}

/// Every usable frame of a map lies in a usable region of the map, and is
/// the frame of that region that its place in the count says.
pub proof fn lemma_frame_origin(memory_map: Seq<MemoryRegion>, n: int) -> (origin: (int, int))
    requires
        0 <= n < usable_frames(memory_map).len(),
    ensures
        frame_comes_from(memory_map, n, origin.0, origin.1),
    decreases memory_map.len(),
{
    let front = memory_map.drop_last();
    let last = memory_map.last();
    if n < usable_frames(front).len() {
        let origin = lemma_frame_origin(front, n);
        assert(front.take(origin.0) =~= memory_map.take(origin.0));
        origin
    } else {
        let region = memory_map.len() - 1;
        assert(memory_map.take(region) =~= front);
        let k = n - usable_frames(front).len();
        assert(region_frames(last)[k] == (last.range.start_frame_number + k) * 4096);
        (region, last.range.start_frame_number + k)
    }
}

/// Two different usable frames of a map whose usable regions do not overlap
/// start at different addresses.
pub proof fn lemma_frames_distinct(memory_map: Seq<MemoryRegion>, i: int, j: int)
    requires
        regions_disjoint(memory_map),
        0 <= i < usable_frames(memory_map).len(),
        0 <= j < usable_frames(memory_map).len(),
        i != j,
    ensures
        usable_frames(memory_map)[i] != usable_frames(memory_map)[j],
{
    let a = lemma_frame_origin(memory_map, i);
    let b = lemma_frame_origin(memory_map, j);
    if a.0 != b.0 {
        assert(region_frame_count(memory_map[a.0]) > 0);
        assert(region_frame_count(memory_map[b.0]) > 0);
        assert(a.1 != b.1);
    }
}

/// Every usable frame of a map starts at a multiple of the frame size and
/// lies, whole, within a usable region of the map.
pub proof fn lemma_frames_within_usable_regions(memory_map: Seq<MemoryRegion>, n: int)
    requires
        0 <= n < usable_frames(memory_map).len(),
    ensures
        usable_frames(memory_map)[n] % 4096 == 0,
        exists|r: int|
            0 <= r < memory_map.len() && (#[trigger] memory_map[r]).usable
                && memory_map[r].range.start_frame_number * 4096 <= usable_frames(memory_map)[n]
                && usable_frames(memory_map)[n] + 4096 <= memory_map[r].range.end_frame_number
                * 4096,
{
    let origin = lemma_frame_origin(memory_map, n);
    assert(memory_map[origin.0].usable);
}

/// A map that has no `n`th usable frame has no later one either.
pub proof fn lemma_frames_run_out_for_good(memory_map: Seq<MemoryRegion>, n: int, later: int)
    requires
        0 <= n <= later,
        frame_at(memory_map, n) is None,
    ensures
        frame_at(memory_map, later) is None,
{
}

/// Whether the allocator can work with `memory_map`.
pub fn is_valid_memory_map(memory_map: &[MemoryRegion]) -> (valid: bool)
    ensures
        valid == valid_memory_map(memory_map@),
{
    let mut total: usize = 0;
    let mut r: usize = 0;
    assert(memory_map@.take(0) =~= Seq::<MemoryRegion>::empty());
    while r < memory_map.len()
        invariant
            r <= memory_map.len(),
            total == frames_before(memory_map@, r as int),
            forall|q: int|
                0 <= q < r && (#[trigger] memory_map@[q]).usable ==> {
                    &&& memory_map@[q].range.start_frame_number <= FRAME_NUMBER_LIMIT
                    &&& memory_map@[q].range.end_frame_number <= FRAME_NUMBER_LIMIT
                },
        decreases memory_map.len() - r,
    {
        let region = memory_map[r];
        proof {
            let longer = memory_map@.take(r + 1);
            assert(longer.drop_last() =~= memory_map@.take(r as int));
            assert(longer.last() == region);
            lemma_usable_frames_prefix(memory_map@, r + 1);
        }
        if region.usable {
            if region.range.start_frame_number > FRAME_NUMBER_LIMIT
                || region.range.end_frame_number > FRAME_NUMBER_LIMIT {
                return false;
            }
            if region.range.start_frame_number < region.range.end_frame_number {
                let count: u64 = region.range.end_frame_number - region.range.start_frame_number;
                if count > (usize::MAX - total) as u64 {
                    return false;
                }
                total = total + count as usize;
            }
        }
        r += 1;
    }
    assert(memory_map@.take(r as int) =~= memory_map@);
    true
}

/// Hands out the usable frames of a memory map, each once, in the order of
/// the map. The allocator borrows the map and needs no memory of its own.
pub struct SprinkleFrameAllocator<'a> {
    memory_map: &'a [MemoryRegion],
    next: usize,
}

impl<'a> SprinkleFrameAllocator<'a> {
    /// The memory map that the frames are taken from.
    pub closed spec fn memory_map(&self) -> Seq<MemoryRegion> {
        self.memory_map@
    }

    /// How many times a frame has been asked for, as far as a `usize` counts.
    pub closed spec fn next(&self) -> nat {
        self.next as nat
    }

    /// The allocator's map is one it can work with.
    pub closed spec fn wf(&self) -> bool {
        valid_memory_map(self.memory_map@)
    }

    /// Whether every usable frame has been handed out.
    pub open spec fn exhausted(&self) -> bool {
        frame_at(self.memory_map(), self.next() as int) is None
    }

    /// The count of calls once one more call has been made, as far as a
    /// `usize` counts.
    pub open spec fn next_after_call(&self) -> nat {
        if self.next() < usize::MAX {
            self.next() + 1
        } else {
            self.next()
        }
    }

    /// The frame that the next call of `allocate_frame` hands out, if one is
    /// left.
    pub open spec fn next_frame(&self) -> Option<PhysFrame> {
        match frame_at(self.memory_map(), self.next() as int) {
            Some(start) => Some(PhysFrame::starting_at(start)),
            None => None,
        }
    }

    /// An allocator that has handed out nothing of `memory_map` yet.
    pub fn init(memory_map: &'a [MemoryRegion]) -> (allocator: SprinkleFrameAllocator<'a>)
        requires
            valid_memory_map(memory_map@),
        ensures
            allocator.wf(),
            allocator.memory_map() == memory_map@,
            allocator.next() == 0,
    {
        SprinkleFrameAllocator { memory_map, next: 0 }
    }

    /// An allocator for `memory_map`, if it is a map the allocator can work
    /// with.
    pub fn try_init(memory_map: &'a [MemoryRegion]) -> (allocator: Option<SprinkleFrameAllocator<'a>>)
        ensures
            allocator is Some <==> valid_memory_map(memory_map@),
            allocator matches Some(a) ==> a.wf() && a.memory_map() == memory_map@ && a.next() == 0,
    {
        if is_valid_memory_map(memory_map) {
            Some(SprinkleFrameAllocator::init(memory_map))
        } else {
            None
        }
    }

    /// The `n`th usable frame of the map, counting from zero.
    pub fn usable_frame(&self, n: usize) -> (frame: Option<PhysFrame>)
        requires
            self.wf(),
        ensures
            frame is Some <==> frame_at(self.memory_map(), n as int) is Some,
            frame matches Some(f) ==> frame_at(self.memory_map(), n as int) == Some(f.start()),
    {
        let mut skipped: usize = 0;
        let mut r: usize = 0;
        assert(self.memory_map@.take(0) =~= Seq::<MemoryRegion>::empty());
        while r < self.memory_map.len()
            invariant
                self.wf(),
                r <= self.memory_map.len(),
                skipped == frames_before(self.memory_map@, r as int),
                skipped <= n,
            decreases self.memory_map.len() - r,
        {
            let region = self.memory_map[r];
            proof {
                let longer = self.memory_map@.take(r + 1);
                assert(longer.drop_last() =~= self.memory_map@.take(r as int));
                assert(longer.last() == region);
                lemma_usable_frames_prefix(self.memory_map@, r + 1);
            }
            if region.usable && region.range.start_frame_number < region.range.end_frame_number {
                let count: u64 = region.range.end_frame_number - region.range.start_frame_number;
                let remaining: usize = n - skipped;
                if (remaining as u64) < count {
                    let number: u64 = region.range.start_frame_number + remaining as u64;
                    let address: u64 = number * PAGE_SIZE;
                    proof {
                        assert(region_frames(region)[remaining as int] == address);
                        assert(usable_frames(self.memory_map@.take(r + 1))[n as int] == address);
                        assert(usable_frames(self.memory_map@)[n as int] == address);
                    }
                    return Some(PhysFrame::containing_address(address));
                }
                skipped = skipped + count as usize;
            }
            r += 1;
        }
        assert(self.memory_map@.take(r as int) =~= self.memory_map@);
        None
    }

    /// Hands out the next usable frame, or `None` once all have been handed
    /// out. Each call counts, whether it returns a frame or not.
    pub fn allocate_frame(&mut self) -> (frame: Option<PhysFrame>)
        requires
            old(self).wf(),
        ensures
            final(self).wf(),
            final(self).memory_map() == old(self).memory_map(),
            final(self).next() == old(self).next_after_call(),
            frame == old(self).next_frame(),
            frame is None <==> old(self).exhausted(),
            frame matches Some(f) ==> frame_at(old(self).memory_map(), old(self).next() as int) == Some(
                f.start(),
            ),
            old(self).exhausted() ==> final(self).exhausted(),
    {
        let frame = self.usable_frame(self.next);
        if self.next < usize::MAX {
            self.next += 1;
        }
        frame
    }
}

/// The canonical form of a virtual address, if it has one. Bits 47 to 63 of a
/// canonical address are all equal. An address with these bits clear or all
/// set is canonical as it stands; one with only bit 47 set becomes canonical
/// by setting the bits above; any other has data there and no canonical
/// form.
pub open spec fn canonical_address(address: u64) -> Option<u64> {
    let high = address as int / 0x8000_0000_0000;
    if high == 0 || high == 0x1ffff {
        Some(address)
    } else if high == 1 {
        Some((address + 0xffff_0000_0000_0000) as u64)
    } else {
        None
    }
}

/// `VirtAddr::try_new`, read back with `as_u64`: the canonical form of
/// `address`, or `None` where `try_new` returns an error.
#[verifier::external_body]
fn virt_addr_try_new(address: u64) -> (canonical: Option<u64>)
    ensures
        canonical == canonical_address(address),
{
    match VirtAddr::try_new(address) {
        Ok(canonical) => Some(canonical.as_u64()),
        Err(_) => None,
    }
}

/// Where the physical address `physical` is found in virtual memory when all
/// physical memory is mapped from `physical_memory_offset` on: at the
/// canonical form of the sum of the canonical offset and the physical
/// address, if both exist and the sum fits 64 bits.
pub open spec fn mapped_address(physical_memory_offset: u64, physical: int) -> Option<u64> {
    match canonical_address(physical_memory_offset) {
        None => None,
        Some(offset) => if offset + physical <= u64::MAX {
            canonical_address((offset + physical) as u64)
        } else {
            None
        },
    }
}

/// The virtual address of the page table that starts the frame
/// `level_4_table_frame`, with all physical memory mapped from
/// `physical_memory_offset` on. `None` if there is no such address.
pub fn active_level_4_table(physical_memory_offset: u64, level_4_table_frame: PhysFrame) -> (address:
    Option<u64>)
    ensures
        address == mapped_address(physical_memory_offset, level_4_table_frame.start()),
{
    match virt_addr_try_new(physical_memory_offset) {
        None => None,
        Some(offset) => match offset.checked_add(level_4_table_frame.start_address()) {
            None => None,
            Some(sum) => virt_addr_try_new(sum),
        },
    }
}

} // verus!
