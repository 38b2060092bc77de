//! Standing up the kernel heap: which pages to map, each to a fresh frame,
//! before the range is handed to the dynamic allocator.
use vstd::prelude::*;
use crate::memory::{frame_at, frame_start, PhysFrame, SprinkleFrameAllocator};

verus! {

/// The virtual address at which the kernel heap starts.
pub const HEAP_START: u64 = 0x4444_4444_0000;

/// The size of the kernel heap in bytes.
pub const HEAP_SIZE: u64 = 0x19000;

/// One more than the largest address of the lower half of virtual memory.
pub const LOWER_HALF_LIMIT: u64 = 0x8000_0000_0000;

/// A range of virtual memory, given by its first address and its length in
/// bytes.
#[derive(Debug, Clone, Copy, PartialEq, Eq, Structural)]
pub struct HeapRegion {
    pub start: u64,
    pub size: u64,
}

impl HeapRegion {
    /// The range is not empty and lies in the lower half of virtual memory.
    pub open spec fn wf(self) -> bool {
        &&& self.size > 0
        &&& self.start + self.size <= LOWER_HALF_LIMIT
    }

    /// The start of the page that holds the first byte of the range.
    pub open spec fn first_page(self) -> int {
        frame_start(self.start as int)
    }

    /// The start of the page that holds the last byte of the range.
    pub open spec fn last_page(self) -> int {
        frame_start(self.start + self.size - 1)
    }

    /// How many pages hold a byte of the range.
    pub open spec fn page_count(self) -> int {
        (self.last_page() - self.first_page()) / 4096 + 1
    }

    /// The start of the `n`th page of the range, counting from zero.
    pub open spec fn page(self, n: int) -> int {
        self.first_page() + n * 4096
    }

    /// The range of the kernel heap.
    pub fn kernel_heap() -> (region: HeapRegion)
        ensures
            region == (HeapRegion { start: HEAP_START, size: HEAP_SIZE }),
            region.wf(),
    {
        HeapRegion { start: HEAP_START, size: HEAP_SIZE }
    }

    /// How many pages hold a byte of the range.
    pub fn pages(self) -> (count: u64)
        requires
            self.wf(),
        ensures
            count == self.page_count(),
            count >= 1,
    {
        let first = self.start - self.start % 4096;
        let last_byte = self.start + self.size - 1;
        let last = last_byte - last_byte % 4096;
        (last - first) / 4096 + 1
    }

    /// The start of the `n`th page of the range, counting from zero.
    pub fn page_address(self, n: u64) -> (address: u64)
        requires
            self.wf(),
            n < self.page_count(),
        ensures
            address == self.page(n as int),
            address % 4096 == 0,
            address < LOWER_HALF_LIMIT,
    {
        let first = self.start - self.start % 4096;
        first + n * 4096
    }
}

/// Why the heap could not be mapped.
#[derive(Debug, Clone, Copy, PartialEq, Eq, Structural)]
pub enum MapError {
    /// No frame was left, for a page of the heap or for a page table.
    FrameAllocationFailed,
    /// The page lies in a huge page that is mapped already.
    ParentEntryHugePage,
    /// The page is mapped already, to the frame given.
    PageAlreadyMapped(PhysFrame),
}

/// What is to be done next to map the heap.
#[derive(Debug, Clone, Copy, PartialEq, Eq, Structural)]
pub enum HeapStep {
    /// Map the page that starts at `page` to `frame`, writable, and report
    /// how that went.
    MapPage { page: u64, frame: PhysFrame },
    /// Every page is mapped: hand the range to the dynamic allocator.
    Done,
    /// Mapping has failed. Nothing is undone.
    Failed(MapError),
}

/// How far the mapping of a heap has come.
#[derive(Debug, Clone, Copy, PartialEq, Eq, Structural)]
pub enum Progress {
    /// The first `mapped` pages are mapped, and no mapping is under way.
    Idle,
    /// A frame has been handed out for the next page, whose mapping has not
    /// been reported yet.
    Mapping,
    /// Mapping has failed.
    Failed(MapError),
}

/// Maps a heap page by page. Each step either names the next page with the
/// frame to map it to, or says that the work is done or has failed; the
/// caller installs the mapping and reports the result.
pub struct HeapBootstrap {
    region: HeapRegion,
    mapped: u64,
    progress: Progress,
}

impl HeapBootstrap {
    /// The range that is being mapped.
    pub closed spec fn region(&self) -> HeapRegion {
        self.region
    }

    /// How many pages have been mapped.
    pub closed spec fn mapped(&self) -> int {
        self.mapped as int
    }

    /// How far the mapping has come.
    pub closed spec fn progress(&self) -> Progress {
        self.progress
    }

    /// The range is well formed and no more pages are mapped than it has;
    /// while a mapping is under way, a page is left to map.
    pub closed spec fn wf(&self) -> bool {
        &&& self.region.wf()
        &&& self.mapped <= self.region.page_count()
        &&& self.progress == Progress::Mapping ==> self.mapped < self.region.page_count()
    }

    /// Whether every page of the range is mapped.
    pub open spec fn complete(&self) -> bool {
        self.progress() == Progress::Idle && self.mapped() == self.region().page_count()
    }

    /// Whether the next step takes a frame from the allocator: it does while
    /// nothing has failed, no mapping is under way and pages are left.
    pub open spec fn takes_frame(&self) -> bool {
        self.progress() == Progress::Idle && self.mapped() < self.region().page_count()
    }

    /// What the next step says, given the frame that the allocator hands out
    /// if it is asked for one.
    pub open spec fn step(&self, frame: Option<PhysFrame>) -> HeapStep {
        match self.progress() {
            Progress::Failed(error) => HeapStep::Failed(error),
            Progress::Mapping | Progress::Idle => if self.mapped() == self.region().page_count() {
                HeapStep::Done
            } else {
                match frame {
                    Some(frame) => HeapStep::MapPage {
                        page: self.region().page(self.mapped()) as u64,
                        frame,
                    },
                    None => HeapStep::Failed(MapError::FrameAllocationFailed),
                }
            },
        }
    }

    /// How far the mapping has come after the next step, given the frame that
    /// the allocator hands out if it is asked for one.
    pub open spec fn progress_after(&self, frame: Option<PhysFrame>) -> Progress {
        match self.progress() {
            Progress::Failed(error) => Progress::Failed(error),
            Progress::Mapping | Progress::Idle => if self.mapped() == self.region().page_count() {
                Progress::Idle
            } else {
                match frame {
                    Some(frame) => Progress::Mapping,
                    None => Progress::Failed(MapError::FrameAllocationFailed),
                }
            },
        }
    }

    /// The start of mapping `region`: nothing is mapped yet.
    pub fn new(region: HeapRegion) -> (bootstrap: HeapBootstrap)
        requires
            region.wf(),
        ensures
            bootstrap.wf(),
            bootstrap.region() == region,
            bootstrap.mapped() == 0,
            bootstrap.progress() == Progress::Idle,
    {
        HeapBootstrap { region, mapped: 0, progress: Progress::Idle }
    }

    /// How many pages have been mapped.
    pub fn pages_mapped(&self) -> (count: u64)
        ensures
            count == self.mapped(),
    {
        self.mapped
    }

    /// Whether a mapping is under way: a step has named a page and a frame,
    /// and the result has not been reported.
    pub fn is_mapping(&self) -> (mapping: bool)
        ensures
            mapping == (self.progress() == Progress::Mapping),
    {
        match self.progress {
            Progress::Mapping => true,
            _ => false,
        }
    }

    /// Says what to do next. While pages are left and nothing has failed, a
    /// frame is taken from `frame_allocator` for the next page; if none is
    /// left, mapping has failed. Once mapping is done or has failed, no
    /// frame is taken.
    pub fn next_step(&mut self, frame_allocator: &mut SprinkleFrameAllocator<'_>) -> (step: HeapStep)
        requires
            old(self).wf(),
            old(self).progress() != Progress::Mapping,
            old(frame_allocator).wf(),
        ensures
            final(self).wf(),
            final(frame_allocator).wf(),
            final(frame_allocator).memory_map() == old(frame_allocator).memory_map(),
            final(self).region() == old(self).region(),
            final(self).mapped() == old(self).mapped(),
            final(frame_allocator).next() == if old(self).takes_frame() {
                old(frame_allocator).next_after_call()
            } else {
                old(frame_allocator).next()
            },
            step == old(self).step(old(frame_allocator).next_frame()),
            final(self).progress() == old(self).progress_after(old(frame_allocator).next_frame()),
            step matches HeapStep::MapPage { page, frame } ==> Some(frame.start()) == frame_at(
                old(frame_allocator).memory_map(),
                old(frame_allocator).next() as int,
            ),
    {
        match self.progress {
            Progress::Failed(error) => HeapStep::Failed(error),
            Progress::Mapping | Progress::Idle => {
                if self.mapped == self.region.pages() {
                    return HeapStep::Done;
                }
                match frame_allocator.allocate_frame() {
                    None => {
                        self.progress = Progress::Failed(MapError::FrameAllocationFailed);
                        HeapStep::Failed(MapError::FrameAllocationFailed)
                    },
                    Some(frame) => {
                        self.progress = Progress::Mapping;
                        HeapStep::MapPage { page: self.region.page_address(self.mapped), frame }
                    },
                }
            },
        }
    }

    /// Takes the report of the mapping that the last step asked for: a page
    /// more is mapped, or mapping has failed with `result`'s error.
    pub fn mapping_done(&mut self, result: Result<(), MapError>)
        requires
            old(self).wf(),
            old(self).progress() == Progress::Mapping,
        ensures
            final(self).wf(),
            final(self).region() == old(self).region(),
            result is Ok ==> final(self).mapped() == old(self).mapped() + 1
                && final(self).progress() == Progress::Idle,
            result matches Err(error) ==> final(self).mapped() == old(self).mapped()
                && final(self).progress() == Progress::Failed(error),
    {
        match result {
            Ok(()) => {
                self.mapped = self.mapped + 1;
                self.progress = Progress::Idle;
            },
            Err(error) => {
                self.progress = Progress::Failed(error);
            },
        }
    }
}

} // verus!
