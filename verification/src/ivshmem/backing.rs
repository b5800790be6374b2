//! Shared BAR2 backing of one ivshmem link.
//!
//! The backing stands for physically contiguous host memory that guests map
//! directly into their stage-2 while trap-side writes keep working through the
//! hypervisor's view of the same bytes. The host memory comes from an allocator
//! outside; its answer is an argument here.
//!
//! The memory itself is reached outside too. What happens to it is listed as
//! effects, to be performed in their order; what guests stored directly comes
//! in as observed bytes before an access reads them.

use crate::device::PAGE_SIZE;
use crate::ivshmem::error::{IvshmemError, IvshmemErrorView};
use crate::le;
use vstd::prelude::*;

verus! {

/// Host memory behind one link's shared BAR2.
#[derive(Clone, Copy, Debug, PartialEq, Eq, Structural)]
pub struct BackingAllocation {
    pub hpa_base: u64,
    pub size: u64,
}

impl BackingAllocation {
    /// Creates an allocation handle from its parts.
    pub fn from_parts(hpa_base: u64, size: u64) -> (allocation: Self)
        ensures
            allocation == (BackingAllocation { hpa_base, size }),
    {
        BackingAllocation { hpa_base, size }
    }

    /// Returns the host-physical base of the allocation.
    pub fn hpa_base(&self) -> (base: u64)
        ensures
            base == self.hpa_base,
    {
        self.hpa_base
    }

    /// Returns the allocation size in bytes.
    pub fn size(&self) -> (size: u64)
        ensures
            size == self.size,
    {
        self.size
    }
}

/// The request for host frames behind an allocation of `size` bytes, or why
/// there is none.
///
/// Frames are whole pages, and an allocation has at least one.
pub fn contiguous_frames(size: u64) -> (frames: Result<u64, IvshmemError>)
    ensures
        match frames {
            Ok(frames) => 0 < frames && frames * PAGE_SIZE == size,
            Err(error) => (size == 0 || size % PAGE_SIZE != 0) && error@ == (
            IvshmemErrorView::AllocationFailed {
                operation: "allocate ivshmem link backing (size must be a non-zero 4 KiB multiple)"@,
            }),
        },
{
    if size == 0 || size % PAGE_SIZE != 0 {
        return Err(
            IvshmemError::AllocationFailed {
                operation: "allocate ivshmem link backing (size must be a non-zero 4 KiB multiple)",
            },
        );
    }
    Ok(size / PAGE_SIZE)
}

/// Turns the answer of the platform's frame allocator into an allocation.
pub fn platform_allocation(size: u64, hpa: Option<u64>) -> (allocation: Result<
    BackingAllocation,
    IvshmemError,
>)
    ensures
        match allocation {
            Ok(allocation) => hpa == Some(allocation.hpa_base) && allocation.size == size,
            Err(error) => hpa is None && error@ == (IvshmemErrorView::AllocationFailed {
                operation: "allocate ivshmem link backing"@,
            }),
        },
{
    match hpa {
        Some(hpa) => Ok(BackingAllocation::from_parts(hpa, size)),
        None => Err(IvshmemError::AllocationFailed { operation: "allocate ivshmem link backing" }),
    }
}

/// What is to happen to host memory.
#[derive(Debug, PartialEq, Eq)]
pub enum BackingEffect {
    /// The first `size` bytes of the allocation become zero.
    Zero { allocation: BackingAllocation, size: u64 },
    /// The bytes from `offset` on are replaced.
    Store { allocation: BackingAllocation, offset: u64, bytes: Vec<u8> },
    /// The memory goes back to its allocator.
    Release { allocation: BackingAllocation },
}

/// The contents of a [`BackingEffect`].
pub enum EffectView {
    Zero { allocation: BackingAllocation, size: u64 },
    Store { allocation: BackingAllocation, offset: u64, bytes: Seq<u8> },
    Release { allocation: BackingAllocation },
}

impl View for BackingEffect {
    type V = EffectView;

    open spec fn view(&self) -> EffectView {
        match *self {
            BackingEffect::Zero { allocation, size } => EffectView::Zero { allocation, size },
            BackingEffect::Store { allocation, offset, bytes } => EffectView::Store {
                allocation,
                offset,
                bytes: bytes@,
            },
            BackingEffect::Release { allocation } => EffectView::Release { allocation },
        }
    }
}

/// The contents of a list of effects.
pub open spec fn effect_views(effects: Seq<BackingEffect>) -> Seq<EffectView> {
    Seq::new(effects.len(), |i: int| effects[i]@)
}

/// What memory holds after an effect on it.
pub open spec fn performed(memory: Seq<u8>, effect: EffectView) -> Seq<u8> {
    match effect {
        EffectView::Zero { size, .. } => overwritten(memory, 0, zeroed(size as int)),
        EffectView::Store { offset, bytes, .. } => overwritten(memory, offset as int, bytes),
        EffectView::Release { .. } => memory,
    }
}

/// Appends an effect.
pub fn push_effect(effects: &mut Vec<BackingEffect>, effect: BackingEffect)
    ensures
        effect_views(final(effects)@) == effect_views(old(effects)@).push(effect@),
{
    effects.push(effect);
    assert(effect_views(effects@) =~= effect_views(old(effects)@).push(effect@));
}

/// Takes all effects of a list.
pub fn drain_effects(effects: &mut Vec<BackingEffect>) -> (taken: Vec<BackingEffect>)
    ensures
        taken@ == old(effects)@,
        final(effects)@ == Seq::<BackingEffect>::empty(),
        effect_views(final(effects)@) == Seq::<EffectView>::empty(),
{
    let mut taken: Vec<BackingEffect> = Vec::new();
    std::mem::swap(&mut taken, effects);
    assert(effect_views(effects@) =~= Seq::<EffectView>::empty());
    taken
}

/// Shared BAR2 backing behind every peer BAR2 of one link.
#[derive(Debug)]
pub struct SharedBarBacking {
    pub allocation: BackingAllocation,
    /// The bytes as last stored or observed.
    pub bytes: Vec<u8>,
    /// What is still to happen to the memory.
    pub effects: Vec<BackingEffect>,
}

/// `size` zero bytes.
pub open spec fn zeroed(size: int) -> Seq<u8> {
    Seq::new(size as nat, |i: int| 0u8)
}

/// What is wrong with a BAR2 access, if anything.
pub open spec fn access_fault(offset: u64, width: usize, size: int) -> Option<IvshmemErrorView> {
    if width != 1 && width != 2 && width != 4 && width != 8 {
        Some(IvshmemErrorView::InvalidSharedMemoryWidth { width })
    } else {
        range_fault(offset, width, size)
    }
}

/// What is wrong with a range of the region, if anything.
pub open spec fn range_fault(offset: u64, width: usize, size: int) -> Option<IvshmemErrorView> {
    if offset + width > size {
        Some(IvshmemErrorView::SharedMemoryOutOfRange { offset, width, size: size as u64 })
    } else {
        None
    }
}

impl SharedBarBacking {
    /// Size of the region in bytes.
    pub open spec fn spec_size(self) -> int {
        self.bytes@.len() as int
    }

    /// What is still to happen to the memory.
    pub open spec fn effects(self) -> Seq<EffectView> {
        effect_views(self.effects@)
    }

    /// Allocates a backing of `size` bytes, which the first effect zeroes.
    ///
    /// `allocation` is the allocator's answer to a request of that size. A
    /// size that is no multiple of the page size is refused whatever the
    /// allocator answered.
    pub fn try_new(size: u64, allocation: Result<BackingAllocation, IvshmemError>) -> (backing:
        Result<Self, IvshmemError>)
        requires
            size <= usize::MAX,
        ensures
            match backing {
                Ok(backing) => {
                    &&& size % PAGE_SIZE == 0
                    &&& allocation == Ok::<_, IvshmemError>(backing.allocation)
                    &&& backing.bytes@ == zeroed(size as int)
                    &&& backing.effects() == seq![
                        EffectView::Zero { allocation: backing.allocation, size },
                    ]
                },
                Err(error) => if size % PAGE_SIZE != 0 {
                    error@ == (IvshmemErrorView::AllocationFailed {
                        operation:
                            "allocate ivshmem shared memory (size is not 4 KiB aligned)"@,
                    })
                } else {
                    allocation == Err::<BackingAllocation, _>(error)
                },
            },
    {
        if size % PAGE_SIZE != 0 {
            return Err(
                IvshmemError::AllocationFailed {
                    operation: "allocate ivshmem shared memory (size is not 4 KiB aligned)",
                },
            );
        }
        match allocation {
            Ok(allocation) => {
                let bytes: Vec<u8> = vec![0u8; size as usize];
                assert(bytes@ =~= zeroed(size as int));
                let mut effects: Vec<BackingEffect> = Vec::new();
                push_effect(&mut effects, BackingEffect::Zero { allocation, size });
                assert(effect_views(effects@) =~= seq![EffectView::Zero { allocation, size }]);
                Ok(SharedBarBacking { allocation, bytes, effects })
            },
            Err(error) => Err(error),
        }
    }

    /// Returns the underlying allocation.
    pub fn allocation(&self) -> (allocation: &BackingAllocation)
        ensures
            *allocation == self.allocation,
    {
        &self.allocation
    }

    /// Clears every byte of the backing.
    ///
    /// Called when a link lifecycle ends so a later reactivation cannot
    /// observe state from the previous lifecycle.
    pub fn zero(&mut self)
        ensures
            final(self).bytes@ == zeroed(old(self).spec_size()),
            final(self).allocation == old(self).allocation,
            final(self).effects() == old(self).effects().push(
                EffectView::Zero {
                    allocation: old(self).allocation,
                    size: old(self).spec_size() as u64,
                },
            ),
    {
        let length: usize = self.bytes.len();
        self.bytes = vec![0u8; length];
        assert(self.bytes@ =~= zeroed(length as int));
        let allocation = self.allocation;
        push_effect(&mut self.effects, BackingEffect::Zero { allocation, size: length as u64 });
    }

    /// Returns the backing size in bytes.
    pub fn size(&self) -> (size: u64)
        ensures
            size == self.spec_size(),
    {
        self.bytes.len() as u64
    }

    /// Reads `width` bytes at `offset` as one little-endian value.
    pub fn read(&self, offset: u64, width: usize) -> (value: Result<u64, IvshmemError>)
        ensures
            match value {
                Ok(value) => {
                    &&& access_fault(offset, width, self.spec_size()) is None
                    &&& value == le::le_value(
                        self.bytes@.subrange(offset as int, offset + width),
                    )
                },
                Err(error) => access_fault(offset, width, self.spec_size()) == Some(error@),
            },
    {
        match self.access_range(offset, width) {
            Ok(start) => Ok(le::read_bytes(&self.bytes, start, width)),
            Err(error) => Err(error),
        }
    }

    /// Writes the low `width` bytes of `value` at `offset` little-endian.
    pub fn write(&mut self, offset: u64, width: usize, value: u64) -> (result: Result<
        (),
        IvshmemError,
    >)
        ensures
            final(self).allocation == old(self).allocation,
            match result {
                Ok(()) => {
                    &&& access_fault(offset, width, old(self).spec_size()) is None
                    &&& final(self).bytes@ == le::replaced_bytes(
                        old(self).bytes@,
                        offset as int,
                        width as int,
                        value as nat,
                    )
                    &&& final(self).effects() == old(self).effects().push(
                        EffectView::Store {
                            allocation: old(self).allocation,
                            offset,
                            bytes: le::le_bytes(value as nat, width as nat),
                        },
                    )
                },
                Err(error) => access_fault(offset, width, old(self).spec_size()) == Some(error@)
                    && *final(self) == *old(self),
            },
    {
        match self.access_range(offset, width) {
            Ok(start) => {
                le::write_bytes(&mut self.bytes, start, width, value);
                let bytes = copied_bytes(&self.bytes, start, width);
                assert(bytes@ =~= le::le_bytes(value as nat, width as nat));
                let allocation = self.allocation;
                push_effect(&mut self.effects, BackingEffect::Store { allocation, offset, bytes });
                Ok(())
            },
            Err(error) => Err(error),
        }
    }

    /// Writes bytes on behalf of the link, such as a state-table entry.
    ///
    /// Guests reach the same bytes only through their BAR access path.
    pub fn write_bytes(&mut self, offset: u64, bytes: &Vec<u8>) -> (result: Result<
        (),
        IvshmemError,
    >)
        ensures
            final(self).allocation == old(self).allocation,
            match result {
                Ok(()) => {
                    &&& range_fault(offset, bytes.len(), old(self).spec_size()) is None
                    &&& final(self).bytes@ == overwritten(
                        old(self).bytes@,
                        offset as int,
                        bytes@,
                    )
                    &&& final(self).effects() == old(self).effects().push(
                        EffectView::Store {
                            allocation: old(self).allocation,
                            offset,
                            bytes: bytes@,
                        },
                    )
                },
                Err(error) => range_fault(offset, bytes.len(), old(self).spec_size()) == Some(
                    error@,
                ) && *final(self) == *old(self),
            },
    {
        match self.observe(offset, bytes) {
            Ok(()) => {
                let stored = copied_bytes(bytes, 0, bytes.len());
                assert(stored@ =~= bytes@);
                let allocation = self.allocation;
                push_effect(
                    &mut self.effects,
                    BackingEffect::Store { allocation, offset, bytes: stored },
                );
                Ok(())
            },
            Err(error) => Err(error),
        }
    }

    /// Takes in what the memory holds from `offset` on, as guests may have
    /// stored it directly.
    pub fn observe(&mut self, offset: u64, bytes: &Vec<u8>) -> (result: Result<(), IvshmemError>)
        ensures
            final(self).allocation == old(self).allocation,
            final(self).effects == old(self).effects,
            match result {
                Ok(()) => {
                    &&& range_fault(offset, bytes.len(), old(self).spec_size()) is None
                    &&& final(self).bytes@ == overwritten(
                        old(self).bytes@,
                        offset as int,
                        bytes@,
                    )
                },
                Err(error) => range_fault(offset, bytes.len(), old(self).spec_size()) == Some(
                    error@,
                ) && *final(self) == *old(self),
            },
    {
        let start: usize = match self.byte_range(offset, bytes.len()) {
            Ok(start) => start,
            Err(error) => {
                return Err(error);
            },
        };
        let ghost before = self.bytes@;
        let mut index: usize = 0;
        assert(self.bytes@ =~= overwritten(before, start as int, bytes@.take(0)));
        while index < bytes.len()
            invariant
                index <= bytes.len(),
                start + bytes.len() <= self.bytes.len(),
                self.bytes@.len() == before.len(),
                self.allocation == old(self).allocation,
                self.effects == old(self).effects,
                self.bytes@ == overwritten(before, start as int, bytes@.take(index as int)),
            decreases bytes.len() - index,
        {
            self.bytes.set(start + index, bytes[index]);
            index = index + 1;
            assert(self.bytes@ =~= overwritten(before, start as int, bytes@.take(index as int)));
        }
        assert(bytes@.take(index as int) =~= bytes@);
        Ok(())
    }

    /// Takes what is still to happen to the memory; whoever takes the effects
    /// performs them in their order.
    pub fn take_effects(&mut self) -> (effects: Vec<BackingEffect>)
        ensures
            effect_views(effects@) == old(self).effects(),
            final(self).effects() == Seq::<EffectView>::empty(),
            final(self).allocation == old(self).allocation,
            final(self).bytes == old(self).bytes,
    {
        drain_effects(&mut self.effects)
    }

    /// Gives the memory up; returns what is still to happen to it, its release
    /// last.
    pub fn release(self) -> (effects: Vec<BackingEffect>)
        ensures
            effect_views(effects@) == self.effects().push(
                EffectView::Release { allocation: self.allocation },
            ),
    {
        let mut effects = self.effects;
        push_effect(&mut effects, BackingEffect::Release { allocation: self.allocation });
        effects
    }

    fn access_range(&self, offset: u64, width: usize) -> (start: Result<usize, IvshmemError>)
        ensures
            match start {
                Ok(start) => access_fault(offset, width, self.spec_size()) is None && start
                    == offset && start + width <= self.bytes.len() && width <= 8,
                Err(error) => access_fault(offset, width, self.spec_size()) == Some(error@),
            },
    {
        if width != 1 && width != 2 && width != 4 && width != 8 {
            return Err(IvshmemError::InvalidSharedMemoryWidth { width });
        }
        self.byte_range(offset, width)
    }

    fn byte_range(&self, offset: u64, width: usize) -> (start: Result<usize, IvshmemError>)
        ensures
            match start {
                Ok(start) => range_fault(offset, width, self.spec_size()) is None && start == offset
                    && start + width <= self.bytes.len(),
                Err(error) => range_fault(offset, width, self.spec_size()) == Some(error@),
            },
    {
        let length: usize = self.bytes.len();
        let size: u64 = length as u64;
        let inside = match offset.checked_add(width as u64) {
            Some(end) => end <= size,
            None => false,
        };
        if !inside {
            return Err(IvshmemError::SharedMemoryOutOfRange { offset, width, size });
        }
        Ok(offset as usize)
    }
}

/// The bytes `before` with those from `offset` on replaced by `bytes`.
pub open spec fn overwritten(before: Seq<u8>, offset: int, bytes: Seq<u8>) -> Seq<u8> {
    Seq::new(
        before.len(),
        |i: int|
            if offset <= i < offset + bytes.len() {
                bytes[i - offset]
            } else {
                before[i]
            },
    )
}

/// Copies `count` bytes.
fn copied_bytes(bytes: &Vec<u8>, start: usize, count: usize) -> (copy: Vec<u8>)
    requires
        start + count <= bytes@.len(),
    ensures
        copy@ == bytes@.subrange(start as int, start + count),
{
    let mut copy: Vec<u8> = Vec::new();
    let mut index: usize = 0;
    while index < count
        invariant
            index <= count,
            start + count <= bytes.len(),
            copy@ == bytes@.subrange(start as int, start + index),
        decreases count - index,
    {
        copy.push(bytes[start + index]);
        index = index + 1;
        assert(copy@ =~= bytes@.subrange(start as int, start + index));
    }
    copy
}

/// Memory that held what the backing holds does so again once the effect of a
/// store or of zeroing was performed.
pub proof fn law_performed_effects_match_the_backing(
    before: Seq<u8>,
    allocation: BackingAllocation,
    offset: u64,
    width: nat,
    value: nat,
)
    ensures
        performed(
            before,
            EffectView::Store { allocation, offset, bytes: le::le_bytes(value, width) },
        ) == le::replaced_bytes(before, offset as int, width as int, value),
        before.len() <= u64::MAX ==> performed(
            before,
            EffectView::Zero { allocation, size: before.len() as u64 },
        ) == zeroed(before.len() as int),
{
    assert(performed(
        before,
        EffectView::Store { allocation, offset, bytes: le::le_bytes(value, width) },
    ) =~= le::replaced_bytes(before, offset as int, width as int, value));
    if before.len() <= u64::MAX {
        assert(performed(before, EffectView::Zero { allocation, size: before.len() as u64 })
            =~= zeroed(before.len() as int));
    }
}

/// A read gives back what a write of the same width at the same offset wrote,
/// cut to that width.
pub proof fn law_backing_reads_what_was_written(
    before: Seq<u8>,
    offset: int,
    width: nat,
    value: nat,
)
    requires
        0 <= offset,
        offset + width <= before.len(),
    ensures
        le::le_value(
            le::replaced_bytes(before, offset, width as int, value).subrange(
                offset,
                offset + width,
            ),
        ) == value % le::byte_span(width),
{
    assert(le::replaced_bytes(before, offset, width as int, value).subrange(
        offset,
        offset + width,
    ) =~= le::le_bytes(value, width));
    le::law_bytes_round_trip(value, width);
}

} // verus!
