use axdevice::ivshmem::backing::{
    contiguous_frames, platform_allocation, BackingAllocation, BackingEffect, SharedBarBacking,
};
use axdevice::ivshmem::error::IvshmemError;

fn backing() -> SharedBarBacking {
    SharedBarBacking::try_new(0x1000, Ok(BackingAllocation::from_parts(0x4000_0000, 0x1000)))
        .unwrap()
}

#[test]
fn starts_zeroed_and_reports_its_size() {
    let backing = backing();
    assert_eq!(backing.size(), 0x1000);
    assert_eq!(backing.read(0, 8).unwrap(), 0);
}

#[test]
fn exposes_the_allocation_base() {
    let backing = backing();
    assert!(backing.allocation().hpa_base() != 0);
    assert_eq!(backing.allocation().size(), 0x1000);
}

#[test]
fn rejects_unaligned_sizes() {
    assert!(contiguous_frames(0x180).is_err());
    assert!(SharedBarBacking::try_new(
        0x180,
        contiguous_frames(0x180).map(|_| BackingAllocation::from_parts(0x4000_0000, 0x180)),
    )
    .is_err());
    assert_eq!(contiguous_frames(0x1_0000), Ok(16));
    assert!(contiguous_frames(0).is_err());
}

#[test]
fn platform_allocations_report_exhausted_memory() {
    let allocation = platform_allocation(0x1000, Some(0x8000_0000)).unwrap();
    assert_eq!(allocation.hpa_base(), 0x8000_0000);
    assert_eq!(allocation.size(), 0x1000);
    assert_eq!(
        platform_allocation(0x1000, None),
        Err(IvshmemError::AllocationFailed { operation: "allocate ivshmem link backing" })
    );
}

#[test]
fn reads_and_writes_all_access_widths_little_endian() {
    let mut backing = backing();
    backing.write(0x10, 1, 0xa5).unwrap();
    backing.write(0x12, 2, 0xbeef).unwrap();
    backing.write(0x20, 4, 0xdead_beef).unwrap();
    backing.write(0x40, 8, 0x0102_0304_0506_0708).unwrap();
    assert_eq!(backing.read(0x10, 1).unwrap(), 0xa5);
    assert_eq!(backing.read(0x12, 2).unwrap(), 0xbeef);
    assert_eq!(backing.read(0x20, 4).unwrap(), 0xdead_beef);
    assert_eq!(backing.read(0x40, 8).unwrap(), 0x0102_0304_0506_0708);
    // Wider reads observe the little-endian bytes of narrower writes.
    assert_eq!(backing.read(0x10, 4).unwrap(), 0xbeef_00a5);
}

#[test]
fn rejects_widths_outside_the_allowed_set() {
    let mut backing = backing();
    for width in [0, 3, 5, 16] {
        assert_eq!(backing.read(0, width), Err(IvshmemError::InvalidSharedMemoryWidth { width }));
        assert_eq!(
            backing.write(0, width, 0),
            Err(IvshmemError::InvalidSharedMemoryWidth { width })
        );
    }
}

#[test]
fn rejects_accesses_beyond_the_shared_region() {
    let mut backing = backing();
    let expected =
        |offset, width| IvshmemError::SharedMemoryOutOfRange { offset, width, size: 0x1000 };
    // The last byte is still accessible; one byte further is not.
    backing.read(0xfff, 1).unwrap();
    assert_eq!(backing.read(0xfff, 2), Err(expected(0xfff, 2)));
    assert_eq!(backing.read(0x1000, 1), Err(expected(0x1000, 1)));
    assert_eq!(backing.write(0xff9, 8, 0), Err(expected(0xff9, 8)));
    // Offset arithmetic itself must not overflow.
    assert_eq!(backing.read(u64::MAX - 1, 8), Err(expected(u64::MAX - 1, 8)));
    assert_eq!(
        expected(0x1000, 1).message(),
        "ivshmem shared-memory access at offset 0x1000 with 1 bytes exceeds the 0x1000-byte \
         region"
    );
}

#[test]
fn privileged_writes_reach_the_shared_bytes() {
    let mut backing = backing();
    backing.write_bytes(0, &0x1234_5678u32.to_le_bytes().to_vec()).unwrap();
    assert_eq!(backing.read(0, 4).unwrap(), 0x1234_5678);
    // Out-of-range privileged writes fail without corrupting memory.
    assert!(backing.write_bytes(0xffd, &vec![0xaa; 4]).is_err());
    assert_eq!(backing.read(0, 4).unwrap(), 0x1234_5678);
}

#[test]
fn zeroing_clears_every_byte() {
    let mut backing = backing();
    backing.write(0, 8, u64::MAX).unwrap();
    backing.write(0xff8, 8, u64::MAX).unwrap();
    backing.zero();
    assert_eq!(backing.read(0, 8).unwrap(), 0);
    assert_eq!(backing.read(0xff8, 8).unwrap(), 0);
}

#[test]
fn released_allocations_return_to_the_allocator() {
    let mut backing = SharedBarBacking::try_new(
        0x1000,
        Ok(BackingAllocation::from_parts(0x4000_0000, 0x1000)),
    )
    .unwrap();
    let allocation = *backing.allocation();
    backing.write(0, 4, 0x1234).unwrap();
    assert_eq!(
        backing.release(),
        vec![
            BackingEffect::Zero { allocation, size: 0x1000 },
            BackingEffect::Store { allocation, offset: 0, bytes: vec![0x34, 0x12, 0, 0] },
            BackingEffect::Release { allocation },
        ]
    );
}

#[test]
fn effects_are_taken_once_and_observed_bytes_cause_none() {
    let mut backing = backing();
    let allocation = *backing.allocation();
    assert_eq!(backing.take_effects(), vec![BackingEffect::Zero { allocation, size: 0x1000 }]);
    assert_eq!(backing.take_effects(), vec![]);
    // What a guest stored directly is seen and not stored again.
    backing.observe(0x10, &vec![0xaa, 0xbb]).unwrap();
    assert_eq!(backing.read(0x10, 2).unwrap(), 0xbbaa);
    assert!(backing.observe(0xfff, &vec![0, 0]).is_err());
    assert_eq!(backing.take_effects(), vec![]);
    // A refused write leaves nothing to be done.
    assert!(backing.write_bytes(0xffd, &vec![0xaa; 4]).is_err());
    assert_eq!(backing.take_effects(), vec![]);
    backing.zero();
    assert_eq!(backing.read(0x10, 2).unwrap(), 0);
    assert_eq!(backing.take_effects(), vec![BackingEffect::Zero { allocation, size: 0x1000 }]);
}
