//! Guest address-space planning: which guest-physical ranges stay emulated,
//! which are owned by the guest, and how large the space is.

use crate::device::Resource;
use crate::stage2::DirectMapping;
use std::ops::Range;
use vstd::arithmetic::power2;
use vstd::bits;
use vstd::prelude::*;

verus! {

/// Preparing the address space of a VM failed.
#[derive(Clone, Copy, Debug, PartialEq, Eq)]
pub enum AddressSpaceError {
    /// The configuration cannot be realised.
    InvalidConfig { detail: &'static str },
    /// Configured values do not fit together.
    InvalidInput { detail: &'static str },
}

// ---------------------------------------------------------------------------
// Emulated ranges
// ---------------------------------------------------------------------------

/// The address lies in some range.
pub open spec fn in_ranges(ranges: Seq<Range<u64>>, address: int) -> bool {
    exists|i: int|
        0 <= i < ranges.len() && (#[trigger] ranges[i]).start <= address < ranges[i].end
}

/// The address lies in the memory range of the resource.
pub open spec fn in_piece(piece: Resource, address: int) -> bool {
    piece matches Resource::MmioRange { base, size } && base <= address < base + size
}

/// The address lies in some piece.
pub open spec fn in_pieces(pieces: Seq<Resource>, address: int) -> bool {
    exists|i: int| 0 <= i < pieces.len() && in_piece(#[trigger] pieces[i], address)
}

/// First address after a piece.
pub open spec fn piece_end(piece: Resource) -> int {
    piece->MmioRange_base + piece->MmioRange_size
}

/// Pieces are memory ranges that are not empty and come in ascending order with
/// a gap between any two.
pub open spec fn pieces_ok(pieces: Seq<Resource>) -> bool {
    &&& forall|i: int|
        0 <= i < pieces.len() ==> (#[trigger] pieces[i]) is MmioRange && pieces[i]->MmioRange_size
            > 0
    &&& forall|i: int, j: int|
        0 <= i < j < pieces.len() ==> piece_end(#[trigger] pieces[i]) < (
        #[trigger] pieces[j])->MmioRange_base
}

/// The pieces are what is left of `base..base + size` without the direct
/// ranges.
pub open spec fn is_remainder(
    base: u64,
    size: u64,
    direct_ranges: Seq<Range<u64>>,
    pieces: Seq<Resource>,
) -> bool {
    &&& pieces_ok(pieces)
    &&& forall|address: int| #[trigger]
        in_pieces(pieces, address) <==> base <= address < base + size && !in_ranges(
            direct_ranges,
            address,
        )
}

/// The address lies in one of the first `count` cuts.
spec fn in_cuts(cuts: Seq<(u64, u64)>, count: int, address: int) -> bool {
    exists|i: int| 0 <= i < count && (#[trigger] cuts[i]).0 <= address < cuts[i].1
}

/// Collects the cuts that direct ranges make into `start..end`, in ascending
/// order of their start.
fn sorted_cuts(direct_ranges: &Vec<Range<u64>>, start: u64, end: u64) -> (cuts: Vec<(u64, u64)>)
    ensures
        forall|i: int|
            0 <= i < cuts@.len() ==> start <= (#[trigger] cuts@[i]).0 < cuts@[i].1 <= end,
        forall|i: int, j: int|
            0 <= i < j < cuts@.len() ==> (#[trigger] cuts@[i]).0 <= (#[trigger] cuts@[j]).0,
        forall|address: int| #[trigger]
            in_cuts(cuts@, cuts@.len() as int, address) <==> start <= address < end && in_ranges(
                direct_ranges@,
                address,
            ),
{
    let mut cuts: Vec<(u64, u64)> = Vec::new();
    let mut index: usize = 0;
    while index < direct_ranges.len()
        invariant
            index <= direct_ranges.len(),
            forall|i: int|
                0 <= i < cuts@.len() ==> start <= (#[trigger] cuts@[i]).0 < cuts@[i].1 <= end,
            forall|i: int, j: int|
                0 <= i < j < cuts@.len() ==> (#[trigger] cuts@[i]).0 <= (#[trigger] cuts@[j]).0,
            forall|address: int| #[trigger]
                in_cuts(cuts@, cuts@.len() as int, address) <==> start <= address < end
                    && in_ranges(direct_ranges@.take(index as int), address),
        decreases direct_ranges.len() - index,
    {
        let range = &direct_ranges[index];
        let cut_start: u64 = if range.start > start {
            range.start
        } else {
            start
        };
        let cut_end: u64 = if range.end < end {
            range.end
        } else {
            end
        };
        let ghost before = cuts@;
        let ghost earlier = direct_ranges@.take(index as int);
        let ghost later = direct_ranges@.take(index + 1);
        assert(later =~= earlier.push(direct_ranges@[index as int]));
        assert forall|address: int| in_ranges(later, address) <==> in_ranges(earlier, address) || (
        direct_ranges@[index as int].start <= address < direct_ranges@[index as int].end) by {
            if in_ranges(earlier, address) {
                let i = choose|i: int|
                    0 <= i < earlier.len() && (#[trigger] earlier[i]).start <= address
                        < earlier[i].end;
                assert(later[i] == earlier[i]);
            }
            if direct_ranges@[index as int].start <= address < direct_ranges@[index as int].end {
                assert(later[index as int].start <= address < later[index as int].end);
            }
            if in_ranges(later, address) {
                let i = choose|i: int|
                    0 <= i < later.len() && (#[trigger] later[i]).start <= address < later[i].end;
                if i < index {
                    assert(earlier[i] == later[i]);
                }
            }
        }
        if cut_start < cut_end {
            let mut at: usize = 0;
            while at < cuts.len() && cuts[at].0 <= cut_start
                invariant
                    at <= cuts.len(),
                    cuts@ == before,
                    forall|i: int| 0 <= i < at ==> (#[trigger] cuts@[i]).0 <= cut_start,
                decreases cuts.len() - at,
            {
                at = at + 1;
            }
            cuts.insert(at, (cut_start, cut_end));
            proof {
                let after = cuts@;
                assert(after =~= before.insert(at as int, (cut_start, cut_end)));
                assert forall|i: int| 0 <= i < after.len() implies start <= (
                #[trigger] after[i]).0 < after[i].1 <= end by {
                    if i < at {
                        assert(after[i] == before[i]);
                    } else if i > at {
                        assert(after[i] == before[i - 1]);
                    }
                }
                assert forall|i: int, j: int| 0 <= i < j < after.len() implies (
                #[trigger] after[i]).0 <= (#[trigger] after[j]).0 by {
                    let k = if i < at {
                        i
                    } else {
                        i - 1
                    };
                    let l = if j < at {
                        j
                    } else {
                        j - 1
                    };
                    if i != at {
                        assert(after[i] == before[k]);
                    }
                    if j != at {
                        assert(after[j] == before[l]);
                    }
                    if i == at {
                        assert(before[at as int].0 > cut_start);
                        if l > at {
                            assert(before[at as int].0 <= before[l].0);
                        }
                    }
                }
                assert forall|address: int| #[trigger]
                    in_cuts(after, after.len() as int, address) <==> in_cuts(
                        before,
                        before.len() as int,
                        address,
                    ) || cut_start <= address < cut_end by {
                    if in_cuts(before, before.len() as int, address) {
                        let i = choose|i: int|
                            0 <= i < before.len() && (#[trigger] before[i]).0 <= address
                                < before[i].1;
                        let k = if i < at {
                            i
                        } else {
                            i + 1
                        };
                        assert(after[k] == before[i]);
                    }
                    if cut_start <= address < cut_end {
                        assert(after[at as int].0 <= address < after[at as int].1);
                    }
                    if in_cuts(after, after.len() as int, address) {
                        let i = choose|i: int|
                            0 <= i < after.len() && (#[trigger] after[i]).0 <= address < after[i].1;
                        if i < at {
                            assert(before[i] == after[i]);
                        } else if i > at {
                            assert(before[i - 1] == after[i]);
                        }
                    }
                }
            }
        }
        index = index + 1;
        proof {
            assert forall|address: int| #[trigger]
                in_cuts(cuts@, cuts@.len() as int, address) <==> start <= address < end
                    && in_ranges(direct_ranges@.take(index as int), address) by {
                assert(in_cuts(before, before.len() as int, address) <==> start <= address < end
                    && in_ranges(earlier, address));
            }
        }
    }
    assert(direct_ranges@.take(index as int) =~= direct_ranges@);
    cuts
}

/// Splits one emulated MMIO range around every direct-mapped range.
///
/// A range that no direct mapping touches passes through unchanged; a range
/// fully covered disappears; a partially covered range is cut into the
/// non-overlapping remainders so only trap-backed bytes stay emulated.
pub fn split_emulated_range(resource: Resource, direct_ranges: &Vec<Range<u64>>) -> (pieces: Vec<
    Resource,
>)
    requires
        resource matches Resource::MmioRange { base, size } ==> base + size <= u64::MAX,
    ensures
        match resource {
            Resource::MmioRange { base, size } => is_remainder(
                base,
                size,
                direct_ranges@,
                pieces@,
            ),
            Resource::PortRange { .. } => pieces@ == seq![resource],
        },
{
    let mut pieces: Vec<Resource> = Vec::new();
    let (start, size) = match resource {
        Resource::MmioRange { base, size } => (base, size),
        Resource::PortRange { .. } => {
            pieces.push(resource);
            return pieces;
        },
    };
    let end: u64 = start + size;
    let cuts = sorted_cuts(direct_ranges, start, end);
    let mut cursor: u64 = start;
    let mut index: usize = 0;
    while index < cuts.len()
        invariant
            index <= cuts.len(),
            start <= cursor <= end,
            forall|i: int|
                0 <= i < cuts@.len() ==> start <= (#[trigger] cuts@[i]).0 < cuts@[i].1 <= end,
            forall|i: int, j: int|
                0 <= i < j < cuts@.len() ==> (#[trigger] cuts@[i]).0 <= (#[trigger] cuts@[j]).0,
            forall|i: int| 0 <= i < index ==> (#[trigger] cuts@[i]).1 <= cursor,
            pieces_ok(pieces@),
            forall|p: int| 0 <= p < pieces@.len() ==> piece_end(#[trigger] pieces@[p]) < cursor,
            forall|p: int, j: int|
                0 <= p < pieces@.len() && index <= j < cuts@.len() ==> piece_end(
                    #[trigger] pieces@[p],
                ) <= (#[trigger] cuts@[j]).0,
            forall|address: int| #[trigger]
                in_pieces(pieces@, address) <==> start <= address < cursor && !in_cuts(
                    cuts@,
                    index as int,
                    address,
                ),
        decreases cuts.len() - index,
    {
        let (cut_start, cut_end) = cuts[index];
        let ghost before = pieces@;
        let ghost old_cursor = cursor;
        if cut_start > cursor {
            pieces.push(Resource::MmioRange { base: cursor, size: cut_start - cursor });
        }
        if cut_end > cursor {
            cursor = cut_end;
        }
        proof {
            let after = pieces@;
            assert(after.len() > before.len() ==> after.drop_last() =~= before);
            assert forall|address: int| #[trigger]
                in_pieces(after, address) <==> start <= address < cursor && !in_cuts(
                    cuts@,
                    index + 1,
                    address,
                ) by {
                lemma_cuts_step(cuts@, index as int, address);
                lemma_pieces_push(before, after, address);
                if in_pieces(before, address) {
                    let p = choose|p: int|
                        0 <= p < before.len() && in_piece(#[trigger] before[p], address);
                    assert(piece_end(before[p]) <= cuts@[index as int].0);
                }
                if in_cuts(cuts@, index as int, address) {
                    let i = choose|i: int|
                        0 <= i < index && (#[trigger] cuts@[i]).0 <= address < cuts@[i].1;
                    assert(cuts@[i].1 <= old_cursor);
                }
            }
        }
        index = index + 1;
    }
    let ghost before = pieces@;
    if cursor < end {
        pieces.push(Resource::MmioRange { base: cursor, size: end - cursor });
    }
    proof {
        let after = pieces@;
        assert(after.len() > before.len() ==> after.drop_last() =~= before);
        assert forall|address: int| #[trigger]
            in_pieces(after, address) <==> start <= address < end && !in_ranges(
                direct_ranges@,
                address,
            ) by {
            lemma_pieces_push(before, after, address);
            assert(in_cuts(cuts@, cuts@.len() as int, address) <==> start <= address < end
                && in_ranges(direct_ranges@, address));
            if in_cuts(cuts@, cuts@.len() as int, address) {
                let i = choose|i: int|
                    0 <= i < cuts@.len() && (#[trigger] cuts@[i]).0 <= address < cuts@[i].1;
                assert(cuts@[i].1 <= cursor);
            }
        }
    }
    pieces
}

/// One more cut adds its own addresses.
proof fn lemma_cuts_step(cuts: Seq<(u64, u64)>, count: int, address: int)
    requires
        0 <= count < cuts.len(),
    ensures
        in_cuts(cuts, count + 1, address) <==> in_cuts(cuts, count, address) || cuts[count].0
            <= address < cuts[count].1,
{
    if in_cuts(cuts, count, address) {
        let i = choose|i: int| 0 <= i < count && (#[trigger] cuts[i]).0 <= address < cuts[i].1;
        assert(0 <= i < count + 1);
    }
    if cuts[count].0 <= address < cuts[count].1 {
        assert(in_cuts(cuts, count + 1, address));
    }
}

/// One more piece adds its own addresses.
proof fn lemma_pieces_push(before: Seq<Resource>, after: Seq<Resource>, address: int)
    requires
        after == before || (after.len() == before.len() + 1 && after.drop_last() == before),
    ensures
        in_pieces(after, address) <==> in_pieces(before, address) || (after.len() > before.len()
            && in_piece(after.last(), address)),
{
    if after.len() > before.len() {
        assert forall|i: int| 0 <= i < before.len() implies before[i] == #[trigger] after[i] by {
            assert(after.drop_last()[i] == before[i]);
        }
        if in_pieces(before, address) {
            let i = choose|i: int| 0 <= i < before.len() && in_piece(#[trigger] before[i], address);
            assert(in_piece(after[i], address));
        }
        if in_piece(after.last(), address) {
            assert(in_piece(after[after.len() - 1], address));
        }
        if in_pieces(after, address) {
            let i = choose|i: int| 0 <= i < after.len() && in_piece(#[trigger] after[i], address);
            if i < before.len() {
                assert(in_piece(before[i], address));
            }
        }
    }
}

/// The pieces list what is left of each range, one range after the other; those
/// of range `i` stand from `cuts[i]` to `cuts[i + 1]`.
pub open spec fn are_remainders(
    ranges: Seq<(u64, u64)>,
    direct_ranges: Seq<Range<u64>>,
    pieces: Seq<Resource>,
    cuts: Seq<int>,
) -> bool {
    &&& cuts.len() == ranges.len() + 1
    &&& cuts[0] == 0
    &&& cuts.last() == pieces.len()
    &&& forall|i: int|
        0 <= i < ranges.len() ==> #[trigger] is_remainder_of(ranges, direct_ranges, pieces, cuts, i)
}

/// What is left of range `i` stands from `cuts[i]` to `cuts[i + 1]`.
pub open spec fn is_remainder_of(
    ranges: Seq<(u64, u64)>,
    direct_ranges: Seq<Range<u64>>,
    pieces: Seq<Resource>,
    cuts: Seq<int>,
    i: int,
) -> bool {
    &&& 0 <= cuts[i] <= cuts[i + 1] <= pieces.len()
    &&& is_remainder(
        ranges[i].0,
        ranges[i].1,
        direct_ranges,
        pieces.subrange(cuts[i], cuts[i + 1]),
    )
}

/// What a node of the device graph stands for.
#[derive(Clone, Copy, Debug, PartialEq, Eq, Structural)]
pub enum DeviceNodeKind {
    /// An emulated device.
    Virtual,
    /// An emulated device in the place of one of the host.
    HostReplacement,
    /// Anything that is not emulated.
    Other,
}

impl DeviceNodeKind {
    /// The ranges of such a node are emulated.
    pub open spec fn is_emulated(self) -> bool {
        self == DeviceNodeKind::Virtual || self == DeviceNodeKind::HostReplacement
    }
}

/// The ranges of the emulated nodes, in the order of the nodes.
pub open spec fn ranges_of_emulated(nodes: Seq<(DeviceNodeKind, Vec<(u64, u64)>)>) -> Seq<
    (u64, u64),
>
    decreases nodes.len(),
{
    if nodes.len() == 0 {
        Seq::empty()
    } else if nodes.last().0.is_emulated() {
        ranges_of_emulated(nodes.drop_last()) + nodes.last().1@
    } else {
        ranges_of_emulated(nodes.drop_last())
    }
}

/// Lists the ranges, by base and size, that emulated devices answer; each node
/// comes with its ranges.
pub fn emulated_ranges(nodes: &Vec<(DeviceNodeKind, Vec<(u64, u64)>)>) -> (ranges: Vec<(u64, u64)>)
    ensures
        ranges@ == ranges_of_emulated(nodes@),
{
    let mut ranges: Vec<(u64, u64)> = Vec::new();
    let mut index: usize = 0;
    assert(nodes@.take(0) =~= Seq::empty());
    while index < nodes.len()
        invariant
            index <= nodes.len(),
            ranges@ == ranges_of_emulated(nodes@.take(index as int)),
        decreases nodes.len() - index,
    {
        let node = &nodes[index];
        let ghost before = ranges@;
        if node.0 == DeviceNodeKind::Virtual || node.0 == DeviceNodeKind::HostReplacement {
            let mut range: usize = 0;
            assert(ranges@ =~= before + node.1@.take(0));
            while range < node.1.len()
                invariant
                    range <= node.1.len(),
                    ranges@ == before + node.1@.take(range as int),
                decreases node.1.len() - range,
            {
                ranges.push(node.1[range]);
                range = range + 1;
                assert(ranges@ =~= before + node.1@.take(range as int));
            }
            assert(node.1@.take(range as int) =~= node.1@);
        }
        index = index + 1;
        assert(nodes@.take(index as int).drop_last() =~= nodes@.take(index - 1));
        assert(nodes@.take(index as int).last() == *node);
    }
    assert(nodes@.take(index as int) =~= nodes@);
    ranges
}

/// Splits every emulated range, given by base and size, around the direct
/// mappings.
pub fn emulated_resources(ranges: &Vec<(u64, u64)>, direct_mappings: &Vec<DirectMapping>) -> (pieces:
    Vec<Resource>)
    requires
        forall|i: int|
            0 <= i < ranges@.len() ==> (#[trigger] ranges@[i]).0 + ranges@[i].1 <= u64::MAX,
        forall|i: int| 0 <= i < direct_mappings@.len() ==> (#[trigger] direct_mappings@[i]).wf(),
    ensures
        exists|cuts: Seq<int>| #[trigger]
            are_remainders(ranges@, mapped_ranges(direct_mappings@), pieces@, cuts),
{
    let mut direct_ranges: Vec<Range<u64>> = Vec::new();
    let mut index: usize = 0;
    while index < direct_mappings.len()
        invariant
            index <= direct_mappings.len(),
            forall|i: int|
                0 <= i < direct_mappings@.len() ==> (#[trigger] direct_mappings@[i]).wf(),
            direct_ranges@ == mapped_ranges(direct_mappings@).take(index as int),
        decreases direct_mappings.len() - index,
    {
        let mapping = direct_mappings[index];
        assert(direct_mappings@[index as int].wf());
        direct_ranges.push(mapping.gpa_base()..mapping.gpa_base() + mapping.size());
        index = index + 1;
        assert(direct_ranges@ =~= mapped_ranges(direct_mappings@).take(index as int));
    }
    assert(direct_ranges@ =~= mapped_ranges(direct_mappings@));
    let mut pieces: Vec<Resource> = Vec::new();
    let ghost mut cuts: Seq<int> = seq![0];
    let mut index: usize = 0;
    while index < ranges.len()
        invariant
            index <= ranges.len(),
            forall|i: int|
                0 <= i < ranges@.len() ==> (#[trigger] ranges@[i]).0 + ranges@[i].1 <= u64::MAX,
            are_remainders(ranges@.take(index as int), direct_ranges@, pieces@, cuts),
        decreases ranges.len() - index,
    {
        let (base, size) = ranges[index];
        assert(ranges@[index as int].0 + ranges@[index as int].1 <= u64::MAX);
        let mut more = split_emulated_range(Resource::MmioRange { base, size }, &direct_ranges);
        let ghost before = pieces@;
        let ghost added = more@;
        pieces.append(&mut more);
        index = index + 1;
        proof {
            let old_cuts = cuts;
            cuts = cuts.push(pieces@.len() as int);
            let done = ranges@.take(index as int);
            assert(pieces@ =~= before + added);
            assert(cuts[0] == old_cuts[0] && cuts[index - 1] == old_cuts.last());
            assert(cuts.last() == pieces@.len() && cuts.len() == done.len() + 1);
            assert forall|i: int| 0 <= i < done.len() implies #[trigger] is_remainder_of(
                done,
                direct_ranges@,
                pieces@,
                cuts,
                i,
            ) by {
                if i < index - 1 {
                    assert(is_remainder_of(
                        ranges@.take(index - 1),
                        direct_ranges@,
                        before,
                        old_cuts,
                        i,
                    ));
                    assert(cuts[i] == old_cuts[i] && cuts[i + 1] == old_cuts[i + 1]);
                    assert(pieces@.subrange(cuts[i], cuts[i + 1]) =~= before.subrange(
                        old_cuts[i],
                        old_cuts[i + 1],
                    ));
                } else {
                    assert(pieces@.subrange(cuts[i], cuts[i + 1]) =~= added);
                }
            }
        }
    }
    assert(ranges@.take(index as int) =~= ranges@);
    pieces
}

/// The guest-physical ranges of mappings.
pub open spec fn mapped_ranges(mappings: Seq<DirectMapping>) -> Seq<Range<u64>> {
    Seq::new(
        mappings.len(),
        |i: int| mappings[i].gpa_base..(mappings[i].gpa_base + mappings[i].size) as u64,
    )
}

// ---------------------------------------------------------------------------
// Owned regions
// ---------------------------------------------------------------------------

/// Why the guest owns a region.
#[derive(Clone, Copy, Debug, PartialEq, Eq, Structural)]
pub enum VmRegionKind {
    /// Guest memory.
    Memory,
    /// Tables that describe the machine to the guest.
    BootDescription,
    /// Held back from passthrough.
    Reserved,
}

/// One region that passthrough mappings must not claim.
#[derive(Clone, Copy, Debug, PartialEq, Eq, Structural)]
pub struct GuestOwnedRegion {
    pub base: usize,
    pub length: usize,
    pub kind: VmRegionKind,
}

/// The regions of one kind with the given bases and lengths.
pub open spec fn regions_of(ranges: Seq<(usize, usize)>, kind: VmRegionKind) -> Seq<
    GuestOwnedRegion,
> {
    Seq::new(
        ranges.len(),
        |i: int| GuestOwnedRegion { base: ranges[i].0, length: ranges[i].1, kind },
    )
}

/// The regions that direct mappings take out of passthrough space.
pub open spec fn mapping_regions(mappings: Seq<DirectMapping>) -> Seq<GuestOwnedRegion> {
    Seq::new(
        mappings.len(),
        |i: int|
            GuestOwnedRegion {
                base: mappings[i].gpa_base as usize,
                length: mappings[i].size as usize,
                kind: VmRegionKind::Reserved,
            },
    )
}

fn push_regions(
    regions: &mut Vec<GuestOwnedRegion>,
    ranges: &Vec<(usize, usize)>,
    kind: VmRegionKind,
)
    ensures
        final(regions)@ == old(regions)@ + regions_of(ranges@, kind),
{
    let mut index: usize = 0;
    while index < ranges.len()
        invariant
            index <= ranges.len(),
            regions@ == old(regions)@ + regions_of(ranges@, kind).take(index as int),
        decreases ranges.len() - index,
    {
        let (base, length) = ranges[index];
        regions.push(GuestOwnedRegion { base, length, kind });
        index = index + 1;
        assert(regions@ =~= old(regions)@ + regions_of(ranges@, kind).take(index as int));
    }
    assert(regions@ =~= old(regions)@ + regions_of(ranges@, kind));
}

/// Lists the regions that the guest owns: its memory, the tables that describe
/// the machine, the reserved ranges, those of the architecture, and the holes
/// of direct mappings, which must not be claimed by the identity window.
pub fn guest_owned_regions(
    memory: &Vec<(usize, usize)>,
    boot_description: &Vec<(usize, usize)>,
    reserved: &Vec<(usize, usize)>,
    architecture: &Vec<GuestOwnedRegion>,
    direct_mappings: &Vec<DirectMapping>,
) -> (regions: Vec<GuestOwnedRegion>)
    requires
        forall|i: int|
            0 <= i < direct_mappings@.len() ==> (#[trigger] direct_mappings@[i]).gpa_base
                <= usize::MAX && direct_mappings@[i].size <= usize::MAX,
    ensures
        regions@ == regions_of(memory@, VmRegionKind::Memory) + regions_of(
            boot_description@,
            VmRegionKind::BootDescription,
        ) + regions_of(reserved@, VmRegionKind::Reserved) + architecture@ + mapping_regions(
            direct_mappings@,
        ),
{
    let mut regions: Vec<GuestOwnedRegion> = Vec::new();
    push_regions(&mut regions, memory, VmRegionKind::Memory);
    push_regions(&mut regions, boot_description, VmRegionKind::BootDescription);
    push_regions(&mut regions, reserved, VmRegionKind::Reserved);
    let ghost own = regions@;
    let mut index: usize = 0;
    while index < architecture.len()
        invariant
            index <= architecture.len(),
            regions@ == own + architecture@.take(index as int),
        decreases architecture.len() - index,
    {
        regions.push(architecture[index]);
        index = index + 1;
        assert(regions@ =~= own + architecture@.take(index as int));
    }
    let ghost most = regions@;
    assert(most =~= own + architecture@);
    let mut index: usize = 0;
    while index < direct_mappings.len()
        invariant
            index <= direct_mappings.len(),
            forall|i: int|
                0 <= i < direct_mappings@.len() ==> (#[trigger] direct_mappings@[i]).gpa_base
                    <= usize::MAX && direct_mappings@[i].size <= usize::MAX,
            regions@ == most + mapping_regions(direct_mappings@).take(index as int),
        decreases direct_mappings.len() - index,
    {
        let mapping = direct_mappings[index];
        regions.push(
            GuestOwnedRegion {
                base: mapping.gpa_base() as usize,
                length: mapping.size() as usize,
                kind: VmRegionKind::Reserved,
            },
        );
        index = index + 1;
        assert(regions@ =~= most + mapping_regions(direct_mappings@).take(index as int));
    }
    assert(regions@ =~= most + mapping_regions(direct_mappings@));
    regions
}

// ---------------------------------------------------------------------------
// Sizes and checks
// ---------------------------------------------------------------------------

/// One host range that is mapped into the guest unchanged.
#[derive(Clone, Copy, Debug, PartialEq, Eq, Structural)]
pub struct HostDeviceAssignment {
    pub base_gpa: usize,
    pub base_hpa: usize,
    pub length: usize,
}

/// One planned mapping of host memory into the guest.
#[derive(Clone, Copy, Debug, PartialEq, Eq, Structural)]
pub struct HostMapping {
    pub guest_base: u64,
    pub host_base: u64,
    pub length: u64,
}

/// Why a planned mapping is no machine range, if it is none.
pub open spec fn assignment_fault(mapping: HostMapping) -> Option<Seq<char>> {
    if mapping.guest_base > usize::MAX {
        Some("planned passthrough GPA does not fit usize"@)
    } else if mapping.host_base > usize::MAX {
        Some("planned passthrough HPA does not fit usize"@)
    } else if mapping.length > usize::MAX {
        Some("planned passthrough length does not fit usize"@)
    } else {
        None
    }
}

/// The assignment has the bounds of the mapping.
pub open spec fn assigns(assignment: HostDeviceAssignment, mapping: HostMapping) -> bool {
    &&& assignment.base_gpa == mapping.guest_base
    &&& assignment.base_hpa == mapping.host_base
    &&& assignment.length == mapping.length
}

/// Converts all planned passthrough mappings, up to the first that does not fit
/// the machine.
pub fn passthrough_assignments(mappings: &Vec<HostMapping>) -> (assignments: Result<
    Vec<HostDeviceAssignment>,
    AddressSpaceError,
>)
    ensures
        match assignments {
            Ok(assignments) => {
                &&& assignments@.len() == mappings@.len()
                &&& forall|i: int|
                    0 <= i < mappings@.len() ==> assignment_fault(#[trigger] mappings@[i]) is None
                        && assigns(assignments@[i], mappings@[i])
            },
            Err(AddressSpaceError::InvalidConfig { detail }) => exists|k: int| #[trigger]
                first_fault(mappings@, k) == Some(detail@),
            Err(_) => false,
        },
{
    let mut assignments: Vec<HostDeviceAssignment> = Vec::new();
    let mut index: usize = 0;
    while index < mappings.len()
        invariant
            index <= mappings.len(),
            assignments@.len() == index,
            forall|i: int|
                0 <= i < index ==> assignment_fault(#[trigger] mappings@[i]) is None && assigns(
                    assignments@[i],
                    mappings@[i],
                ),
        decreases mappings.len() - index,
    {
        let mapping = mappings[index];
        match passthrough_assignment(mapping.guest_base, mapping.host_base, mapping.length) {
            Ok(assignment) => {
                assignments.push(assignment);
            },
            Err(error) => {
                assert(first_fault(mappings@, index as int) == assignment_fault(
                    mappings@[index as int],
                ));
                return Err(error);
            },
        }
        index = index + 1;
    }
    Ok(assignments)
}

/// Why mapping `k` is no machine range, if it is the first that is none.
pub open spec fn first_fault(mappings: Seq<HostMapping>, k: int) -> Option<Seq<char>> {
    if 0 <= k < mappings.len() && forall|i: int|
        0 <= i < k ==> assignment_fault(#[trigger] mappings[i]) is None {
        assignment_fault(mappings[k])
    } else {
        None
    }
}

/// Converts a planned passthrough mapping to machine addresses.
pub fn passthrough_assignment(guest_base: u64, host_base: u64, length: u64) -> (assignment: Result<
    HostDeviceAssignment,
    AddressSpaceError,
>)
    ensures
        ({
            let mapping = HostMapping { guest_base, host_base, length };
            match assignment {
                Ok(assignment) => assignment_fault(mapping) is None && assigns(
                    assignment,
                    mapping,
                ),
                Err(AddressSpaceError::InvalidConfig { detail }) => assignment_fault(mapping)
                    == Some(detail@),
                Err(_) => false,
            }
        }),
{
    let limit: u64 = usize::MAX as u64;
    if guest_base > limit {
        return Err(
            AddressSpaceError::InvalidConfig {
                detail: "planned passthrough GPA does not fit usize",
            },
        );
    }
    if host_base > limit {
        return Err(
            AddressSpaceError::InvalidConfig {
                detail: "planned passthrough HPA does not fit usize",
            },
        );
    }
    if length > limit {
        return Err(
            AddressSpaceError::InvalidConfig {
                detail: "planned passthrough length does not fit usize",
            },
        );
    }
    Ok(
        HostDeviceAssignment {
            base_gpa: guest_base as usize,
            base_hpa: host_base as usize,
            length: length as usize,
        },
    )
}

/// Checks that a configured device tree address comes with a device tree.
pub fn validate_guest_dtb(dtb_load_gpa: Option<usize>, has_device_tree: bool) -> (result: Result<
    (),
    AddressSpaceError,
>)
    ensures
        match result {
            Ok(()) => dtb_load_gpa is None || has_device_tree,
            Err(AddressSpaceError::InvalidInput { detail }) => dtb_load_gpa is Some
                && !has_device_tree && detail@
                == "DTB load GPA is configured but no guest device tree bytes are registered"@,
            Err(_) => false,
        },
{
    if dtb_load_gpa.is_some() && !has_device_tree {
        return Err(
            AddressSpaceError::InvalidInput {
                detail:
                    "DTB load GPA is configured but no guest device tree bytes are registered",
            },
        );
    }
    Ok(())
}

/// Returns the size of the guest address space: the limit of the VM, capped by
/// the width of guest-physical addresses in stage 2.
pub fn stage2_guest_address_space_size(gpa_bits: usize, limit: usize) -> (size: usize)
    ensures
        size == if gpa_bits < usize::BITS && power2::pow2(gpa_bits as nat) < limit {
            power2::pow2(gpa_bits as nat) as int
        } else {
            limit as int
        },
{
    if gpa_bits >= usize::BITS as usize {
        return limit;
    }
    proof {
        bits::lemma_usize_pow2_no_overflow(gpa_bits as nat);
        bits::lemma_usize_shl_is_mul(1, gpa_bits);
    }
    let addressable: usize = 1usize << gpa_bits;
    if addressable < limit {
        addressable
    } else {
        limit
    }
}

/// What is left of a range is the whole range where no direct mapping touches
/// it, and nothing where one covers it.
pub proof fn law_untouched_ranges_stay_and_covered_ranges_vanish(
    base: u64,
    size: u64,
    direct_ranges: Seq<Range<u64>>,
    pieces: Seq<Resource>,
)
    requires
        is_remainder(base, size, direct_ranges, pieces),
        base + size <= u64::MAX,
        size > 0,
    ensures
        (forall|address: int|
            base <= address < base + size ==> !#[trigger] in_ranges(direct_ranges, address))
            ==> pieces == seq![Resource::MmioRange { base, size }],
        (forall|address: int|
            base <= address < base + size ==> #[trigger] in_ranges(direct_ranges, address))
            ==> pieces.len() == 0,
{
    if forall|address: int|
        base <= address < base + size ==> !#[trigger] in_ranges(direct_ranges, address) {
        assert(!in_ranges(direct_ranges, base as int));
        assert(in_pieces(pieces, base as int));
        let p = choose|p: int| 0 <= p < pieces.len() && in_piece(#[trigger] pieces[p], base as int);
        let start = pieces[p]->MmioRange_base;
        assert(in_piece(pieces[p], start as int));
        assert(in_pieces(pieces, start as int));
        let end = piece_end(pieces[p]);
        if end < base + size {
            assert(!in_ranges(direct_ranges, end));
            assert(in_pieces(pieces, end));
            let q = choose|q: int| 0 <= q < pieces.len() && in_piece(#[trigger] pieces[q], end);
            if q < p {
                assert(piece_end(pieces[q]) < pieces[p]->MmioRange_base);
            } else if q > p {
                assert(piece_end(pieces[p]) < pieces[q]->MmioRange_base);
            }
            assert(false);
        }
        assert(in_piece(pieces[p], end - 1));
        assert(in_pieces(pieces, end - 1));
        if pieces.len() > 1 {
            let q: int = if p == 0 {
                1
            } else {
                0
            };
            let other = pieces[q]->MmioRange_base as int;
            assert(in_piece(pieces[q], other));
            assert(in_pieces(pieces, other));
            if q < p {
                assert(piece_end(pieces[q]) < pieces[p]->MmioRange_base);
            } else {
                assert(piece_end(pieces[p]) < pieces[q]->MmioRange_base);
            }
            assert(false);
        }
        assert(pieces =~= seq![Resource::MmioRange { base, size }]);
    }
    if forall|address: int|
        base <= address < base + size ==> #[trigger] in_ranges(direct_ranges, address) {
        if pieces.len() > 0 {
            let start = pieces[0]->MmioRange_base as int;
            assert(in_piece(pieces[0], start));
            assert(in_pieces(pieces, start));
            assert(in_ranges(direct_ranges, start));
            assert(false);
        }
    }
}

/// An address is emulated exactly when some emulated range holds it and no direct
/// mapping does.
pub proof fn law_emulated_addresses_are_those_not_mapped(
    ranges: Seq<(u64, u64)>,
    mappings: Seq<DirectMapping>,
    pieces: Seq<Resource>,
    cuts: Seq<int>,
    address: int,
)
    requires
        are_remainders(ranges, mapped_ranges(mappings), pieces, cuts),
        forall|i: int| 0 <= i < mappings.len() ==> (#[trigger] mappings[i]).wf(),
    ensures
        (exists|p: int|
            0 <= p < pieces.len() && ((#[trigger] pieces[p]) matches Resource::MmioRange {
                base,
                size,
            } && base <= address < base + size)) <==> (exists|i: int|
            0 <= i < ranges.len() && (#[trigger] ranges[i]).0 <= address < ranges[i].0
                + ranges[i].1) && !(exists|m: int|
            0 <= m < mappings.len() && (#[trigger] mappings[m]).gpa_base <= address
                < mappings[m].gpa_base + mappings[m].size),
{
    let direct = mapped_ranges(mappings);
    let mapped = exists|m: int|
        0 <= m < mappings.len() && (#[trigger] mappings[m]).gpa_base <= address
            < mappings[m].gpa_base + mappings[m].size;
    assert(in_ranges(direct, address) == mapped) by {
        if in_ranges(direct, address) {
            let m = choose|m: int|
                0 <= m < direct.len() && (#[trigger] direct[m]).start <= address < direct[m].end;
            assert(mappings[m].wf());
            assert(mappings[m].gpa_base <= address < mappings[m].gpa_base + mappings[m].size);
        }
        if mapped {
            let m = choose|m: int|
                0 <= m < mappings.len() && (#[trigger] mappings[m]).gpa_base <= address
                    < mappings[m].gpa_base + mappings[m].size;
            assert(mappings[m].wf());
            assert(direct[m].start <= address < direct[m].end);
        }
    }
    if exists|p: int|
        0 <= p < pieces.len() && ((#[trigger] pieces[p]) matches Resource::MmioRange {
            base,
            size,
        } && base <= address < base + size) {
        let p = choose|p: int|
            0 <= p < pieces.len() && ((#[trigger] pieces[p]) matches Resource::MmioRange {
                base,
                size,
            } && base <= address < base + size);
        let i = lemma_cut_of(ranges, direct, pieces, cuts, p, ranges.len() as int);
        let part = pieces.subrange(cuts[i], cuts[i + 1]);
        assert(is_remainder_of(ranges, direct, pieces, cuts, i));
        assert(part[p - cuts[i]] == pieces[p]);
        assert(in_piece(part[p - cuts[i]], address));
        assert(in_pieces(part, address));
        assert(ranges[i].0 <= address < ranges[i].0 + ranges[i].1);
    }
    if !mapped && exists|i: int|
        0 <= i < ranges.len() && (#[trigger] ranges[i]).0 <= address < ranges[i].0 + ranges[i].1 {
        let i = choose|i: int|
            0 <= i < ranges.len() && (#[trigger] ranges[i]).0 <= address < ranges[i].0
                + ranges[i].1;
        assert(is_remainder_of(ranges, direct, pieces, cuts, i));
        let part = pieces.subrange(cuts[i], cuts[i + 1]);
        assert(in_pieces(part, address));
        let q = choose|q: int| 0 <= q < part.len() && in_piece(#[trigger] part[q], address);
        assert(pieces[cuts[i] + q] == part[q]);
    }
}

/// The range whose remainder holds piece `p`.
proof fn lemma_cut_of(
    ranges: Seq<(u64, u64)>,
    direct: Seq<Range<u64>>,
    pieces: Seq<Resource>,
    cuts: Seq<int>,
    p: int,
    end: int,
) -> (i: int)
    requires
        are_remainders(ranges, direct, pieces, cuts),
        0 <= end <= ranges.len(),
        0 <= p < cuts[end],
    ensures
        0 <= i < end,
        cuts[i] <= p < cuts[i + 1],
    decreases end,
{
    if end == 0 {
        0
    } else if p >= cuts[end - 1] {
        end - 1
    } else {
        lemma_cut_of(ranges, direct, pieces, cuts, p, end - 1)
    }
}

/// The emulated ranges are those of the virtual nodes and of the nodes in the place
/// of host devices, and of no other node.
pub proof fn law_only_emulated_nodes_give_ranges(
    nodes: Seq<(DeviceNodeKind, Vec<(u64, u64)>)>,
    range: (u64, u64),
)
    ensures
        ranges_of_emulated(nodes).contains(range) <==> exists|k: int|
            0 <= k < nodes.len() && (#[trigger] nodes[k]).0 != DeviceNodeKind::Other
                && nodes[k].1@.contains(range),
    decreases nodes.len(),
{
    if nodes.len() > 0 {
        let rest = nodes.drop_last();
        let last = nodes.last();
        law_only_emulated_nodes_give_ranges(rest, range);
        if ranges_of_emulated(nodes).contains(range) {
            let i = choose|i: int|
                0 <= i < ranges_of_emulated(nodes).len() && ranges_of_emulated(nodes)[i] == range;
            let before = ranges_of_emulated(rest);
            if i < before.len() {
                assert(before[i] == range);
                let k = choose|k: int|
                    0 <= k < rest.len() && (#[trigger] rest[k]).0 != DeviceNodeKind::Other
                        && rest[k].1@.contains(range);
                assert(nodes[k] == rest[k]);
            } else {
                assert(last.1@[i - before.len()] == range);
                assert(nodes[nodes.len() - 1].1@.contains(range));
            }
        }
        if exists|k: int|
            0 <= k < nodes.len() && (#[trigger] nodes[k]).0 != DeviceNodeKind::Other
                && nodes[k].1@.contains(range) {
            let k = choose|k: int|
                0 <= k < nodes.len() && (#[trigger] nodes[k]).0 != DeviceNodeKind::Other
                    && nodes[k].1@.contains(range);
            let before = ranges_of_emulated(rest);
            if k < rest.len() {
                assert(rest[k] == nodes[k]);
                let i = choose|i: int| 0 <= i < before.len() && before[i] == range;
                assert(ranges_of_emulated(nodes)[i] == range);
            } else {
                let i = choose|i: int| 0 <= i < last.1@.len() && last.1@[i] == range;
                assert(ranges_of_emulated(nodes)[before.len() + i] == range);
            }
        }
    }
}

/// The owned regions have the bases, lengths and kinds they are made of; direct
/// mappings hold their guest-physical ranges back from passthrough.
pub proof fn law_owned_regions_keep_their_bounds(
    ranges: Seq<(usize, usize)>,
    kind: VmRegionKind,
    mappings: Seq<DirectMapping>,
    i: int,
    m: int,
)
    requires
        0 <= i < ranges.len(),
        0 <= m < mappings.len(),
        mappings[m].gpa_base <= usize::MAX,
        mappings[m].size <= usize::MAX,
    ensures
        regions_of(ranges, kind).len() == ranges.len(),
        regions_of(ranges, kind)[i].base == ranges[i].0,
        regions_of(ranges, kind)[i].length == ranges[i].1,
        regions_of(ranges, kind)[i].kind == kind,
        mapping_regions(mappings).len() == mappings.len(),
        mapping_regions(mappings)[m].base == mappings[m].gpa_base,
        mapping_regions(mappings)[m].length == mappings[m].size,
        mapping_regions(mappings)[m].kind == VmRegionKind::Reserved,
{
}

/// A host mapping becomes an assignment exactly when its bases and its length fit
/// machine words.
pub proof fn law_assignments_fit_machine_words(mapping: HostMapping)
    ensures
        assignment_fault(mapping) is None <==> mapping.guest_base <= usize::MAX
            && mapping.host_base <= usize::MAX && mapping.length <= usize::MAX,
{
}

} // verus!
