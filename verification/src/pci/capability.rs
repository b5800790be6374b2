//! Standard capabilities and their chain in the legacy config space.

use crate::pci::error::{PciError, PciErrorView, PciResult};
use crate::pci::msix::{PciMsixDeclaration, MSIX_BAR_INDEX, MSIX_PBA_OFFSET, MSIX_TABLE_OFFSET};
use crate::text;
use vstd::prelude::*;

verus! {

/// Config-space offset of the first capability.
pub const CAPABILITY_BASE: usize = 0x40;

/// End of the legacy config space, which holds the capability chain.
pub const CAPABILITY_LIMIT: usize = 0x100;

/// Capability ID for MSI-X.
pub const MSIX_CAPABILITY_ID: u8 = 0x11;

/// Writable bits of the high Message Control byte: Enable and Function Mask.
pub const MSIX_CONTROL_WRITABLE_HIGH: u8 = 0xC0;

/// One standard capability: its identifier, the bytes after the next pointer
/// and the guest-writable bits of those bytes.
#[derive(Debug, PartialEq, Eq)]
pub struct PciCapability {
    pub id: u8,
    pub body: Vec<u8>,
    pub write_mask: Vec<u8>,
}

/// The contents of a [`PciCapability`].
pub struct CapabilityView {
    pub id: u8,
    pub body: Seq<u8>,
    pub write_mask: Seq<u8>,
}

impl View for PciCapability {
    type V = CapabilityView;

    open spec fn view(&self) -> CapabilityView {
        CapabilityView { id: self.id, body: self.body@, write_mask: self.write_mask@ }
    }
}

impl CapabilityView {
    /// Every body byte has a write mask.
    pub open spec fn wf(self) -> bool {
        self.body.len() == self.write_mask.len()
    }

    /// The bytes that the capability takes in the chain: header and body,
    /// rounded up to whole dwords.
    pub open spec fn extent(self) -> int {
        ((self.body.len() + 5) / 4 * 4) as int
    }
}

/// The contents of a list of capabilities.
pub open spec fn capability_views(capabilities: Seq<PciCapability>) -> Seq<CapabilityView> {
    Seq::new(capabilities.len(), |i: int| capabilities[i]@)
}

/// Config-space offset of capability `index` of a chain; with `index` past the
/// last one, the end of the chain.
pub open spec fn chain_offset(chain: Seq<CapabilityView>, index: int) -> int
    decreases index,
{
    if index <= 0 {
        CAPABILITY_BASE as int
    } else {
        chain_offset(chain, index - 1) + chain[index - 1].extent()
    }
}

/// The first `count` capabilities of the chain end below the limit.
pub open spec fn chain_fits(chain: Seq<CapabilityView>, count: int) -> bool {
    chain_offset(chain, count) <= CAPABILITY_LIMIT
}

/// Capability `index` is the first one that does not end below the limit.
pub open spec fn chain_breaks_at(chain: Seq<CapabilityView>, index: int) -> bool {
    0 <= index < chain.len() && chain_fits(chain, index) && !chain_fits(chain, index + 1)
}

/// The chain offset grows with the index.
pub proof fn lemma_chain_offset_grows(chain: Seq<CapabilityView>, low: int, high: int)
    requires
        0 <= low <= high,
    ensures
        chain_offset(chain, low) <= chain_offset(chain, high),
        low < high ==> chain_offset(chain, low) + chain[low].extent() <= chain_offset(chain, high),
        CAPABILITY_BASE <= chain_offset(chain, low),
        chain_offset(chain, low) % 4 == 0,
    decreases high,
{
    if low < high {
        lemma_chain_offset_grows(chain, low, high - 1);
    } else if low > 0 {
        lemma_chain_offset_grows(chain, low - 1, low - 1);
    }
}

/// The chain offset of an index depends only on the capabilities before it.
pub proof fn lemma_chain_offset_prefix(
    left: Seq<CapabilityView>,
    right: Seq<CapabilityView>,
    index: int,
)
    requires
        forall|i: int| 0 <= i < index ==> left[i] == right[i],
    ensures
        chain_offset(left, index) == chain_offset(right, index),
    decreases index,
{
    if index > 0 {
        lemma_chain_offset_prefix(left, right, index - 1);
    }
}

impl PciCapability {
    /// Every body byte has a write mask.
    pub open spec fn wf(self) -> bool {
        self@.wf()
    }

    /// Creates a capability; `write_mask` opens bits of `body` to the guest.
    pub fn new(id: u8, body: Vec<u8>, write_mask: Vec<u8>) -> (capability: PciResult<Self>)
        ensures
            match capability {
                Ok(capability) => body@.len() == write_mask@.len() && capability@ == (
                CapabilityView { id, body: body@, write_mask: write_mask@ }),
                Err(error) => body@.len() != write_mask@.len() && error@ == (
                PciErrorView::InvalidCapability {
                    id,
                    detail: "write mask and body differ in length"@,
                }),
            },
    {
        if body.len() != write_mask.len() {
            return Err(
                PciError::InvalidCapability {
                    id,
                    detail: text::text_of("write mask and body differ in length"),
                },
            );
        }
        Ok(PciCapability { id, body, write_mask })
    }

    /// Creates a capability that the guest cannot change.
    pub fn read_only(id: u8, body: Vec<u8>) -> (capability: PciResult<Self>)
        ensures
            capability matches Ok(capability) && capability@ == (CapabilityView {
                id,
                body: body@,
                write_mask: Seq::new(body@.len(), |i: int| 0u8),
            }),
    {
        let length: usize = body.len();
        let mut write_mask: Vec<u8> = Vec::new();
        while write_mask.len() < length
            invariant
                write_mask.len() <= length,
                write_mask@ == Seq::new(write_mask@.len(), |i: int| 0u8),
            decreases length - write_mask.len(),
        {
            write_mask.push(0);
        }
        assert(write_mask@ =~= Seq::new(body@.len(), |i: int| 0u8));
        Ok(PciCapability { id, body, write_mask })
    }
}

/// The MSI-X capability of a declaration: Message Control with the table size,
/// of which Enable and Function Mask are writable, then the table and PBA
/// locations, both in BAR 1.
pub open spec fn msix_capability_view(msix: PciMsixDeclaration) -> CapabilityView {
    CapabilityView {
        id: MSIX_CAPABILITY_ID,
        body: seq![
            ((msix.vectors - 1) % 256) as u8,
            ((msix.vectors - 1) / 256) as u8,
            1,
            0,
            0,
            0,
            1,
            8,
            0,
            0,
        ],
        write_mask: seq![0, 0xC0, 0, 0, 0, 0, 0, 0, 0, 0],
    }
}

/// Creates the MSI-X capability of a declaration.
pub fn msix_capability(msix: PciMsixDeclaration) -> (capability: PciCapability)
    requires
        msix.wf(),
    ensures
        capability@ == msix_capability_view(msix),
        capability.wf(),
{
    let table_size: u16 = msix.vectors() - 1;
    let bir: u8 = MSIX_BAR_INDEX;
    let table: u64 = MSIX_TABLE_OFFSET;
    let pba: u64 = MSIX_PBA_OFFSET;
    let body: Vec<u8> = vec![
        (table_size % 256) as u8,
        (table_size / 256) as u8,
        (table % 256) as u8 + bir,
        (table / 256) as u8,
        0,
        0,
        (pba % 256) as u8 + bir,
        (pba / 256) as u8,
        0,
        0,
    ];
    let write_mask: Vec<u8> = vec![0, MSIX_CONTROL_WRITABLE_HIGH, 0, 0, 0, 0, 0, 0, 0, 0];
    let capability = PciCapability { id: MSIX_CAPABILITY_ID, body, write_mask };
    assert(capability@.body =~= msix_capability_view(msix).body);
    assert(capability@.write_mask =~= msix_capability_view(msix).write_mask);
    capability
}

/// Computes the config-space offset of every capability of a chain.
///
/// Fails at the first capability that no longer ends below the limit.
pub fn capability_chain_offsets(chain: &Vec<PciCapability>) -> (offsets: PciResult<Vec<usize>>)
    ensures
        match offsets {
            Ok(offsets) => {
                let views = capability_views(chain@);
                &&& chain_fits(views, chain@.len() as int)
                &&& offsets@.len() == chain@.len()
                &&& forall|i: int|
                    0 <= i < chain@.len() ==> #[trigger] offsets@[i] == chain_offset(views, i)
            },
            Err(error) => exists|i: int| #[trigger]
                chain_breaks_at(capability_views(chain@), i) && error@ == chain_overflow(chain@[i]@),
        },
{
    let ghost views = capability_views(chain@);
    let mut offsets: Vec<usize> = Vec::new();
    let mut offset: usize = CAPABILITY_BASE;
    let mut index: usize = 0;
    while index < chain.len()
        invariant
            views == capability_views(chain@),
            index <= chain.len(),
            offset == chain_offset(views, index as int),
            offset <= CAPABILITY_LIMIT,
            offset % 4 == 0,
            offsets@.len() == index,
            forall|i: int| 0 <= i < index ==> #[trigger] offsets@[i] == chain_offset(views, i),
        decreases chain.len() - index,
    {
        let length: usize = chain[index].body.len();
        assert(views[index as int] == chain@[index as int]@);
        if length > CAPABILITY_LIMIT - 2 || offset + 2 + length > CAPABILITY_LIMIT {
            assert(chain_breaks_at(views, index as int));
            return Err(
                PciError::InvalidCapability {
                    id: chain[index].id,
                    detail: text::text_of(
                        "capability chain does not fit below config offset 0x100",
                    ),
                },
            );
        }
        offsets.push(offset);
        offset = offset + (length + 5) / 4 * 4;
        index = index + 1;
    }
    Ok(offsets)
}

/// The error for a capability that does not fit.
pub open spec fn chain_overflow(capability: CapabilityView) -> PciErrorView {
    PciErrorView::InvalidCapability {
        id: capability.id,
        detail: "capability chain does not fit below config offset 0x100"@,
    }
}

proof fn lemma_break(chain: Seq<CapabilityView>, count: int)
    requires
        0 <= count <= chain.len(),
        !chain_fits(chain, count),
    ensures
        exists|i: int| #[trigger] chain_breaks_at(chain, i),
    decreases count,
{
    assert(count > 0);
    if chain_fits(chain, count - 1) {
        assert(chain_breaks_at(chain, count - 1));
    } else {
        lemma_break(chain, count - 1);
    }
}

/// A chain ends below 0x100 exactly when no capability of it is the first beyond;
/// that capability is the one that is reported.
pub proof fn law_chains_break_at_one_capability(chain: Seq<CapabilityView>, i: int)
    ensures
        chain_fits(chain, chain.len() as int) <==> chain_offset(chain, chain.len() as int) <= 0x100,
        !chain_fits(chain, chain.len() as int) ==> exists|j: int| #[trigger]
            chain_breaks_at(chain, j),
        chain_breaks_at(chain, i) ==> chain_offset(chain, i) <= 0x100 && chain_offset(
            chain,
            i + 1,
        ) > 0x100 && !chain_fits(chain, chain.len() as int),
        chain_breaks_at(chain, i) ==> chain_overflow(chain[i]) == (
        PciErrorView::InvalidCapability {
            id: chain[i].id,
            detail: "capability chain does not fit below config offset 0x100"@,
        }),
{
    if !chain_fits(chain, chain.len() as int) {
        lemma_break(chain, chain.len() as int);
    }
    if chain_breaks_at(chain, i) {
        lemma_chain_offset_grows(chain, i + 1, chain.len() as int);
    }
}

} // verus!
