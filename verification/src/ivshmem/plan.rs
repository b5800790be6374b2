//! Per-peer direct-mapping plan of one ivshmem link.
//!
//! The plan is the only conversion point from the shared layout to the mappings
//! one peer needs in its stage-2: every section becomes a mapping with the
//! peer's permission, and the reserved tail is deliberately left unmapped so
//! stray accesses fault instead of silently succeeding.

use crate::device::PAGE_SIZE;
use crate::ivshmem::backing::BackingAllocation;
use crate::ivshmem::error::{IvshmemError, IvshmemErrorView};
use crate::ivshmem::layout;
use crate::ivshmem::layout::{Bar2Section, IvshmemMemoryLayout, SectionDesc};
use crate::ivshmem::profile::PeerId;
use crate::stage2::{DirectMapping, GpaRange};
use crate::text;
use vstd::prelude::*;
use vstd::string::StringExecFns;

verus! {

/// Direct-mapping plan of one link as seen by one peer.
#[derive(Debug)]
pub struct IvshmemDirectPlan {
    pub bar2_gpa: u64,
    pub bar2_size: u64,
    pub mappings: Vec<DirectMapping>,
}

/// One mapping of a plan, with its label as text.
pub struct MappingView {
    pub gpa_base: int,
    pub hpa_base: int,
    pub size: u64,
    pub writable: bool,
    pub label: Seq<char>,
}

/// The contents of one mapping.
pub open spec fn mapping_view(mapping: DirectMapping) -> MappingView {
    MappingView {
        gpa_base: mapping.gpa_base as int,
        hpa_base: mapping.hpa_base as int,
        size: mapping.size,
        writable: mapping.writable,
        label: mapping.label@,
    }
}

/// The contents of a list of mappings.
pub open spec fn mapping_views(mappings: Seq<DirectMapping>) -> Seq<MappingView> {
    Seq::new(mappings.len(), |i: int| mapping_view(mappings[i]))
}

/// The mapping of one section for `peer`.
pub open spec fn section_mapping(
    section: Bar2Section,
    bounds: SectionDesc,
    bar2_gpa: u64,
    hpa: u64,
    peer: PeerId,
) -> MappingView {
    MappingView {
        gpa_base: bar2_gpa + bounds.offset,
        hpa_base: hpa + bounds.offset,
        size: bounds.size,
        writable: section.writable_by(peer),
        label: section.name_text(),
    }
}

/// The mappings of a layout for `peer`: the state table, the common section if
/// there is one, and every output section.
pub open spec fn planned_mappings(
    layout: IvshmemMemoryLayout,
    bar2_gpa: u64,
    hpa: u64,
    peer: PeerId,
) -> Seq<MappingView> {
    let head = seq![
        section_mapping(
            Bar2Section::StateTable,
            (SectionDesc { offset: 0, size: layout.state_table.size }),
            bar2_gpa,
            hpa,
            peer,
        ),
    ];
    let middle = match layout.common {
        Some(common) => seq![section_mapping(Bar2Section::Common, common, bar2_gpa, hpa, peer)],
        None => Seq::empty(),
    };
    head + middle + Seq::new(
        layout.outputs@.len(),
        |i: int|
            section_mapping(
                Bar2Section::Output(PeerId(i as u16)),
                layout.outputs@[i],
                bar2_gpa,
                hpa,
                peer,
            ),
    )
}

/// What is wrong with the addresses of a plan, if anything.
pub open spec fn address_fault(bar2_gpa: u64, hpa: u64) -> Option<Seq<char>> {
    if bar2_gpa % PAGE_SIZE != 0 {
        Some(
            "BAR2 GPA "@ + text::hex_text(bar2_gpa as nat) + " is not "@ + text::hex_text(
                PAGE_SIZE as nat,
            ) + "-aligned"@,
        )
    } else if hpa % PAGE_SIZE != 0 {
        Some(
            "backing HPA "@ + text::hex_text(hpa as nat) + " is not "@ + text::hex_text(
                PAGE_SIZE as nat,
            ) + "-aligned"@,
        )
    } else {
        None
    }
}

/// Every section of the layout ends inside the address space when placed at
/// `base`.
pub open spec fn sections_fit(layout: IvshmemMemoryLayout, base: u64) -> bool {
    &&& base + layout.state_table.size <= u64::MAX
    &&& layout.common matches Some(common) ==> base + common.end() <= u64::MAX
    &&& forall|i: int|
        0 <= i < layout.outputs@.len() ==> base + (#[trigger] layout.outputs@[i]).end() <= u64::MAX
}

/// Every section of the layout begins inside the address space when placed at
/// `base`.
pub open spec fn sections_start(layout: IvshmemMemoryLayout, base: u64) -> bool {
    &&& layout.common matches Some(common) ==> base + common.offset <= u64::MAX
    &&& forall|i: int|
        0 <= i < layout.outputs@.len() ==> base + (#[trigger] layout.outputs@[i]).offset <= u64::MAX
}

impl IvshmemDirectPlan {
    /// Derives every section mapping for `peer`.
    ///
    /// The state table maps read-only; the common section maps read/write; the
    /// peer's own output maps read/write and those of other peers read-only;
    /// reserved pages are not mapped at all.
    pub fn derive(
        layout: &IvshmemMemoryLayout,
        bar2_gpa: u64,
        backing: &BackingAllocation,
        peer: PeerId,
    ) -> (plan: Result<Self, IvshmemError>)
        requires
            layout.wf(),
            address_fault(bar2_gpa, backing.hpa_base) is None ==> sections_start(*layout, bar2_gpa)
                && sections_start(*layout, backing.hpa_base),
        ensures
            match plan {
                Ok(plan) => {
                    &&& address_fault(bar2_gpa, backing.hpa_base) is None
                    &&& plan.bar2_gpa == bar2_gpa
                    &&& plan.bar2_size == layout.bar2_size
                    &&& mapping_views(plan.mappings@) == planned_mappings(
                        *layout,
                        bar2_gpa,
                        backing.hpa_base,
                        peer,
                    )
                    &&& sections_fit(*layout, bar2_gpa) ==> forall|i: int|
                        0 <= i < plan.mappings@.len() ==> (#[trigger] plan.mappings@[i]).wf()
                },
                Err(error) => address_fault(bar2_gpa, backing.hpa_base) matches Some(detail)
                    && error@ == (IvshmemErrorView::InvalidLayout { detail }),
            },
    {
        if bar2_gpa % PAGE_SIZE != 0 {
            let mut detail = text::text_of("BAR2 GPA ");
            text::push_hex(&mut detail, bar2_gpa);
            detail.append(" is not ");
            text::push_hex(&mut detail, PAGE_SIZE);
            detail.append("-aligned");
            return Err(IvshmemError::InvalidLayout { detail });
        }
        let hpa: u64 = backing.hpa_base();
        if hpa % PAGE_SIZE != 0 {
            let mut detail = text::text_of("backing HPA ");
            text::push_hex(&mut detail, hpa);
            detail.append(" is not ");
            text::push_hex(&mut detail, PAGE_SIZE);
            detail.append("-aligned");
            return Err(IvshmemError::InvalidLayout { detail });
        }
        let mut mappings: Vec<DirectMapping> = Vec::new();
        Self::push(
            &mut mappings,
            Bar2Section::StateTable,
            SectionDesc { offset: 0, size: layout.state_table().size() },
            bar2_gpa,
            hpa,
            peer,
        );
        if let Some(common) = layout.common() {
            Self::push(&mut mappings, Bar2Section::Common, common, bar2_gpa, hpa, peer);
        }
        let ghost head = mapping_views(mappings@);
        let mut index: usize = 0;
        while index < layout.outputs.len()
            invariant
                index <= layout.outputs.len(),
                layout.wf(),
                sections_start(*layout, bar2_gpa),
                sections_start(*layout, hpa),
                bar2_gpa % PAGE_SIZE == 0,
                hpa % PAGE_SIZE == 0,
                mapping_views(mappings@) == head + Seq::new(
                    index as nat,
                    |i: int|
                        section_mapping(
                            Bar2Section::Output(PeerId(i as u16)),
                            layout.outputs@[i],
                            bar2_gpa,
                            hpa,
                            peer,
                        ),
                ),
                sections_fit(*layout, bar2_gpa) ==> forall|i: int|
                    0 <= i < mappings@.len() ==> (#[trigger] mappings@[i]).wf(),
            decreases layout.outputs.len() - index,
        {
            let output = layout.outputs[index];
            assert(layout.outputs@[index as int].wf());
            let ghost before = mapping_views(mappings@);
            Self::push(
                &mut mappings,
                Bar2Section::Output(PeerId::new(index as u16)),
                output,
                bar2_gpa,
                hpa,
                peer,
            );
            index = index + 1;
            assert(mapping_views(mappings@) =~= head + Seq::new(
                index as nat,
                |i: int|
                    section_mapping(
                        Bar2Section::Output(PeerId(i as u16)),
                        layout.outputs@[i],
                        bar2_gpa,
                        hpa,
                        peer,
                    ),
            ));
        }
        assert(mapping_views(mappings@) =~= planned_mappings(*layout, bar2_gpa, hpa, peer));
        Ok(IvshmemDirectPlan { bar2_gpa, bar2_size: layout.bar2_size(), mappings })
    }

    /// Appends the mapping of one section.
    fn push(
        mappings: &mut Vec<DirectMapping>,
        section: Bar2Section,
        bounds: SectionDesc,
        bar2_gpa: u64,
        hpa: u64,
        peer: PeerId,
    )
        requires
            bounds.size % PAGE_SIZE == 0,
            bounds.size > 0,
            bounds.offset % PAGE_SIZE == 0,
            bar2_gpa % PAGE_SIZE == 0,
            hpa % PAGE_SIZE == 0,
            bar2_gpa + bounds.offset <= u64::MAX,
            hpa + bounds.offset <= u64::MAX,
        ensures
            mapping_views(final(mappings)@) == mapping_views(old(mappings)@).push(
                section_mapping(section, bounds, bar2_gpa, hpa, peer),
            ),
            (bar2_gpa + bounds.end() <= u64::MAX && forall|i: int|
                0 <= i < old(mappings)@.len() ==> (#[trigger] old(mappings)@[i]).wf()) ==> forall|
                i: int,
            |
                0 <= i < final(mappings)@.len() ==> (#[trigger] final(mappings)@[i]).wf(),
    {
        let mapping = DirectMapping {
            gpa_base: bar2_gpa + bounds.offset(),
            hpa_base: hpa + bounds.offset(),
            size: bounds.size(),
            writable: section.allows_write(peer),
            label: section.name(),
        };
        assert(bar2_gpa + bounds.end() <= u64::MAX ==> mapping.wf());
        mappings.push(mapping);
        assert(mapping_views(mappings@) =~= mapping_views(old(mappings)@).push(
            section_mapping(section, bounds, bar2_gpa, hpa, peer),
        ));
    }

    /// Returns the resolved BAR2 address the plan was built from.
    pub fn bar2_gpa(&self) -> (gpa: u64)
        ensures
            gpa == self.bar2_gpa,
    {
        self.bar2_gpa
    }

    /// Returns the mappings: the state table first, outputs in peer order.
    pub fn mappings(&self) -> (mappings: &Vec<DirectMapping>)
        ensures
            *mappings == self.mappings,
    {
        &self.mappings
    }

    /// Returns the range covered by the whole BAR2, for revocation.
    pub fn revocation_range(&self) -> (range: GpaRange)
        ensures
            range == (GpaRange { base: self.bar2_gpa, size: self.bar2_size }),
    {
        GpaRange::new(self.bar2_gpa, self.bar2_size)
    }
}

/// The plans of two peers map the same sections to the same places; only the
/// outputs of the two peers differ in who may write them.
pub proof fn law_views_differ_only_in_output_writability(
    layout: IvshmemMemoryLayout,
    bar2_gpa: u64,
    hpa: u64,
    left: PeerId,
    right: PeerId,
    i: int,
)
    requires
        0 <= i < planned_mappings(layout, bar2_gpa, hpa, left).len(),
    ensures
        planned_mappings(layout, bar2_gpa, hpa, left).len() == planned_mappings(
            layout,
            bar2_gpa,
            hpa,
            right,
        ).len(),
        ({
            let l = planned_mappings(layout, bar2_gpa, hpa, left)[i];
            let r = planned_mappings(layout, bar2_gpa, hpa, right)[i];
            &&& l.gpa_base == r.gpa_base
            &&& l.hpa_base == r.hpa_base
            &&& l.size == r.size
            &&& l.label == r.label
            &&& l.writable != r.writable ==> l.label == "output section"@
        }),
{
}

/// Mapped addresses keep their distance to the start of the BAR2, so that every
/// guest-physical offset reaches the same offset of the backing.
pub proof fn law_mappings_keep_offsets(
    layout: IvshmemMemoryLayout,
    bar2_gpa: u64,
    hpa: u64,
    peer: PeerId,
    i: int,
)
    requires
        0 <= i < planned_mappings(layout, bar2_gpa, hpa, peer).len(),
    ensures
        planned_mappings(layout, bar2_gpa, hpa, peer)[i].gpa_base - bar2_gpa == planned_mappings(
            layout,
            bar2_gpa,
            hpa,
            peer,
        )[i].hpa_base - hpa,
{
}

/// The guest-physical address lies in the mapping.
pub open spec fn covers(mapping: MappingView, gpa: int) -> bool {
    mapping.gpa_base <= gpa < mapping.gpa_base + mapping.size
}

/// A page of a plan is writable exactly when trapped BAR2 writes of the same peer
/// may change it too: for every offset that a mapping covers, be it of the state
/// table, the common section or an output, the mapping bears the name of the
/// section that owns the offset and that section's permission.
pub proof fn law_direct_and_trapped_permissions_agree(
    layout: IvshmemMemoryLayout,
    bar2_gpa: u64,
    hpa: u64,
    peer: PeerId,
    index: int,
    offset: int,
)
    requires
        layout.wf(),
        layout.fault() is None,
        layout.state_table.offset == 0,
        0 <= index < planned_mappings(layout, bar2_gpa, hpa, peer).len(),
        covers(planned_mappings(layout, bar2_gpa, hpa, peer)[index], bar2_gpa + offset),
    ensures
        ({
            let mapping = planned_mappings(layout, bar2_gpa, hpa, peer)[index];
            let section = layout.section_at(offset);
            &&& section != Bar2Section::Reserved
            &&& mapping.writable == section.writable_by(peer)
            &&& mapping.label == section.name_text()
        }),
{
    layout::law_sections_own_their_offsets(layout, offset);
    let first: int = if layout.common is Some {
        2
    } else {
        1
    };
    if index >= first {
        let output = layout.outputs@[index - first];
        assert(output.holds(offset));
    }
}

/// A plan maps every offset of a section and nothing else: an offset is reserved
/// exactly when no mapping covers it.
pub proof fn law_reserved_offsets_have_no_mapping(
    layout: IvshmemMemoryLayout,
    bar2_gpa: u64,
    hpa: u64,
    peer: PeerId,
    offset: int,
)
    requires
        layout.wf(),
        layout.fault() is None,
        layout.state_table.offset == 0,
    ensures
        layout.section_at(offset) == Bar2Section::Reserved <==> forall|i: int|
            0 <= i < planned_mappings(layout, bar2_gpa, hpa, peer).len() ==> !covers(
                #[trigger] planned_mappings(layout, bar2_gpa, hpa, peer)[i],
                bar2_gpa + offset,
            ),
{
    let mappings = planned_mappings(layout, bar2_gpa, hpa, peer);
    layout::law_sections_own_their_offsets(layout, offset);
    assert forall|i: int| 0 <= i < mappings.len() && covers(
        #[trigger] mappings[i],
        bar2_gpa + offset,
    ) implies layout.section_at(offset) != Bar2Section::Reserved by {
        law_direct_and_trapped_permissions_agree(layout, bar2_gpa, hpa, peer, i, offset);
    }
    let first: int = if layout.common is Some {
        2
    } else {
        1
    };
    match layout.section_at(offset) {
        Bar2Section::StateTable => assert(covers(mappings[0], bar2_gpa + offset)),
        Bar2Section::Common => assert(covers(mappings[1], bar2_gpa + offset)),
        Bar2Section::Output(owner) => {
            assert(layout.outputs@[owner.0 as int].holds(offset));
            assert(covers(mappings[first + owner.0], bar2_gpa + offset));
        },
        Bar2Section::Reserved => {},
    }
}

} // verus!
