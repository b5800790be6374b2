//! Static BAR2 layout of one ivshmem link.
//!
//! The layout object is the single source of truth for how BAR2 is divided:
//! the state table, the optional common section, and the per-peer output
//! sections all derive from it, and stage-2 mapping plans read the same object.
//! Every peer of one link observes the same division.

use crate::device::PAGE_SIZE;
use crate::ivshmem::error::{IvshmemError, IvshmemErrorView};
use crate::ivshmem::profile::{LinkProfile, PeerId};
use crate::text;
use vstd::arithmetic::mul;
use vstd::prelude::*;
use vstd::string::StringExecFns;

verus! {

/// Size of one peer's state-table entry in bytes.
pub const STATE_ENTRY_SIZE: u64 = 4;

// ---------------------------------------------------------------------------
// Sections
// ---------------------------------------------------------------------------

/// Owner-aware classification of one BAR2 offset.
#[derive(Clone, Copy, Debug, PartialEq, Eq, Structural)]
pub enum Bar2Section {
    /// Host-owned state table; guests read it, BAR0 State writes move it.
    StateTable,
    /// Read/write area shared by every peer; absent in the baseline profile.
    Common,
    /// The output section of one peer; read-only for everyone else.
    Output(PeerId),
    /// Page-rounded leftover; reads zero, writes are ignored.
    Reserved,
}

impl Bar2Section {
    /// `peer` may write this section.
    pub open spec fn writable_by(self, peer: PeerId) -> bool {
        match self {
            Bar2Section::StateTable => false,
            Bar2Section::Common => true,
            Bar2Section::Output(owner) => owner == peer,
            Bar2Section::Reserved => false,
        }
    }

    /// The section name in diagnostics.
    pub open spec fn name_text(self) -> Seq<char> {
        match self {
            Bar2Section::StateTable => "state table"@,
            Bar2Section::Common => "common section"@,
            Bar2Section::Output(_) => "output section"@,
            Bar2Section::Reserved => "reserved region"@,
        }
    }

    /// Returns whether `peer` may write this section.
    ///
    /// The state table is never writable through BAR2, the common section is
    /// writable by every peer, an output section by its owner only. The
    /// reserved region is not writable either, but the caller ignores such
    /// writes silently instead of denying them.
    pub fn allows_write(self, peer: PeerId) -> (allowed: bool)
        ensures
            allowed == self.writable_by(peer),
    {
        match self {
            Bar2Section::StateTable | Bar2Section::Reserved => false,
            Bar2Section::Common => true,
            Bar2Section::Output(owner) => owner.value() == peer.value(),
        }
    }

    /// Returns the stable section name used in diagnostics.
    pub fn name(self) -> (name: &'static str)
        ensures
            name@ == self.name_text(),
    {
        match self {
            Bar2Section::StateTable => "state table",
            Bar2Section::Common => "common section",
            Bar2Section::Output(_) => "output section",
            Bar2Section::Reserved => "reserved region",
        }
    }
}

/// One aligned section of the shared BAR2 region.
///
/// Both bounds are page aligned on purpose: stage-2 permissions are enforced at
/// page granularity, so a section that is not page aligned can never be mapped
/// without sharing a page with a neighbour.
#[derive(Clone, Copy, Debug, PartialEq, Eq, Structural)]
pub struct SectionDesc {
    pub offset: u64,
    pub size: u64,
}

/// What is wrong with the bounds of a section, if anything.
pub open spec fn section_fault(offset: int, size: int) -> Option<Seq<char>> {
    if offset % PAGE_SIZE as int != 0 {
        Some(
            "section offset "@ + text::hex_text(offset as nat) + " is not "@ + text::hex_text(
                PAGE_SIZE as nat,
            ) + "-aligned"@,
        )
    } else if size % PAGE_SIZE as int != 0 {
        Some(
            "section size "@ + text::hex_text(size as nat) + " is not "@ + text::hex_text(
                PAGE_SIZE as nat,
            ) + "-aligned"@,
        )
    } else if size == 0 {
        Some("section size is zero"@)
    } else if offset + size > u64::MAX {
        Some(
            "section offset "@ + text::hex_text(offset as nat) + " + size "@ + text::hex_text(
                size as nat,
            ) + " overflows u64"@,
        )
    } else {
        None
    }
}

impl SectionDesc {
    /// The bounds obey the rules of [`SectionDesc::new`].
    pub open spec fn wf(self) -> bool {
        section_fault(self.offset as int, self.size as int) is None
    }

    /// First offset after the section.
    pub open spec fn end(self) -> int {
        self.offset + self.size
    }

    /// `offset` lies inside the section.
    pub open spec fn holds(self, offset: int) -> bool {
        self.offset <= offset < self.end()
    }

    /// The two sections have an offset in common.
    pub open spec fn overlaps(self, other: SectionDesc) -> bool {
        self.offset < other.end() && other.offset < self.end()
    }

    /// Creates one section, rejecting unaligned bounds, a size of zero and
    /// overflow of `offset + size`.
    pub fn new(offset: u64, size: u64) -> (section: Result<Self, IvshmemError>)
        ensures
            match section {
                Ok(section) => section.wf() && section == (SectionDesc { offset, size }),
                Err(error) => section_fault(offset as int, size as int) matches Some(detail)
                    && error@ == (IvshmemErrorView::InvalidLayout { detail }),
            },
    {
        if offset % PAGE_SIZE != 0 {
            let mut detail = text::text_of("section offset ");
            text::push_hex(&mut detail, offset);
            detail.append(" is not ");
            text::push_hex(&mut detail, PAGE_SIZE);
            detail.append("-aligned");
            return Err(IvshmemError::InvalidLayout { detail });
        }
        if size % PAGE_SIZE != 0 {
            let mut detail = text::text_of("section size ");
            text::push_hex(&mut detail, size);
            detail.append(" is not ");
            text::push_hex(&mut detail, PAGE_SIZE);
            detail.append("-aligned");
            return Err(IvshmemError::InvalidLayout { detail });
        }
        if size == 0 {
            return Err(IvshmemError::InvalidLayout { detail: text::text_of("section size is zero") });
        }
        if offset.checked_add(size).is_none() {
            let mut detail = text::text_of("section offset ");
            text::push_hex(&mut detail, offset);
            detail.append(" + size ");
            text::push_hex(&mut detail, size);
            detail.append(" overflows u64");
            return Err(IvshmemError::InvalidLayout { detail });
        }
        Ok(SectionDesc { offset, size })
    }

    /// Returns the section start offset inside BAR2.
    pub fn offset(self) -> (offset: u64)
        ensures
            offset == self.offset,
    {
        self.offset
    }

    /// Returns the section size in bytes.
    pub fn size(self) -> (size: u64)
        ensures
            size == self.size,
    {
        self.size
    }

    /// Returns whether `offset` lies inside the section.
    pub fn contains(self, offset: u64) -> (contains: bool)
        ensures
            contains == self.holds(offset as int),
    {
        offset >= self.offset && offset - self.offset < self.size
    }
}

// ---------------------------------------------------------------------------
// Layout
// ---------------------------------------------------------------------------

/// Static layout of the shared BAR2 region of one link.
#[derive(Debug)]
pub struct IvshmemMemoryLayout {
    pub state_table: SectionDesc,
    pub common: Option<SectionDesc>,
    pub outputs: Vec<SectionDesc>,
    pub bar2_size: u64,
}

/// Where the output section of peer `index` starts.
pub open spec fn output_start(profile: LinkProfile, index: int) -> int {
    PAGE_SIZE + profile.common_size + index * profile.output_size
}

/// The first fault among the output sections from `index` on.
pub open spec fn output_fault(profile: LinkProfile, index: int) -> Option<Seq<char>>
    decreases profile.max_peers - index,
{
    if index < 0 || index >= profile.max_peers {
        None
    } else {
        match section_fault(output_start(profile, index), profile.output_size as int) {
            Some(fault) => Some(fault),
            None => output_fault(profile, index + 1),
        }
    }
}

/// Why the sections of a profile do not fit a BAR2 of the given size, if so.
pub open spec fn layout_fault(bar2_size: u64, profile: LinkProfile) -> Option<Seq<char>> {
    let entries_end = profile.max_peers * STATE_ENTRY_SIZE;
    let sections_end = output_start(profile, profile.max_peers as int);
    if bar2_size % PAGE_SIZE != 0 {
        Some(
            "BAR2 size "@ + text::hex_text(bar2_size as nat) + " is not "@ + text::hex_text(
                PAGE_SIZE as nat,
            ) + "-aligned"@,
        )
    } else if bar2_size < PAGE_SIZE {
        Some(
            "BAR2 size "@ + text::hex_text(bar2_size as nat) + " cannot host the "@
                + text::hex_text(PAGE_SIZE as nat) + " state-table page"@,
        )
    } else if entries_end > PAGE_SIZE {
        Some(
            text::dec_text(profile.max_peers as nat) + " state entries end at "@ + text::hex_text(
                entries_end as nat,
            ) + " beyond the "@ + text::hex_text(PAGE_SIZE as nat) + " state-table page"@,
        )
    } else if profile.common_size > 0 && section_fault(
        PAGE_SIZE as int,
        profile.common_size as int,
    ) is Some {
        section_fault(PAGE_SIZE as int, profile.common_size as int)
    } else if output_fault(profile, 0) is Some {
        output_fault(profile, 0)
    } else if sections_end > bar2_size {
        Some(
            "profile sections end at "@ + text::hex_text(sections_end as nat) + " beyond the "@
                + text::hex_text(bar2_size as nat) + " BAR2"@,
        )
    } else {
        None
    }
}

/// The output sections of a profile in peer order.
pub open spec fn output_sections(profile: LinkProfile) -> Seq<SectionDesc> {
    Seq::new(
        profile.max_peers as nat,
        |i: int|
            SectionDesc { offset: output_start(profile, i) as u64, size: profile.output_size },
    )
}

/// The first output section from `from` on that holds `offset`.
pub open spec fn output_holding(outputs: Seq<SectionDesc>, offset: int, from: int) -> Option<int>
    decreases outputs.len() - from,
{
    if from < 0 || from >= outputs.len() {
        None
    } else if outputs[from].holds(offset) {
        Some(from)
    } else {
        output_holding(outputs, offset, from + 1)
    }
}

/// All sections with their names: the state table, the common section if there
/// is one, and the output sections.
pub open spec fn named_sections(layout: IvshmemMemoryLayout) -> Seq<(SectionDesc, Seq<char>)> {
    let head = seq![(layout.state_table, "state table"@)];
    let middle = match layout.common {
        Some(common) => seq![(common, "common section"@)],
        None => Seq::empty(),
    };
    head + middle + Seq::new(
        layout.outputs@.len(),
        |i: int| (layout.outputs@[i], "output section"@),
    )
}

/// The first section from `index` on that leaves the BAR2.
pub open spec fn leaving_fault(
    sections: Seq<(SectionDesc, Seq<char>)>,
    bar2_size: u64,
    index: int,
) -> Option<Seq<char>>
    decreases sections.len() - index,
{
    if index < 0 || index >= sections.len() {
        None
    } else if sections[index].0.end() > bar2_size {
        Some(
            sections[index].1 + " at "@ + text::hex_text(sections[index].0.offset as nat) + ".."@
                + text::hex_text(sections[index].0.end() as nat) + " leaves the "@
                + text::hex_text(bar2_size as nat) + " BAR2"@,
        )
    } else {
        leaving_fault(sections, bar2_size, index + 1)
    }
}

/// The first overlap of section `index` with one from `other` on.
pub open spec fn overlap_with(
    sections: Seq<(SectionDesc, Seq<char>)>,
    index: int,
    other: int,
) -> Option<Seq<char>>
    decreases sections.len() - other,
{
    if other < 0 || other >= sections.len() {
        None
    } else if sections[index].0.overlaps(sections[other].0) {
        Some(
            sections[index].1 + " at "@ + text::hex_text(sections[index].0.offset as nat) + ".."@
                + text::hex_text(sections[index].0.end() as nat) + " overlaps "@ + sections[other].1
                + " at "@ + text::hex_text(sections[other].0.offset as nat) + ".."@
                + text::hex_text(sections[other].0.end() as nat),
        )
    } else {
        overlap_with(sections, index, other + 1)
    }
}

/// The first overlap of a section from `index` on with a later one.
pub open spec fn overlap_fault(sections: Seq<(SectionDesc, Seq<char>)>, index: int) -> Option<
    Seq<char>,
>
    decreases sections.len() - index,
{
    if index < 0 || index >= sections.len() {
        None
    } else {
        match overlap_with(sections, index, index + 1) {
            Some(fault) => Some(fault),
            None => overlap_fault(sections, index + 1),
        }
    }
}

impl IvshmemMemoryLayout {
    /// Every section has sound bounds, and there are at most as many outputs
    /// as peer identities.
    pub open spec fn wf(self) -> bool {
        &&& self.state_table.wf()
        &&& self.common matches Some(common) ==> common.wf()
        &&& forall|i: int| 0 <= i < self.outputs@.len() ==> (#[trigger] self.outputs@[i]).wf()
        &&& self.outputs@.len() <= 0x1_0000
    }

    /// The layout divides a BAR2 of its size by the given profile.
    pub open spec fn divides(self, profile: LinkProfile) -> bool {
        &&& layout_fault(self.bar2_size, profile) is None
        &&& self.state_table == (SectionDesc { offset: 0, size: PAGE_SIZE })
        &&& self.common == (if profile.common_size > 0 {
            Some(SectionDesc { offset: PAGE_SIZE, size: profile.common_size })
        } else {
            None
        })
        &&& self.outputs@ == output_sections(profile)
    }

    /// The section that owns an offset.
    pub open spec fn section_at(self, offset: int) -> Bar2Section {
        if self.state_table.holds(offset) {
            Bar2Section::StateTable
        } else if self.common is Some && self.common->0.holds(offset) {
            Bar2Section::Common
        } else {
            match output_holding(self.outputs@, offset, 0) {
                Some(index) => Bar2Section::Output(PeerId(index as u16)),
                None => Bar2Section::Reserved,
            }
        }
    }

    /// The first offset of `start..end` in a section that `peer` may not write.
    pub open spec fn first_refused(self, peer: PeerId, start: int, end: int) -> Option<int>
        decreases end - start,
    {
        if start >= end {
            None
        } else if !self.section_at(start).writable_by(peer) {
            Some(start)
        } else {
            self.first_refused(peer, start + 1, end)
        }
    }

    /// What breaks the invariants of the layout, if anything: first a section
    /// that leaves the BAR2, then two sections that overlap.
    pub open spec fn fault(self) -> Option<Seq<char>> {
        match leaving_fault(named_sections(self), self.bar2_size, 0) {
            Some(fault) => Some(fault),
            None => overlap_fault(named_sections(self), 0),
        }
    }

    /// Derives the layout from the link profile.
    ///
    /// One state-table page at offset 0 holds an entry per peer; a common
    /// section follows when the profile has one; then comes one output section
    /// per peer in ascending peer order; leftover pages stay unassigned.
    pub fn derive(bar2_size: u64, profile: LinkProfile) -> (layout: Result<Self, IvshmemError>)
        ensures
            match layout {
                Ok(layout) => {
                    &&& layout.bar2_size == bar2_size
                    &&& layout.divides(profile)
                    &&& layout.wf()
                },
                Err(error) => layout_fault(bar2_size, profile) matches Some(detail) && error@ == (
                IvshmemErrorView::InvalidLayout { detail }),
            },
    {
        let max_peers: u16 = profile.max_peers();
        if bar2_size % PAGE_SIZE != 0 {
            let mut detail = text::text_of("BAR2 size ");
            text::push_hex(&mut detail, bar2_size);
            detail.append(" is not ");
            text::push_hex(&mut detail, PAGE_SIZE);
            detail.append("-aligned");
            return Err(IvshmemError::InvalidLayout { detail });
        }
        let state_table = match SectionDesc::new(0, PAGE_SIZE) {
            Ok(section) => section,
            Err(error) => {
                return Err(error);
            },
        };
        if bar2_size < state_table.size() {
            let mut detail = text::text_of("BAR2 size ");
            text::push_hex(&mut detail, bar2_size);
            detail.append(" cannot host the ");
            text::push_hex(&mut detail, state_table.size());
            detail.append(" state-table page");
            return Err(IvshmemError::InvalidLayout { detail });
        }
        let entries_end: u64 = state_table.offset() + max_peers as u64 * STATE_ENTRY_SIZE;
        if entries_end > state_table.size() {
            let mut detail = String::new();
            text::push_dec(&mut detail, max_peers as u64);
            detail.append(" state entries end at ");
            text::push_hex(&mut detail, entries_end);
            detail.append(" beyond the ");
            text::push_hex(&mut detail, state_table.size());
            detail.append(" state-table page");
            assert(detail@ =~= layout_fault(bar2_size, profile)->0);
            return Err(IvshmemError::InvalidLayout { detail });
        }
        let mut cursor: u64 = state_table.size();
        let mut common: Option<SectionDesc> = None;
        if profile.common_size() > 0 {
            match SectionDesc::new(cursor, profile.common_size()) {
                Ok(section) => {
                    cursor = cursor + section.size();
                    common = Some(section);
                },
                Err(error) => {
                    return Err(error);
                },
            }
        }
        let mut outputs: Vec<SectionDesc> = Vec::new();
        let mut peer: u16 = 0;
        assert(cursor == output_start(profile, 0));
        while peer < max_peers
            invariant
                peer <= max_peers,
                max_peers == profile.max_peers,
                cursor == output_start(profile, peer as int),
                outputs@.len() == peer,
                outputs@ =~= output_sections(profile).take(peer as int),
                forall|i: int| 0 <= i < peer ==> (#[trigger] outputs@[i]).wf(),
                output_fault(profile, 0) == output_fault(profile, peer as int),
                output_fault(profile, 0) is Some ==> layout_fault(bar2_size, profile)
                    == output_fault(profile, 0),
            decreases max_peers - peer,
        {
            match SectionDesc::new(cursor, profile.output_size()) {
                Ok(section) => {
                    outputs.push(section);
                },
                Err(error) => {
                    return Err(error);
                },
            }
            proof {
                mul::lemma_mul_is_distributive_add_other_way(
                    profile.output_size as int,
                    peer as int,
                    1,
                );
            }
            cursor = cursor + profile.output_size();
            peer = peer + 1;
        }
        assert(outputs@ =~= output_sections(profile));
        if cursor > bar2_size {
            let mut detail = text::text_of("profile sections end at ");
            text::push_hex(&mut detail, cursor);
            detail.append(" beyond the ");
            text::push_hex(&mut detail, bar2_size);
            detail.append(" BAR2");
            return Err(IvshmemError::InvalidLayout { detail });
        }
        Ok(IvshmemMemoryLayout { state_table, common, outputs, bar2_size })
    }

    /// Returns the state-table section.
    pub fn state_table(&self) -> (section: SectionDesc)
        ensures
            section == self.state_table,
    {
        self.state_table
    }

    /// Returns the common section, or `None` while the profile has none.
    pub fn common(&self) -> (section: Option<SectionDesc>)
        ensures
            section == self.common,
    {
        self.common
    }

    /// Returns the per-peer output sections in peer order.
    pub fn outputs(&self) -> (outputs: &Vec<SectionDesc>)
        ensures
            *outputs == self.outputs,
    {
        &self.outputs
    }

    /// Returns the total BAR2 size this layout was derived from.
    pub fn bar2_size(&self) -> (size: u64)
        ensures
            size == self.bar2_size,
    {
        self.bar2_size
    }

    /// Returns the offset of one peer's state-table entry.
    ///
    /// # Errors
    ///
    /// Returns [`IvshmemError::PeerOutOfProfile`] when `peer` is at or beyond
    /// `max_peers` or the peer count this layout was derived from.
    pub fn state_entry_offset(&self, peer: PeerId, max_peers: u16) -> (offset: Result<
        u64,
        IvshmemError,
    >)
        requires
            self.state_table.wf(),
            peer.0 < max_peers && peer.0 < self.outputs@.len() ==> self.state_table.offset + 4
                * peer.0 <= u64::MAX,
        ensures
            match offset {
                Ok(offset) => peer.0 < max_peers && peer.0 < self.outputs@.len() && offset
                    == self.state_table.offset + 4 * peer.0,
                Err(error) => (peer.0 >= max_peers || peer.0 >= self.outputs@.len()) && error@ == (
                IvshmemErrorView::PeerOutOfProfile { peer: peer.0, max_peers }),
            },
    {
        if peer.value() >= max_peers || peer.value() as usize >= self.outputs.len() {
            return Err(IvshmemError::PeerOutOfProfile { peer: peer.value(), max_peers });
        }
        Ok(self.state_table.offset() + peer.value() as u64 * STATE_ENTRY_SIZE)
    }

    /// Classifies one BAR2 offset into its owning section.
    ///
    /// The result is the same for every peer of the link; ownership is applied
    /// afterwards. Offsets past the sections classify as reserved.
    pub fn classify(&self, offset: u64) -> (section: Bar2Section)
        requires
            self.outputs@.len() <= 0x1_0000,
        ensures
            section == self.section_at(offset as int),
    {
        if self.state_table.contains(offset) {
            return Bar2Section::StateTable;
        }
        if let Some(common) = self.common {
            if common.contains(offset) {
                return Bar2Section::Common;
            }
        }
        let mut index: usize = 0;
        while index < self.outputs.len()
            invariant
                index <= self.outputs.len(),
                output_holding(self.outputs@, offset as int, 0) == output_holding(
                    self.outputs@,
                    offset as int,
                    index as int,
                ),
                !self.state_table.holds(offset as int),
                self.common is Some ==> !self.common->0.holds(offset as int),
                self.outputs@.len() <= 0x1_0000,
            decreases self.outputs.len() - index,
        {
            if self.outputs[index].contains(offset) {
                return Bar2Section::Output(PeerId::new(index as u16));
            }
            index = index + 1;
        }
        Bar2Section::Reserved
    }

    /// Finds the first offset of `start..end` in a section that `peer` may not
    /// write.
    pub fn first_refused_offset(&self, peer: PeerId, start: u64, end: u64) -> (refused: Option<u64>)
        requires
            self.outputs@.len() <= 0x1_0000,
        ensures
            match refused {
                Some(refused) => self.first_refused(peer, start as int, end as int) == Some(
                    refused as int,
                ),
                None => self.first_refused(peer, start as int, end as int) is None,
            },
    {
        let mut offset: u64 = start;
        while offset < end
            invariant
                self.outputs@.len() <= 0x1_0000,
                self.first_refused(peer, start as int, end as int) == self.first_refused(
                    peer,
                    offset as int,
                    end as int,
                ),
            decreases end - offset,
        {
            if !self.classify(offset).allows_write(peer) {
                return Some(offset);
            }
            offset = offset + 1;
        }
        None
    }

    /// Lists all sections with their names.
    fn sections(&self) -> (sections: Vec<(SectionDesc, &'static str)>)
        ensures
            section_views(sections@) == named_sections(*self),
    {
        let mut sections: Vec<(SectionDesc, &'static str)> = Vec::new();
        sections.push((self.state_table, Bar2Section::StateTable.name()));
        if let Some(common) = self.common {
            sections.push((common, Bar2Section::Common.name()));
        }
        let ghost head = section_views(sections@);
        let mut index: usize = 0;
        while index < self.outputs.len()
            invariant
                index <= self.outputs.len(),
                section_views(sections@) == head + Seq::new(
                    index as nat,
                    |i: int| (self.outputs@[i], "output section"@),
                ),
            decreases self.outputs.len() - index,
        {
            let output = self.outputs[index];
            let ghost before = section_views(sections@);
            sections.push((output, Bar2Section::Output(PeerId::new(0)).name()));
            assert(section_views(sections@) =~= before.push((output, "output section"@)));
            index = index + 1;
            assert(section_views(sections@) =~= head + Seq::new(
                index as nat,
                |i: int| (self.outputs@[i], "output section"@),
            ));
        }
        assert(section_views(sections@) =~= named_sections(*self));
        sections
    }

    /// Re-checks the frozen invariants of this layout: no section leaves the
    /// BAR2 and no two sections overlap.
    pub fn validate(&self) -> (result: Result<(), IvshmemError>)
        requires
            self.wf(),
        ensures
            match result {
                Ok(()) => self.fault() is None,
                Err(error) => self.fault() matches Some(detail) && error@ == (
                IvshmemErrorView::InvalidLayout { detail }),
            },
    {
        let sections = self.sections();
        let ghost views = section_views(sections@);
        assert forall|i: int| 0 <= i < views.len() implies (#[trigger] views[i]).0.wf() by {
            assert(views[i] == named_sections(*self)[i]);
        }
        let mut index: usize = 0;
        while index < sections.len()
            invariant
                index <= sections.len(),
                views == section_views(sections@),
                forall|i: int| 0 <= i < views.len() ==> (#[trigger] views[i]).0.wf(),
                leaving_fault(views, self.bar2_size, 0) == leaving_fault(
                    views,
                    self.bar2_size,
                    index as int,
                ),
                views == named_sections(*self),
            decreases sections.len() - index,
        {
            let (section, name) = sections[index];
            assert(views[index as int] == (section, name@));
            if section.offset() + section.size() > self.bar2_size {
                let mut detail = text::text_of(name);
                detail.append(" at ");
                text::push_hex(&mut detail, section.offset());
                detail.append("..");
                text::push_hex(&mut detail, section.offset() + section.size());
                detail.append(" leaves the ");
                text::push_hex(&mut detail, self.bar2_size);
                detail.append(" BAR2");
                return Err(IvshmemError::InvalidLayout { detail });
            }
            index = index + 1;
        }
        let mut index: usize = 0;
        while index < sections.len()
            invariant
                index <= sections.len(),
                views == section_views(sections@),
                forall|i: int| 0 <= i < views.len() ==> (#[trigger] views[i]).0.wf(),
                leaving_fault(views, self.bar2_size, 0) is None,
                overlap_fault(views, 0) == overlap_fault(views, index as int),
                views == named_sections(*self),
            decreases sections.len() - index,
        {
            let (section, name) = sections[index];
            assert(views[index as int] == (section, name@));
            let mut next: usize = index + 1;
            while next < sections.len()
                invariant
                    index < next <= sections.len(),
                    views == section_views(sections@),
                    forall|i: int| 0 <= i < views.len() ==> (#[trigger] views[i]).0.wf(),
                    views[index as int] == (section, name@),
                    leaving_fault(views, self.bar2_size, 0) is None,
                    overlap_fault(views, 0) == overlap_fault(views, index as int),
                    overlap_with(views, index as int, index + 1) == overlap_with(
                        views,
                        index as int,
                        next as int,
                    ),
                    views == named_sections(*self),
                decreases sections.len() - next,
            {
                let (other, other_name) = sections[next];
                assert(views[next as int] == (other, other_name@));
                if section.offset() < other.offset() + other.size() && other.offset()
                    < section.offset() + section.size() {
                    let mut detail = text::text_of(name);
                    detail.append(" at ");
                    text::push_hex(&mut detail, section.offset());
                    detail.append("..");
                    text::push_hex(&mut detail, section.offset() + section.size());
                    detail.append(" overlaps ");
                    detail.append(other_name);
                    detail.append(" at ");
                    text::push_hex(&mut detail, other.offset());
                    detail.append("..");
                    text::push_hex(&mut detail, other.offset() + other.size());
                    return Err(IvshmemError::InvalidLayout { detail });
                }
                next = next + 1;
            }
            index = index + 1;
        }
        Ok(())
    }
}

/// A derived layout is sound, its sections lie in the BAR2 and do not overlap,
/// and so it always validates.
pub proof fn law_derived_layouts_validate(layout: IvshmemMemoryLayout, profile: LinkProfile)
    requires
        layout.divides(profile),
    ensures
        layout.fault() is None,
{
    let sections = named_sections(layout);
    let first = if profile.common_size > 0 {
        2int
    } else {
        1int
    };
    assert forall|i: int| first <= i < sections.len() implies (#[trigger] sections[i]).0.offset
        == output_start(profile, i - first) && sections[i].0.end() == output_start(
        profile,
        i - first + 1,
    ) && sections[i].0.end() <= layout.bar2_size by {
        lemma_output_bounds(layout.bar2_size, profile, i - first);
    }
    assert forall|i: int, j: int| 0 <= i < j < sections.len() implies (#[trigger] sections[i]).0.end()
        <= (#[trigger] sections[j]).0.offset by {
        if j >= first {
            lemma_output_bounds(layout.bar2_size, profile, j - first);
            if i >= first {
                mul::lemma_mul_inequality(
                    i - first + 1,
                    j - first,
                    profile.output_size as int,
                );
            } else {
                mul::lemma_mul_inequality(0, j - first, profile.output_size as int);
            }
        }
    }
    assert forall|i: int| 0 <= i < sections.len() implies (#[trigger] sections[i]).0.end()
        <= layout.bar2_size by {
        if i < first && sections.len() > first {
            assert(sections[i].0.end() <= sections[first].0.offset);
        } else if i < first {
            assert(output_start(profile, 0) == PAGE_SIZE + profile.common_size);
        }
    }
    lemma_none_leaving(sections, layout.bar2_size, 0);
    lemma_none_overlapping(sections, 0);
}

/// An output section of a profile that fits lies in the BAR2.
pub proof fn lemma_output_bounds(bar2_size: u64, profile: LinkProfile, index: int)
    requires
        layout_fault(bar2_size, profile) is None,
        0 <= index < profile.max_peers,
    ensures
        output_start(profile, index) + profile.output_size == output_start(profile, index + 1),
        output_start(profile, index + 1) <= bar2_size,
        output_start(profile, index) >= PAGE_SIZE + profile.common_size,
{
    mul::lemma_mul_is_distributive_add_other_way(profile.output_size as int, index, 1);
    mul::lemma_mul_inequality(index + 1, profile.max_peers as int, profile.output_size as int);
    mul::lemma_mul_inequality(0, index, profile.output_size as int);
}

proof fn lemma_none_leaving(
    sections: Seq<(SectionDesc, Seq<char>)>,
    bar2_size: u64,
    index: int,
)
    requires
        0 <= index <= sections.len(),
        forall|i: int| 0 <= i < sections.len() ==> (#[trigger] sections[i]).0.end() <= bar2_size,
    ensures
        leaving_fault(sections, bar2_size, index) is None,
    decreases sections.len() - index,
{
    if index < sections.len() {
        lemma_none_leaving(sections, bar2_size, index + 1);
    }
}

proof fn lemma_none_overlapping_with(
    sections: Seq<(SectionDesc, Seq<char>)>,
    index: int,
    other: int,
)
    requires
        0 <= index < other <= sections.len(),
        forall|i: int, j: int|
            0 <= i < j < sections.len() ==> (#[trigger] sections[i]).0.end() <= (
            #[trigger] sections[j]).0.offset,
    ensures
        overlap_with(sections, index, other) is None,
    decreases sections.len() - other,
{
    if other < sections.len() {
        lemma_none_overlapping_with(sections, index, other + 1);
    }
}

proof fn lemma_none_overlapping(sections: Seq<(SectionDesc, Seq<char>)>, index: int)
    requires
        0 <= index <= sections.len(),
        forall|i: int, j: int|
            0 <= i < j < sections.len() ==> (#[trigger] sections[i]).0.end() <= (
            #[trigger] sections[j]).0.offset,
    ensures
        overlap_fault(sections, index) is None,
    decreases sections.len() - index,
{
    if index < sections.len() {
        lemma_none_overlapping_with(sections, index, index + 1);
        lemma_none_overlapping(sections, index + 1);
    }
}

/// In a layout without faults every offset belongs to the section that holds it
/// and to no other: to the state table, the common section or the output section
/// of one peer, or, where no section holds it, to the reserved rest. All sections
/// lie in the BAR2.
pub proof fn law_sections_own_their_offsets(layout: IvshmemMemoryLayout, offset: int)
    requires
        layout.wf(),
        layout.fault() is None,
    ensures
        layout.state_table.holds(offset) <==> layout.section_at(offset) == Bar2Section::StateTable,
        (layout.common matches Some(common) && common.holds(offset)) <==> layout.section_at(offset)
            == Bar2Section::Common,
        forall|index: int|
            0 <= index < layout.outputs@.len() ==> ((#[trigger] layout.outputs@[index]).holds(
                offset,
            ) <==> layout.section_at(offset) == Bar2Section::Output(PeerId(index as u16))),
        layout.section_at(offset) matches Bar2Section::Output(owner) ==> owner.0
            < layout.outputs@.len(),
        layout.section_at(offset) == Bar2Section::Reserved <==> !layout.state_table.holds(offset)
            && !(layout.common matches Some(common) && common.holds(offset)) && forall|index: int|
            0 <= index < layout.outputs@.len() ==> !(#[trigger] layout.outputs@[index]).holds(
                offset,
            ),
        layout.section_at(offset) != Bar2Section::Reserved ==> 0 <= offset < layout.bar2_size,
{
    let sections = named_sections(layout);
    let first = if layout.common is Some {
        2int
    } else {
        1int
    };
    assert(sections[0].0 == layout.state_table);
    lemma_inside(sections, layout.bar2_size, 0, 0);
    if layout.common is Some {
        assert(sections[1].0 == layout.common->0);
        lemma_overlap_free(sections, 0, 0, 1);
        lemma_inside(sections, layout.bar2_size, 0, 1);
    }
    assert forall|index: int| 0 <= index < layout.outputs@.len() && (
    #[trigger] layout.outputs@[index]).holds(offset) implies layout.section_at(offset)
        == Bar2Section::Output(PeerId(index as u16)) && offset < layout.bar2_size by {
        assert(sections[first + index].0 == layout.outputs@[index]);
        lemma_inside(sections, layout.bar2_size, 0, first + index);
        lemma_overlap_free(sections, 0, 0, first + index);
        if layout.common is Some {
            lemma_overlap_free(sections, 0, 1, first + index);
        }
        assert forall|i: int| 0 <= i < index implies !(#[trigger] layout.outputs@[i]).holds(
            offset,
        ) by {
            assert(sections[first + i].0 == layout.outputs@[i]);
            lemma_overlap_free(sections, 0, first + i, first + index);
        }
        lemma_first_output(layout.outputs@, offset, 0, index);
    }
    lemma_output_holding(layout.outputs@, offset, 0);
}

/// Without a leaving fault every section lies in the BAR2.
proof fn lemma_inside(
    sections: Seq<(SectionDesc, Seq<char>)>,
    bar2_size: u64,
    from: int,
    i: int,
)
    requires
        0 <= from <= i < sections.len(),
        leaving_fault(sections, bar2_size, from) is None,
    ensures
        sections[i].0.end() <= bar2_size,
    decreases i - from,
{
    if from < i {
        lemma_inside(sections, bar2_size, from + 1, i);
    }
}

/// The output section that is found holds the offset; where none is found, none
/// holds it.
proof fn lemma_output_holding(outputs: Seq<SectionDesc>, offset: int, from: int)
    requires
        0 <= from <= outputs.len(),
    ensures
        match output_holding(outputs, offset, from) {
            Some(index) => from <= index < outputs.len() && outputs[index].holds(offset),
            None => forall|i: int|
                from <= i < outputs.len() ==> !(#[trigger] outputs[i]).holds(offset),
        },
    decreases outputs.len() - from,
{
    if from < outputs.len() && !outputs[from].holds(offset) {
        lemma_output_holding(outputs, offset, from + 1);
    }
}

/// Where an offset is refused, the first refused one is found at or before it;
/// where none is found, all offsets may be written.
pub proof fn lemma_first_refused(
    layout: IvshmemMemoryLayout,
    peer: PeerId,
    start: int,
    end: int,
)
    ensures
        match layout.first_refused(peer, start, end) {
            Some(refused) => {
                &&& start <= refused < end
                &&& !layout.section_at(refused).writable_by(peer)
                &&& forall|offset: int|
                    start <= offset < refused ==> (#[trigger] layout.section_at(offset)).writable_by(
                        peer,
                    )
            },
            None => forall|offset: int|
                start <= offset < end ==> (#[trigger] layout.section_at(offset)).writable_by(peer),
        },
    decreases end - start,
{
    if start < end && layout.section_at(start).writable_by(peer) {
        lemma_first_refused(layout, peer, start + 1, end);
    }
}

/// Without an overlap fault no two sections overlap.
proof fn lemma_overlap_free(sections: Seq<(SectionDesc, Seq<char>)>, from: int, i: int, j: int)
    requires
        0 <= from <= i < j < sections.len(),
        overlap_fault(sections, from) is None,
    ensures
        !sections[i].0.overlaps(sections[j].0),
    decreases i - from,
{
    if from < i {
        lemma_overlap_free(sections, from + 1, i, j);
    } else {
        lemma_overlap_free_with(sections, i, i + 1, j);
    }
}

proof fn lemma_overlap_free_with(
    sections: Seq<(SectionDesc, Seq<char>)>,
    i: int,
    from: int,
    j: int,
)
    requires
        0 <= i < from <= j < sections.len(),
        overlap_with(sections, i, from) is None,
    ensures
        !sections[i].0.overlaps(sections[j].0),
    decreases j - from,
{
    if from < j {
        lemma_overlap_free_with(sections, i, from + 1, j);
    }
}

proof fn lemma_first_output(outputs: Seq<SectionDesc>, offset: int, from: int, index: int)
    requires
        0 <= from <= index < outputs.len(),
        outputs[index].holds(offset),
        forall|i: int| 0 <= i < index ==> !(#[trigger] outputs[i]).holds(offset),
    ensures
        output_holding(outputs, offset, from) == Some(index),
    decreases index - from,
{
    if from < index {
        lemma_first_output(outputs, offset, from + 1, index);
    }
}

/// The contents of a list of named sections.
pub open spec fn section_views(sections: Seq<(SectionDesc, &'static str)>) -> Seq<
    (SectionDesc, Seq<char>),
> {
    Seq::new(sections.len(), |i: int| (sections[i].0, sections[i].1@))
}

} // verus!
