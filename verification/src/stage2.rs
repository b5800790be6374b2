//! Stage-2 direct mappings: the values that devices declare, and the VM's
//! record of which device owns which committed mapping.
//!
//! Devices declare *what* they need mapped (guest-physical ranges with stage-2
//! permissions); the VM decides *how* the nested page table is updated. An
//! update is a plan of page-table steps; whoever performs the steps hands their
//! outcome back, and only a complete update is recorded.

use crate::device::{DeviceError, DeviceErrorView, DeviceNodeId, PAGE_SIZE};
use crate::text;
use vstd::prelude::*;
use vstd::string::StringExecFns;

verus! {

// ---------------------------------------------------------------------------
// Values
// ---------------------------------------------------------------------------

/// One guest-physical to host-physical mapping with stage-2 permissions.
#[derive(Clone, Copy, Debug, PartialEq, Eq)]
pub struct DirectMapping {
    pub gpa_base: u64,
    pub hpa_base: u64,
    pub size: u64,
    pub writable: bool,
    pub label: &'static str,
}

/// What is wrong with the bounds of a mapping, if anything.
pub open spec fn mapping_fault(gpa_base: u64, hpa_base: u64, size: u64) -> Option<Seq<char>> {
    if size == 0 {
        Some("mapping size is zero"@)
    } else if gpa_base % PAGE_SIZE != 0 || hpa_base % PAGE_SIZE != 0 || size % PAGE_SIZE != 0 {
        Some(
            "mapping gpa "@ + text::hex_text(gpa_base as nat) + ", hpa "@ + text::hex_text(
                hpa_base as nat,
            ) + " and size "@ + text::hex_text(size as nat) + " must all be "@ + text::hex_text(
                PAGE_SIZE as nat,
            ) + "-aligned"@,
        )
    } else {
        None
    }
}

impl DirectMapping {
    /// First guest-physical address after the mapping.
    pub open spec fn end(self) -> int {
        self.gpa_base + self.size
    }

    /// The bounds are aligned, and the mapping does not run past the end of
    /// the address space.
    pub open spec fn wf(self) -> bool {
        mapping_fault(self.gpa_base, self.hpa_base, self.size) is None && self.end() <= u64::MAX
    }

    /// The two mappings have a guest-physical address in common.
    pub open spec fn overlaps(self, other: DirectMapping) -> bool {
        self.gpa_base < other.end() && other.gpa_base < self.end()
    }

    /// The guest-physical address lies in the mapping.
    pub open spec fn maps(self, gpa: int) -> bool {
        self.gpa_base <= gpa < self.end()
    }

    /// Creates one page-aligned mapping.
    pub fn new(
        gpa_base: u64,
        hpa_base: u64,
        size: u64,
        writable: bool,
        label: &'static str,
    ) -> (mapping: Result<Self, DeviceError>)
        ensures
            match mapping {
                Ok(mapping) => mapping_fault(gpa_base, hpa_base, size) is None && mapping == (
                DirectMapping { gpa_base, hpa_base, size, writable, label }),
                Err(error) => mapping_fault(gpa_base, hpa_base, size) matches Some(detail) && error@
                    == (DeviceErrorView::InvalidInput {
                    operation: "create direct mapping"@,
                    detail,
                }),
            },
    {
        if size == 0 {
            return Err(
                DeviceError::InvalidInput {
                    operation: "create direct mapping",
                    detail: text::text_of("mapping size is zero"),
                },
            );
        }
        if gpa_base % PAGE_SIZE != 0 || hpa_base % PAGE_SIZE != 0 || size % PAGE_SIZE != 0 {
            let mut detail = text::text_of("mapping gpa ");
            text::push_hex(&mut detail, gpa_base);
            detail.append(", hpa ");
            text::push_hex(&mut detail, hpa_base);
            detail.append(" and size ");
            text::push_hex(&mut detail, size);
            detail.append(" must all be ");
            text::push_hex(&mut detail, PAGE_SIZE);
            detail.append("-aligned");
            return Err(DeviceError::InvalidInput { operation: "create direct mapping", detail });
        }
        Ok(DirectMapping { gpa_base, hpa_base, size, writable, label })
    }

    /// Returns the guest-physical base of the mapping.
    pub fn gpa_base(self) -> (base: u64)
        ensures
            base == self.gpa_base,
    {
        self.gpa_base
    }

    /// Returns the host-physical base of the mapping.
    pub fn hpa_base(self) -> (base: u64)
        ensures
            base == self.hpa_base,
    {
        self.hpa_base
    }

    /// Returns the mapping size in bytes.
    pub fn size(self) -> (size: u64)
        ensures
            size == self.size,
    {
        self.size
    }

    /// Returns whether the guest may write the mapped range.
    pub fn writable(self) -> (writable: bool)
        ensures
            writable == self.writable,
    {
        self.writable
    }

    /// Returns the stable section name used in fault diagnostics.
    pub fn label(self) -> (label: &'static str)
        ensures
            label == self.label,
    {
        self.label
    }
}

/// One guest-physical range to revoke, identified by its current mapping.
#[derive(Clone, Copy, Debug, PartialEq, Eq, Structural)]
pub struct GpaRange {
    pub base: u64,
    pub size: u64,
}

impl GpaRange {
    /// Creates one range over `base..base + size`.
    pub fn new(base: u64, size: u64) -> (range: Self)
        ensures
            range == (GpaRange { base, size }),
    {
        GpaRange { base, size }
    }

    /// Returns the range base.
    pub fn base(self) -> (base: u64)
        ensures
            base == self.base,
    {
        self.base
    }

    /// Returns the range size in bytes.
    pub fn size(self) -> (size: u64)
        ensures
            size == self.size,
    {
        self.size
    }
}

/// Diagnosis of one faulting address against committed mappings.
#[derive(Debug, PartialEq, Eq)]
pub struct DirectMappingFault {
    pub owner: DeviceNodeId,
    pub label: &'static str,
    pub writable: bool,
}

impl DirectMappingFault {
    /// Assembles one fault diagnosis.
    pub fn new(owner: DeviceNodeId, label: &'static str, writable: bool) -> (fault: Self)
        ensures
            fault == (DirectMappingFault { owner, label, writable }),
    {
        DirectMappingFault { owner, label, writable }
    }

    /// Returns the device node that owns the mapped range.
    pub fn owner(&self) -> (owner: &DeviceNodeId)
        ensures
            *owner == self.owner,
    {
        &self.owner
    }

    /// Returns the stable section name of the mapped range.
    pub fn label(&self) -> (label: &'static str)
        ensures
            label == self.label,
    {
        self.label
    }

    /// Returns whether the mapping would have allowed the write.
    pub fn writable(&self) -> (writable: bool)
        ensures
            writable == self.writable,
    {
        self.writable
    }
}

// ---------------------------------------------------------------------------
// Registry
// ---------------------------------------------------------------------------

/// One owner's committed direct mappings.
#[derive(Debug)]
pub struct CommittedMappings {
    pub owner: DeviceNodeId,
    pub mappings: Vec<DirectMapping>,
}

/// The contents of one record.
pub struct CommittedView {
    pub owner: Seq<char>,
    pub mappings: Seq<DirectMapping>,
}

impl View for CommittedMappings {
    type V = CommittedView;

    open spec fn view(&self) -> CommittedView {
        CommittedView { owner: self.owner@, mappings: self.mappings@ }
    }
}

/// Which device owns which committed mapping of one VM, in the order of the
/// owners.
#[derive(Debug)]
pub struct Stage2Registry {
    pub committed: Vec<CommittedMappings>,
}

/// One page-table step of an update.
#[derive(Clone, Copy, Debug)]
pub enum Stage2Step {
    /// Install a mapping.
    Install(DirectMapping),
    /// Remove what a range maps.
    Revoke(GpaRange),
}

/// The step at which the page table refused an update, and why.
#[derive(Debug)]
pub struct FailedStep {
    pub step: Stage2Step,
    pub detail: String,
}

/// The contents of a list of records.
pub open spec fn committed_views(committed: Seq<CommittedMappings>) -> Seq<CommittedView> {
    Seq::new(committed.len(), |i: int| committed[i]@)
}

/// Some mapping of the record overlaps `mapping`.
pub open spec fn record_overlaps(record: CommittedView, mapping: DirectMapping) -> bool {
    exists|m: int| 0 <= m < record.mappings.len() && mapping.overlaps(#[trigger] record.mappings[m])
}

/// The first record from `index` on that belongs to another device and overlaps
/// the mapping.
pub open spec fn conflict_with(
    committed: Seq<CommittedView>,
    owner: Seq<char>,
    mapping: DirectMapping,
    index: int,
) -> Option<int>
    decreases committed.len() - index,
{
    if index < 0 || index >= committed.len() {
        None
    } else if committed[index].owner != owner && record_overlaps(committed[index], mapping) {
        Some(index)
    } else {
        conflict_with(committed, owner, mapping, index + 1)
    }
}

/// The failure of the first mapping from `index` on that conflicts with another
/// device.
pub open spec fn conflict_fault(
    committed: Seq<CommittedView>,
    owner: Seq<char>,
    commit: Seq<DirectMapping>,
    index: int,
) -> Option<DeviceErrorView>
    decreases commit.len() - index,
{
    if index < 0 || index >= commit.len() {
        None
    } else {
        match conflict_with(committed, owner, commit[index], 0) {
            Some(other) => Some(
                DeviceErrorView::ResourceBusy {
                    resource: "direct mapping "@ + text::hex_text(commit[index].gpa_base as nat)
                        + ".."@ + text::hex_text(commit[index].end() as nat) + " owned by "@
                        + committed[other].owner,
                    operation: "update direct mappings"@,
                },
            ),
            None => conflict_fault(committed, owner, commit, index + 1),
        }
    }
}

/// The steps of an update: every new mapping is installed before any range is
/// revoked, so that a rewrite at the same address never exposes a gap.
pub open spec fn update_steps(revoke: Seq<GpaRange>, commit: Seq<DirectMapping>) -> Seq<Stage2Step> {
    Seq::new(commit.len(), |i: int| Stage2Step::Install(commit[i])) + Seq::new(
        revoke.len(),
        |i: int| Stage2Step::Revoke(revoke[i]),
    )
}

/// Sound records: in the order of their owners, with sound mappings.
pub open spec fn records_ok(committed: Seq<CommittedView>) -> bool {
    &&& forall|i: int, m: int|
        0 <= i < committed.len() && 0 <= m < committed[i].mappings.len() ==> (
        #[trigger] committed[i].mappings[m]).wf()
    &&& forall|i: int, j: int|
        0 <= i < j < committed.len() ==> text::text_less(
            (#[trigger] committed[i]).owner,
            (#[trigger] committed[j]).owner,
        )
}

/// No two mappings of different devices overlap.
pub open spec fn owners_apart(committed: Seq<CommittedView>) -> bool {
    forall|i: int, m: int, j: int, n: int|
        0 <= i < committed.len() && 0 <= j < committed.len() && i != j && 0 <= m
            < committed[i].mappings.len() && 0 <= n < committed[j].mappings.len() ==> !(
        #[trigger] committed[i].mappings[m]).overlaps(#[trigger] committed[j].mappings[n])
}

/// `after` records `mappings` for `owner` and is otherwise `before`.
pub open spec fn records_update(
    before: Seq<CommittedView>,
    after: Seq<CommittedView>,
    owner: Seq<char>,
    mappings: Seq<DirectMapping>,
    at: int,
) -> bool {
    let record = CommittedView { owner, mappings };
    ||| 0 <= at < before.len() && before[at].owner == owner && after == before.update(at, record)
    ||| 0 <= at <= before.len() && after == before.insert(at, record) && forall|i: int|
        0 <= i < before.len() ==> (#[trigger] before[i]).owner != owner
}

/// The first mapping of a record from `from` on that maps the address.
pub open spec fn mapping_at(mappings: Seq<DirectMapping>, gpa: int, from: int) -> Option<int>
    decreases mappings.len() - from,
{
    if from < 0 || from >= mappings.len() {
        None
    } else if mappings[from].maps(gpa) {
        Some(from)
    } else {
        mapping_at(mappings, gpa, from + 1)
    }
}

/// The first record from `from` on with a mapping of the address, and the
/// position of that mapping.
pub open spec fn record_at(committed: Seq<CommittedView>, gpa: int, from: int) -> Option<(int, int)>
    decreases committed.len() - from,
{
    if from < 0 || from >= committed.len() {
        None
    } else {
        match mapping_at(committed[from].mappings, gpa, 0) {
            Some(m) => Some((from, m)),
            None => record_at(committed, gpa, from + 1),
        }
    }
}

/// Stage-2 permission bits of a mapping.
#[derive(Clone, Copy, Debug, PartialEq, Eq, Structural)]
pub struct Stage2Flags {
    pub read: bool,
    pub write: bool,
    pub user: bool,
}

/// Returns the permissions of a mapping: stage-2 has no privilege distinction,
/// so every mapping can be read and reached by the guest.
pub fn stage2_flags(writable: bool) -> (flags: Stage2Flags)
    ensures
        flags == (Stage2Flags { read: true, write: writable, user: true }),
{
    Stage2Flags { read: true, write: writable, user: true }
}

impl CommittedMappings {
    /// Tells whether some mapping of the record overlaps `mapping`.
    fn touches(&self, mapping: DirectMapping) -> (touches: bool)
        requires
            mapping.wf(),
            forall|m: int| 0 <= m < self.mappings@.len() ==> (#[trigger] self.mappings@[m]).wf(),
        ensures
            touches == record_overlaps(self@, mapping),
    {
        let start: u64 = mapping.gpa_base();
        let end: u64 = start + mapping.size();
        let mut index: usize = 0;
        while index < self.mappings.len()
            invariant
                index <= self.mappings.len(),
                start == mapping.gpa_base,
                end == mapping.end(),
                forall|m: int|
                    0 <= m < self.mappings@.len() ==> (#[trigger] self.mappings@[m]).wf(),
                forall|m: int|
                    0 <= m < index ==> !mapping.overlaps(#[trigger] self.mappings@[m]),
            decreases self.mappings.len() - index,
        {
            let other = self.mappings[index];
            assert(self.mappings@[index as int].wf());
            let other_start: u64 = other.gpa_base();
            let other_end: u64 = other_start + other.size();
            if start < other_end && other_start < end {
                assert(mapping.overlaps(self@.mappings[index as int]));
                return true;
            }
            index = index + 1;
        }
        false
    }
}

impl Stage2Registry {
    /// The records.
    pub open spec fn records(self) -> Seq<CommittedView> {
        committed_views(self.committed@)
    }

    /// The records are sound, and no two devices share an address.
    pub open spec fn wf(self) -> bool {
        records_ok(self.records()) && owners_apart(self.records())
    }

    /// Creates an empty registry.
    pub fn new() -> (registry: Self)
        ensures
            registry.wf(),
            registry.records() == Seq::<CommittedView>::empty(),
    {
        let registry = Stage2Registry { committed: Vec::new() };
        assert(registry.records() =~= Seq::<CommittedView>::empty());
        registry
    }

    /// Drops every record after the address space was reset.
    ///
    /// The mappings themselves are gone with the page table; only the records
    /// need an explicit reset.
    pub fn reset_registry(&mut self)
        ensures
            final(self).wf(),
            final(self).records() == Seq::<CommittedView>::empty(),
    {
        self.committed = Vec::new();
        assert(self.records() =~= Seq::<CommittedView>::empty());
    }

    /// Plans an update of the mappings that `owner` holds.
    ///
    /// A mapping that overlaps another device's mapping is refused before any
    /// step, so that a refused update leaves the current mappings untouched.
    pub fn plan_update(
        &self,
        owner: &DeviceNodeId,
        revoke: &Vec<GpaRange>,
        commit: &Vec<DirectMapping>,
    ) -> (steps: Result<Vec<Stage2Step>, DeviceError>)
        requires
            self.wf(),
            forall|i: int| 0 <= i < commit@.len() ==> (#[trigger] commit@[i]).wf(),
        ensures
            match steps {
                Ok(steps) => conflict_fault(self.records(), owner@, commit@, 0) is None && steps@
                    == update_steps(revoke@, commit@),
                Err(error) => conflict_fault(self.records(), owner@, commit@, 0) == Some(error@),
            },
    {
        let ghost records = self.records();
        let mut index: usize = 0;
        while index < commit.len()
            invariant
                index <= commit.len(),
                self.wf(),
                records == self.records(),
                forall|i: int| 0 <= i < commit@.len() ==> (#[trigger] commit@[i]).wf(),
                conflict_fault(records, owner@, commit@, 0) == conflict_fault(
                    records,
                    owner@,
                    commit@,
                    index as int,
                ),
            decreases commit.len() - index,
        {
            let mapping = commit[index];
            assert(commit@[index as int].wf());
            let mut other: usize = 0;
            while other < self.committed.len()
                invariant
                    other <= self.committed.len(),
                    index < commit.len(),
                    mapping == commit@[index as int],
                    mapping.wf(),
                    self.wf(),
                    records == self.records(),
                    conflict_fault(records, owner@, commit@, 0) == conflict_fault(
                        records,
                        owner@,
                        commit@,
                        index as int,
                    ),
                    conflict_with(records, owner@, mapping, 0) == conflict_with(
                        records,
                        owner@,
                        mapping,
                        other as int,
                    ),
                decreases self.committed.len() - other,
            {
                let record = &self.committed[other];
                assert(records[other as int] == record@);
                assert forall|m: int| 0 <= m < record.mappings@.len() implies (
                #[trigger] record.mappings@[m]).wf() by {
                    assert(records[other as int].mappings[m].wf());
                }
                if !record.owner.same(owner) && record.touches(mapping) {
                    let mut resource = text::text_of("direct mapping ");
                    text::push_hex(&mut resource, mapping.gpa_base());
                    resource.append("..");
                    text::push_hex(&mut resource, mapping.gpa_base() + mapping.size());
                    resource.append(" owned by ");
                    resource.append(record.owner.as_str());
                    return Err(
                        DeviceError::ResourceBusy {
                            resource,
                            operation: "update direct mappings",
                        },
                    );
                }
                other = other + 1;
            }
            index = index + 1;
        }
        let mut steps: Vec<Stage2Step> = Vec::new();
        let mut index: usize = 0;
        while index < commit.len()
            invariant
                index <= commit.len(),
                steps@ == Seq::new(index as nat, |i: int| Stage2Step::Install(commit@[i])),
            decreases commit.len() - index,
        {
            steps.push(Stage2Step::Install(commit[index]));
            index = index + 1;
        }
        let ghost maps = steps@;
        let mut index: usize = 0;
        while index < revoke.len()
            invariant
                index <= revoke.len(),
                maps == Seq::new(commit@.len(), |i: int| Stage2Step::Install(commit@[i])),
                steps@ == maps + Seq::new(index as nat, |i: int| Stage2Step::Revoke(revoke@[i])),
            decreases revoke.len() - index,
        {
            steps.push(Stage2Step::Revoke(revoke[index]));
            index = index + 1;
        }
        assert(steps@ =~= update_steps(revoke@, commit@));
        Ok(steps)
    }

    /// Records the mappings of a complete update as those of `owner`.
    pub fn record_update(&mut self, owner: &DeviceNodeId, commit: Vec<DirectMapping>)
        requires
            old(self).wf(),
            forall|i: int| 0 <= i < commit@.len() ==> (#[trigger] commit@[i]).wf(),
            conflict_fault(old(self).records(), owner@, commit@, 0) is None,
        ensures
            final(self).wf(),
            exists|at: int| #[trigger]
                records_update(old(self).records(), final(self).records(), owner@, commit@, at),
    {
        let ghost before = self.records();
        let ghost mappings = commit@;
        let mut at: usize = 0;
        while at < self.committed.len() && self.committed[at].owner.precedes(owner)
            invariant
                at <= self.committed.len(),
                *self == *old(self),
                before == self.records(),
                self.wf(),
                forall|i: int|
                    0 <= i < at ==> text::text_less((#[trigger] before[i]).owner, owner@),
            decreases self.committed.len() - at,
        {
            assert(before[at as int] == self.committed@[at as int]@);
            at = at + 1;
        }
        let ghost record = CommittedView { owner: owner@, mappings };
        if at < self.committed.len() {
            assert(before[at as int] == self.committed@[at as int]@);
            if self.committed[at].owner.same(owner) {
                let replacement = CommittedMappings { owner: owner.clone(), mappings: commit };
                self.committed.set(at, replacement);
                proof {
                    let after = self.records();
                    assert(after =~= before.update(at as int, record));
                    assert(records_update(before, after, owner@, mappings, at as int));
                    lemma_record_keeps_apart(before, after, owner@, mappings, at as int);
                }
                return ;
            }
        }
        proof {
            assert forall|i: int| at <= i < before.len() implies text::text_less(
                owner@,
                (#[trigger] before[i]).owner,
            ) by {
                text::law_text_order_is_total(owner@, before[at as int].owner);
                if i > at {
                    text::law_text_order_is_transitive(
                        owner@,
                        before[at as int].owner,
                        before[i].owner,
                    );
                }
            }
            assert forall|i: int| 0 <= i < before.len() implies (#[trigger] before[i]).owner
                != owner@ by {
                text::law_text_order_is_strict(owner@, before[i].owner);
            }
        }
        let added = CommittedMappings { owner: owner.clone(), mappings: commit };
        self.committed.insert(at, added);
        proof {
            let after = self.records();
            assert(after =~= before.insert(at as int, record));
            assert(records_update(before, after, owner@, mappings, at as int));
            lemma_record_keeps_apart(before, after, owner@, mappings, at as int);
        }
    }

    /// Completes an update whose steps were performed.
    ///
    /// After a failure the previous record stays.
    pub fn finish_update(
        &mut self,
        owner: &DeviceNodeId,
        commit: Vec<DirectMapping>,
        failed: Option<FailedStep>,
    ) -> (result: Result<(), DeviceError>)
        requires
            old(self).wf(),
            forall|i: int| 0 <= i < commit@.len() ==> (#[trigger] commit@[i]).wf(),
            conflict_fault(old(self).records(), owner@, commit@, 0) is None,
        ensures
            final(self).wf(),
            match result {
                Ok(()) => failed is None && exists|at: int| #[trigger]
                    records_update(old(self).records(), final(self).records(), owner@, commit@, at),
                Err(error) => {
                    &&& failed is Some
                    &&& *final(self) == *old(self)
                    &&& error@ == (DeviceErrorView::Backend {
                        operation: match (failed->0).step {
                            Stage2Step::Install(_) => "install direct mapping"@,
                            Stage2Step::Revoke(_) => "revoke direct mapping"@,
                        },
                        detail: (failed->0).detail@,
                    })
                },
            },
    {
        match failed {
            Some(failed) => {
                let operation = match failed.step {
                    Stage2Step::Install(_) => "install direct mapping",
                    Stage2Step::Revoke(_) => "revoke direct mapping",
                };
                Err(DeviceError::Backend { operation, detail: failed.detail })
            },
            None => {
                self.record_update(owner, commit);
                Ok(())
            },
        }
    }

    /// Diagnoses one faulting address against the recorded mappings.
    pub fn diagnose(&self, gpa: u64) -> (fault: Option<DirectMappingFault>)
        requires
            self.wf(),
        ensures
            match fault {
                Some(fault) => record_at(self.records(), gpa as int, 0) matches Some((i, m)) && {
                    let record = self.records()[i];
                    &&& 0 <= i < self.records().len()
                    &&& 0 <= m < record.mappings.len()
                    &&& fault.owner@ == record.owner
                    &&& fault.label == record.mappings[m].label
                    &&& fault.writable == record.mappings[m].writable
                },
                None => record_at(self.records(), gpa as int, 0) is None,
            },
    {
        let ghost records = self.records();
        let mut index: usize = 0;
        while index < self.committed.len()
            invariant
                index <= self.committed.len(),
                self.wf(),
                records == self.records(),
                record_at(records, gpa as int, 0) == record_at(records, gpa as int, index as int),
            decreases self.committed.len() - index,
        {
            let record = &self.committed[index];
            assert(records[index as int] == record@);
            let mut m: usize = 0;
            while m < record.mappings.len()
                invariant
                    m <= record.mappings.len(),
                    index < self.committed.len(),
                    self.wf(),
                    records == self.records(),
                    records[index as int] == record@,
                    record == self.committed@[index as int],
                    record_at(records, gpa as int, 0) == record_at(
                        records,
                        gpa as int,
                        index as int,
                    ),
                    mapping_at(record.mappings@, gpa as int, 0) == mapping_at(
                        record.mappings@,
                        gpa as int,
                        m as int,
                    ),
                decreases record.mappings.len() - m,
            {
                let mapping = record.mappings[m];
                assert(records[index as int].mappings[m as int].wf());
                let start: u64 = mapping.gpa_base();
                if gpa >= start && gpa < start + mapping.size() {
                    return Some(
                        DirectMappingFault::new(
                            record.owner.clone(),
                            mapping.label(),
                            mapping.writable(),
                        ),
                    );
                }
                m = m + 1;
            }
            index = index + 1;
        }
        None
    }
}

/// Recording mappings that conflict with no other device keeps the records
/// sound and the devices apart.
proof fn lemma_record_keeps_apart(
    before: Seq<CommittedView>,
    after: Seq<CommittedView>,
    owner: Seq<char>,
    mappings: Seq<DirectMapping>,
    at: int,
)
    requires
        records_ok(before),
        owners_apart(before),
        forall|i: int| 0 <= i < mappings.len() ==> (#[trigger] mappings[i]).wf(),
        conflict_fault(before, owner, mappings, 0) is None,
        records_update(before, after, owner, mappings, at),
        after.len() == before.len() + 1 ==> {
            &&& forall|i: int| 0 <= i < at ==> text::text_less((#[trigger] before[i]).owner, owner)
            &&& forall|i: int|
                at <= i < before.len() ==> text::text_less(owner, (#[trigger] before[i]).owner)
        },
    ensures
        records_ok(after),
        owners_apart(after),
{
    let shift = after.len() - before.len();
    assert forall|i: int| 0 <= i < after.len() && i != at implies {
        let k = if i < at {
            i
        } else {
            i - shift
        };
        0 <= k < before.len() && #[trigger] after[i] == before[k] && before[k].owner != owner
    } by {
        let k = if i < at {
            i
        } else {
            i - shift
        };
        if shift == 0 {
            if before[k].owner == owner {
                if k < at {
                    text::law_text_order_is_strict(before[k].owner, before[at].owner);
                    assert(text::text_less(before[k].owner, before[at].owner));
                } else {
                    text::law_text_order_is_strict(before[at].owner, before[k].owner);
                    assert(text::text_less(before[at].owner, before[k].owner));
                }
            }
        }
    }
    assert(after[at] == CommittedView { owner, mappings });
    assert forall|i: int, m: int| 0 <= i < after.len() && 0 <= m
        < after[i].mappings.len() implies (#[trigger] after[i].mappings[m]).wf() by {
        if i != at {
            let k = if i < at {
                i
            } else {
                i - shift
            };
            assert(after[i] == before[k]);
            assert(before[k].mappings[m].wf());
        }
    }
    assert forall|i: int, j: int| 0 <= i < j < after.len() implies text::text_less(
        (#[trigger] after[i]).owner,
        (#[trigger] after[j]).owner,
    ) by {
        let k = if i < at {
            i
        } else {
            i - shift
        };
        let l = if j < at {
            j
        } else {
            j - shift
        };
        if i != at && j != at {
            assert(after[i] == before[k] && after[j] == before[l]);
        } else if i == at {
            assert(after[j] == before[l]);
            if shift == 0 {
                assert(text::text_less(before[at].owner, before[l].owner));
            }
        } else {
            assert(after[i] == before[k]);
            if shift == 0 {
                assert(text::text_less(before[k].owner, before[at].owner));
            }
        }
    }
    assert forall|i: int, m: int, j: int, n: int|
        0 <= i < after.len() && 0 <= j < after.len() && i != j && 0 <= m < after[i].mappings.len()
            && 0 <= n < after[j].mappings.len() implies !(
    #[trigger] after[i].mappings[m]).overlaps(#[trigger] after[j].mappings[n]) by {
        let k = if i < at {
            i
        } else {
            i - shift
        };
        let l = if j < at {
            j
        } else {
            j - shift
        };
        if i == at {
            assert(after[j] == before[l]);
            lemma_no_conflict(before, owner, mappings, 0, m, l);
        } else if j == at {
            assert(after[i] == before[k]);
            lemma_no_conflict(before, owner, mappings, 0, n, k);
        } else {
            assert(after[i] == before[k] && after[j] == before[l]);
            assert(!before[k].mappings[m].overlaps(before[l].mappings[n]));
        }
    }
}

/// Without a conflict no new mapping overlaps a record of another device.
proof fn lemma_no_conflict(
    committed: Seq<CommittedView>,
    owner: Seq<char>,
    commit: Seq<DirectMapping>,
    from: int,
    c: int,
    i: int,
)
    requires
        conflict_fault(committed, owner, commit, from) is None,
        0 <= from <= c < commit.len(),
        0 <= i < committed.len(),
        committed[i].owner != owner,
    ensures
        !record_overlaps(committed[i], commit[c]),
    decreases c - from,
{
    if from < c {
        lemma_no_conflict(committed, owner, commit, from + 1, c, i);
    } else {
        lemma_no_conflicting_record(committed, owner, commit[c], 0, i);
    }
}

proof fn lemma_no_conflicting_record(
    committed: Seq<CommittedView>,
    owner: Seq<char>,
    mapping: DirectMapping,
    from: int,
    i: int,
)
    requires
        conflict_with(committed, owner, mapping, from) is None,
        0 <= from <= i < committed.len(),
        committed[i].owner != owner,
    ensures
        !record_overlaps(committed[i], mapping),
    decreases i - from,
{
    if from < i {
        lemma_no_conflicting_record(committed, owner, mapping, from + 1, i);
    }
}

/// While the registry is sound an address belongs to at most one device, so
/// that a diagnosis names its only owner.
pub proof fn law_one_device_owns_an_address(
    registry: Stage2Registry,
    gpa: int,
    i: int,
    m: int,
    j: int,
    n: int,
)
    requires
        registry.wf(),
        0 <= i < registry.records().len(),
        0 <= j < registry.records().len(),
        0 <= m < registry.records()[i].mappings.len(),
        0 <= n < registry.records()[j].mappings.len(),
        registry.records()[i].mappings[m].maps(gpa),
        registry.records()[j].mappings[n].maps(gpa),
    ensures
        i == j,
{
    if i != j {
        assert(!registry.records()[i].mappings[m].overlaps(registry.records()[j].mappings[n]));
    }
}

/// In an update every mapping step comes before every revocation.
pub proof fn law_mappings_precede_revocations(
    revoke: Seq<GpaRange>,
    commit: Seq<DirectMapping>,
    i: int,
    j: int,
)
    requires
        0 <= i < update_steps(revoke, commit).len(),
        0 <= j < update_steps(revoke, commit).len(),
        update_steps(revoke, commit)[i] is Install,
        update_steps(revoke, commit)[j] is Revoke,
    ensures
        i < j,
{
}

/// A mapping has sound bounds exactly when its size is positive and both bases and
/// the size are multiples of 4096.
pub proof fn law_mappings_are_page_aligned(gpa_base: u64, hpa_base: u64, size: u64)
    ensures
        mapping_fault(gpa_base, hpa_base, size) is None <==> size > 0 && gpa_base % 4096 == 0
            && hpa_base % 4096 == 0 && size % 4096 == 0,
{
}

/// The two mappings have no guest-physical address in common.
pub open spec fn mappings_apart(left: DirectMapping, right: DirectMapping) -> bool {
    left.gpa_base + left.size <= right.gpa_base || right.gpa_base + right.size <= left.gpa_base
}

/// An update is refused exactly when one of its mappings has an address in common
/// with a mapping of another device; mappings of the same device never conflict.
pub proof fn law_updates_are_refused_for_foreign_addresses(
    committed: Seq<CommittedView>,
    owner: Seq<char>,
    commit: Seq<DirectMapping>,
)
    requires
        forall|c: int| 0 <= c < commit.len() ==> (#[trigger] commit[c]).size > 0,
        forall|i: int, m: int|
            0 <= i < committed.len() && 0 <= m < committed[i].mappings.len() ==> (
            #[trigger] committed[i].mappings[m]).size > 0,
    ensures
        conflict_fault(committed, owner, commit, 0) is None <==> forall|c: int, i: int, m: int|
            0 <= c < commit.len() && 0 <= i < committed.len() && committed[i].owner != owner && 0
                <= m < committed[i].mappings.len() ==> mappings_apart(
                #[trigger] commit[c],
                #[trigger] committed[i].mappings[m],
            ),
{
    let apart = forall|c: int, i: int, m: int|
        0 <= c < commit.len() && 0 <= i < committed.len() && committed[i].owner != owner && 0 <= m
            < committed[i].mappings.len() ==> mappings_apart(
            #[trigger] commit[c],
            #[trigger] committed[i].mappings[m],
        );
    if conflict_fault(committed, owner, commit, 0) is None {
        assert forall|c: int, i: int, m: int|
            0 <= c < commit.len() && 0 <= i < committed.len() && committed[i].owner != owner && 0
                <= m < committed[i].mappings.len() implies mappings_apart(
            #[trigger] commit[c],
            #[trigger] committed[i].mappings[m],
        ) by {
            lemma_no_fault_at(committed, owner, commit, 0, c);
            lemma_no_conflicting_record(committed, owner, commit[c], 0, i);
            assert(!commit[c].overlaps(committed[i].mappings[m]));
        }
    } else if apart {
        let (c, i) = lemma_fault_found(committed, owner, commit, 0);
        let m = choose|m: int|
            0 <= m < committed[i].mappings.len() && commit[c].overlaps(
                #[trigger] committed[i].mappings[m],
            );
        assert(mappings_apart(commit[c], committed[i].mappings[m]));
        assert(false);
    }
}

proof fn lemma_no_fault_at(
    committed: Seq<CommittedView>,
    owner: Seq<char>,
    commit: Seq<DirectMapping>,
    from: int,
    c: int,
)
    requires
        conflict_fault(committed, owner, commit, from) is None,
        0 <= from <= c < commit.len(),
    ensures
        conflict_with(committed, owner, commit[c], 0) is None,
    decreases c - from,
{
    if from < c {
        lemma_no_fault_at(committed, owner, commit, from + 1, c);
    }
}

proof fn lemma_fault_found(
    committed: Seq<CommittedView>,
    owner: Seq<char>,
    commit: Seq<DirectMapping>,
    from: int,
) -> (found: (int, int))
    requires
        conflict_fault(committed, owner, commit, from) is Some,
        0 <= from,
    ensures
        from <= found.0 < commit.len(),
        0 <= found.1 < committed.len(),
        committed[found.1].owner != owner,
        record_overlaps(committed[found.1], commit[found.0]),
    decreases commit.len() - from,
{
    if conflict_with(committed, owner, commit[from], 0) is Some {
        (from, lemma_record_found(committed, owner, commit[from], 0))
    } else {
        lemma_fault_found(committed, owner, commit, from + 1)
    }
}

proof fn lemma_record_found(
    committed: Seq<CommittedView>,
    owner: Seq<char>,
    mapping: DirectMapping,
    from: int,
) -> (i: int)
    requires
        conflict_with(committed, owner, mapping, from) is Some,
        0 <= from,
    ensures
        from <= i < committed.len(),
        conflict_with(committed, owner, mapping, from) == Some(i),
        committed[i].owner != owner,
        record_overlaps(committed[i], mapping),
    decreases committed.len() - from,
{
    if committed[from].owner != owner && record_overlaps(committed[from], mapping) {
        from
    } else {
        lemma_record_found(committed, owner, mapping, from + 1)
    }
}

/// An update consists of one installation for every new mapping and one revocation
/// for every range, each in its order and nothing else.
pub proof fn law_updates_perform_every_step_once(
    revoke: Seq<GpaRange>,
    commit: Seq<DirectMapping>,
    i: int,
)
    requires
        0 <= i < commit.len() + revoke.len(),
    ensures
        update_steps(revoke, commit).len() == commit.len() + revoke.len(),
        i < commit.len() ==> update_steps(revoke, commit)[i] == Stage2Step::Install(commit[i]),
        i >= commit.len() ==> update_steps(revoke, commit)[i] == Stage2Step::Revoke(
            revoke[i - commit.len()],
        ),
{
}

/// A recorded update leaves the owner with exactly the new mappings and every other
/// owner with what it had.
pub proof fn law_records_change_for_their_owner_only(
    before: Seq<CommittedView>,
    after: Seq<CommittedView>,
    owner: Seq<char>,
    mappings: Seq<DirectMapping>,
    at: int,
    record: CommittedView,
)
    requires
        records_ok(before),
        records_update(before, after, owner, mappings, at),
    ensures
        after.contains(CommittedView { owner, mappings }),
        record.owner != owner ==> (after.contains(record) <==> before.contains(record)),
        record.owner == owner && after.contains(record) ==> record.mappings == mappings,
{
    let new = CommittedView { owner, mappings };
    assert(after[at] == new);
    if 0 <= at < before.len() && before[at].owner == owner && after == before.update(at, new) {
        assert forall|i: int| 0 <= i < before.len() && i != at implies (
        #[trigger] before[i]).owner != owner by {
            if i < at {
                assert(text::text_less(before[i].owner, before[at].owner));
            } else {
                assert(text::text_less(before[at].owner, before[i].owner));
            }
            text::law_text_order_is_strict(owner, owner);
        }
        if after.contains(record) {
            let i = choose|i: int| 0 <= i < after.len() && after[i] == record;
            if i != at {
                assert(before[i] == record);
            }
        }
        if record.owner != owner && before.contains(record) {
            let i = choose|i: int| 0 <= i < before.len() && before[i] == record;
            assert(after[i] == record);
        }
    } else {
        if after.contains(record) {
            let i = choose|i: int| 0 <= i < after.len() && after[i] == record;
            if i < at {
                assert(before[i] == record);
            } else if i > at {
                assert(before[i - 1] == record);
            }
        }
        if record.owner != owner && before.contains(record) {
            let i = choose|i: int| 0 <= i < before.len() && before[i] == record;
            if i < at {
                assert(after[i] == record);
            } else {
                assert(after[i + 1] == record);
            }
        }
    }
}

/// An address is found in the records exactly when some mapping holds it, and then
/// the mapping found holds it.
pub proof fn law_diagnoses_find_the_holding_mapping(committed: Seq<CommittedView>, gpa: int)
    ensures
        match record_at(committed, gpa, 0) {
            Some((i, m)) => 0 <= i < committed.len() && 0 <= m < committed[i].mappings.len()
                && committed[i].mappings[m].gpa_base <= gpa < committed[i].mappings[m].gpa_base
                + committed[i].mappings[m].size,
            None => forall|i: int, m: int|
                0 <= i < committed.len() && 0 <= m < committed[i].mappings.len() ==> !((
                #[trigger] committed[i].mappings[m]).gpa_base <= gpa
                    < committed[i].mappings[m].gpa_base + committed[i].mappings[m].size),
        },
{
    lemma_record_at(committed, gpa, 0);
}

proof fn lemma_mapping_at(mappings: Seq<DirectMapping>, gpa: int, from: int)
    requires
        0 <= from,
    ensures
        match mapping_at(mappings, gpa, from) {
            Some(m) => from <= m < mappings.len() && mappings[m].maps(gpa),
            None => forall|m: int| from <= m < mappings.len() ==> !(#[trigger] mappings[m]).maps(
                gpa,
            ),
        },
    decreases mappings.len() - from,
{
    if from < mappings.len() && !mappings[from].maps(gpa) {
        lemma_mapping_at(mappings, gpa, from + 1);
    }
}

proof fn lemma_record_at(committed: Seq<CommittedView>, gpa: int, from: int)
    requires
        0 <= from,
    ensures
        match record_at(committed, gpa, from) {
            Some((i, m)) => from <= i < committed.len() && 0 <= m < committed[i].mappings.len()
                && committed[i].mappings[m].maps(gpa),
            None => forall|i: int, m: int|
                from <= i < committed.len() && 0 <= m < committed[i].mappings.len() ==> !(
                #[trigger] committed[i].mappings[m]).maps(gpa),
        },
    decreases committed.len() - from,
{
    if from < committed.len() {
        lemma_mapping_at(committed[from].mappings, gpa, 0);
        if mapping_at(committed[from].mappings, gpa, 0) is None {
            lemma_record_at(committed, gpa, from + 1);
            if record_at(committed, gpa, from + 1) is None {
                assert forall|i: int, m: int|
                    from <= i < committed.len() && 0 <= m < committed[i].mappings.len() implies !(
                #[trigger] committed[i].mappings[m]).maps(gpa) by {
                    if i == from {
                        assert(!committed[from].mappings[m].maps(gpa));
                    }
                }
            }
        }
    }
}

} // verus!
