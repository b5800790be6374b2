//! Architecture-neutral PCI root state shared by config frontends.
//!
//! [`PciRootState`] owns function config images, BAR decode state, runtime
//! bindings, and the reset transition. Config frontends decode their own bus
//! cycles and delegate already-validated typed accesses here. Handlers of
//! functions are named by number; whoever dispatches to them looks the number
//! up and calls the handler after the root state is released.

use crate::bits;
use crate::device::{BusKind, DeviceAccess, DeviceError, DeviceErrorView, DeviceNodeId, DeviceResult, FOUR_GIB};
use crate::le;
use crate::pci::address;
use crate::pci::address::{PciBarIndex, PciBdf, CONFIG_SPACE_SIZE};
use crate::pci::bar::{BarState, PciBarDecodePolicy, PciMemoryBarWidth};
use crate::pci::config;
use crate::pci::config::PciCommandState;
use crate::pci::error::{PciError, PciErrorView, PciResult};
use crate::pci::function::PciBarAccess;
use crate::pci::state;
use crate::pci::state::{BarWriteAction, FunctionBinding, FunctionState, FunctionView};
use crate::pci::topology::ResolvedPciTopology;
use std::ops::Range;
use vstd::prelude::*;

verus! {

/// Mutable config, BAR and binding state of all functions behind one root.
#[derive(Debug)]
pub struct PciRootState {
    pub memory_aperture: Range<u64>,
    pub functions: Vec<FunctionState>,
    pub next_binding_generation: u64,
}

/// One resolved BAR dispatch target.
#[derive(Clone, Copy, Debug, PartialEq, Eq, Structural)]
pub struct BarRoute {
    pub handler: usize,
    pub access: PciBarAccess,
}

/// A relocation that the fixed policy of a BAR ignored.
#[derive(Clone, Copy, Debug, PartialEq, Eq, Structural)]
pub struct IgnoredRelocation {
    pub bar: PciBarIndex,
    pub candidate: u64,
    pub planned: u64,
}

/// What a config write leaves to be announced after the root is released: a
/// standard-state change, or a relocation that was ignored.
#[derive(Clone, Copy, Debug, PartialEq, Eq, Structural)]
pub struct PciConfigWriteEffect {
    pub command: Option<PciCommandState>,
    pub ignored_relocation: Option<IgnoredRelocation>,
}

/// The contents of a list of function states.
pub open spec fn state_views(functions: Seq<FunctionState>) -> Seq<FunctionView> {
    Seq::new(functions.len(), |k: int| functions[k]@)
}

/// A sound root: sound functions in strict BDF order, every BAR in the
/// aperture, and no two BARs overlapping.
pub open spec fn root_ok(functions: Seq<FunctionView>, memory_aperture: Range<u64>) -> bool {
    &&& forall|k: int|
        0 <= k < functions.len() ==> (#[trigger] functions[k]).wf() && functions[k].bdf.wf()
    &&& forall|k: int, l: int|
        0 <= k < l < functions.len() ==> (#[trigger] functions[k]).bdf.rank() < (
        #[trigger] functions[l]).bdf.rank()
    &&& forall|k: int, b: int|
        0 <= k < functions.len() && 0 <= b < functions[k].bars.len() ==> in_aperture(
            #[trigger] functions[k].bars[b],
            memory_aperture,
        )
    &&& forall|k: int, b: int, l: int, c: int|
        0 <= k < functions.len() && 0 <= l < functions.len() && 0 <= b < functions[k].bars.len()
            && 0 <= c < functions[l].bars.len() && (k != l || b != c) ==> !(
        #[trigger] functions[k].bars[b]).overlaps(#[trigger] functions[l].bars[c])
}

/// The BAR decodes in the aperture, now and after a reset.
pub open spec fn in_aperture(bar: BarState, memory_aperture: Range<u64>) -> bool {
    memory_aperture.start <= bar.address && bar.end() <= memory_aperture.end
}

/// The function at this address, if there is one.
pub open spec fn function_at(functions: Seq<FunctionView>, bdf: PciBdf) -> Option<int> {
    if exists|k: int| 0 <= k < functions.len() && (#[trigger] functions[k]).bdf == bdf {
        Some(choose|k: int| 0 <= k < functions.len() && (#[trigger] functions[k]).bdf == bdf)
    } else {
        None
    }
}

/// What is wrong with a direct config access, if anything.
pub open spec fn direct_fault(offset: usize, size: usize) -> Option<PciErrorView> {
    if size != 1 && size != 2 && size != 4 {
        Some(
            PciErrorView::InvalidDirectConfigAccess {
                offset,
                size,
                detail: "access size is not a supported config width"@,
            },
        )
    } else if offset + size > CONFIG_SPACE_SIZE {
        Some(
            PciErrorView::InvalidDirectConfigAccess {
                offset,
                size,
                detail: "access crosses the function config-space boundary"@,
            },
        )
    } else {
        None
    }
}

/// What is wrong with a direct access to one address, if anything.
pub open spec fn access_fault(
    functions: Seq<FunctionView>,
    bdf: PciBdf,
    offset: usize,
    size: usize,
) -> Option<PciErrorView> {
    match direct_fault(offset, size) {
        Some(fault) => Some(fault),
        None => if function_at(functions, bdf) matches Some(k) && functions[k].straddles(
            offset as int,
            size as int,
        ) {
            Some(
                PciErrorView::InvalidDirectConfigAccess {
                    offset,
                    size,
                    detail: "access crosses a BAR register boundary"@,
                },
            )
        } else {
            None
        },
    }
}

/// BAR `b` of function `k` may move to `address`: the place suits its size and
/// width, lies in the aperture and overlaps no other BAR.
pub open spec fn available(
    functions: Seq<FunctionView>,
    memory_aperture: Range<u64>,
    k: int,
    b: int,
    address: u64,
) -> bool {
    let bar = functions[k].bars[b];
    &&& address + bar.plan.size <= u64::MAX
    &&& bits::multiple_of(address as int, bar.plan.size as int)
    &&& memory_aperture.start <= address
    &&& address + bar.plan.size <= memory_aperture.end
    &&& bar.plan.width == PciMemoryBarWidth::Bits32 ==> address + bar.plan.size <= FOUR_GIB
    &&& forall|l: int, c: int|
        0 <= l < functions.len() && 0 <= c < functions[l].bars.len() && (l != k || c != b)
            ==> !overlaps_range(
            #[trigger] functions[l].bars[c],
            address as int,
            address + bar.plan.size,
        )
}

/// The BAR decodes some address in `[start, end)`.
pub open spec fn overlaps_range(bar: BarState, start: int, end: int) -> bool {
    start < bar.end() && bar.address < end
}

/// Whether a relocation is granted: a fixed BAR only ever stays where it was
/// planned, any other goes wherever it may.
pub open spec fn grants(
    functions: Seq<FunctionView>,
    memory_aperture: Range<u64>,
    k: int,
    b: int,
    address: u64,
) -> bool {
    match functions[k].bars[b].plan.policy {
        PciBarDecodePolicy::Fixed => address == functions[k].bars[b].plan.address,
        PciBarDecodePolicy::RelocatableWithinHostAperture => available(
            functions,
            memory_aperture,
            k,
            b,
            address,
        ),
    }
}

/// Function `k` after a config write.
pub open spec fn written(
    functions: Seq<FunctionView>,
    memory_aperture: Range<u64>,
    k: int,
    offset: int,
    size: int,
    value: nat,
) -> FunctionView {
    let function = functions[k];
    match function.bar_write(offset, size, value) {
        None => function.after_plain_write(offset, size, value),
        Some(BarWriteAction::Probe { bar, high }) => FunctionView {
            bars: function.bars.update(bar as int, state::probed(function.bars[bar as int], high)),
            ..function
        },
        Some(BarWriteAction::Relocate { bar, high, candidate }) => FunctionView {
            bars: function.bars.update(
                bar as int,
                function.bars[bar as int].relocated(
                    high,
                    if grants(functions, memory_aperture, k, bar as int, candidate) {
                        Some(candidate)
                    } else {
                        None
                    },
                ),
            ),
            ..function
        },
    }
}

/// The value of a config read; an absent function reads as all ones.
pub open spec fn config_value(
    functions: Seq<FunctionView>,
    bdf: PciBdf,
    offset: int,
    size: int,
) -> nat {
    match function_at(functions, bdf) {
        Some(k) => functions[k].read_value(offset, size),
        None => (le::byte_span(size as nat) - 1) as nat,
    }
}

/// The functions after a config write; an absent function ignores it.
pub open spec fn config_written(
    functions: Seq<FunctionView>,
    memory_aperture: Range<u64>,
    bdf: PciBdf,
    offset: int,
    size: int,
    value: nat,
) -> Seq<FunctionView> {
    match function_at(functions, bdf) {
        Some(k) => functions.update(
            k,
            written(functions, memory_aperture, k, offset, size, value),
        ),
        None => functions,
    }
}

/// What a config write announces, if anything.
pub open spec fn config_effect(
    functions: Seq<FunctionView>,
    memory_aperture: Range<u64>,
    bdf: PciBdf,
    offset: int,
    size: int,
    value: nat,
) -> Option<PciConfigWriteEffect> {
    match function_at(functions, bdf) {
        Some(k) => {
            let command = command_change(
                functions[k],
                written(functions, memory_aperture, k, offset, size, value),
            );
            let ignored_relocation = ignored_relocation(functions[k], offset, size, value);
            if command is Some || ignored_relocation is Some {
                Some(PciConfigWriteEffect { command, ignored_relocation })
            } else {
                None
            }
        },
        None => None,
    }
}

/// The command transition between two states of one function.
pub open spec fn command_change(before: FunctionView, after: FunctionView) -> Option<
    PciCommandState,
> {
    if config::command_of(before.config) != config::command_of(after.config) {
        Some(config::command_of(after.config))
    } else {
        None
    }
}

/// The relocation that a fixed BAR ignores when this is written, if any;
/// rewriting the planned base is no relocation.
pub open spec fn ignored_relocation(
    function: FunctionView,
    offset: int,
    size: int,
    value: nat,
) -> Option<IgnoredRelocation> {
    match function.bar_write(offset, size, value) {
        Some(BarWriteAction::Relocate { bar, candidate, .. }) => {
            let plan = function.bars[bar as int].plan;
            if plan.policy == PciBarDecodePolicy::Fixed && candidate != plan.address {
                Some(IgnoredRelocation { bar: plan.index, candidate, planned: plan.address })
            } else {
                None
            }
        },
        _ => None,
    }
}

/// BAR `b` of function `k` answers the access: the function decodes memory and
/// has a handler, and the BAR covers the access.
pub open spec fn answers(
    functions: Seq<FunctionView>,
    k: int,
    b: int,
    access: DeviceAccess,
) -> bool {
    let bar = functions[k].bars[b];
    &&& 0 <= k < functions.len()
    &&& 0 <= b < functions[k].bars.len()
    &&& functions[k].decodes()
    &&& functions[k].binding is Some
    &&& bar.address <= access.address
    &&& access.address + access.width.bytes() <= bar.end()
}

/// The first function from `k` on with the given identity.
pub open spec fn index_of_id(functions: Seq<FunctionView>, id: Seq<char>, k: int) -> Option<int>
    decreases functions.len() - k,
{
    if k < 0 || k >= functions.len() {
        None
    } else if functions[k].id == id {
        Some(k)
    } else {
        index_of_id(functions, id, k + 1)
    }
}

/// The handlers of the first `count` functions with the command state that a
/// reset restores.
pub open spec fn reset_targets(functions: Seq<FunctionView>, count: int) -> Seq<
    (usize, PciCommandState),
>
    decreases count,
{
    if count <= 0 {
        Seq::empty()
    } else {
        let earlier = reset_targets(functions, count - 1);
        let function = functions[count - 1];
        match function.binding {
            Some(binding) => earlier.push(
                (binding.handler, config::command_of(function.power_on.bytes)),
            ),
            None => earlier,
        }
    }
}

impl PciRootState {
    /// The functions behind the root in BDF order.
    pub open spec fn states(self) -> Seq<FunctionView> {
        state_views(self.functions@)
    }

    /// The root is sound.
    pub open spec fn wf(self) -> bool {
        &&& root_ok(self.states(), self.memory_aperture)
        &&& forall|k: int, b: int|
            0 <= k < self.states().len() && 0 <= b < self.states()[k].bars.len()
                ==> planned_in_aperture(#[trigger] self.states()[k].bars[b], self.memory_aperture)
        &&& forall|k: int, b: int, l: int, c: int|
            0 <= k < self.states().len() && 0 <= l < self.states().len() && 0 <= b
                < self.states()[k].bars.len() && 0 <= c < self.states()[l].bars.len() && (k != l
                || b != c) ==> crate::pci::topology::plans_apart(
                (#[trigger] self.states()[k].bars[b]).plan,
                (#[trigger] self.states()[l].bars[c]).plan,
            )
    }

    /// Creates mutable config/BAR state from one frozen topology.
    pub fn new(topology: &ResolvedPciTopology) -> (root: Self)
        requires
            topology.wf(),
        ensures
            root.wf(),
            root.memory_aperture == topology.memory_aperture,
            root.next_binding_generation == 1,
            root.states().len() == topology.plans().len(),
            forall|k: int|
                0 <= k < root.states().len() ==> #[trigger] root.states()[k] == (FunctionView {
                    id: topology.plans()[k].id,
                    bdf: topology.plans()[k].bdf,
                    power_on: topology.plans()[k].power_on,
                    config: topology.plans()[k].power_on.bytes,
                    bars: state::fresh_bars(topology.plans()[k].bars),
                    msix: topology.plans()[k].msix,
                    binding: None,
                }),
    {
        let ghost plans = topology.plans();
        let mut functions: Vec<FunctionState> = Vec::new();
        let mut index: usize = 0;
        while index < topology.functions.len()
            invariant
                index <= topology.functions.len(),
                plans == topology.plans(),
                topology.wf(),
                functions@.len() == index,
                forall|k: int|
                    0 <= k < index ==> (#[trigger] state_views(functions@)[k]).wf() && state_views(
                        functions@,
                    )[k] == (FunctionView {
                        id: plans[k].id,
                        bdf: plans[k].bdf,
                        power_on: plans[k].power_on,
                        config: plans[k].power_on.bytes,
                        bars: state::fresh_bars(plans[k].bars),
                        msix: plans[k].msix,
                        binding: None,
                    }),
            decreases topology.functions.len() - index,
        {
            let plan = &topology.functions[index];
            assert(plans[index as int] == plan@);
            let power_on = config::PowerOnConfig {
                bytes: plan.power_on.bytes.clone(),
                write_mask: plan.power_on.write_mask.clone(),
            };
            assert(power_on@.bytes =~= plan@.power_on.bytes);
            assert(power_on@.write_mask =~= plan@.power_on.write_mask);
            let function = FunctionState::new(
                plan.id.clone(),
                plan.bdf,
                power_on,
                &plan.bars,
                plan.msix,
            );
            let ghost before = state_views(functions@);
            let ghost added = function@;
            functions.push(function);
            assert(state_views(functions@) =~= before.push(added));
            index = index + 1;
        }
        let root = PciRootState {
            memory_aperture: topology.memory_aperture.start..topology.memory_aperture.end,
            functions,
            next_binding_generation: 1,
        };
        proof {
            let states = root.states();
            assert forall|k: int, b: int|
                0 <= k < states.len() && 0 <= b < states[k].bars.len() implies in_aperture(
                #[trigger] states[k].bars[b],
                root.memory_aperture,
            ) && planned_in_aperture(states[k].bars[b], root.memory_aperture) by {
                assert(states[k].bars[b].plan == plans[k].bars[b]);
            }
            assert forall|k: int, b: int, l: int, c: int|
                0 <= k < states.len() && 0 <= l < states.len() && 0 <= b < states[k].bars.len() && 0
                    <= c < states[l].bars.len() && (k != l || b != c) implies !(
            #[trigger] states[k].bars[b]).overlaps(#[trigger] states[l].bars[c])
                && crate::pci::topology::plans_apart(
                states[k].bars[b].plan,
                states[l].bars[c].plan,
            ) by {
                assert(states[k].bars[b].plan == plans[k].bars[b]);
                assert(states[l].bars[c].plan == plans[l].bars[c]);
                assert(crate::pci::topology::plans_apart(plans[k].bars[b], plans[l].bars[c]));
            }
        }
        root
    }

    /// Finds the function at one address by binary search.
    fn function_index(&self, bdf: PciBdf) -> (found: Option<usize>)
        requires
            self.wf(),
        ensures
            match found {
                Some(k) => k < self.functions@.len() && self.states()[k as int].bdf == bdf
                    && function_at(self.states(), bdf) == Some(k as int),
                None => function_at(self.states(), bdf) is None,
            },
    {
        let ghost states = self.states();
        let mut low: usize = 0;
        let mut high: usize = self.functions.len();
        while low < high
            invariant
                low <= high <= self.functions.len(),
                self.wf(),
                states == self.states(),
                forall|k: int| 0 <= k < low ==> (#[trigger] states[k]).bdf.rank() < bdf.rank(),
                forall|k: int|
                    high <= k < states.len() ==> (#[trigger] states[k]).bdf.rank() > bdf.rank(),
            decreases high - low,
        {
            let middle: usize = low + (high - low) / 2;
            let candidate = self.functions[middle].bdf;
            assert(states[middle as int] == self.functions@[middle as int]@);
            if candidate.precedes(bdf) {
                low = middle + 1;
            } else if bdf.precedes(candidate) {
                high = middle;
            } else {
                proof {
                    address::lemma_rank_is_injective(candidate, bdf);
                    assert(states[middle as int].bdf == bdf);
                    let chosen = function_at(states, bdf)->0;
                    assert(states[chosen].bdf == bdf);
                    if chosen < middle {
                        assert(states[chosen].bdf.rank() < states[middle as int].bdf.rank());
                    } else if chosen > middle {
                        assert(states[middle as int].bdf.rank() < states[chosen].bdf.rank());
                    }
                }
                return Some(middle);
            }
        }
        None
    }

    fn validate_direct_access(offset: usize, size: usize) -> (result: PciResult)
        ensures
            match result {
                Ok(()) => direct_fault(offset, size) is None,
                Err(error) => direct_fault(offset, size) == Some(error@),
            },
    {
        if size != 1 && size != 2 && size != 4 {
            return Err(
                PciError::InvalidDirectConfigAccess {
                    offset,
                    size,
                    detail: "access size is not a supported config width",
                },
            );
        }
        let valid_end = match offset.checked_add(size) {
            Some(end) => end <= CONFIG_SPACE_SIZE,
            None => false,
        };
        if !valid_end {
            return Err(
                PciError::InvalidDirectConfigAccess {
                    offset,
                    size,
                    detail: "access crosses the function config-space boundary",
                },
            );
        }
        Ok(())
    }

    fn bar_register_error(offset: usize, size: usize) -> (error: PciError)
        ensures
            error@ == (PciErrorView::InvalidDirectConfigAccess {
                offset,
                size,
                detail: "access crosses a BAR register boundary"@,
            }),
    {
        PciError::InvalidDirectConfigAccess {
            offset,
            size,
            detail: "access crosses a BAR register boundary",
        }
    }

    /// Reads one config access; an absent function reads as all ones.
    ///
    /// # Errors
    ///
    /// Returns [`PciError::InvalidDirectConfigAccess`] when the access is not a
    /// supported config width, crosses the function boundary, or leaves the BAR
    /// register it starts in.
    pub fn read_config(&self, bdf: PciBdf, offset: usize, size: usize) -> (value: PciResult<u64>)
        requires
            self.wf(),
        ensures
            match value {
                Ok(value) => {
                    &&& access_fault(self.states(), bdf, offset, size) is None
                    &&& value == config_value(self.states(), bdf, offset as int, size as int)
                },
                Err(error) => access_fault(self.states(), bdf, offset, size) == Some(error@),
            },
    {
        match Self::validate_direct_access(offset, size) {
            Ok(()) => {},
            Err(error) => {
                return Err(error);
            },
        }
        match self.function_index(bdf) {
            Some(index) => {
                assert(self.states()[index as int] == self.functions@[index as int]@);
                if self.functions[index].crosses_bar_register(offset, size) {
                    return Err(Self::bar_register_error(offset, size));
                }
                Ok(self.functions[index].read(offset, size))
            },
            None => Ok(all_ones(size)),
        }
    }

    /// Applies one config write and reports what is to be announced, if anything;
    /// an absent function ignores the write.
    ///
    /// # Errors
    ///
    /// Returns [`PciError::InvalidDirectConfigAccess`] under the same conditions
    /// as [`read_config`](Self::read_config).
    pub fn write_config_locked(
        &mut self,
        bdf: PciBdf,
        offset: usize,
        size: usize,
        value: u64,
    ) -> (effect: PciResult<Option<PciConfigWriteEffect>>)
        requires
            old(self).wf(),
        ensures
            final(self).wf(),
            final(self).memory_aperture == old(self).memory_aperture,
            final(self).next_binding_generation == old(self).next_binding_generation,
            match effect {
                Ok(effect) => {
                    &&& access_fault(old(self).states(), bdf, offset, size) is None
                    &&& final(self).states() == config_written(
                        old(self).states(),
                        old(self).memory_aperture,
                        bdf,
                        offset as int,
                        size as int,
                        value as nat,
                    )
                    &&& effect == config_effect(
                        old(self).states(),
                        old(self).memory_aperture,
                        bdf,
                        offset as int,
                        size as int,
                        value as nat,
                    )
                },
                Err(error) => access_fault(old(self).states(), bdf, offset, size) == Some(error@)
                    && *final(self) == *old(self),
            },
    {
        match Self::validate_direct_access(offset, size) {
            Ok(()) => {},
            Err(error) => {
                return Err(error);
            },
        }
        let index: usize = match self.function_index(bdf) {
            Some(index) => index,
            None => {
                return Ok(None);
            },
        };
        let ghost states = self.states();
        let ghost function = states[index as int];
        assert(function == self.functions@[index as int]@);
        if self.functions[index].crosses_bar_register(offset, size) {
            return Err(Self::bar_register_error(offset, size));
        }
        let command_before = self.functions[index].command_state();
        match self.functions[index].prepare_bar_write(offset, size, value) {
            None => {
                self.functions[index].write_non_bar(offset, size, value);
                let command_after = self.functions[index].command_state();
                proof {
                    let after = function.after_plain_write(
                        offset as int,
                        size as int,
                        value as nat,
                    );
                    assert(self.states() =~= states.update(index as int, after));
                    lemma_same_bars(states, self.memory_aperture, index as int, after);
                    lemma_same_plans(*old(self), *self, index as int, after);
                }
                if command_after != command_before {
                    Ok(
                        Some(
                            PciConfigWriteEffect {
                                command: Some(command_after),
                                ignored_relocation: None,
                            },
                        ),
                    )
                } else {
                    Ok(None)
                }
            },
            Some(BarWriteAction::Probe { bar, high }) => {
                self.functions[index].apply_probe(bar, high);
                proof {
                    let after = FunctionView {
                        bars: function.bars.update(
                            bar as int,
                            state::probed(function.bars[bar as int], high),
                        ),
                        ..function
                    };
                    assert(self.states() =~= states.update(index as int, after));
                    assert(state::plans_of(after.bars) =~= state::plans_of(function.bars));
                    lemma_moved_bar(
                        states,
                        self.memory_aperture,
                        index as int,
                        bar as int,
                        after.bars[bar as int],
                        after,
                    );
                    lemma_same_plans(*old(self), *self, index as int, after);
                }
                Ok(None)
            },
            Some(BarWriteAction::Relocate { bar, high, candidate }) => {
                let target = self.functions[index].bars[bar];
                assert(target == function.bars[bar as int]);
                let accepted = match target.decode_policy() {
                    PciBarDecodePolicy::Fixed => candidate == target.planned_address(),
                    PciBarDecodePolicy::RelocatableWithinHostAperture => {
                        self.bar_address_available(index, bar, candidate)
                    },
                };
                let ignored = !accepted && target.decode_policy() == PciBarDecodePolicy::Fixed;
                let moved: Option<u64> = if accepted {
                    Some(candidate)
                } else {
                    None
                };
                assert(target.wf());
                assert(target.relocated(high, moved).wf());
                self.functions[index].finish_relocation(bar, high, moved);
                proof {
                    let after = FunctionView {
                        bars: function.bars.update(bar as int, target.relocated(high, moved)),
                        ..function
                    };
                    assert(self.states() =~= states.update(index as int, after));
                    assert(state::plans_of(after.bars) =~= state::plans_of(function.bars));
                    lemma_moved_bar(
                        states,
                        self.memory_aperture,
                        index as int,
                        bar as int,
                        after.bars[bar as int],
                        after,
                    );
                    lemma_same_plans(*old(self), *self, index as int, after);
                }
                if ignored {
                    Ok(
                        Some(
                            PciConfigWriteEffect {
                                command: None,
                                ignored_relocation: Some(
                                    IgnoredRelocation {
                                        bar: target.index(),
                                        candidate,
                                        planned: target.planned_address(),
                                    },
                                ),
                            },
                        ),
                    )
                } else {
                    Ok(None)
                }
            },
        }
    }

    /// Tells whether BAR `owner_bar` of function `owner` may move to
    /// `address`.
    fn bar_address_available(&self, owner: usize, owner_bar: usize, address: u64) -> (result: bool)
        requires
            self.wf(),
            owner < self.functions@.len(),
            owner_bar < self.states()[owner as int].bars.len(),
        ensures
            result == available(
                self.states(),
                self.memory_aperture,
                owner as int,
                owner_bar as int,
                address,
            ),
    {
        let ghost states = self.states();
        assert(states[owner as int] == self.functions@[owner as int]@);
        let bar = self.functions[owner].bars[owner_bar];
        assert(states[owner as int].bars[owner_bar as int].wf());
        let end: u64 = match address.checked_add(bar.size()) {
            Some(end) => end,
            None => {
                return false;
            },
        };
        proof {
            bits::lemma_masks(address, bar.plan.size);
        }
        if address & (bar.size() - 1) != 0 || address < self.memory_aperture.start || end
            > self.memory_aperture.end || (bar.width() == PciMemoryBarWidth::Bits32 && end
            > FOUR_GIB) {
            return false;
        }
        let mut function: usize = 0;
        while function < self.functions.len()
            invariant
                function <= self.functions.len(),
                self.wf(),
                states == self.states(),
                forall|l: int, c: int|
                    0 <= l < function && 0 <= c < states[l].bars.len() && (l != owner || c
                        != owner_bar) ==> !overlaps_range(
                        #[trigger] states[l].bars[c],
                        address as int,
                        end as int,
                    ),
                owner < states.len(),
                owner_bar < states[owner as int].bars.len(),
                end == address + states[owner as int].bars[owner_bar as int].plan.size,
            decreases self.functions.len() - function,
        {
            assert(states[function as int] == self.functions@[function as int]@);
            let mut index: usize = 0;
            while index < self.functions[function].bars.len()
                invariant
                    function < self.functions.len(),
                    index <= self.functions[function as int].bars.len(),
                    self.wf(),
                    states == self.states(),
                    states[function as int] == self.functions@[function as int]@,
                    forall|c: int|
                        0 <= c < index && (function != owner || c != owner_bar) ==> !overlaps_range(
                            #[trigger] states[function as int].bars[c],
                            address as int,
                            end as int,
                        ),
                    owner < states.len(),
                    owner_bar < states[owner as int].bars.len(),
                    end == address + states[owner as int].bars[owner_bar as int].plan.size,
                decreases self.functions[function as int].bars.len() - index,
            {
                let existing = self.functions[function].bars[index];
                assert(states[function as int].bars[index as int].wf());
                if function != owner || index != owner_bar {
                    if let Some(range) = existing.range() {
                        if address < range.end && range.start < end {
                            assert(overlaps_range(
                                states[function as int].bars[index as int],
                                address as int,
                                end as int,
                            ));
                            return false;
                        }
                    }
                }
                index = index + 1;
            }
            function = function + 1;
        }
        true
    }

    /// Finds the handler and the function-relative access behind one memory
    /// access.
    pub fn resolve_bar(&self, access: &DeviceAccess) -> (route: Option<BarRoute>)
        requires
            self.wf(),
        ensures
            match route {
                Some(route) => exists|k: int, b: int| #[trigger]
                    answers(self.states(), k, b, *access) && route == route_to(
                        self.states(),
                        k,
                        b,
                        *access,
                    ),
                None => forall|k: int, b: int| !#[trigger] answers(self.states(), k, b, *access),
            },
            match route {
                Some(route) => exists|k: int, b: int|
                    0 <= k < self.states().len() && 0 <= b < self.states()[k].bars.len()
                        && self.states()[k].bdf == route.access.bdf && (
                    #[trigger] self.states()[k].bars[b]).plan.index == route.access.bar
                        && self.states()[k].bars[b].address + route.access.offset
                        == access.address && access.address + access.width.bytes()
                        <= self.states()[k].bars[b].address
                        + self.states()[k].bars[b].plan.size,
                None => true,
            },
            match route {
                Some(route) => route.access.width == access.width && route.access.source_vcpu
                    == access.source_vcpu,
                None => true,
            },
    {
        let ghost states = self.states();
        let access_end: u64 = match access.address.checked_add(access.width.size() as u64) {
            Some(end) => end,
            None => {
                proof {
                    assert forall|k: int, b: int| !#[trigger] answers(states, k, b, *access) by {
                        if answers(states, k, b, *access) {
                            assert(states[k].wf());
                            assert(states[k].bars[b].wf());
                        }
                    }
                }
                return None;
            },
        };
        let mut function: usize = 0;
        while function < self.functions.len()
            invariant
                function <= self.functions.len(),
                self.wf(),
                states == self.states(),
                access_end == access.address + access.width.bytes(),
                forall|k: int, b: int|
                    k < function ==> !#[trigger] answers(states, k, b, *access),
            decreases self.functions.len() - function,
        {
            assert(states[function as int] == self.functions@[function as int]@);
            assert(states[function as int].wf());
            if self.functions[function].memory_decode_enabled() {
                if let Some(handler) = self.functions[function].handler() {
                    let mut index: usize = 0;
                    while index < self.functions[function].bars.len()
                        invariant
                            function < self.functions.len(),
                            index <= self.functions[function as int].bars.len(),
                            self.wf(),
                            states == self.states(),
                            states[function as int] == self.functions@[function as int]@,
                            states[function as int].decodes(),
                            states[function as int].binding matches Some(binding)
                                && binding.handler == handler,
                            access_end == access.address + access.width.bytes(),
                            forall|b: int|
                                b < index ==> !#[trigger] answers(
                                    states,
                                    function as int,
                                    b,
                                    *access,
                                ),
                        decreases self.functions[function as int].bars.len() - index,
                    {
                        let bar = self.functions[function].bars[index];
                        assert(states[function as int].bars[index as int].wf());
                        if let Some(range) = bar.range() {
                            if range.start <= access.address && access_end <= range.end {
                                assert(answers(states, function as int, index as int, *access));
                                assert(states[function as int].bars[index as int].plan.index
                                    == bar.plan.index);
                                return Some(
                                    BarRoute {
                                        handler,
                                        access: PciBarAccess::new(
                                            access.source_vcpu,
                                            self.functions[function].bdf,
                                            bar.index(),
                                            access.address - range.start,
                                            access.width,
                                        ),
                                    },
                                );
                            }
                        }
                        index = index + 1;
                    }
                }
            }
            function = function + 1;
        }
        None
    }

    /// Finds the first function with the given identity.
    fn position_of(&self, id: &DeviceNodeId) -> (found: Option<usize>)
        ensures
            match found {
                Some(k) => index_of_id(self.states(), id@, 0) == Some(k as int) && k
                    < self.functions@.len() && self.states()[k as int].id == id@,
                None => index_of_id(self.states(), id@, 0) is None,
            },
    {
        let mut index: usize = 0;
        while index < self.functions.len()
            invariant
                index <= self.functions.len(),
                index_of_id(self.states(), id@, 0) == index_of_id(self.states(), id@, index as int),
            decreases self.functions.len() - index,
        {
            assert(self.states()[index as int] == self.functions@[index as int]@);
            if self.functions[index].id.same(id) {
                return Some(index);
            }
            index = index + 1;
        }
        None
    }

    /// Why a handler cannot be bound to this identity, if it cannot.
    pub open spec fn bind_fault(self, id: Seq<char>) -> Option<PciErrorView> {
        match index_of_id(self.states(), id, 0) {
            None => Some(PciErrorView::FunctionNotFound { function: id }),
            Some(k) => if self.next_binding_generation == u64::MAX {
                Some(PciErrorView::BindingGenerationExhausted)
            } else if self.states()[k].binding is Some {
                Some(PciErrorView::FunctionAlreadyBound { function: id })
            } else {
                None
            },
        }
    }

    /// Binds a handler to the function with the given identity and returns the
    /// generation of the binding.
    pub fn bind_function(&mut self, id: &DeviceNodeId, handler: usize) -> (generation: PciResult<
        u64,
    >)
        requires
            old(self).wf(),
        ensures
            final(self).wf(),
            final(self).memory_aperture == old(self).memory_aperture,
            match generation {
                Ok(generation) => {
                    let k = index_of_id(old(self).states(), id@, 0)->0;
                    &&& old(self).bind_fault(id@) is None
                    &&& generation == old(self).next_binding_generation
                    &&& final(self).next_binding_generation == generation + 1
                    &&& final(self).states() == old(self).states().update(
                        k,
                        FunctionView {
                            binding: Some(FunctionBinding { generation, handler }),
                            ..old(self).states()[k]
                        },
                    )
                },
                Err(error) => old(self).bind_fault(id@) == Some(error@) && *final(self) == *old(
                    self,
                ),
            },
    {
        let index: usize = match self.position_of(id) {
            Some(index) => index,
            None => {
                return Err(PciError::FunctionNotFound { function: id.to_text() });
            },
        };
        let ghost states = self.states();
        assert(states[index as int] == self.functions@[index as int]@);
        let generation: u64 = self.next_binding_generation;
        let next_generation: u64 = match generation.checked_add(1) {
            Some(next) => next,
            None => {
                return Err(PciError::BindingGenerationExhausted);
            },
        };
        if self.functions[index].binding.is_some() {
            return Err(PciError::FunctionAlreadyBound { function: id.to_text() });
        }
        match self.functions[index].bind_handler(generation, handler) {
            Ok(()) => {},
            Err(error) => {
                return Err(error);
            },
        }
        self.next_binding_generation = next_generation;
        proof {
            let after = FunctionView {
                binding: Some(FunctionBinding { generation, handler }),
                ..states[index as int]
            };
            assert(self.states() =~= states.update(index as int, after));
            lemma_same_bars(states, self.memory_aperture, index as int, after);
            lemma_same_plans(*old(self), *self, index as int, after);
        }
        Ok(generation)
    }

    /// Drops one binding; a newer binding of the same function stays.
    pub fn unbind_function(&mut self, id: &DeviceNodeId, generation: u64)
        requires
            old(self).wf(),
        ensures
            final(self).wf(),
            final(self).memory_aperture == old(self).memory_aperture,
            final(self).next_binding_generation == old(self).next_binding_generation,
            match index_of_id(old(self).states(), id@, 0) {
                Some(k) => final(self).states() == old(self).states().update(
                    k,
                    unbound(old(self).states()[k], generation),
                ),
                None => final(self).states() == old(self).states(),
            },
    {
        if let Some(index) = self.position_of(id) {
            let ghost states = self.states();
            assert(states[index as int] == self.functions@[index as int]@);
            self.functions[index].unbind_handler(generation);
            proof {
                let after = unbound(states[index as int], generation);
                assert(self.states() =~= states.update(index as int, after));
                lemma_same_bars(states, self.memory_aperture, index as int, after);
                lemma_same_plans(*old(self), *self, index as int, after);
            }
        }
    }

    /// Recovers power-on state and lists the live handlers with their power-on
    /// command state, so that their resets can run after the root is released.
    pub fn reset_collecting_handlers(&mut self) -> (handlers: Vec<(usize, PciCommandState)>)
        requires
            old(self).wf(),
        ensures
            final(self).wf(),
            final(self).memory_aperture == old(self).memory_aperture,
            final(self).next_binding_generation == old(self).next_binding_generation,
            final(self).states() == Seq::new(
                old(self).states().len(),
                |k: int| old(self).states()[k].after_reset(),
            ),
            handlers@ == reset_targets(old(self).states(), old(self).states().len() as int),
    {
        let ghost states = self.states();
        let mut handlers: Vec<(usize, PciCommandState)> = Vec::new();
        let length: usize = self.functions.len();
        let mut index: usize = 0;
        while index < length
            invariant
                index <= length,
                length == self.functions@.len() == states.len(),
                states == old(self).states(),
                old(self).wf(),
                self.memory_aperture == old(self).memory_aperture,
                self.next_binding_generation == old(self).next_binding_generation,
                forall|k: int|
                    0 <= k < index ==> #[trigger] self.states()[k] == states[k].after_reset()
                        && self.states()[k].wf(),
                forall|k: int| index <= k < length ==> #[trigger] self.states()[k] == states[k],
                handlers@ == reset_targets(states, index as int),
            decreases length - index,
        {
            assert(self.states()[index as int] == self.functions@[index as int]@);
            assert(states[index as int].wf());
            let ghost before = self.states();
            self.functions[index].reset();
            assert(self.states() =~= before.update(index as int, states[index as int].after_reset()));
            if let Some(handler) = self.functions[index].handler() {
                handlers.push((handler, self.functions[index].power_on_command_state()));
            }
            index = index + 1;
        }
        proof {
            assert(self.states() =~= Seq::new(states.len(), |k: int| states[k].after_reset()));
            lemma_reset_root(*old(self), *self);
        }
        handlers
    }
}

/// The planned range of the BAR lies in the aperture.
pub open spec fn planned_in_aperture(bar: BarState, memory_aperture: Range<u64>) -> bool {
    memory_aperture.start <= bar.plan.address && bar.plan.address + bar.plan.size
        <= memory_aperture.end
}

/// The route of an access through BAR `b` of function `k`.
pub open spec fn route_to(
    functions: Seq<FunctionView>,
    k: int,
    b: int,
    access: DeviceAccess,
) -> BarRoute {
    BarRoute {
        handler: functions[k].binding->0.handler,
        access: PciBarAccess {
            source_vcpu: access.source_vcpu,
            bdf: functions[k].bdf,
            bar: functions[k].bars[b].plan.index,
            offset: (access.address - functions[k].bars[b].address) as u64,
            width: access.width,
        },
    }
}

/// A function after the binding of one generation is dropped.
pub open spec fn unbound(function: FunctionView, generation: u64) -> FunctionView {
    FunctionView {
        binding: match function.binding {
            Some(binding) => if binding.generation == generation {
                None
            } else {
                Some(binding)
            },
            None => None,
        },
        ..function
    }
}

/// A function whose BARs did not change keeps the root sound.
proof fn lemma_same_bars(
    functions: Seq<FunctionView>,
    memory_aperture: Range<u64>,
    k: int,
    after: FunctionView,
)
    requires
        root_ok(functions, memory_aperture),
        0 <= k < functions.len(),
        after.wf(),
        after.bdf == functions[k].bdf,
        after.bars == functions[k].bars,
    ensures
        root_ok(functions.update(k, after), memory_aperture),
{
    let next = functions.update(k, after);
    assert forall|i: int| 0 <= i < next.len() implies (#[trigger] next[i]).wf() && next[i].bdf.wf()
        && next[i].bdf == functions[i].bdf && next[i].bars == functions[i].bars by {
        assert(functions[i].wf());
    }
    assert forall|i: int, j: int| 0 <= i < j < next.len() implies (#[trigger] next[i]).bdf.rank() < (
    #[trigger] next[j]).bdf.rank() by {
        assert(functions[i].bdf.rank() < functions[j].bdf.rank());
    }
    assert forall|i: int, b: int| 0 <= i < next.len() && 0 <= b < next[i].bars.len() implies in_aperture(
        #[trigger] next[i].bars[b],
        memory_aperture,
    ) by {
        assert(in_aperture(functions[i].bars[b], memory_aperture));
    }
    assert forall|i: int, b: int, j: int, c: int|
        0 <= i < next.len() && 0 <= j < next.len() && 0 <= b < next[i].bars.len() && 0 <= c
            < next[j].bars.len() && (i != j || b != c) implies !(
    #[trigger] next[i].bars[b]).overlaps(#[trigger] next[j].bars[c]) by {
        assert(!functions[i].bars[b].overlaps(functions[j].bars[c]));
    }
}

/// A BAR that stayed, or moved where it may, keeps the root sound.
proof fn lemma_moved_bar(
    functions: Seq<FunctionView>,
    memory_aperture: Range<u64>,
    k: int,
    b: int,
    moved: BarState,
    after: FunctionView,
)
    requires
        root_ok(functions, memory_aperture),
        0 <= k < functions.len(),
        0 <= b < functions[k].bars.len(),
        after.wf(),
        after.bdf == functions[k].bdf,
        after.bars == functions[k].bars.update(b, moved),
        moved.plan == functions[k].bars[b].plan,
        moved.address == functions[k].bars[b].address || available(
            functions,
            memory_aperture,
            k,
            b,
            moved.address,
        ),
    ensures
        root_ok(functions.update(k, after), memory_aperture),
{
    let next = functions.update(k, after);
    assert(in_aperture(functions[k].bars[b], memory_aperture));
    assert forall|i: int| 0 <= i < next.len() implies (#[trigger] next[i]).wf() && next[i].bdf.wf()
        && next[i].bdf == functions[i].bdf && next[i].bars.len() == functions[i].bars.len() by {
        assert(functions[i].wf());
    }
    assert forall|i: int, j: int| 0 <= i < j < next.len() implies (#[trigger] next[i]).bdf.rank() < (
    #[trigger] next[j]).bdf.rank() by {
        assert(functions[i].bdf.rank() < functions[j].bdf.rank());
    }
    assert forall|i: int, d: int| 0 <= i < next.len() && 0 <= d < next[i].bars.len() implies in_aperture(
        #[trigger] next[i].bars[d],
        memory_aperture,
    ) by {
        assert(in_aperture(functions[i].bars[d], memory_aperture));
    }
    assert forall|i: int, d: int, j: int, c: int|
        0 <= i < next.len() && 0 <= j < next.len() && 0 <= d < next[i].bars.len() && 0 <= c
            < next[j].bars.len() && (i != j || d != c) implies !(
    #[trigger] next[i].bars[d]).overlaps(#[trigger] next[j].bars[c]) by {
        assert(!functions[i].bars[d].overlaps(functions[j].bars[c]));
        if i == k && d == b {
            assert(!overlaps_range(
                functions[j].bars[c],
                moved.address as int,
                moved.address + moved.plan.size,
            ) || moved.address == functions[k].bars[b].address);
        } else if j == k && c == b {
            assert(!overlaps_range(
                functions[i].bars[d],
                moved.address as int,
                moved.address + moved.plan.size,
            ) || moved.address == functions[k].bars[b].address);
        }
    }
}

/// A function whose plans did not change keeps the plans of the root sound.
proof fn lemma_same_plans(before: PciRootState, after: PciRootState, k: int, function: FunctionView)
    requires
        before.wf(),
        0 <= k < before.states().len(),
        after.memory_aperture == before.memory_aperture,
        after.states() == before.states().update(k, function),
        state::plans_of(function.bars) == state::plans_of(before.states()[k].bars),
        root_ok(after.states(), after.memory_aperture),
    ensures
        after.wf(),
{
    let old_states = before.states();
    let new_states = after.states();
    assert forall|i: int| 0 <= i < new_states.len() implies (#[trigger] new_states[i]).bars.len()
        == old_states[i].bars.len() by {
        assert(state::plans_of(new_states[i].bars).len() == new_states[i].bars.len());
        assert(state::plans_of(old_states[i].bars).len() == old_states[i].bars.len());
    }
    assert forall|i: int, b: int|
        0 <= i < new_states.len() && 0 <= b < new_states[i].bars.len() implies (
    #[trigger] new_states[i].bars[b]).plan == old_states[i].bars[b].plan by {
        assert(state::plans_of(new_states[i].bars)[b] == new_states[i].bars[b].plan);
        assert(state::plans_of(old_states[i].bars)[b] == old_states[i].bars[b].plan);
    }
    assert forall|i: int, b: int|
        0 <= i < new_states.len() && 0 <= b < new_states[i].bars.len() implies planned_in_aperture(
        #[trigger] new_states[i].bars[b],
        after.memory_aperture,
    ) by {
        assert(planned_in_aperture(old_states[i].bars[b], before.memory_aperture));
    }
    assert forall|i: int, b: int, j: int, c: int|
        0 <= i < new_states.len() && 0 <= j < new_states.len() && 0 <= b < new_states[i].bars.len()
            && 0 <= c < new_states[j].bars.len() && (i != j || b
            != c) implies crate::pci::topology::plans_apart(
        (#[trigger] new_states[i].bars[b]).plan,
        (#[trigger] new_states[j].bars[c]).plan,
    ) by {
        assert(crate::pci::topology::plans_apart(
            old_states[i].bars[b].plan,
            old_states[j].bars[c].plan,
        ));
    }
}

/// A reset keeps the root sound: every BAR returns to its planned range.
proof fn lemma_reset_root(before: PciRootState, after: PciRootState)
    requires
        before.wf(),
        after.memory_aperture == before.memory_aperture,
        after.states() == Seq::new(
            before.states().len(),
            |k: int| before.states()[k].after_reset(),
        ),
        forall|k: int| 0 <= k < after.states().len() ==> (#[trigger] after.states()[k]).wf(),
    ensures
        after.wf(),
{
    let old_states = before.states();
    let new_states = after.states();
    assert forall|i: int| 0 <= i < new_states.len() implies (#[trigger] new_states[i]).bars.len()
        == old_states[i].bars.len() && new_states[i].bdf == old_states[i].bdf
        && new_states[i].bdf.wf() by {
        assert(old_states[i].wf());
    }
    assert forall|i: int, j: int| 0 <= i < j < new_states.len() implies (
    #[trigger] new_states[i]).bdf.rank() < (#[trigger] new_states[j]).bdf.rank() by {
        assert(old_states[i].bdf.rank() < old_states[j].bdf.rank());
    }
    assert forall|i: int, b: int|
        0 <= i < new_states.len() && 0 <= b < new_states[i].bars.len() implies in_aperture(
        #[trigger] new_states[i].bars[b],
        after.memory_aperture,
    ) && planned_in_aperture(new_states[i].bars[b], after.memory_aperture) by {
        assert(planned_in_aperture(old_states[i].bars[b], before.memory_aperture));
    }
    assert forall|i: int, b: int, j: int, c: int|
        0 <= i < new_states.len() && 0 <= j < new_states.len() && 0 <= b < new_states[i].bars.len()
            && 0 <= c < new_states[j].bars.len() && (i != j || b != c) implies !(
    #[trigger] new_states[i].bars[b]).overlaps(#[trigger] new_states[j].bars[c])
        && crate::pci::topology::plans_apart(new_states[i].bars[b].plan, new_states[j].bars[c].plan)
    by {
        assert(crate::pci::topology::plans_apart(
            old_states[i].bars[b].plan,
            old_states[j].bars[c].plan,
        ));
    }
}

/// Rejects accesses of other buses before any window lookup.
pub fn ensure_mmio_access(access: &DeviceAccess) -> (result: DeviceResult)
    ensures
        match result {
            Ok(()) => access.bus == BusKind::Mmio,
            Err(error) => access.bus != BusKind::Mmio && error@ == (DeviceErrorView::OutOfRange {
                addr: access.address,
            }),
        },
{
    if access.bus == BusKind::Mmio {
        Ok(())
    } else {
        Err(DeviceError::OutOfRange { addr: access.address })
    }
}

/// The whole access lies in the range.
pub open spec fn covers(range: Range<u64>, access: DeviceAccess) -> bool {
    range.start <= access.address && access.address + access.width.bytes() <= range.end
}

/// Checks whether one whole access fits inside `range`.
pub fn contains_access(range: &Range<u64>, access: &DeviceAccess) -> (result: bool)
    ensures
        result == covers(*range, *access),
{
    match access.address.checked_add(access.width.size() as u64) {
        Some(end) => range.start <= access.address && end <= range.end,
        None => false,
    }
}

/// Returns a value of `size` bytes with all bits set.
fn all_ones(size: usize) -> (value: u64)
    requires
        size == 1 || size == 2 || size == 4,
    ensures
        value == le::byte_span(size as nat) - 1,
{
    proof {
        le::lemma_spans();
        assert(0xffff_ffff_ffff_ffffu64 >> 56u64 == 0xff && 0xffff_ffff_ffff_ffffu64 >> 48u64
            == 0xffff && 0xffff_ffff_ffff_ffffu64 >> 32u64 == 0xffff_ffff) by (bit_vector);
    }
    u64::MAX >> ((8 - size as u64) * 8)
}

/// At most one BAR answers an access.
pub proof fn law_one_bar_answers(
    root: PciRootState,
    access: DeviceAccess,
    k: int,
    b: int,
    l: int,
    c: int,
)
    requires
        root.wf(),
        answers(root.states(), k, b, access),
        answers(root.states(), l, c, access),
    ensures
        k == l && b == c,
{
    if k != l || b != c {
        assert(!root.states()[k].bars[b].overlaps(root.states()[l].bars[c]));
    }
}

/// A BAR with a fixed decode policy never leaves its planned address, and every
/// BAR always decodes inside the aperture.
pub proof fn law_fixed_bars_never_move(root: PciRootState, k: int, b: int)
    requires
        root.wf(),
        0 <= k < root.states().len(),
        0 <= b < root.states()[k].bars.len(),
    ensures
        in_aperture(root.states()[k].bars[b], root.memory_aperture),
        root.states()[k].bars[b].plan.policy == PciBarDecodePolicy::Fixed
            ==> root.states()[k].bars[b].address == root.states()[k].bars[b].plan.address,
{
    assert(root.states()[k].wf());
    assert(root.states()[k].bars[b].wf());
}

/// Dropping an old binding leaves a newer one alone.
pub proof fn law_stale_unbind_keeps_the_newer_binding(
    function: FunctionView,
    newer: FunctionBinding,
    generation: u64,
)
    requires
        function.binding == Some(newer),
        generation < newer.generation,
    ensures
        unbound(function, generation) == function,
{
}

/// A size probe does not move the decode, and neither does a config write
/// outside the BAR registers.
pub proof fn law_only_granted_relocations_move_a_bar(
    functions: Seq<FunctionView>,
    memory_aperture: Range<u64>,
    k: int,
    offset: int,
    size: int,
    value: nat,
    b: int,
)
    requires
        root_ok(functions, memory_aperture),
        0 <= k < functions.len(),
        0 <= b < functions[k].bars.len(),
        !functions[k].straddles(offset, size),
    ensures
        ({
            let after = written(functions, memory_aperture, k, offset, size, value);
            let moved = after.bars[b].address != functions[k].bars[b].address;
            &&& after.bars.len() == functions[k].bars.len()
            &&& after.bars[b].plan == functions[k].bars[b].plan
            &&& moved ==> {
                &&& functions[k].bar_write(offset, size, value) is Some
                &&& functions[k].bar_write(offset, size, value)->0 is Relocate
                &&& grants(functions, memory_aperture, k, b, after.bars[b].address)
            }
        }),
{
}

} // verus!
