//! Guest-visible state of one PCI function.

use crate::device::DeviceNodeId;
use crate::le;
use crate::pci::address::{PciBdf, CONFIG_SPACE_SIZE};
use crate::pci::bar;
use crate::pci::bar::{BarState, ResolvedBarPlan};
use crate::pci::config;
use crate::pci::config::{PciCommandState, PowerOnConfig, PowerOnView, MSIX_CAP_OFFSET};
use crate::pci::error::{PciError, PciErrorView, PciResult};
use crate::pci::msix::PciMsixDeclaration;
use vstd::prelude::*;

verus! {

/// One runtime handler bound to a function.
///
/// `handler` names the handler in the table of whoever dispatches to it.
#[derive(Clone, Copy, Debug, PartialEq, Eq, Structural)]
pub struct FunctionBinding {
    pub generation: u64,
    pub handler: usize,
}

/// What a config write to a BAR register asks for.
#[derive(Clone, Copy, Debug, PartialEq, Eq, Structural)]
pub enum BarWriteAction {
    /// Report the size on the next read.
    Probe { bar: usize, high: bool },
    /// Move the decode to `candidate`.
    Relocate { bar: usize, high: bool, candidate: u64 },
}

/// Config image, BAR decode and runtime binding of one function.
#[derive(Debug)]
pub struct FunctionState {
    pub id: DeviceNodeId,
    pub bdf: PciBdf,
    pub power_on: PowerOnConfig,
    pub config: Vec<u8>,
    pub bars: Vec<BarState>,
    pub msix: Option<PciMsixDeclaration>,
    pub binding: Option<FunctionBinding>,
}

/// The contents of a [`FunctionState`].
pub struct FunctionView {
    pub id: Seq<char>,
    pub bdf: PciBdf,
    pub power_on: PowerOnView,
    pub config: Seq<u8>,
    pub bars: Seq<BarState>,
    pub msix: Option<PciMsixDeclaration>,
    pub binding: Option<FunctionBinding>,
}

impl View for FunctionState {
    type V = FunctionView;

    open spec fn view(&self) -> FunctionView {
        FunctionView {
            id: self.id@,
            bdf: self.bdf,
            power_on: self.power_on@,
            config: self.config@,
            bars: self.bars@,
            msix: self.msix,
            binding: self.binding,
        }
    }
}

/// The plans behind a list of BARs.
pub open spec fn plans_of(bars: Seq<BarState>) -> Seq<ResolvedBarPlan> {
    Seq::new(bars.len(), |i: int| bars[i].plan)
}

/// Fresh decode states for a list of plans.
pub open spec fn fresh_bars(plans: Seq<ResolvedBarPlan>) -> Seq<BarState> {
    Seq::new(
        plans.len(),
        |i: int|
            BarState {
                plan: plans[i],
                address: plans[i].address,
                probe_low: false,
                probe_high: false,
            },
    )
}

impl FunctionView {
    /// The images cover the config space, every BAR decodes where it can, and
    /// no two BARs share a register.
    pub open spec fn wf(self) -> bool {
        &&& self.power_on.wf()
        &&& self.config.len() == CONFIG_SPACE_SIZE
        &&& forall|i: int| 0 <= i < self.bars.len() ==> (#[trigger] self.bars[i]).wf()
        &&& config::plans_ok(plans_of(self.bars))
    }

    /// The BAR and the half of it that a config offset addresses, if any.
    pub open spec fn bar_at(self, offset: int) -> Option<(int, bool)> {
        if 0x10 <= offset < 0x28 {
            match config::bar_at(plans_of(self.bars), (offset - 0x10) / 4) {
                Some(i) => Some((i, (offset - 0x10) / 4 != self.bars[i].plan.index.0)),
                None => None,
            }
        } else {
            None
        }
    }

    /// An access that would leave the BAR register it starts in.
    pub open spec fn straddles(self, offset: int, size: int) -> bool {
        self.bar_at(offset) is Some && offset % 4 + size > 4
    }

    /// The value of a config read.
    pub open spec fn read_value(self, offset: int, size: int) -> nat {
        match self.bar_at(offset) {
            Some((i, high)) => le::le_value(
                le::le_bytes(self.bars[i].visible(high) as nat, 4).subrange(
                    offset % 4,
                    offset % 4 + size,
                ),
            ),
            None => le::le_value(self.config.subrange(offset, offset + size)),
        }
    }

    /// The dword that a write to a BAR register spells after the written lanes
    /// replaced those of the committed contents.
    pub open spec fn merged_dword(
        self,
        i: int,
        high: bool,
        offset: int,
        size: int,
        value: nat,
    ) -> nat {
        le::le_value(
            le::replaced_bytes(
                le::le_bytes(self.bars[i].committed(high) as nat, 4),
                offset % 4,
                size,
                value,
            ),
        )
    }

    /// What a config write asks of a BAR, if it addresses one: a size probe if
    /// the merged dword is all ones, and a relocation otherwise.
    pub open spec fn bar_write(self, offset: int, size: int, value: nat) -> Option<BarWriteAction> {
        match self.bar_at(offset) {
            Some((i, high)) => {
                let merged = self.merged_dword(i, high, offset, size, value);
                if merged == 0xffff_ffff {
                    Some(BarWriteAction::Probe { bar: i as usize, high })
                } else {
                    Some(
                        BarWriteAction::Relocate {
                            bar: i as usize,
                            high,
                            candidate: self.bars[i].candidate(high, merged as u32) as u64,
                        },
                    )
                }
            },
            None => None,
        }
    }

    /// The state after a config write that addresses no BAR.
    pub open spec fn after_plain_write(self, offset: int, size: int, value: nat) -> FunctionView {
        FunctionView {
            config: le::merged_bytes(self.config, offset, size, value, self.power_on.write_mask),
            ..self
        }
    }

    /// The state after a reset.
    pub open spec fn after_reset(self) -> FunctionView {
        FunctionView {
            config: self.power_on.bytes,
            bars: fresh_bars(plans_of(self.bars)),
            ..self
        }
    }

    /// Memory decoding is enabled.
    pub open spec fn decodes(self) -> bool {
        config::command_of(self.config).memory_space_enabled
    }
}

impl FunctionState {
    /// Creates the power-on state of one function.
    pub fn new(
        id: DeviceNodeId,
        bdf: PciBdf,
        power_on: PowerOnConfig,
        plans: &Vec<ResolvedBarPlan>,
        msix: Option<PciMsixDeclaration>,
    ) -> (state: Self)
        requires
            power_on@.wf(),
            config::plans_ok(plans@),
        ensures
            state@ == (FunctionView {
                id: id@,
                bdf,
                power_on: power_on@,
                config: power_on@.bytes,
                bars: fresh_bars(plans@),
                msix,
                binding: None,
            }),
            state@.wf(),
    {
        let mut bars: Vec<BarState> = Vec::new();
        let mut index: usize = 0;
        while index < plans.len()
            invariant
                index <= plans.len(),
                bars@ == fresh_bars(plans@).take(index as int),
            decreases plans.len() - index,
        {
            bars.push(BarState::new(plans[index]));
            index = index + 1;
            assert(bars@ =~= fresh_bars(plans@).take(index as int));
        }
        assert(bars@ =~= fresh_bars(plans@));
        assert(plans_of(bars@) =~= plans@);
        let config = power_on.bytes.clone();
        assert(config@ =~= power_on@.bytes);
        let state = FunctionState { id, bdf, power_on, config, bars, msix, binding: None };
        proof {
            assert forall|i: int| 0 <= i < state@.bars.len() implies (
            #[trigger] state@.bars[i]).wf() by {
                assert(plans@[i].wf());
            }
        }
        state
    }

    /// Returns whether this function declares an MSI-X capability.
    pub fn has_msix(&self) -> (has: bool)
        ensures
            has == (self@.msix is Some),
    {
        self.msix.is_some()
    }

    /// Reads the MSI-X Message Control value from the config image, if the
    /// capability is present.
    pub fn msix_message_control(&self) -> (control: Option<u16>)
        requires
            self@.wf(),
        ensures
            match control {
                Some(control) => self@.msix is Some && control == le::le_value(
                    self@.config.subrange(0x42, 0x44),
                ),
                None => self@.msix is None,
            },
    {
        if self.msix.is_none() {
            return None;
        }
        let control: u64 = le::read_bytes(&self.config, MSIX_CAP_OFFSET + 2, 2);
        proof {
            le::lemma_spans();
        }
        Some(control as u16)
    }

    /// Returns the address of the function.
    pub fn bdf(&self) -> (bdf: PciBdf)
        ensures
            bdf == self@.bdf,
    {
        self.bdf
    }

    /// Returns the identity of the function.
    pub fn id(&self) -> (id: &DeviceNodeId)
        ensures
            id@ == self@.id,
    {
        &self.id
    }

    /// Returns whether memory decoding is enabled.
    pub fn memory_decode_enabled(&self) -> (enabled: bool)
        requires
            self@.wf(),
        ensures
            enabled == self@.decodes(),
    {
        PciCommandState::from_config(&self.config).memory_space_enabled
    }

    /// Returns the current command state.
    pub fn command_state(&self) -> (command: PciCommandState)
        requires
            self@.wf(),
        ensures
            command == config::command_of(self@.config),
    {
        PciCommandState::from_config(&self.config)
    }

    /// Returns the command state that a reset restores.
    pub fn power_on_command_state(&self) -> (command: PciCommandState)
        requires
            self@.wf(),
        ensures
            command == config::command_of(self@.power_on.bytes),
    {
        PciCommandState::from_config(&self.power_on.bytes)
    }

    /// Returns the handler of the live binding, if any.
    pub fn handler(&self) -> (handler: Option<usize>)
        ensures
            handler == (match self@.binding {
                Some(binding) => Some(binding.handler),
                None => None,
            }),
    {
        match self.binding {
            Some(binding) => Some(binding.handler),
            None => None,
        }
    }

    /// Binds a handler, unless one is bound.
    pub fn bind_handler(&mut self, generation: u64, handler: usize) -> (result: PciResult)
        ensures
            match result {
                Ok(()) => old(self)@.binding is None && final(self)@ == (FunctionView {
                    binding: Some(FunctionBinding { generation, handler }),
                    ..old(self)@
                }),
                Err(error) => {
                    &&& old(self)@.binding is Some
                    &&& *final(self) == *old(self)
                    &&& error@ == (PciErrorView::FunctionAlreadyBound { function: old(self)@.id })
                },
            },
    {
        if self.binding.is_some() {
            return Err(PciError::FunctionAlreadyBound { function: self.id.to_text() });
        }
        self.binding = Some(FunctionBinding { generation, handler });
        Ok(())
    }

    /// Drops the binding of the given generation; a newer binding stays.
    pub fn unbind_handler(&mut self, generation: u64)
        ensures
            final(self)@ == (FunctionView {
                binding: match old(self)@.binding {
                    Some(binding) => if binding.generation == generation {
                        None
                    } else {
                        Some(binding)
                    },
                    None => None,
                },
                ..old(self)@
            }),
    {
        match self.binding {
            Some(binding) => {
                if binding.generation == generation {
                    self.binding = None;
                }
            },
            None => {},
        }
    }

    /// Finds the BAR and the half of it that a config offset addresses.
    fn bar_dword(&self, offset: usize) -> (target: Option<(usize, bool)>)
        requires
            self@.wf(),
        ensures
            match target {
                Some((i, high)) => self@.bar_at(offset as int) == Some((i as int, high)) && i
                    < self@.bars.len(),
                None => self@.bar_at(offset as int) is None,
            },
    {
        if offset < 0x10 || offset >= 0x28 {
            return None;
        }
        let slot: u8 = ((offset - 0x10) / 4) as u8;
        let ghost plans = plans_of(self.bars@);
        let mut index: usize = 0;
        while index < self.bars.len()
            invariant
                index <= self.bars.len(),
                self@.wf(),
                plans == plans_of(self.bars@),
                0x10 <= offset < 0x28,
                slot == (offset - 0x10) / 4,
                forall|i: int| 0 <= i < index ==> !#[trigger] config::owns_slot(plans[i], slot as int),
            decreases self.bars.len() - index,
        {
            let candidate = self.bars[index];
            assert(plans[index as int] == candidate.plan);
            assert(self@.bars[index as int].wf());
            let first: u8 = candidate.index().value();
            if first == slot || (candidate.width() == bar::PciMemoryBarWidth::Bits64 && first + 1
                == slot) {
                proof {
                    assert(config::owns_slot(plans[index as int], slot as int));
                    let chosen = config::bar_at(plans, slot as int)->0;
                    assert(config::owns_slot(plans[chosen], slot as int));
                    assert(chosen == index);
                }
                return Some((index, first != slot));
            }
            index = index + 1;
        }
        None
    }

    /// Tells whether an access would leave the BAR register it starts in.
    pub fn crosses_bar_register(&self, offset: usize, size: usize) -> (crosses: bool)
        requires
            self@.wf(),
        ensures
            crosses == self@.straddles(offset as int, size as int),
    {
        self.bar_dword(offset).is_some() && size > 4 - offset % 4
    }

    /// Reads `size` bytes of the config space.
    pub fn read(&self, offset: usize, size: usize) -> (value: u64)
        requires
            self@.wf(),
            offset + size <= CONFIG_SPACE_SIZE,
            size <= 8,
            !self@.straddles(offset as int, size as int),
        ensures
            value == self@.read_value(offset as int, size as int),
            value < le::byte_span(size as nat),
    {
        match self.bar_dword(offset) {
            Some((index, high)) => {
                assert(self@.bars[index as int].wf());
                let dword = le::dword_bytes(self.bars[index].raw_dword(high));
                le::read_bytes(&dword, offset % 4, size)
            },
            None => le::read_bytes(&self.config, offset, size),
        }
    }

    /// Classifies a config write after merging the written lanes into a full
    /// dword; a write that addresses no BAR asks for nothing.
    pub fn prepare_bar_write(&self, offset: usize, size: usize, value: u64) -> (action: Option<
        BarWriteAction,
    >)
        requires
            self@.wf(),
            !self@.straddles(offset as int, size as int),
        ensures
            action == self@.bar_write(offset as int, size as int, value as nat),
            match action {
                Some(BarWriteAction::Probe { bar, high }) => self@.bar_at(offset as int) == Some(
                    (bar as int, high),
                ) && bar < self@.bars.len(),
                Some(BarWriteAction::Relocate { bar, high, candidate }) => {
                    &&& self@.bar_at(offset as int) == Some((bar as int, high))
                    &&& bar < self@.bars.len()
                    &&& crate::bits::multiple_of(
                        candidate as int,
                        self@.bars[bar as int].plan.size as int,
                    )
                },
                None => self@.bar_at(offset as int) is None,
            },
    {
        match self.bar_dword(offset) {
            Some((index, high)) => {
                assert(self@.bars[index as int].wf());
                let bar = self.bars[index];
                let mut dword = le::dword_bytes(bar.committed_dword(high));
                le::write_bytes(&mut dword, offset % 4, size, value);
                assert(dword@.subrange(0, 4) =~= dword@);
                let merged: u64 = le::read_bytes(&dword, 0, 4);
                proof {
                    le::lemma_spans();
                }
                if merged == 0xffff_ffff {
                    Some(BarWriteAction::Probe { bar: index, high })
                } else {
                    Some(
                        BarWriteAction::Relocate {
                            bar: index,
                            high,
                            candidate: bar.candidate_address(high, merged as u32),
                        },
                    )
                }
            },
            None => None,
        }
    }

    /// Applies a config write that addresses no BAR, under the write mask.
    pub fn write_non_bar(&mut self, offset: usize, size: usize, value: u64)
        requires
            old(self)@.wf(),
            offset + size <= CONFIG_SPACE_SIZE,
        ensures
            final(self)@ == old(self)@.after_plain_write(offset as int, size as int, value as nat),
            final(self)@.wf(),
    {
        le::merge_bytes(&mut self.config, offset, size, value, &self.power_on.write_mask);
    }

    /// Latches the size-probe response of one BAR half.
    pub fn apply_probe(&mut self, index: usize, high: bool)
        requires
            old(self)@.wf(),
            index < old(self)@.bars.len(),
        ensures
            final(self)@ == (FunctionView {
                bars: old(self)@.bars.update(
                    index as int,
                    probed(old(self)@.bars[index as int], high),
                ),
                ..old(self)@
            }),
            final(self)@.wf(),
    {
        let mut bar = self.bars[index];
        assert(self@.bars[index as int].wf());
        bar.set_probe(high);
        self.bars.set(index, bar);
        assert(plans_of(self.bars@) =~= plans_of(old(self).bars@));
    }

    /// Ends a relocation write of one BAR half.
    pub fn finish_relocation(&mut self, index: usize, high: bool, accepted: Option<u64>)
        requires
            old(self)@.wf(),
            index < old(self)@.bars.len(),
            old(self)@.bars[index as int].relocated(high, accepted).wf(),
        ensures
            final(self)@ == (FunctionView {
                bars: old(self)@.bars.update(
                    index as int,
                    old(self)@.bars[index as int].relocated(high, accepted),
                ),
                ..old(self)@
            }),
            final(self)@.wf(),
    {
        let mut bar = self.bars[index];
        bar.finish_relocation(high, accepted);
        self.bars.set(index, bar);
        assert(plans_of(self.bars@) =~= plans_of(old(self).bars@));
    }

    /// Restores the power-on config image and the planned BAR decode.
    pub fn reset(&mut self)
        requires
            old(self)@.wf(),
        ensures
            final(self)@ == old(self)@.after_reset(),
            final(self)@.wf(),
    {
        self.config = self.power_on.bytes.clone();
        assert(self.config@ =~= self.power_on@.bytes);
        let length: usize = self.bars.len();
        let mut index: usize = 0;
        while index < length
            invariant
                index <= length,
                length == self.bars@.len() == old(self).bars@.len(),
                old(self)@.wf(),
                self@ == (FunctionView {
                    config: old(self)@.power_on.bytes,
                    bars: self@.bars,
                    ..old(self)@
                }),
                forall|i: int|
                    0 <= i < index ==> #[trigger] self.bars@[i] == fresh_bars(
                        plans_of(old(self).bars@),
                    )[i],
                forall|i: int| index <= i < length ==> #[trigger] self.bars@[i] == old(self).bars@[i],
            decreases length - index,
        {
            let mut bar = self.bars[index];
            bar.reset();
            self.bars.set(index, bar);
            index = index + 1;
        }
        assert(self.bars@ =~= fresh_bars(plans_of(old(self).bars@)));
        assert(plans_of(self.bars@) =~= plans_of(old(self).bars@));
        proof {
            assert forall|i: int| 0 <= i < self@.bars.len() implies (#[trigger] self@.bars[i]).wf() by {
                assert(old(self)@.bars[i].wf());
            }
        }
    }
}

/// A BAR with the probe latch of one half set.
pub open spec fn probed(bar: BarState, high: bool) -> BarState {
    if high {
        BarState { probe_high: true, ..bar }
    } else {
        BarState { probe_low: true, ..bar }
    }
}

/// A plain config write changes no bit that the write mask keeps read-only.
pub proof fn law_read_only_bits_keep_their_value(
    state: FunctionView,
    offset: int,
    size: int,
    value: nat,
    o: int,
)
    requires
        state.wf(),
        0 <= offset,
        0 <= size,
        offset + size <= CONFIG_SPACE_SIZE,
        0 <= o < CONFIG_SPACE_SIZE,
    ensures
        state.after_plain_write(offset, size, value).config[o] & !state.power_on.write_mask[o]
            == state.config[o] & !state.power_on.write_mask[o],
{
    let mask = state.power_on.write_mask[o];
    let current = state.config[o];
    let update = le::byte_of(value, (o - offset) as nat);
    assert(((current & !mask) | (update & mask)) & !mask == current & !mask) by (bit_vector);
}

/// A reset restores the power-on image and the planned decode, whatever was
/// written before.
pub proof fn law_reset_restores_power_on_state(state: FunctionView, i: int)
    requires
        state.wf(),
        0 <= i < state.bars.len(),
    ensures
        state.after_reset().config == state.power_on.bytes,
        state.after_reset().bars[i].address == state.bars[i].plan.address,
        forall|high: bool|
            state.after_reset().bars[i].visible(high) == (if high {
                bar::high_dword(state.bars[i].plan.address)
            } else {
                bar::low_dword(state.bars[i].plan.address, state.bars[i].plan.attributes())
            }),
        state.after_reset().after_reset() == state.after_reset(),
{
    assert(plans_of(state.after_reset().bars) =~= plans_of(state.bars));
}

} // verus!
