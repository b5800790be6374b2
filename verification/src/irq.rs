//! Where interrupts come from: plain numbers and device-tree references.

use crate::text;
use vstd::prelude::*;
use vstd::std_specs::convert::FromSpecImpl;
use vstd::string::StringExecFns;

verus! {

/// Identity of one registered device.
#[derive(Clone, Copy, Debug, PartialEq, Eq, PartialOrd, Ord, Structural)]
pub struct DeviceId(pub u64);

impl From<u64> for DeviceId {
    fn from(value: u64) -> (id: Self) {
        DeviceId(value)
    }
}

impl FromSpecImpl<u64> for DeviceId {
    open spec fn obeys_from_spec() -> bool {
        true
    }

    open spec fn from_spec(value: u64) -> Self {
        DeviceId(value)
    }
}

/// Device-tree handle of one node.
#[derive(Clone, Copy, Debug, PartialEq, Eq, PartialOrd, Ord, Structural)]
pub struct Phandle(pub u32);

impl From<u32> for Phandle {
    fn from(value: u32) -> (handle: Self) {
        Phandle(value)
    }
}

impl FromSpecImpl<u32> for Phandle {
    open spec fn obeys_from_spec() -> bool {
        true
    }

    open spec fn from_spec(value: u32) -> Self {
        Phandle(value)
    }
}

/// One interrupt of a device-tree node.
#[derive(Debug)]
pub struct InterruptRef {
    pub interrupt_parent: Phandle,
    pub cells: u32,
    pub specifier: Vec<u32>,
    pub name: Option<String>,
}

/// What probing knows about one device-tree node: its path, its interrupts, and
/// the devices that its handles name.
#[derive(Debug)]
pub struct FdtInfo {
    pub path: String,
    pub interrupts: Vec<InterruptRef>,
    pub devices: Vec<(Phandle, DeviceId)>,
}

/// Owned description of where an interrupt comes from.
#[derive(Debug, PartialEq, Eq, PartialOrd, Ord)]
pub enum IrqSource {
    /// Already-resolved platform interrupt number.
    Number(usize),
    /// Interrupt described by a device-tree reference.
    Fdt(FdtIrqSource),
}

/// Owned device-tree interrupt reference that can outlive probe callbacks.
#[derive(Debug, PartialEq, Eq, PartialOrd, Ord)]
pub struct FdtIrqSource {
    pub interrupt_parent: DeviceId,
    pub parent_phandle: Phandle,
    pub cells: u32,
    pub specifier: Vec<u32>,
    pub name: Option<String>,
    pub node_path: Option<String>,
}

/// The contents of a [`FdtIrqSource`].
pub struct FdtSourceView {
    pub interrupt_parent: DeviceId,
    pub parent_phandle: Phandle,
    pub cells: u32,
    pub specifier: Seq<u32>,
    pub name: Option<Seq<char>>,
    pub node_path: Option<Seq<char>>,
}

/// The contents of an [`IrqSource`].
pub enum IrqSourceView {
    Number(usize),
    Fdt(FdtSourceView),
}

/// The contents of an optional text.
pub open spec fn optional_text(text: Option<String>) -> Option<Seq<char>> {
    match text {
        Some(text) => Some(text@),
        None => None,
    }
}

/// The contents of an optional source.
pub open spec fn optional_source(source: Option<IrqSource>) -> Option<IrqSourceView> {
    match source {
        Some(source) => Some(source@),
        None => None,
    }
}

impl View for FdtIrqSource {
    type V = FdtSourceView;

    open spec fn view(&self) -> FdtSourceView {
        FdtSourceView {
            interrupt_parent: self.interrupt_parent,
            parent_phandle: self.parent_phandle,
            cells: self.cells,
            specifier: self.specifier@,
            name: optional_text(self.name),
            node_path: optional_text(self.node_path),
        }
    }
}

impl View for IrqSource {
    type V = IrqSourceView;

    open spec fn view(&self) -> IrqSourceView {
        match *self {
            IrqSource::Number(irq) => IrqSourceView::Number(irq),
            IrqSource::Fdt(source) => IrqSourceView::Fdt(source@),
        }
    }
}

/// Copies an optional text.
fn copy_text(text: &Option<String>) -> (copy: Option<String>)
    ensures
        optional_text(copy) == optional_text(*text),
{
    match text {
        Some(text) => Some(text::text_of(text.as_str())),
        None => None,
    }
}

/// Copies cells.
fn copy_cells(cells: &Vec<u32>) -> (copy: Vec<u32>)
    ensures
        copy@ == cells@,
{
    let mut copy: Vec<u32> = Vec::new();
    let mut index: usize = 0;
    while index < cells.len()
        invariant
            index <= cells.len(),
            copy@ == cells@.take(index as int),
        decreases cells.len() - index,
    {
        copy.push(cells[index]);
        index = index + 1;
        assert(copy@ =~= cells@.take(index as int));
    }
    assert(cells@.take(index as int) =~= cells@);
    copy
}

impl Clone for FdtIrqSource {
    fn clone(&self) -> (copy: Self)
        ensures
            copy@ == self@,
    {
        FdtIrqSource {
            interrupt_parent: self.interrupt_parent,
            parent_phandle: self.parent_phandle,
            cells: self.cells,
            specifier: copy_cells(&self.specifier),
            name: copy_text(&self.name),
            node_path: copy_text(&self.node_path),
        }
    }
}

impl Clone for IrqSource {
    fn clone(&self) -> (copy: Self)
        ensures
            copy@ == self@,
    {
        match self {
            IrqSource::Number(irq) => IrqSource::Number(*irq),
            IrqSource::Fdt(source) => IrqSource::Fdt(source.clone()),
        }
    }
}

impl From<usize> for IrqSource {
    fn from(value: usize) -> (source: Self) {
        IrqSource::Number(value)
    }
}

impl FromSpecImpl<usize> for IrqSource {
    open spec fn obeys_from_spec() -> bool {
        true
    }

    open spec fn from_spec(value: usize) -> Self {
        IrqSource::Number(value)
    }
}

/// The numbers of a list from `from` on, with separators.
pub open spec fn list_text(cells: Seq<u32>, from: int) -> Seq<char>
    decreases cells.len() - from,
{
    if from < 0 || from >= cells.len() {
        Seq::empty()
    } else if from + 1 == cells.len() {
        text::dec_text(cells[from] as nat)
    } else {
        text::dec_text(cells[from] as nat) + ", "@ + list_text(cells, from + 1)
    }
}

impl IrqSourceView {
    /// The source as written in diagnostics.
    pub open spec fn text(self) -> Seq<char> {
        match self {
            IrqSourceView::Number(irq) => "irq#"@ + text::dec_text(irq as nat),
            IrqSourceView::Fdt(source) => {
                let place = match source.node_path {
                    Some(path) => "fdt:"@ + path,
                    None => "fdt:phandlePhandle("@ + text::dec_text(
                        source.parent_phandle.0 as nat,
                    ) + ")"@,
                };
                let name = match source.name {
                    Some(name) => ":"@ + name,
                    None => Seq::empty(),
                };
                place + name + " parent=DeviceId("@ + text::dec_text(
                    source.interrupt_parent.0 as nat,
                ) + ") spec=["@ + list_text(source.specifier, 0) + "]"@
            },
        }
    }
}

impl IrqSource {
    /// Creates a source from a resolved platform number.
    pub fn number(irq: usize) -> (source: Self)
        ensures
            source == IrqSource::Number(irq),
    {
        IrqSource::Number(irq)
    }

    /// Returns the source as written in diagnostics.
    pub fn to_text(&self) -> (text: String)
        ensures
            text@ == self@.text(),
    {
        let mut out = String::new();
        match self {
            IrqSource::Number(irq) => {
                out.append("irq#");
                text::push_dec(&mut out, *irq as u64);
            },
            IrqSource::Fdt(source) => {
                match &source.node_path {
                    Some(path) => {
                        out.append("fdt:");
                        out.append(path.as_str());
                    },
                    None => {
                        out.append("fdt:phandlePhandle(");
                        text::push_dec(&mut out, source.parent_phandle.0 as u64);
                        out.append(")");
                    },
                }
                if let Some(name) = &source.name {
                    out.append(":");
                    out.append(name.as_str());
                }
                out.append(" parent=DeviceId(");
                text::push_dec(&mut out, source.interrupt_parent.0);
                out.append(") spec=[");
                push_list(&mut out, &source.specifier);
                out.append("]");
            },
        }
        assert(out@ =~= self@.text());
        out
    }
}

/// Appends the numbers of a list with separators.
fn push_list(out: &mut String, cells: &Vec<u32>)
    ensures
        final(out)@ == old(out)@ + list_text(cells@, 0),
{
    let ghost start = out@;
    let ghost whole = list_text(cells@, 0);
    let mut index: usize = 0;
    assert(out@ + list_text(cells@, 0) =~= start + whole);
    while index < cells.len()
        invariant
            index <= cells.len(),
            whole == list_text(cells@, 0),
            out@ + list_text(cells@, index as int) == start + whole,
        decreases cells.len() - index,
    {
        let ghost before = out@;
        text::push_dec(out, cells[index] as u64);
        if index + 1 < cells.len() {
            out.append(", ");
        }
        index = index + 1;
        proof {
            assert(list_text(cells@, cells@.len() as int) =~= Seq::<char>::empty());
            assert(out@ + list_text(cells@, index as int) =~= before + list_text(
                cells@,
                index - 1,
            ));
        }
    }
    assert(list_text(cells@, index as int) =~= Seq::<char>::empty());
    assert(out@ =~= start + whole);
}

// ---------------------------------------------------------------------------
// Device-tree lookups
// ---------------------------------------------------------------------------

/// The device that a handle names, from entry `from` on.
pub open spec fn device_of(devices: Seq<(Phandle, DeviceId)>, handle: Phandle, from: int) -> Option<
    DeviceId,
>
    decreases devices.len() - from,
{
    if from < 0 || from >= devices.len() {
        None
    } else if devices[from].0 == handle {
        Some(devices[from].1)
    } else {
        device_of(devices, handle, from + 1)
    }
}

/// The first interrupt from `from` on with the given name.
pub open spec fn named_interrupt(
    interrupts: Seq<InterruptRef>,
    name: Seq<char>,
    from: int,
) -> Option<int>
    decreases interrupts.len() - from,
{
    if from < 0 || from >= interrupts.len() {
        None
    } else if optional_text(interrupts[from].name) == Some(name) {
        Some(from)
    } else {
        named_interrupt(interrupts, name, from + 1)
    }
}

/// The source of one interrupt, if its parent is a known device.
pub open spec fn source_of(info: FdtInfo, interrupt: InterruptRef) -> Option<FdtSourceView> {
    match device_of(info.devices@, interrupt.interrupt_parent, 0) {
        Some(parent) => Some(
            FdtSourceView {
                interrupt_parent: parent,
                parent_phandle: interrupt.interrupt_parent,
                cells: interrupt.cells,
                specifier: interrupt.specifier@,
                name: optional_text(interrupt.name),
                node_path: Some(info.path@),
            },
        ),
        None => None,
    }
}

/// A device-tree source as an interrupt source.
pub open spec fn fdt_view(source: Option<FdtSourceView>) -> Option<IrqSourceView> {
    match source {
        Some(source) => Some(IrqSourceView::Fdt(source)),
        None => None,
    }
}

impl FdtInfo {
    /// Finds the device that a handle names.
    pub fn phandle_to_device_id(&self, handle: Phandle) -> (device: Option<DeviceId>)
        ensures
            device == device_of(self.devices@, handle, 0),
    {
        let mut index: usize = 0;
        while index < self.devices.len()
            invariant
                index <= self.devices.len(),
                device_of(self.devices@, handle, 0) == device_of(
                    self.devices@,
                    handle,
                    index as int,
                ),
            decreases self.devices.len() - index,
        {
            if self.devices[index].0 == handle {
                return Some(self.devices[index].1);
            }
            index = index + 1;
        }
        None
    }
}

impl FdtIrqSource {
    /// Creates a device-tree source.
    pub fn new(
        interrupt_parent: DeviceId,
        parent_phandle: Phandle,
        cells: u32,
        specifier: Vec<u32>,
        name: Option<String>,
        node_path: Option<String>,
    ) -> (source: Self)
        ensures
            source == (FdtIrqSource {
                interrupt_parent,
                parent_phandle,
                cells,
                specifier,
                name,
                node_path,
            }),
    {
        FdtIrqSource { interrupt_parent, parent_phandle, cells, specifier, name, node_path }
    }

    /// Describes one interrupt of a node, if its parent is a known device.
    pub fn from_interrupt(info: &FdtInfo, interrupt: &InterruptRef) -> (source: Option<Self>)
        ensures
            match source {
                Some(source) => source_of(*info, *interrupt) == Some(source@),
                None => source_of(*info, *interrupt) is None,
            },
    {
        match info.phandle_to_device_id(interrupt.interrupt_parent) {
            Some(interrupt_parent) => Some(
                FdtIrqSource::new(
                    interrupt_parent,
                    interrupt.interrupt_parent,
                    interrupt.cells,
                    copy_cells(&interrupt.specifier),
                    copy_text(&interrupt.name),
                    Some(text::text_of(info.path.as_str())),
                ),
            ),
            None => None,
        }
    }
}

/// Describes one interrupt of a node.
pub fn fdt_irq_source(info: &FdtInfo, interrupt: &InterruptRef) -> (source: Option<IrqSource>)
    ensures
        optional_source(source) == fdt_view(source_of(*info, *interrupt)),
{
    match FdtIrqSource::from_interrupt(info, interrupt) {
        Some(source) => Some(IrqSource::Fdt(source)),
        None => None,
    }
}

/// Describes the first interrupt of a node.
pub fn first_fdt_irq_source(info: &FdtInfo) -> (source: Option<IrqSource>)
    ensures
        optional_source(source) == if info.interrupts@.len() == 0 {
            None
        } else {
            fdt_view(source_of(*info, info.interrupts@[0]))
        },
{
    if info.interrupts.len() == 0 {
        return None;
    }
    fdt_irq_source(info, &info.interrupts[0])
}

/// Describes the first interrupt of a node with the given name.
pub fn named_fdt_irq_source(info: &FdtInfo, name: &str) -> (source: Option<IrqSource>)
    ensures
        optional_source(source) == match named_interrupt(info.interrupts@, name@, 0) {
            Some(i) => fdt_view(source_of(*info, info.interrupts@[i])),
            None => None,
        },
{
    let mut index: usize = 0;
    while index < info.interrupts.len()
        invariant
            index <= info.interrupts.len(),
            named_interrupt(info.interrupts@, name@, 0) == named_interrupt(
                info.interrupts@,
                name@,
                index as int,
            ),
        decreases info.interrupts.len() - index,
    {
        if let Some(own) = &info.interrupts[index].name {
            if text::text_eq(own.as_str(), name) {
                return fdt_irq_source(info, &info.interrupts[index]);
            }
        }
        index = index + 1;
    }
    None
}

/// What the interrupt controller of a node answers to a specifier.
#[derive(Clone, Copy, Debug, PartialEq, Eq, Structural)]
pub enum ControllerAnswer {
    /// No interrupt controller is registered for the parent.
    Missing,
    /// Another user holds the controller.
    Locked,
    /// The controller set the interrupt up under this number.
    Irq(usize),
}

/// Decodes one interrupt into its number.
///
/// `answer` is what the controller behind the interrupt's parent answered to
/// the specifier; a parent that is no known device has none.
pub fn decode_interrupt(info: &FdtInfo, interrupt: &InterruptRef, answer: ControllerAnswer) -> (irq:
    Option<usize>)
    ensures
        irq == match (device_of(info.devices@, interrupt.interrupt_parent, 0), answer) {
            (Some(_), ControllerAnswer::Irq(irq)) => Some(irq),
            _ => None,
        },
{
    if info.phandle_to_device_id(interrupt.interrupt_parent).is_none() {
        return None;
    }
    match answer {
        ControllerAnswer::Missing => None,
        ControllerAnswer::Locked => None,
        ControllerAnswer::Irq(irq) => Some(irq),
    }
}

/// Decodes the first interrupt of a node into its number.
pub fn decode_fdt_irq(info: &FdtInfo, answer: ControllerAnswer) -> (irq: Option<usize>)
    ensures
        irq == if info.interrupts@.len() == 0 {
            None
        } else {
            match (device_of(info.devices@, info.interrupts@[0].interrupt_parent, 0), answer) {
                (Some(_), ControllerAnswer::Irq(irq)) => Some(irq),
                _ => None,
            }
        },
{
    if info.interrupts.len() == 0 {
        return None;
    }
    decode_interrupt(info, &info.interrupts[0], answer)
}

proof fn lemma_device(devices: Seq<(Phandle, DeviceId)>, handle: Phandle, from: int)
    requires
        0 <= from <= devices.len(),
    ensures
        match device_of(devices, handle, from) {
            Some(device) => exists|i: int|
                from <= i < devices.len() && #[trigger] devices[i] == (handle, device) && forall|
                    j: int,
                |
                    from <= j < i ==> (#[trigger] devices[j]).0 != handle,
            None => forall|j: int|
                from <= j < devices.len() ==> (#[trigger] devices[j]).0 != handle,
        },
    decreases devices.len() - from,
{
    if from < devices.len() {
        if devices[from].0 == handle {
            assert(devices[from] == (handle, devices[from].1));
        } else {
            lemma_device(devices, handle, from + 1);
        }
    }
}

/// A handle names the device of the first entry with that handle, and no device
/// exactly when no entry has it.
pub proof fn law_handles_name_their_first_entry(devices: Seq<(Phandle, DeviceId)>, handle: Phandle)
    ensures
        match device_of(devices, handle, 0) {
            Some(device) => exists|i: int|
                0 <= i < devices.len() && #[trigger] devices[i] == (handle, device) && forall|
                    j: int,
                |
                    0 <= j < i ==> (#[trigger] devices[j]).0 != handle,
            None => forall|j: int| 0 <= j < devices.len() ==> (#[trigger] devices[j]).0 != handle,
        },
{
    lemma_device(devices, handle, 0);
}

proof fn lemma_named(interrupts: Seq<InterruptRef>, name: Seq<char>, from: int)
    requires
        0 <= from <= interrupts.len(),
    ensures
        match named_interrupt(interrupts, name, from) {
            Some(i) => {
                &&& from <= i < interrupts.len()
                &&& optional_text(interrupts[i].name) == Some(name)
                &&& forall|j: int|
                    from <= j < i ==> optional_text((#[trigger] interrupts[j]).name) != Some(name)
            },
            None => forall|j: int|
                from <= j < interrupts.len() ==> optional_text((#[trigger] interrupts[j]).name)
                    != Some(name),
        },
    decreases interrupts.len() - from,
{
    if from < interrupts.len() && optional_text(interrupts[from].name) != Some(name) {
        lemma_named(interrupts, name, from + 1);
    }
}

/// A name selects the first interrupt with that name, and none exactly when no
/// interrupt has it.
pub proof fn law_names_select_their_first_interrupt(interrupts: Seq<InterruptRef>, name: Seq<char>)
    ensures
        match named_interrupt(interrupts, name, 0) {
            Some(i) => {
                &&& 0 <= i < interrupts.len()
                &&& optional_text(interrupts[i].name) == Some(name)
                &&& forall|j: int|
                    0 <= j < i ==> optional_text((#[trigger] interrupts[j]).name) != Some(name)
            },
            None => forall|j: int|
                0 <= j < interrupts.len() ==> optional_text((#[trigger] interrupts[j]).name)
                    != Some(name),
        },
{
    lemma_named(interrupts, name, 0);
}

/// The source of an interrupt carries what the node says of it, and names the
/// device behind its parent; without such a device there is no source.
pub proof fn law_sources_describe_their_interrupt(info: FdtInfo, interrupt: InterruptRef)
    ensures
        source_of(info, interrupt) is None <==> forall|j: int|
            0 <= j < info.devices@.len() ==> (#[trigger] info.devices@[j]).0
                != interrupt.interrupt_parent,
        match source_of(info, interrupt) {
            Some(source) => {
                &&& info.devices@.contains((interrupt.interrupt_parent, source.interrupt_parent))
                &&& source.parent_phandle == interrupt.interrupt_parent
                &&& source.cells == interrupt.cells
                &&& source.specifier == interrupt.specifier@
                &&& source.name == optional_text(interrupt.name)
                &&& source.node_path == Some(info.path@)
            },
            None => true,
        },
        optional_text(None) is None,
        fdt_view(source_of(info, interrupt)) is None <==> source_of(info, interrupt) is None,
        fdt_view(source_of(info, interrupt)) matches Some(view) ==> source_of(info, interrupt)
            matches Some(source) && view == IrqSourceView::Fdt(source),
{
    lemma_device(info.devices@, interrupt.interrupt_parent, 0);
}

proof fn lemma_list_end(cells: Seq<u32>, last: u32, from: int)
    requires
        0 <= from < cells.len(),
    ensures
        list_text(cells.push(last), from) == list_text(cells, from) + ", "@ + text::dec_text(
            last as nat,
        ),
    decreases cells.len() - from,
{
    let longer = cells.push(last);
    if from + 1 < cells.len() {
        lemma_list_end(cells, last, from + 1);
    } else {
        assert(list_text(longer, from + 1) == text::dec_text(last as nat));
    }
    assert(list_text(longer, from) =~= list_text(cells, from) + ", "@ + text::dec_text(
        last as nat,
    ));
}

/// A list is written as its numbers with a comma and a blank between them.
pub proof fn law_lists_are_separated_by_commas(cells: Seq<u32>, last: u32)
    ensures
        list_text(Seq::empty(), 0).len() == 0,
        list_text(seq![last], 0) == text::dec_text(last as nat),
        cells.len() > 0 ==> list_text(cells.push(last), 0) == list_text(cells, 0) + seq![
            ',',
            ' ',
        ] + text::dec_text(last as nat),
{
    if cells.len() > 0 {
        lemma_list_end(cells, last, 0);
        reveal_strlit(", ");
        assert(", "@ =~= seq![',', ' ']);
    }
}

/// A number is written behind `irq#`. A device-tree source is written as its place,
/// its name if it has one, its parent and its specifier; the place is the path of
/// the node, or the handle of the parent without one.
pub proof fn law_source_texts(irq: usize, source: FdtSourceView, name: Seq<char>, path: Seq<char>)
    ensures
        IrqSourceView::Number(irq).text() == "irq#"@ + text::dec_text(irq as nat),
        ({
            let tail = " parent=DeviceId("@ + text::dec_text(source.interrupt_parent.0 as nat)
                + ") spec=["@ + list_text(source.specifier, 0) + "]"@;
            let handle = "fdt:phandlePhandle("@ + text::dec_text(source.parent_phandle.0 as nat)
                + ")"@;
            let placed = FdtSourceView { node_path: Some(path), ..source };
            let lost = FdtSourceView { node_path: None, ..source };
            let text = |source: FdtSourceView| IrqSourceView::Fdt(source).text();
            &&& text(FdtSourceView { name: None, ..placed }) == "fdt:"@ + path + tail
            &&& text(FdtSourceView { name: Some(name), ..placed }) == "fdt:"@ + path + ":"@ + name
                + tail
            &&& text(FdtSourceView { name: None, ..lost }) == handle + tail
            &&& text(FdtSourceView { name: Some(name), ..lost }) == handle + ":"@ + name + tail
        }),
{
    let tail = " parent=DeviceId("@ + text::dec_text(source.interrupt_parent.0 as nat)
        + ") spec=["@ + list_text(source.specifier, 0) + "]"@;
    let handle = "fdt:phandlePhandle("@ + text::dec_text(source.parent_phandle.0 as nat) + ")"@;
    let placed = FdtSourceView { node_path: Some(path), ..source };
    let lost = FdtSourceView { node_path: None, ..source };
    assert(IrqSourceView::Fdt(FdtSourceView { name: None, ..placed }).text() =~= "fdt:"@ + path
        + tail);
    assert(IrqSourceView::Fdt(FdtSourceView { name: Some(name), ..placed }).text() =~= "fdt:"@
        + path + ":"@ + name + tail);
    assert(IrqSourceView::Fdt(FdtSourceView { name: None, ..lost }).text() =~= handle + tail);
    assert(IrqSourceView::Fdt(FdtSourceView { name: Some(name), ..lost }).text() =~= handle + ":"@
        + name + tail);
}

} // verus!
