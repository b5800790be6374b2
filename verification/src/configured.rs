//! Catalog of configurable virtual-device models.
//!
//! Constructors are named by number; whoever instantiates a device looks the
//! number up and calls the constructor. What a constructor or a validation
//! outside answers is an argument here.

use crate::device::DeviceNodeId;
use crate::ivshmem::backing::BackingAllocation;
use crate::ivshmem::error::IvshmemError;
use crate::ivshmem::link;
use crate::ivshmem::link::{IvshmemLinkRegistry, PeerReservation};
use crate::ivshmem::profile::{LinkId, LinkProfile, PeerId};
use crate::pci::function::PciFunctionSpec;
use crate::text;
use vstd::prelude::*;
use vstd::string::StringExecFns;

verus! {

// ---------------------------------------------------------------------------
// Failures
// ---------------------------------------------------------------------------

/// Declaring or instantiating a configured device failed.
#[derive(Clone, Debug, PartialEq, Eq)]
pub enum ConfiguredDeviceError {
    /// No model of this name is registered.
    UnknownVirtualDeviceModel { model: String },
    /// A model name is registered more than once.
    DuplicateModel { model: String },
    /// A model name holds a character that it may not.
    InvalidModelName { model: String },
    /// The options of a request cannot be read.
    InvalidOptions { device: String, model: String, detail: String },
    /// The device cannot be created.
    Instantiation { device: String, model: String, detail: String },
    /// The identity of a request is malformed.
    InvalidDeviceId { device: String, detail: String },
    /// The model attaches to another bus.
    ModelAttachmentMismatch { device: String, model: String, expected: &'static str },
}

/// The contents of a [`ConfiguredDeviceError`].
pub enum ConfiguredErrorView {
    UnknownVirtualDeviceModel { model: Seq<char> },
    DuplicateModel { model: Seq<char> },
    InvalidModelName { model: Seq<char> },
    InvalidOptions { device: Seq<char>, model: Seq<char>, detail: Seq<char> },
    Instantiation { device: Seq<char>, model: Seq<char>, detail: Seq<char> },
    InvalidDeviceId { device: Seq<char>, detail: Seq<char> },
    ModelAttachmentMismatch { device: Seq<char>, model: Seq<char>, expected: Seq<char> },
}

impl View for ConfiguredDeviceError {
    type V = ConfiguredErrorView;

    open spec fn view(&self) -> ConfiguredErrorView {
        match *self {
            ConfiguredDeviceError::UnknownVirtualDeviceModel { model } => {
                ConfiguredErrorView::UnknownVirtualDeviceModel { model: model@ }
            },
            ConfiguredDeviceError::DuplicateModel { model } => ConfiguredErrorView::DuplicateModel {
                model: model@,
            },
            ConfiguredDeviceError::InvalidModelName { model } => {
                ConfiguredErrorView::InvalidModelName { model: model@ }
            },
            ConfiguredDeviceError::InvalidOptions { device, model, detail } => {
                ConfiguredErrorView::InvalidOptions {
                    device: device@,
                    model: model@,
                    detail: detail@,
                }
            },
            ConfiguredDeviceError::Instantiation { device, model, detail } => {
                ConfiguredErrorView::Instantiation {
                    device: device@,
                    model: model@,
                    detail: detail@,
                }
            },
            ConfiguredDeviceError::InvalidDeviceId { device, detail } => {
                ConfiguredErrorView::InvalidDeviceId { device: device@, detail: detail@ }
            },
            ConfiguredDeviceError::ModelAttachmentMismatch { device, model, expected } => {
                ConfiguredErrorView::ModelAttachmentMismatch {
                    device: device@,
                    model: model@,
                    expected: expected@,
                }
            },
        }
    }
}

impl ConfiguredErrorView {
    /// The diagnostic text of the failure.
    pub open spec fn message(self) -> Seq<char> {
        match self {
            ConfiguredErrorView::UnknownVirtualDeviceModel { model } => {
                "unknown virtual device model '"@ + model + "'"@
            },
            ConfiguredErrorView::DuplicateModel { model } => {
                "virtual device model '"@ + model + "' is registered more than once"@
            },
            ConfiguredErrorView::InvalidModelName { model } => {
                "invalid virtual device model name '"@ + model + "'"@
            },
            ConfiguredErrorView::InvalidOptions { device, model, detail } => {
                "invalid options for virtual device '"@ + device + "' ("@ + model + "): "@ + detail
            },
            ConfiguredErrorView::Instantiation { device, model, detail } => {
                "failed to instantiate virtual device '"@ + device + "' ("@ + model + "): "@
                    + detail
            },
            ConfiguredErrorView::InvalidDeviceId { device, detail } => {
                "invalid virtual device id '"@ + device + "': "@ + detail
            },
            ConfiguredErrorView::ModelAttachmentMismatch { device, model, expected } => {
                "virtual device '"@ + device + "' ("@ + model + ") is not attached as a "@
                    + expected + " device"@
            },
        }
    }
}

impl ConfiguredDeviceError {
    /// Returns the diagnostic text of the failure.
    pub fn message(&self) -> (message: String)
        ensures
            message@ == self@.message(),
    {
        let mut out = String::new();
        match self {
            ConfiguredDeviceError::UnknownVirtualDeviceModel { model } => {
                out.append("unknown virtual device model '");
                out.append(model.as_str());
                out.append("'");
            },
            ConfiguredDeviceError::DuplicateModel { model } => {
                out.append("virtual device model '");
                out.append(model.as_str());
                out.append("' is registered more than once");
            },
            ConfiguredDeviceError::InvalidModelName { model } => {
                out.append("invalid virtual device model name '");
                out.append(model.as_str());
                out.append("'");
            },
            ConfiguredDeviceError::InvalidOptions { device, model, detail } => {
                out.append("invalid options for virtual device '");
                out.append(device.as_str());
                out.append("' (");
                out.append(model.as_str());
                out.append("): ");
                out.append(detail.as_str());
            },
            ConfiguredDeviceError::Instantiation { device, model, detail } => {
                out.append("failed to instantiate virtual device '");
                out.append(device.as_str());
                out.append("' (");
                out.append(model.as_str());
                out.append("): ");
                out.append(detail.as_str());
            },
            ConfiguredDeviceError::InvalidDeviceId { device, detail } => {
                out.append("invalid virtual device id '");
                out.append(device.as_str());
                out.append("': ");
                out.append(detail.as_str());
            },
            ConfiguredDeviceError::ModelAttachmentMismatch { device, model, expected } => {
                out.append("virtual device '");
                out.append(device.as_str());
                out.append("' (");
                out.append(model.as_str());
                out.append(") is not attached as a ");
                out.append(expected);
                out.append(" device");
            },
        }
        assert(out@ =~= self@.message());
        out
    }
}

// ---------------------------------------------------------------------------
// Requests and registrations
// ---------------------------------------------------------------------------

/// One configured device: its identity and its model.
#[derive(Clone, Debug)]
pub struct VirtualDeviceRequest {
    pub id: String,
    pub model: String,
}

/// One explicit platform-device catalog entry.
#[derive(Clone, Copy, Debug)]
pub struct ConfiguredModelRegistration {
    pub model: &'static str,
    pub create: usize,
    pub default_fixed_resources: Option<usize>,
}

/// One explicit PCI endpoint catalog entry.
#[derive(Clone, Copy, Debug)]
pub struct ConfiguredPciModelRegistration {
    pub model: &'static str,
    pub create: usize,
    pub default_fixed_resources: Option<usize>,
}

/// The bus that a model attaches to.
#[derive(Clone, Copy, Debug, PartialEq, Eq, Structural)]
pub enum ModelAttachment {
    /// Directly to the platform.
    Platform,
    /// Below an architecture PCI bus.
    Pci,
}

/// One registered model.
#[derive(Clone, Copy, Debug, PartialEq, Eq, Structural)]
pub struct RegisteredModel {
    pub attachment: ModelAttachment,
    pub create: usize,
    pub default_fixed_resources: Option<usize>,
}

/// Typed PCI attachment returned by a configured endpoint constructor.
#[derive(Debug)]
pub struct ConfiguredPciEndpoint {
    pub function: PciFunctionSpec,
    pub model: usize,
}

impl ConfiguredPciEndpoint {
    /// Pairs one pure PCI function declaration with its build-time model.
    pub fn new(function: PciFunctionSpec, model: usize) -> (endpoint: Self)
        ensures
            endpoint == (ConfiguredPciEndpoint { function, model }),
    {
        ConfiguredPciEndpoint { function, model }
    }

    /// Returns the pure function declaration.
    pub fn function(&self) -> (function: &PciFunctionSpec)
        ensures
            *function == self.function,
    {
        &self.function
    }

    /// Splits this attachment into its declaration and build-time model.
    pub fn into_parts(self) -> (parts: (PciFunctionSpec, usize))
        ensures
            parts == (self.function, self.model),
    {
        (self.function, self.model)
    }
}

/// A character that may stand in a model name.
pub open spec fn model_char(c: char) -> bool {
    ||| 'a' <= c && c <= 'z'
    ||| '0' <= c && c <= '9'
    ||| c == '-'
    ||| c == '.'
}

/// A text that is a model name.
pub open spec fn model_name_ok(name: Seq<char>) -> bool {
    name.len() > 0 && forall|i: int| 0 <= i < name.len() ==> model_char(#[trigger] name[i])
}

fn is_model_char(c: char) -> (result: bool)
    ensures
        result == model_char(c),
{
    ('a' <= c && c <= 'z') || ('0' <= c && c <= '9') || c == '-' || c == '.'
}

fn validate_model_name(name: &str) -> (result: Result<(), ConfiguredDeviceError>)
    ensures
        match result {
            Ok(()) => model_name_ok(name@),
            Err(error) => !model_name_ok(name@) && error@ == (
            ConfiguredErrorView::InvalidModelName { model: name@ }),
        },
{
    let length: usize = name.unicode_len();
    let mut index: usize = 0;
    while index < length && is_model_char(name.get_char(index))
        invariant
            index <= length,
            length == name@.len(),
            forall|i: int| 0 <= i < index ==> model_char(#[trigger] name@[i]),
        decreases length - index,
    {
        index = index + 1;
    }
    if length > 0 && index == length {
        Ok(())
    } else {
        Err(ConfiguredDeviceError::InvalidModelName { model: text::text_of(name) })
    }
}

/// Accepts the identity of a request, given the answer of its validation.
pub fn request_device_id(
    request: &VirtualDeviceRequest,
    checked: Result<DeviceNodeId, String>,
) -> (id: Result<DeviceNodeId, ConfiguredDeviceError>)
    ensures
        match id {
            Ok(id) => checked == Ok::<_, String>(id),
            Err(error) => checked matches Err(detail) && error@ == (
            ConfiguredErrorView::InvalidDeviceId { device: request.id@, detail: detail@ }),
        },
{
    match checked {
        Ok(id) => Ok(id),
        Err(detail) => Err(
            ConfiguredDeviceError::InvalidDeviceId {
                device: text::text_of(request.id.as_str()),
                detail,
            },
        ),
    }
}

// ---------------------------------------------------------------------------
// Catalog
// ---------------------------------------------------------------------------

/// One catalog entry.
#[derive(Debug)]
pub struct CatalogEntry {
    pub name: String,
    pub model: RegisteredModel,
}

/// All models that configurations may name; platform and PCI models share one
/// name space.
#[derive(Debug)]
pub struct ConfiguredDeviceCatalog {
    pub registrations: Vec<CatalogEntry>,
}

/// The names and models of catalog entries.
pub open spec fn catalog_views(entries: Seq<CatalogEntry>) -> Seq<(Seq<char>, RegisteredModel)> {
    Seq::new(entries.len(), |i: int| (entries[i].name@, entries[i].model))
}

/// The model registered under a name, from entry `from` on.
pub open spec fn registered(
    entries: Seq<(Seq<char>, RegisteredModel)>,
    name: Seq<char>,
    from: int,
) -> Option<RegisteredModel>
    decreases entries.len() - from,
{
    if from < 0 || from >= entries.len() {
        None
    } else if entries[from].0 == name {
        Some(entries[from].1)
    } else {
        registered(entries, name, from + 1)
    }
}

/// The catalog entries of platform models.
pub open spec fn platform_entries(registrations: Seq<ConfiguredModelRegistration>) -> Seq<
    (Seq<char>, RegisteredModel),
> {
    Seq::new(
        registrations.len(),
        |i: int|
            (
                registrations[i].model@,
                RegisteredModel {
                    attachment: ModelAttachment::Platform,
                    create: registrations[i].create,
                    default_fixed_resources: registrations[i].default_fixed_resources,
                },
            ),
    )
}

/// No two entries have the same name.
pub open spec fn names_distinct(entries: Seq<(Seq<char>, RegisteredModel)>) -> bool {
    forall|i: int, j: int|
        0 <= i < j < entries.len() ==> (#[trigger] entries[i]).0 != (#[trigger] entries[j]).0
}

/// A constructor that a request selected, and the identity to hand it.
#[derive(Debug)]
pub struct SelectedModel {
    pub id: DeviceNodeId,
    pub model: RegisteredModel,
}

impl ConfiguredDeviceCatalog {
    /// The entries.
    pub open spec fn entries(self) -> Seq<(Seq<char>, RegisteredModel)> {
        catalog_views(self.registrations@)
    }

    /// The model registered under a name.
    pub open spec fn model(self, name: Seq<char>) -> Option<RegisteredModel> {
        registered(self.entries(), name, 0)
    }

    /// Why a model cannot be registered under a name, if it cannot.
    pub open spec fn register_fault(self, name: Seq<char>) -> Option<ConfiguredErrorView> {
        if !model_name_ok(name) {
            Some(ConfiguredErrorView::InvalidModelName { model: name })
        } else if self.model(name) is Some {
            Some(ConfiguredErrorView::DuplicateModel { model: name })
        } else {
            None
        }
    }

    /// Creates a catalog of the built-in models: the machine's serial devices
    /// and the inter-VM communication devices, all of which attach to the
    /// platform.
    ///
    /// The built-in names must differ from each other; they are not validated.
    pub fn new(
        serial: &Vec<ConfiguredModelRegistration>,
        inter_vm: &Vec<ConfiguredModelRegistration>,
    ) -> (catalog: Self)
        requires
            names_distinct(platform_entries(serial@) + platform_entries(inter_vm@)),
        ensures
            catalog.entries() == platform_entries(serial@) + platform_entries(inter_vm@),
            forall|i: int|
                0 <= i < catalog.entries().len() ==> catalog.model(
                    (#[trigger] catalog.entries()[i]).0,
                ) == Some(catalog.entries()[i].1),
    {
        let mut catalog = ConfiguredDeviceCatalog { registrations: Vec::new() };
        assert(catalog.entries() =~= Seq::<(Seq<char>, RegisteredModel)>::empty());
        catalog.add_built_in(serial);
        catalog.add_built_in(inter_vm);
        assert(catalog.entries() =~= platform_entries(serial@) + platform_entries(inter_vm@));
        proof {
            let entries = catalog.entries();
            assert forall|i: int| 0 <= i < entries.len() implies catalog.model(
                (#[trigger] entries[i]).0,
            ) == Some(entries[i].1) by {
                lemma_distinct_names_are_found(entries, i, 0);
            }
        }
        catalog
    }

    /// Appends built-in platform models.
    fn add_built_in(&mut self, registrations: &Vec<ConfiguredModelRegistration>)
        ensures
            final(self).entries() == old(self).entries() + platform_entries(registrations@),
    {
        let mut index: usize = 0;
        assert(self.entries() =~= old(self).entries() + platform_entries(registrations@).take(0));
        while index < registrations.len()
            invariant
                index <= registrations.len(),
                self.entries() == old(self).entries() + platform_entries(registrations@).take(
                    index as int,
                ),
            decreases registrations.len() - index,
        {
            let registration = registrations[index];
            let ghost before = self.entries();
            let model = RegisteredModel {
                attachment: ModelAttachment::Platform,
                create: registration.create,
                default_fixed_resources: registration.default_fixed_resources,
            };
            self.registrations.push(
                CatalogEntry { name: text::text_of(registration.model), model },
            );
            assert(self.entries() =~= before.push((registration.model@, model)));
            index = index + 1;
            assert(self.entries() =~= old(self).entries() + platform_entries(registrations@).take(
                index as int,
            ));
        }
        assert(platform_entries(registrations@).take(index as int) =~= platform_entries(
            registrations@,
        ));
    }

    /// Looks a model up.
    fn find(&self, name: &str) -> (model: Option<RegisteredModel>)
        ensures
            model == self.model(name@),
    {
        let mut index: usize = 0;
        while index < self.registrations.len()
            invariant
                index <= self.registrations.len(),
                self.model(name@) == registered(self.entries(), name@, index as int),
            decreases self.registrations.len() - index,
        {
            assert(self.entries()[index as int].0 == self.registrations@[index as int].name@);
            if text::text_eq(self.registrations[index].name.as_str(), name) {
                return Some(self.registrations[index].model);
            }
            index = index + 1;
        }
        None
    }

    fn add_model(&mut self, name: &'static str, model: RegisteredModel) -> (result: Result<
        (),
        ConfiguredDeviceError,
    >)
        ensures
            match result {
                Ok(()) => old(self).register_fault(name@) is None && final(self).entries() == old(
                    self,
                ).entries().push((name@, model)),
                Err(error) => old(self).register_fault(name@) == Some(error@) && *final(self)
                    == *old(self),
            },
    {
        match validate_model_name(name) {
            Ok(()) => {},
            Err(error) => {
                return Err(error);
            },
        }
        if self.find(name).is_some() {
            return Err(ConfiguredDeviceError::DuplicateModel { model: text::text_of(name) });
        }
        let ghost before = self.entries();
        self.registrations.push(CatalogEntry { name: text::text_of(name), model });
        assert(self.entries() =~= before.push((name@, model)));
        Ok(())
    }

    /// Registers a configured model that attaches to the platform.
    pub fn register(&mut self, registration: ConfiguredModelRegistration) -> (result: Result<
        (),
        ConfiguredDeviceError,
    >)
        ensures
            match result {
                Ok(()) => {
                    &&& old(self).register_fault(registration.model@) is None
                    &&& final(self).entries() == old(self).entries().push(
                        (
                            registration.model@,
                            RegisteredModel {
                                attachment: ModelAttachment::Platform,
                                create: registration.create,
                                default_fixed_resources: registration.default_fixed_resources,
                            },
                        ),
                    )
                },
                Err(error) => old(self).register_fault(registration.model@) == Some(error@)
                    && *final(self) == *old(self),
            },
    {
        self.add_model(
            registration.model,
            RegisteredModel {
                attachment: ModelAttachment::Platform,
                create: registration.create,
                default_fixed_resources: registration.default_fixed_resources,
            },
        )
    }

    /// Registers a configured model that attaches below an architecture PCI
    /// bus.
    pub fn register_pci_model(&mut self, registration: ConfiguredPciModelRegistration) -> (result:
        Result<(), ConfiguredDeviceError>)
        ensures
            match result {
                Ok(()) => {
                    &&& old(self).register_fault(registration.model@) is None
                    &&& final(self).entries() == old(self).entries().push(
                        (
                            registration.model@,
                            RegisteredModel {
                                attachment: ModelAttachment::Pci,
                                create: registration.create,
                                default_fixed_resources: registration.default_fixed_resources,
                            },
                        ),
                    )
                },
                Err(error) => old(self).register_fault(registration.model@) == Some(error@)
                    && *final(self) == *old(self),
            },
    {
        self.add_model(
            registration.model,
            RegisteredModel {
                attachment: ModelAttachment::Pci,
                create: registration.create,
                default_fixed_resources: registration.default_fixed_resources,
            },
        )
    }

    /// Why a request selects no model, if it selects none.
    pub open spec fn select_fault(
        self,
        request: VirtualDeviceRequest,
        checked: Result<DeviceNodeId, String>,
        platform_only: bool,
    ) -> Option<ConfiguredErrorView> {
        match checked {
            Err(detail) => Some(
                ConfiguredErrorView::InvalidDeviceId { device: request.id@, detail: detail@ },
            ),
            Ok(_) => match self.model(request.model@) {
                None => Some(
                    ConfiguredErrorView::UnknownVirtualDeviceModel { model: request.model@ },
                ),
                Some(model) => if platform_only && model.attachment == ModelAttachment::Pci {
                    Some(
                        ConfiguredErrorView::ModelAttachmentMismatch {
                            device: request.id@,
                            model: request.model@,
                            expected: "platform"@,
                        },
                    )
                } else {
                    None
                },
            },
        }
    }

    /// Selects the constructor of a device that attaches to the platform.
    ///
    /// `checked` is the validated identity of the request, or why it has none.
    pub fn instantiate_node(
        &self,
        request: &VirtualDeviceRequest,
        checked: Result<DeviceNodeId, String>,
    ) -> (selected: Result<SelectedModel, ConfiguredDeviceError>)
        ensures
            match selected {
                Ok(selected) => {
                    &&& self.select_fault(*request, checked, true) is None
                    &&& checked == Ok::<_, String>(selected.id)
                    &&& self.model(request.model@) == Some(selected.model)
                },
                Err(error) => self.select_fault(*request, checked, true) == Some(error@),
            },
    {
        let id = match request_device_id(request, checked) {
            Ok(id) => id,
            Err(error) => {
                return Err(error);
            },
        };
        match self.find(request.model.as_str()) {
            Some(model) => match model.attachment {
                ModelAttachment::Platform => Ok(SelectedModel { id, model }),
                ModelAttachment::Pci => Err(
                    ConfiguredDeviceError::ModelAttachmentMismatch {
                        device: text::text_of(request.id.as_str()),
                        model: text::text_of(request.model.as_str()),
                        expected: "platform",
                    },
                ),
            },
            None => Err(
                ConfiguredDeviceError::UnknownVirtualDeviceModel {
                    model: text::text_of(request.model.as_str()),
                },
            ),
        }
    }

    /// Selects the constructor of a device on any bus.
    ///
    /// What the constructor of a PCI model returns must pass
    /// [`accept_pci_endpoint`].
    pub fn instantiate(
        &self,
        request: &VirtualDeviceRequest,
        checked: Result<DeviceNodeId, String>,
    ) -> (selected: Result<SelectedModel, ConfiguredDeviceError>)
        ensures
            match selected {
                Ok(selected) => {
                    &&& self.select_fault(*request, checked, false) is None
                    &&& checked == Ok::<_, String>(selected.id)
                    &&& self.model(request.model@) == Some(selected.model)
                },
                Err(error) => self.select_fault(*request, checked, false) == Some(error@),
            },
    {
        let id = match request_device_id(request, checked) {
            Ok(id) => id,
            Err(error) => {
                return Err(error);
            },
        };
        match self.find(request.model.as_str()) {
            Some(model) => Ok(SelectedModel { id, model }),
            None => Err(
                ConfiguredDeviceError::UnknownVirtualDeviceModel {
                    model: text::text_of(request.model.as_str()),
                },
            ),
        }
    }

    /// Returns the provider of a model's default fixed resources.
    pub fn default_fixed_resources(&self, model: &str) -> (provider: Option<usize>)
        ensures
            provider == match self.model(model@) {
                Some(model) => model.default_fixed_resources,
                None => None,
            },
    {
        match self.find(model) {
            Some(model) => model.default_fixed_resources,
            None => None,
        }
    }
}

/// Accepts what a PCI constructor returned, if it kept the requested identity.
pub fn accept_pci_endpoint(
    request: &VirtualDeviceRequest,
    requested: &DeviceNodeId,
    endpoint: ConfiguredPciEndpoint,
) -> (accepted: Result<ConfiguredPciEndpoint, ConfiguredDeviceError>)
    ensures
        match accepted {
            Ok(accepted) => endpoint.function@.id == requested@ && accepted == endpoint,
            Err(error) => endpoint.function@.id != requested@ && error@ == (
            ConfiguredErrorView::Instantiation {
                device: request.id@,
                model: request.model@,
                detail: "PCI constructor returned function id '"@ + endpoint.function@.id + "'"@,
            }),
        },
{
    if endpoint.function().id().same(requested) {
        return Ok(endpoint);
    }
    let mut detail = text::text_of("PCI constructor returned function id '");
    detail.append(endpoint.function().id().as_str());
    detail.append("'");
    Err(
        ConfiguredDeviceError::Instantiation {
            device: text::text_of(request.id.as_str()),
            model: text::text_of(request.model.as_str()),
            detail,
        },
    )
}

/// Registering a model makes exactly that name known: a second registration of
/// the name is refused, and every other name keeps its model.
pub proof fn law_registered_names_are_unique(
    before: Seq<(Seq<char>, RegisteredModel)>,
    name: Seq<char>,
    model: RegisteredModel,
    other: Seq<char>,
)
    requires
        registered(before, name, 0) is None,
    ensures
        registered(before.push((name, model)), name, 0) == Some(model),
        other != name ==> registered(before.push((name, model)), other, 0) == registered(
            before,
            other,
            0,
        ),
{
    lemma_registered_push(before, name, model, name, 0);
    lemma_registered_push(before, name, model, other, 0);
}

/// Among distinct names, every entry is the one found under its name.
proof fn lemma_distinct_names_are_found(
    entries: Seq<(Seq<char>, RegisteredModel)>,
    i: int,
    from: int,
)
    requires
        names_distinct(entries),
        0 <= from <= i < entries.len(),
    ensures
        registered(entries, entries[i].0, from) == Some(entries[i].1),
    decreases i - from,
{
    if from < i {
        lemma_distinct_names_are_found(entries, i, from + 1);
    }
}

proof fn lemma_registered_push(
    before: Seq<(Seq<char>, RegisteredModel)>,
    name: Seq<char>,
    model: RegisteredModel,
    looked: Seq<char>,
    from: int,
)
    requires
        0 <= from <= before.len(),
    ensures
        registered(before.push((name, model)), looked, from) == match registered(
            before,
            looked,
            from,
        ) {
            Some(found) => Some(found),
            None => if looked == name {
                Some(model)
            } else {
                None
            },
        },
    decreases before.len() - from,
{
    let after = before.push((name, model));
    if from < before.len() {
        assert(after[from] == before[from]);
        lemma_registered_push(before, name, model, looked, from + 1);
    } else {
        assert(after[from] == (name, model));
        assert(registered(after, looked, from + 1) is None);
    }
}

// ---------------------------------------------------------------------------
// Fixed bindings
// ---------------------------------------------------------------------------

/// One fixed interrupt line; controller, input, trigger and sharing are the
/// numbers that the interrupt layer gives them.
#[derive(Clone, Copy, Debug, PartialEq, Eq, Structural)]
pub struct FixedWiredBinding {
    pub controller: usize,
    pub input: usize,
    pub trigger: usize,
    pub sharing: usize,
}

/// Values by slot name; a slot has at most one value.
#[derive(Clone, Debug)]
pub struct SlotTable<T> {
    pub slots: Vec<String>,
    pub values: Vec<T>,
}

/// The position of a slot, from `from` on.
pub open spec fn slot_index(slots: Seq<String>, slot: Seq<char>, from: int) -> Option<int>
    decreases slots.len() - from,
{
    if from < 0 || from >= slots.len() {
        None
    } else if slots[from]@ == slot {
        Some(from)
    } else {
        slot_index(slots, slot, from + 1)
    }
}

impl<T: Copy> SlotTable<T> {
    /// Every slot has its value.
    pub open spec fn wf(self) -> bool {
        self.slots@.len() == self.values@.len()
    }

    /// The value of a slot.
    pub open spec fn value(self, slot: Seq<char>) -> Option<T> {
        match slot_index(self.slots@, slot, 0) {
            Some(i) => Some(self.values@[i]),
            None => None,
        }
    }

    /// Creates an empty table.
    pub fn new() -> (table: Self)
        ensures
            table.wf(),
            forall|slot: Seq<char>| #[trigger] table.value(slot) is None,
    {
        SlotTable { slots: Vec::new(), values: Vec::new() }
    }

    fn position(&self, slot: &str) -> (index: Option<usize>)
        requires
            self.wf(),
        ensures
            match index {
                Some(index) => slot_index(self.slots@, slot@, 0) == Some(index as int) && index
                    < self.slots@.len(),
                None => slot_index(self.slots@, slot@, 0) is None,
            },
    {
        let mut index: usize = 0;
        while index < self.slots.len()
            invariant
                index <= self.slots.len(),
                slot_index(self.slots@, slot@, 0) == slot_index(self.slots@, slot@, index as int),
            decreases self.slots.len() - index,
        {
            if text::text_eq(self.slots[index].as_str(), slot) {
                return Some(index);
            }
            index = index + 1;
        }
        None
    }

    /// Gives a slot its value; an earlier value of the slot is gone.
    pub fn insert(&mut self, slot: &str, value: T)
        requires
            old(self).wf(),
        ensures
            final(self).wf(),
            forall|other: Seq<char>| #[trigger]
                final(self).value(other) == if other == slot@ {
                    Some(value)
                } else {
                    old(self).value(other)
                },
    {
        let ghost before = *self;
        match self.position(slot) {
            Some(index) => {
                self.values.set(index, value);
                proof {
                    assert forall|other: Seq<char>| other != slot@ implies #[trigger] self.value(
                        other,
                    ) == before.value(other) by {
                        lemma_slot_found(self.slots@, other, 0);
                        lemma_slot_found(self.slots@, slot@, 0);
                    }
                }
            },
            None => {
                self.slots.push(text::text_of(slot));
                self.values.push(value);
                proof {
                    assert forall|other: Seq<char>| #[trigger] self.value(other) == if other
                        == slot@ {
                        Some(value)
                    } else {
                        before.value(other)
                    } by {
                        lemma_slot_push(before.slots@, self.slots@, other, 0);
                        lemma_slot_found(before.slots@, other, 0);
                    }
                }
            },
        }
    }

    /// Returns the value of a slot.
    pub fn get(&self, slot: &str) -> (value: Option<T>)
        requires
            self.wf(),
        ensures
            value == self.value(slot@),
    {
        match self.position(slot) {
            Some(index) => Some(self.values[index]),
            None => None,
        }
    }
}

proof fn lemma_slot_found(slots: Seq<String>, slot: Seq<char>, from: int)
    requires
        0 <= from,
    ensures
        slot_index(slots, slot, from) matches Some(i) ==> from <= i < slots.len() && slots[i]@
            == slot,
    decreases slots.len() - from,
{
    if from < slots.len() {
        lemma_slot_found(slots, slot, from + 1);
    }
}

proof fn lemma_slot_push(before: Seq<String>, after: Seq<String>, slot: Seq<char>, from: int)
    requires
        0 <= from <= before.len(),
        after.len() == before.len() + 1,
        forall|i: int| 0 <= i < before.len() ==> #[trigger] after[i] == before[i],
    ensures
        slot_index(after, slot, from) == match slot_index(before, slot, from) {
            Some(i) => Some(i),
            None => if after.last()@ == slot {
                Some(before.len() as int)
            } else {
                None
            },
        },
    decreases before.len() - from,
{
    if from < before.len() {
        assert(after[from] == before[from]);
        lemma_slot_push(before, after, slot, from + 1);
    } else {
        assert(slot_index(after, slot, from + 1) is None);
    }
}

/// Planner-only fixed resources derived from a machine profile or host
/// firmware. These values never cross the user configuration boundary.
#[derive(Clone, Debug)]
pub struct FixedDeviceBindings {
    pub mmio: SlotTable<(u64, u64)>,
    pub pio: SlotTable<(u16, u16)>,
    pub wired: SlotTable<FixedWiredBinding>,
}

impl Default for FixedDeviceBindings {
    fn default() -> (bindings: Self)
        ensures
            bindings.wf(),
            forall|slot: Seq<char>| #[trigger] bindings.mmio.value(slot) is None,
            forall|slot: Seq<char>| #[trigger] bindings.pio.value(slot) is None,
            forall|slot: Seq<char>| #[trigger] bindings.wired.value(slot) is None,
    {
        FixedDeviceBindings { mmio: SlotTable::new(), pio: SlotTable::new(), wired: SlotTable::new() }
    }
}

impl FixedDeviceBindings {
    /// Every slot has its value.
    pub open spec fn wf(self) -> bool {
        self.mmio.wf() && self.pio.wf() && self.wired.wf()
    }

    /// Fixes a memory range.
    pub fn with_mmio(self, slot: &str, base: u64, size: u64) -> (bindings: Self)
        requires
            self.wf(),
        ensures
            bindings.wf(),
            forall|other: Seq<char>| #[trigger]
                bindings.mmio.value(other) == if other == slot@ {
                    Some((base, size))
                } else {
                    self.mmio.value(other)
                },
            bindings.pio == self.pio,
            bindings.wired == self.wired,
    {
        let mut bindings = self;
        bindings.mmio.insert(slot, (base, size));
        bindings
    }

    /// Fixes a port range.
    pub fn with_pio(self, slot: &str, base: u16, size: u16) -> (bindings: Self)
        requires
            self.wf(),
        ensures
            bindings.wf(),
            forall|other: Seq<char>| #[trigger]
                bindings.pio.value(other) == if other == slot@ {
                    Some((base, size))
                } else {
                    self.pio.value(other)
                },
            bindings.mmio == self.mmio,
            bindings.wired == self.wired,
    {
        let mut bindings = self;
        bindings.pio.insert(slot, (base, size));
        bindings
    }

    /// Fixes an interrupt line.
    pub fn with_wired(self, slot: &str, binding: FixedWiredBinding) -> (bindings: Self)
        requires
            self.wf(),
        ensures
            bindings.wf(),
            forall|other: Seq<char>| #[trigger]
                bindings.wired.value(other) == if other == slot@ {
                    Some(binding)
                } else {
                    self.wired.value(other)
                },
            bindings.mmio == self.mmio,
            bindings.pio == self.pio,
    {
        let mut bindings = self;
        bindings.wired.insert(slot, binding);
        bindings
    }

    /// Returns a fixed memory range.
    pub fn mmio(&self, slot: &str) -> (range: Option<(u64, u64)>)
        requires
            self.wf(),
        ensures
            range == self.mmio.value(slot@),
    {
        self.mmio.get(slot)
    }

    /// Returns a fixed port range.
    pub fn pio(&self, slot: &str) -> (range: Option<(u16, u16)>)
        requires
            self.wf(),
        ensures
            range == self.pio.value(slot@),
    {
        self.pio.get(slot)
    }

    /// Returns a fixed interrupt line.
    pub fn wired(&self, slot: &str) -> (binding: Option<FixedWiredBinding>)
        requires
            self.wf(),
        ensures
            binding == self.wired.value(slot@),
    {
        self.wired.get(slot)
    }
}

// ---------------------------------------------------------------------------
// Instantiation context
// ---------------------------------------------------------------------------

/// What a constructor may know about the VM that it builds for. The interrupt
/// controller, the firmware binding, the serial profile and the serial backend
/// factory are named by number; without a factory, serial output goes nowhere.
#[derive(Clone, Debug)]
pub struct DeviceInstantiationContext {
    pub vm_id: Option<usize>,
    pub default_wired_controller: Option<(DeviceNodeId, usize)>,
    pub fixed: FixedDeviceBindings,
    pub firmware_binding: Option<usize>,
    pub serial_profile: Option<usize>,
    pub serial_backend_factory: Option<usize>,
    pub host_console_by_default: bool,
}

impl Default for DeviceInstantiationContext {
    fn default() -> (context: Self)
        ensures
            context.vm_id is None,
            context.default_wired_controller is None,
            context.firmware_binding is None,
            context.serial_profile is None,
            context.serial_backend_factory is None,
            !context.host_console_by_default,
            context.fixed.wf(),
            forall|slot: Seq<char>| #[trigger] context.fixed.mmio.value(slot) is None,
            forall|slot: Seq<char>| #[trigger] context.fixed.pio.value(slot) is None,
            forall|slot: Seq<char>| #[trigger] context.fixed.wired.value(slot) is None,
    {
        DeviceInstantiationContext::new()
    }
}

impl DeviceInstantiationContext {
    /// Creates a context that knows nothing.
    pub fn new() -> (context: Self)
        ensures
            context.vm_id is None,
            context.default_wired_controller is None,
            context.firmware_binding is None,
            context.serial_profile is None,
            context.serial_backend_factory is None,
            !context.host_console_by_default,
            context.fixed.wf(),
            forall|slot: Seq<char>| #[trigger] context.fixed.mmio.value(slot) is None,
            forall|slot: Seq<char>| #[trigger] context.fixed.pio.value(slot) is None,
            forall|slot: Seq<char>| #[trigger] context.fixed.wired.value(slot) is None,
    {
        DeviceInstantiationContext {
            vm_id: None,
            default_wired_controller: None,
            fixed: FixedDeviceBindings::default(),
            firmware_binding: None,
            serial_profile: None,
            serial_backend_factory: None,
            host_console_by_default: false,
        }
    }

    /// Sets the VM.
    pub fn with_vm_id(self, vm_id: usize) -> (context: Self)
        ensures
            context == (DeviceInstantiationContext { vm_id: Some(vm_id), ..self }),
    {
        DeviceInstantiationContext { vm_id: Some(vm_id), ..self }
    }

    /// Returns the VM.
    pub fn vm_id(&self) -> (vm_id: Option<usize>)
        ensures
            vm_id == self.vm_id,
    {
        self.vm_id
    }

    /// Sets the controller of the default wired interrupt domain.
    pub fn with_default_wired_controller(self, node: DeviceNodeId, controller: usize) -> (context:
        Self)
        ensures
            context == (DeviceInstantiationContext {
                default_wired_controller: Some((node, controller)),
                ..self
            }),
    {
        DeviceInstantiationContext { default_wired_controller: Some((node, controller)), ..self }
    }

    /// Returns the controller of the default wired interrupt domain.
    pub fn default_wired_controller(&self) -> (controller: Option<usize>)
        ensures
            controller == match self.default_wired_controller {
                Some((_, controller)) => Some(controller),
                None => None,
            },
    {
        match &self.default_wired_controller {
            Some((_, controller)) => Some(*controller),
            None => None,
        }
    }

    /// Returns the graph node that must precede users of the default wired
    /// domain.
    pub fn default_wired_controller_node(&self) -> (node: Option<&DeviceNodeId>)
        ensures
            match node {
                Some(node) => self.default_wired_controller matches Some((own, _)) && own == *node,
                None => self.default_wired_controller is None,
            },
    {
        match &self.default_wired_controller {
            Some((node, _)) => Some(node),
            None => None,
        }
    }

    /// Returns the fixed resources.
    pub fn fixed_bindings(&self) -> (fixed: &FixedDeviceBindings)
        ensures
            *fixed == self.fixed,
    {
        &self.fixed
    }

    /// Sets the fixed resources.
    pub fn with_fixed_bindings(self, fixed: FixedDeviceBindings) -> (context: Self)
        ensures
            context == (DeviceInstantiationContext { fixed, ..self }),
    {
        DeviceInstantiationContext { fixed, ..self }
    }

    /// Returns the firmware binding.
    pub fn firmware_binding(&self) -> (binding: Option<usize>)
        ensures
            binding == self.firmware_binding,
    {
        self.firmware_binding
    }

    /// Sets what the serial devices of a VM get by default, together with their
    /// fixed resources and firmware binding.
    pub fn with_serial_defaults(
        self,
        profile: usize,
        backend_factory: usize,
        fixed: FixedDeviceBindings,
        firmware_binding: Option<usize>,
        host_console_by_default: bool,
    ) -> (context: Self)
        ensures
            context == (DeviceInstantiationContext {
                vm_id: self.vm_id,
                default_wired_controller: self.default_wired_controller,
                fixed,
                firmware_binding,
                serial_profile: Some(profile),
                serial_backend_factory: Some(backend_factory),
                host_console_by_default,
            }),
    {
        DeviceInstantiationContext {
            vm_id: self.vm_id,
            default_wired_controller: self.default_wired_controller,
            fixed,
            firmware_binding,
            serial_profile: Some(profile),
            serial_backend_factory: Some(backend_factory),
            host_console_by_default,
        }
    }

    /// Returns the serial profile.
    pub fn serial_profile(&self) -> (profile: Option<usize>)
        ensures
            profile == self.serial_profile,
    {
        self.serial_profile
    }

    /// Returns the serial backend factory.
    pub fn serial_backend_factory(&self) -> (factory: Option<usize>)
        ensures
            factory == self.serial_backend_factory,
    {
        self.serial_backend_factory
    }

    /// Returns whether serial devices use the host console by default.
    pub fn host_console_by_default(&self) -> (uses: bool)
        ensures
            uses == self.host_console_by_default,
    {
        self.host_console_by_default
    }
}

// ---------------------------------------------------------------------------
// Inter-VM shared memory
// ---------------------------------------------------------------------------

/// Options of an ivshmem endpoint: the link and the peer slot inside it.
#[derive(Clone, Copy, Debug, PartialEq, Eq, Structural)]
pub struct IvshmemPciOptions {
    pub link_id: u32,
    pub peer_id: u16,
}

/// The failure detail of a refused reservation.
pub open spec fn reserve_detail(vm_id: Option<usize>, message: Seq<char>) -> Seq<char> {
    match vm_id {
        Some(vm_id) => "vm "@ + text::dec_text(vm_id as nat) + ": "@ + message,
        None => message,
    }
}

/// Reserves the peer that an ivshmem request names.
///
/// `options` is the parsed options table, or why it cannot be parsed; a VM may
/// come without a link registry. `allocation` is the allocator's answer where
/// the registry needs host memory.
pub fn create_ivshmem_node(
    request: &VirtualDeviceRequest,
    options: Result<IvshmemPciOptions, String>,
    registry: &mut Option<IvshmemLinkRegistry>,
    vm_id: Option<usize>,
    allocation: Result<BackingAllocation, IvshmemError>,
) -> (reservation: Result<PeerReservation, ConfiguredDeviceError>)
    requires
        *old(registry) matches Some(registry) ==> registry.wf(),
    ensures
        *final(registry) matches Some(registry) ==> registry.wf(),
        match options {
            Err(detail) => *final(registry) == *old(registry) && (reservation matches Err(error)
                && error@ == (ConfiguredErrorView::InvalidOptions {
                device: request.id@,
                model: request.model@,
                detail: detail@,
            })),
            Ok(options) => match *old(registry) {
                None => *final(registry) is None && (reservation matches Err(error) && error@ == (
                ConfiguredErrorView::Instantiation {
                    device: request.id@,
                    model: request.model@,
                    detail: "no ivshmem link registry was injected into this VM"@,
                })),
                Some(links) => {
                    let outcome = link::reserve_outcome(
                        links.views(),
                        LinkId(options.link_id),
                        PeerId(options.peer_id),
                        (LinkProfile { max_peers: 2, common_size: 0, output_size: 0x7000 }),
                        allocation,
                    );
                    &&& *final(registry) matches Some(after) && after.views() == outcome.0
                        && after.effects() == links.effects() + link::discarded(
                        links.views(),
                        LinkId(options.link_id),
                        (LinkProfile { max_peers: 2, common_size: 0, output_size: 0x7000 }),
                        allocation,
                    )
                    &&& match reservation {
                        Ok(reservation) => outcome.1 is None && reservation == (PeerReservation {
                            link: LinkId(options.link_id),
                            peer: PeerId(options.peer_id),
                        }),
                        Err(error) => outcome.1 matches Some(fault) && error@ == (
                        ConfiguredErrorView::Instantiation {
                            device: request.id@,
                            model: request.model@,
                            detail: reserve_detail(vm_id, fault.message()),
                        }),
                    }
                },
            },
        },
{
    let options = match options {
        Ok(options) => options,
        Err(detail) => {
            return Err(
                ConfiguredDeviceError::InvalidOptions {
                    device: text::text_of(request.id.as_str()),
                    model: text::text_of(request.model.as_str()),
                    detail,
                },
            );
        },
    };
    match registry {
        None => Err(
            ConfiguredDeviceError::Instantiation {
                device: text::text_of(request.id.as_str()),
                model: text::text_of(request.model.as_str()),
                detail: text::text_of("no ivshmem link registry was injected into this VM"),
            },
        ),
        Some(links) => match links.reserve(options.link_id, options.peer_id, allocation) {
            Ok(reservation) => Ok(reservation),
            Err(error) => {
                let mut detail = String::new();
                if let Some(vm_id) = vm_id {
                    detail.append("vm ");
                    text::push_dec(&mut detail, vm_id as u64);
                    detail.append(": ");
                }
                let message = error.message();
                detail.append(message.as_str());
                assert(detail@ =~= reserve_detail(vm_id, error@.message()));
                Err(
                    ConfiguredDeviceError::Instantiation {
                        device: text::text_of(request.id.as_str()),
                        model: text::text_of(request.model.as_str()),
                        detail,
                    },
                )
            },
        },
    }
}

/// A model name is not empty and holds nothing but lower-case letters, digits,
/// hyphens and dots. A model is registered exactly under such a name that no entry
/// has yet; a bad name is reported before a name in use.
pub proof fn law_models_are_registered_under_new_valid_names(
    catalog: ConfiguredDeviceCatalog,
    name: Seq<char>,
    i: int,
)
    requires
        0 <= i < name.len(),
    ensures
        model_name_ok(name) ==> ('a' <= name[i] <= 'z') || ('0' <= name[i] <= '9') || name[i] == '-'
            || name[i] == '.',
        !model_name_ok(Seq::empty()),
        (forall|j: int|
            0 <= j < name.len() ==> ('a' <= #[trigger] name[j] <= 'z') || ('0' <= name[j] <= '9')
                || name[j] == '-' || name[j] == '.') ==> model_name_ok(name),
        catalog.register_fault(name) is None <==> model_name_ok(name) && forall|e: int|
            0 <= e < catalog.entries().len() ==> (#[trigger] catalog.entries()[e]).0 != name,
        !model_name_ok(name) ==> catalog.register_fault(name) == Some(
            ConfiguredErrorView::InvalidModelName { model: name },
        ),
        model_name_ok(name) && catalog.register_fault(name) is Some ==> catalog.register_fault(name)
            == Some(ConfiguredErrorView::DuplicateModel { model: name }),
{
    if model_name_ok(name) {
        assert(model_char(name[i]));
    }
    lemma_registered_entry(catalog.entries(), name, 0);
}

proof fn lemma_registered_entry(
    entries: Seq<(Seq<char>, RegisteredModel)>,
    name: Seq<char>,
    from: int,
)
    requires
        0 <= from <= entries.len(),
    ensures
        match registered(entries, name, from) {
            Some(model) => exists|e: int|
                from <= e < entries.len() && #[trigger] entries[e] == (name, model),
            None => forall|e: int|
                from <= e < entries.len() ==> (#[trigger] entries[e]).0 != name,
        },
    decreases entries.len() - from,
{
    if from < entries.len() {
        if entries[from].0 == name {
            assert(entries[from] == (name, entries[from].1));
        } else {
            lemma_registered_entry(entries, name, from + 1);
        }
    }
}

/// A model that a name finds is that of an entry with the name; a name finds none
/// exactly when no entry has it.
pub proof fn law_names_find_their_entry(catalog: ConfiguredDeviceCatalog, name: Seq<char>)
    ensures
        match catalog.model(name) {
            Some(model) => exists|e: int|
                0 <= e < catalog.entries().len() && #[trigger] catalog.entries()[e] == (
                    name,
                    model,
                ),
            None => forall|e: int|
                0 <= e < catalog.entries().len() ==> (#[trigger] catalog.entries()[e]).0 != name,
        },
{
    lemma_registered_entry(catalog.entries(), name, 0);
}

/// A request selects a model exactly when its identity is accepted, its model is
/// registered, and, where only platform models count, that model is one. What is
/// reported otherwise is the first of these that fails.
pub proof fn law_requests_select_registered_models(
    catalog: ConfiguredDeviceCatalog,
    request: VirtualDeviceRequest,
    checked: Result<DeviceNodeId, String>,
    platform_only: bool,
)
    ensures
        ({
            let fault = catalog.select_fault(request, checked, platform_only);
            let found = catalog.model(request.model@);
            &&& fault is None <==> checked is Ok && found is Some && (platform_only
                ==> found->0.attachment is Platform)
            &&& checked matches Err(detail) ==> fault == Some(
                ConfiguredErrorView::InvalidDeviceId { device: request.id@, detail: detail@ },
            )
            &&& checked is Ok && found is None ==> fault == Some(
                ConfiguredErrorView::UnknownVirtualDeviceModel { model: request.model@ },
            )
            &&& checked is Ok && found is Some && fault is Some ==> fault == Some(
                ConfiguredErrorView::ModelAttachmentMismatch {
                    device: request.id@,
                    model: request.model@,
                    expected: "platform"@,
                },
            )
        }),
{
}

/// Built-in models are platform models with the constructor and the resources of
/// their registration, in the order of the registrations.
pub proof fn law_built_in_models_attach_to_the_platform(
    registrations: Seq<ConfiguredModelRegistration>,
    i: int,
)
    requires
        0 <= i < registrations.len(),
    ensures
        platform_entries(registrations).len() == registrations.len(),
        platform_entries(registrations)[i].0 == registrations[i].model@,
        platform_entries(registrations)[i].1.attachment is Platform,
        platform_entries(registrations)[i].1.create == registrations[i].create,
        platform_entries(registrations)[i].1.default_fixed_resources
            == registrations[i].default_fixed_resources,
{
}

/// The detail of a refused reservation names the VM, if there is one, before the
/// message.
pub proof fn law_reservation_details_name_the_vm(vm_id: usize, message: Seq<char>)
    ensures
        reserve_detail(None, message) == message,
        reserve_detail(Some(vm_id), message) == "vm "@ + text::dec_text(vm_id as nat) + ": "@
            + message,
{
}

} // verus!
