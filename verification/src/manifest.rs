//! The manifest of an application package, in its two formats.

use vstd::prelude::*;
use emver::{Version, VersionRange};
use linear_map::LinearMap;
use std::path::PathBuf;
use crate::config::value::put;

verus! {

/// `emver::Version`, which is carried through as it is.
#[verifier::external_type_specification]
#[verifier::external_body]
pub struct ExVersion(Version);

/// `emver::VersionRange`, which is carried through as it is.
#[verifier::external_type_specification]
#[verifier::external_body]
pub struct ExVersionRange(VersionRange);

/// `std::path::PathBuf`, which is carried through as it is.
#[verifier::external_type_specification]
#[verifier::external_body]
pub struct ExPathBuf(PathBuf);

/// `linear_map::LinearMap`; what a map of network interfaces holds is
/// named by [`interface_entries`].
#[verifier::external_type_specification]
#[verifier::external_body]
#[verifier::reject_recursive_types(K)]
#[verifier::reject_recursive_types(V)]
pub struct ExLinearMap<K, V>(LinearMap<K, V>);

/// What an application is, in a line and at length.
#[derive(Debug, Clone)]
pub struct Description {
    pub short: String,
    pub long: String,
}

/// The format of the image in a package.
#[derive(Debug, Clone, Copy, PartialEq, Eq)]
pub enum ImageConfig {
    Tar,
}

/// A file of the package that is copied into the application's volume.
#[derive(Debug)]
pub struct Asset {
    pub src: PathBuf,
    pub dst: PathBuf,
    pub overwrite: bool,
}

/// A port that the application listens on, and the port under which the
/// hidden service shows it.
#[derive(Debug, Clone, Copy, PartialEq, Eq)]
pub struct PortMapping {
    pub internal: u16,
    pub tor: u16,
}

/// The version of the hidden service protocol.
#[derive(Debug, Clone, Copy, PartialEq, Eq)]
pub enum HiddenServiceVersion {
    V1,
    V2,
    V3,
}

/// How the hidden service is reached.
#[derive(Debug, Clone, Copy, PartialEq, Eq)]
pub enum HiddenServiceMode {
    Anonymous,
}

/// The hidden service of a network interface: `port_mapping` pairs each
/// port that the service shows under another number with that number.
#[derive(Debug, Clone, PartialEq, Eq)]
pub struct HiddenServiceConfig {
    pub version: HiddenServiceVersion,
    pub mode: HiddenServiceMode,
    pub port_mapping: Vec<(u16, u16)>,
}

/// Mathematical model of a [`HiddenServiceConfig`].
pub struct HiddenServiceConfigView {
    pub version: HiddenServiceVersion,
    pub mode: HiddenServiceMode,
    pub port_mapping: Seq<(u16, u16)>,
}

impl View for HiddenServiceConfig {
    type V = HiddenServiceConfigView;

    open spec fn view(&self) -> HiddenServiceConfigView {
        HiddenServiceConfigView {
            version: self.version,
            mode: self.mode,
            port_mapping: self.port_mapping@,
        }
    }
}

/// A unit of storage.
#[derive(Debug, Clone, Copy, PartialEq, Eq)]
pub enum ByteUnit {
    K,
    M,
    G,
}

/// An amount of storage.
#[derive(Debug, Clone, Copy, PartialEq, Eq)]
pub struct ByteSize {
    pub size: usize,
    pub units: ByteUnit,
}

/// What an application needs of another one.
#[derive(Debug)]
pub struct DepInfo {
    pub version: VersionRange,
    pub description: Option<String>,
}

/// What an application needs of other applications, by their names.
#[derive(Debug)]
pub struct Dependencies(pub Vec<(String, DepInfo)>);

/// The manifest in its first format.
#[derive(Debug)]
pub struct ManifestV0 {
    pub id: String,
    pub version: Version,
    pub title: String,
    pub description: Description,
    pub release_notes: String,
    pub has_instructions: bool,
    pub os_version_required: VersionRange,
    pub os_version_recommended: VersionRange,
    pub ports: Vec<PortMapping>,
    pub image: ImageConfig,
    pub shm_size_mb: Option<usize>,
    pub mount: PathBuf,
    pub public: Option<PathBuf>,
    pub shared: Option<PathBuf>,
    pub assets: Vec<Asset>,
    pub hidden_service_version: HiddenServiceVersion,
    pub dependencies: Dependencies,
}

/// How an application is packed and run.
#[derive(Debug)]
pub enum BundleInfo {
    Docker { image_format: ImageConfig, mount: PathBuf, shm_size: Option<ByteSize> },
}

/// One network interface of an application.
#[derive(Debug, Clone, PartialEq, Eq)]
pub struct NetworkInterface {
    pub name: String,
    pub ports: Vec<u16>,
    pub hidden_service: Option<HiddenServiceConfig>,
}

/// Mathematical model of a [`NetworkInterface`].
pub struct NetworkInterfaceView {
    pub name: Seq<char>,
    pub ports: Seq<u16>,
    pub hidden_service: Option<HiddenServiceConfigView>,
}

impl View for NetworkInterface {
    type V = NetworkInterfaceView;

    open spec fn view(&self) -> NetworkInterfaceView {
        NetworkInterfaceView {
            name: self.name@,
            ports: self.ports@,
            hidden_service: match self.hidden_service {
                Some(h) => Some(h@),
                None => None,
            },
        }
    }
}

/// The network interfaces of an application, by their names.
#[derive(Debug)]
pub struct NetworkInterfaces(pub LinearMap<String, NetworkInterface>);

/// The entries of a map of network interfaces, in the order in which it stores them.
pub uninterp spec fn interface_entries(m: LinearMap<String, NetworkInterface>) -> Seq<
    (Seq<char>, NetworkInterfaceView),
>;

/// `LinearMap::new`: a map without entries.
#[verifier::external_body]
fn interfaces_new() -> (res: LinearMap<String, NetworkInterface>)
    ensures
        interface_entries(res) == Seq::<(Seq<char>, NetworkInterfaceView)>::empty(),
{
    LinearMap::new()
}

/// `LinearMap::insert`: the value of an equal key is replaced where it
/// stands; a new key goes to the end.
#[verifier::external_body]
fn interfaces_insert(
    m: &mut LinearMap<String, NetworkInterface>,
    name: String,
    interface: NetworkInterface,
)
    ensures
        interface_entries(*final(m)) == put(interface_entries(*old(m)), name@, interface@),
{
    m.insert(name, interface);
}

impl View for NetworkInterfaces {
    type V = Seq<(Seq<char>, NetworkInterfaceView)>;

    open spec fn view(&self) -> Seq<(Seq<char>, NetworkInterfaceView)> {
        interface_entries(self.0)
    }
}

impl NetworkInterfaces {
    /// No interfaces.
    pub fn new() -> (res: NetworkInterfaces)
        ensures
            res@ == Seq::<(Seq<char>, NetworkInterfaceView)>::empty(),
    {
        NetworkInterfaces(interfaces_new())
    }

    /// Stores the interface under the name, in place of one that was stored
    /// under it before.
    pub fn insert(&mut self, name: String, interface: NetworkInterface)
        ensures
            final(self)@ == put(old(self)@, name@, interface@),
    {
        interfaces_insert(&mut self.0, name, interface)
    }
}

/// The manifest in its second format.
#[derive(Debug)]
pub struct ManifestV1 {
    pub id: String,
    pub version: Version,
    pub title: String,
    pub description: Description,
    pub release_notes: String,
    pub instructions: bool,
    pub os_version_required: VersionRange,
    pub os_version_recommended: VersionRange,
    pub network_interfaces: NetworkInterfaces,
    pub bundle_info: BundleInfo,
    pub public: Option<PathBuf>,
    pub shared: Option<PathBuf>,
    pub assets: Vec<Asset>,
    pub dependencies: Dependencies,
}

/// A manifest in either format.
#[derive(Debug)]
pub enum Manifest {
    V0(ManifestV0),
    V1(ManifestV1),
}

/// The ports of the application among the first `n` mappings, in their order.
pub open spec fn internal_ports(ports: Seq<PortMapping>, n: int) -> Seq<u16>
    decreases n,
{
    if n <= 0 {
        Seq::empty()
    } else {
        internal_ports(ports, n - 1).push(ports[n - 1].internal)
    }
}

/// The pairs of the first `n` mappings whose two ports differ, in their order.
pub open spec fn remapped_ports(ports: Seq<PortMapping>, n: int) -> Seq<(u16, u16)>
    decreases n,
{
    if n <= 0 {
        Seq::empty()
    } else if ports[n - 1].internal == ports[n - 1].tor {
        remapped_ports(ports, n - 1)
    } else {
        remapped_ports(ports, n - 1).push((ports[n - 1].internal, ports[n - 1].tor))
    }
}

/// The one network interface that stands for the ports of the first format:
/// it is called `Default`, has the ports of the application, and, unless there
/// are no ports, an anonymous hidden service of the given version that remaps
/// the ports which the service shows under another number.
pub open spec fn default_interface(ports: Seq<PortMapping>, version: HiddenServiceVersion)
    -> NetworkInterfaceView {
    NetworkInterfaceView {
        name: "Default"@,
        ports: internal_ports(ports, ports.len() as int),
        hidden_service: if ports.len() == 0 {
            None
        } else {
            Some(
                HiddenServiceConfigView {
                    version,
                    mode: HiddenServiceMode::Anonymous,
                    port_mapping: remapped_ports(ports, ports.len() as int),
                },
            )
        },
    }
}

/// The shared memory of the first format, which is counted in megabytes.
pub open spec fn megabytes(size: Option<usize>) -> Option<ByteSize> {
    match size {
        Some(n) => Some(ByteSize { size: n, units: ByteUnit::M }),
        None => None,
    }
}

impl Manifest {
    /// True when `latest` is this manifest in the second format. A manifest
    /// of the second format is itself. One of the first format keeps what
    /// both formats have; its ports become the one network interface
    /// `default` (see [`default_interface`]), and its image, mount and shared
    /// memory become the bundle.
    pub open spec fn converts_to(self, latest: ManifestV1) -> bool {
        match self {
            Manifest::V1(m) => latest == m,
            Manifest::V0(m) => {
                &&& latest.id == m.id
                &&& latest.version == m.version
                &&& latest.title == m.title
                &&& latest.description == m.description
                &&& latest.release_notes == m.release_notes
                &&& latest.instructions == m.has_instructions
                &&& latest.os_version_required == m.os_version_required
                &&& latest.os_version_recommended == m.os_version_recommended
                &&& latest.network_interfaces@ == seq![
                    ("default"@, default_interface(m.ports@, m.hidden_service_version)),
                ]
                &&& latest.bundle_info == (BundleInfo::Docker {
                    image_format: m.image,
                    mount: m.mount,
                    shm_size: megabytes(m.shm_size_mb),
                })
                &&& latest.public == m.public
                &&& latest.shared == m.shared
                &&& latest.assets == m.assets
                &&& latest.dependencies == m.dependencies
            },
        }
    }

    /// The manifest in the second format.
    pub fn into_latest(self) -> (res: ManifestV1)
        ensures
            self.converts_to(res),
    {
        match self {
            Manifest::V0(m) => {
                let mut ports: Vec<u16> = Vec::new();
                let mut port_mapping: Vec<(u16, u16)> = Vec::new();
                let mut i: usize = 0;
                while i < m.ports.len()
                    invariant
                        i <= m.ports.len(),
                        ports@ == internal_ports(m.ports@, i as int),
                        port_mapping@ == remapped_ports(m.ports@, i as int),
                    decreases m.ports.len() - i,
                {
                    let p = m.ports[i];
                    ports.push(p.internal);
                    if p.internal != p.tor {
                        port_mapping.push((p.internal, p.tor));
                    }
                    i += 1;
                }
                let hidden_service = if m.ports.len() == 0 {
                    None
                } else {
                    Some(
                        HiddenServiceConfig {
                            version: m.hidden_service_version,
                            mode: HiddenServiceMode::Anonymous,
                            port_mapping,
                        },
                    )
                };
                let interface = NetworkInterface {
                    name: "Default".to_owned(),
                    ports,
                    hidden_service,
                };
                let mut network_interfaces = NetworkInterfaces::new();
                network_interfaces.insert("default".to_owned(), interface);
                proof {
                    assert(network_interfaces@ =~= seq![
                        ("default"@, default_interface(m.ports@, m.hidden_service_version)),
                    ]);
                }
                ManifestV1 {
                    id: m.id,
                    version: m.version,
                    title: m.title,
                    description: m.description,
                    release_notes: m.release_notes,
                    instructions: m.has_instructions,
                    os_version_required: m.os_version_required,
                    os_version_recommended: m.os_version_recommended,
                    network_interfaces,
                    bundle_info: BundleInfo::Docker {
                        image_format: m.image,
                        mount: m.mount,
                        shm_size: match m.shm_size_mb {
                            Some(size) => Some(ByteSize { size, units: ByteUnit::M }),
                            None => None,
                        },
                    },
                    public: m.public,
                    shared: m.shared,
                    assets: m.assets,
                    dependencies: m.dependencies,
                }
            },
            Manifest::V1(m) => m,
        }
    }
}

} // verus!
