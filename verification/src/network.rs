//! Network resolution: pick the one IP address of a container that should
//! serve as a gateway, honoring an optional preferred-network name, and the
//! plain-data views of namespaces and network analyses the daemon hands
//! around. The namespace and runtime I/O around these decisions lives outside
//! the crate.

use vstd::prelude::*;
use vstd::string::StringExecFns;
use crate::container::{has_label, label_value, ContainerInfo, ContainerInfoV, ContainerState, NetworkInfo, NetworkInfoV};
use crate::error::NetworkError;
use crate::ip::IpAddress;
use crate::text::str_eq;

verus! {

/// Network namespace handle: the filesystem path of a container's network
/// namespace together with the container it belongs to.
#[derive(Debug, Clone)]
pub struct NetworkNamespace {
    pub path: String,
    pub container_id: String,
}

/// Index of the first attachment with the given network name, or -1.
pub open spec fn find_network(networks: Seq<NetworkInfoV>, name: Seq<char>) -> int
    decreases networks.len(),
{
    if networks.len() == 0 {
        -1
    } else if networks[0].name == name {
        0
    } else {
        let r = find_network(networks.subrange(1, networks.len() as int), name);
        if r < 0 {
            -1
        } else {
            r + 1
        }
    }
}

proof fn lemma_find_network_at(networks: Seq<NetworkInfoV>, name: Seq<char>, i: int)
    requires
        0 <= i < networks.len(),
        networks[i].name == name,
        forall|j: int| 0 <= j < i ==> networks[j].name != name,
    ensures
        find_network(networks, name) == i,
    decreases networks.len(),
{
    if i > 0 {
        lemma_find_network_at(networks.subrange(1, networks.len() as int), name, i - 1);
    }
}

proof fn lemma_find_network_none(networks: Seq<NetworkInfoV>, name: Seq<char>)
    requires
        forall|j: int| 0 <= j < networks.len() ==> networks[j].name != name,
    ensures
        find_network(networks, name) == -1,
    decreases networks.len(),
{
    if networks.len() > 0 {
        lemma_find_network_none(networks.subrange(1, networks.len() as int), name);
    }
}

/// `find_network` is -1 or the first matching position.
pub proof fn lemma_find_network_props(networks: Seq<NetworkInfoV>, name: Seq<char>)
    ensures
        find_network(networks, name) == -1 ==> forall|j: int|
            0 <= j < networks.len() ==> networks[j].name != name,
        find_network(networks, name) >= 0 ==> {
            &&& find_network(networks, name) < networks.len()
            &&& networks[find_network(networks, name)].name == name
            &&& forall|j: int| 0 <= j < find_network(networks, name) ==> networks[j].name != name
        },
    decreases networks.len(),
{
    if networks.len() > 0 && networks[0].name != name {
        let sub = networks.subrange(1, networks.len() as int);
        lemma_find_network_props(sub, name);
        if find_network(sub, name) >= 0 {
            assert forall|j: int| 0 <= j < find_network(networks, name) implies networks[j].name
                != name by {
                if j > 0 {
                    assert(sub[j - 1].name != name);
                }
            }
        } else {
            assert forall|j: int| 0 <= j < networks.len() implies networks[j].name != name by {
                if j > 0 {
                    assert(sub[j - 1].name != name);
                }
            }
        }
    }
}

/// Verdict of selecting one network from a list.
pub ghost enum SelectionV {
    /// The attachment at this index was chosen.
    Chosen(int),
    /// The list is empty.
    NoNetworks,
    /// A preferred name was given but no attachment carries it.
    PreferredMissing,
    /// Several attachments but no preference to pick by.
    NoPreference,
}

/// What selecting by preference yields: the first attachment with the
/// preferred name; without a preference, the single attachment, if single.
pub open spec fn spec_select_network(networks: Seq<NetworkInfoV>, preference: Option<Seq<char>>)
    -> SelectionV {
    if networks.len() == 0 {
        SelectionV::NoNetworks
    } else {
        match preference {
            Option::Some(p) => {
                let i = find_network(networks, p);
                if i >= 0 {
                    SelectionV::Chosen(i)
                } else {
                    SelectionV::PreferredMissing
                }
            },
            Option::None => {
                if networks.len() == 1 {
                    SelectionV::Chosen(0)
                } else {
                    SelectionV::NoPreference
                }
            },
        }
    }
}

/// First attachment with the given name, if any.
fn find_network_exec<'a>(networks: &'a Vec<NetworkInfo>, name: &str) -> (r: Option<
    &'a NetworkInfo,
>)
    ensures
        match r {
            Some(net) => {
                &&& find_network(networks@.map_values(|n: NetworkInfo| n@), name@) >= 0
                &&& net@ == networks@.map_values(|n: NetworkInfo| n@)[find_network(
                    networks@.map_values(|n: NetworkInfo| n@),
                    name@,
                )]
            },
            None => find_network(networks@.map_values(|n: NetworkInfo| n@), name@) == -1,
        },
{
    let ghost nv = networks@.map_values(|n: NetworkInfo| n@);
    let len = networks.len();
    let mut i: usize = 0;
    while i < len
        invariant
            len == networks@.len(),
            nv == networks@.map_values(|n: NetworkInfo| n@),
            i <= len,
            forall|j: int| 0 <= j < i ==> nv[j].name != name@,
        decreases len - i,
    {
        if str_eq(networks[i].name.as_str(), name) {
            proof {
                lemma_find_network_at(nv, name@, i as int);
            }
            return Some(&networks[i]);
        }
        i += 1;
    }
    proof {
        lemma_find_network_none(nv, name@);
    }
    None
}

/// Select the attachment to use: the preferred one when a preference is
/// given, the single one when there is exactly one, an error otherwise. This
/// list-level helper has no container in scope, so its errors carry the
/// generic operation-failed kind; the container-level resolver raises the
/// distinct per-reason kinds.
pub fn select_network_by_preference<'a>(
    networks: &'a Vec<NetworkInfo>,
    preference: Option<&str>,
) -> (r: Result<&'a NetworkInfo, NetworkError>)
    ensures
        match r {
            Ok(net) => spec_select_network(
                networks@.map_values(|n: NetworkInfo| n@),
                match preference {
                    Some(p) => Some(p@),
                    None => None,
                },
            ) matches SelectionV::Chosen(i) && net@ == networks@.map_values(
                |n: NetworkInfo| n@,
            )[i],
            Err(e) => {
                &&& !(spec_select_network(
                    networks@.map_values(|n: NetworkInfo| n@),
                    match preference {
                        Some(p) => Some(p@),
                        None => None,
                    },
                ) is Chosen)
                &&& e matches NetworkError::OperationFailed(_)
            },
        },
{
    if networks.len() == 0 {
        return Err(NetworkError::OperationFailed(String::from_str("No networks available")));
    }
    match preference {
        Some(preferred) => match find_network_exec(networks, preferred) {
            Some(net) => Ok(net),
            None => Err(
                NetworkError::OperationFailed(String::from_str("Preferred network not found")),
            ),
        },
        None => {
            if networks.len() > 1 {
                return Err(
                    NetworkError::OperationFailed(
                        String::from_str(
                            "Multiple networks available but no preference specified",
                        ),
                    ),
                );
            }
            Ok(&networks[0])
        },
    }
}

/// Resolve one IP from a list of attachments: the named network's address if
/// a name is given, the single attachment's address otherwise.
pub fn resolve_container_ip(
    networks: &Vec<NetworkInfo>,
    network: Option<&str>,
    container_id: &str,
) -> (r: Result<IpAddress, NetworkError>)
    ensures
        ({
            let nv = networks@.map_values(|n: NetworkInfo| n@);
            match r {
                Ok(ip) => {
                    &&& nv.len() > 0
                    &&& match network {
                        Some(name) => find_network(nv, name@) >= 0 && ip == nv[find_network(
                            nv,
                            name@,
                        )].ip_address,
                        None => nv.len() == 1 && ip == nv[0].ip_address,
                    }
                },
                Err(e) => match e {
                    NetworkError::NetworkNotFound { container_id: cid } => {
                        &&& cid@ == container_id@
                        &&& (nv.len() == 0 || (network matches Some(name) && find_network(
                            nv,
                            name@,
                        ) == -1))
                    },
                    NetworkError::MultipleNetworksExist { container_id: cid } => {
                        &&& cid@ == container_id@
                        &&& network is None
                        &&& nv.len() > 1
                    },
                    _ => false,
                },
            }
        }),
{
    if networks.len() == 0 {
        return Err(
            NetworkError::NetworkNotFound { container_id: String::from_str(container_id) },
        );
    }
    if let Some(network_name) = network {
        return match find_network_exec(networks, network_name) {
            Some(net) => Ok(net.ip_address),
            None => Err(
                NetworkError::NetworkNotFound { container_id: String::from_str(container_id) },
            ),
        };
    }
    if networks.len() == 1 {
        return Ok(networks[0].ip_address);
    }
    Err(NetworkError::MultipleNetworksExist { container_id: String::from_str(container_id) })
}

/// Verdict of resolving a warp container's gateway address.
pub ghost enum ResolutionV {
    /// This address was resolved.
    Resolved(IpAddress),
    /// The container has no attached network.
    NoNetwork,
    /// The preference label names a network that is not attached.
    PreferredMissing,
    /// Several networks are attached and no preference label is set.
    NoPreference,
}

/// What resolving with the preference label yields. A single attachment wins
/// outright; several attachments need the label, and the label must name an
/// attached network.
pub open spec fn spec_resolve_with_preference(c: ContainerInfoV, label: Seq<char>)
    -> ResolutionV {
    if c.networks.len() == 0 {
        ResolutionV::NoNetwork
    } else if has_label(c.labels, label) {
        if c.networks.len() > 1 {
            let i = find_network(c.networks, label_value(c.labels, label));
            if i >= 0 {
                ResolutionV::Resolved(c.networks[i].ip_address)
            } else {
                ResolutionV::PreferredMissing
            }
        } else {
            ResolutionV::Resolved(c.networks[0].ip_address)
        }
    } else {
        if c.networks.len() > 1 {
            ResolutionV::NoPreference
        } else {
            ResolutionV::Resolved(c.networks[0].ip_address)
        }
    }
}

/// Resolve the gateway address of a container from its snapshot, honoring
/// the network preference label.
pub fn resolve_container_ip_with_preference(container: &ContainerInfo, network_preference_label: &str)
    -> (r: Result<IpAddress, NetworkError>)
    ensures
        match r {
            Ok(ip) => spec_resolve_with_preference(container@, network_preference_label@)
                == ResolutionV::Resolved(ip),
            Err(e) => match spec_resolve_with_preference(container@, network_preference_label@) {
                ResolutionV::Resolved(_) => false,
                ResolutionV::NoNetwork => e matches NetworkError::NetworkNotFound {
                    container_id,
                } && container_id@ == container@.id,
                ResolutionV::PreferredMissing => e
                    matches NetworkError::PreferredNetworkMissing { container_id }
                    && container_id@ == container@.id,
                ResolutionV::NoPreference => e matches NetworkError::NoPreference {
                    container_id,
                } && container_id@ == container@.id,
            },
        },
{
    let ghost cv = container@;
    if container.networks.len() == 0 {
        return Err(NetworkError::NetworkNotFound { container_id: container.id.clone() });
    }
    match container.get_label(network_preference_label) {
        Some(preferred) => {
            if container.networks.len() > 1 {
                match find_network_exec(&container.networks, preferred.as_str()) {
                    Some(net) => Ok(net.ip_address),
                    None => Err(
                        NetworkError::PreferredNetworkMissing {
                            container_id: container.id.clone(),
                        },
                    ),
                }
            } else {
                Ok(container.networks[0].ip_address)
            }
        },
        None => {
            if container.networks.len() > 1 {
                return Err(
                    NetworkError::NoPreference { container_id: container.id.clone() },
                );
            }
            Ok(container.networks[0].ip_address)
        },
    }
}

/// Resolver totality: a container with at least one network whose preference
/// label is set and names an attached network always resolves, and the
/// resolved address is one of the container's attachment addresses.
pub proof fn lemma_resolver_totality(c: ContainerInfoV, label: Seq<char>)
    requires
        c.networks.len() >= 1,
        has_label(c.labels, label),
        exists|i: int|
            0 <= i < c.networks.len() && c.networks[i].name == label_value(c.labels, label),
    ensures
        spec_resolve_with_preference(c, label) matches ResolutionV::Resolved(ip) && exists|i: int|
            0 <= i < c.networks.len() && c.networks[i].ip_address == ip,
{
    if c.networks.len() > 1 {
        let w = choose|i: int|
            0 <= i < c.networks.len() && c.networks[i].name == label_value(c.labels, label);
        lemma_find_network_props(c.networks, label_value(c.labels, label));
        if find_network(c.networks, label_value(c.labels, label)) == -1 {
            assert(c.networks[w].name != label_value(c.labels, label));
        }
        let f = find_network(c.networks, label_value(c.labels, label));
        assert(spec_resolve_with_preference(c, label) == ResolutionV::Resolved(
            c.networks[f].ip_address,
        ));
    } else {
        assert(spec_resolve_with_preference(c, label) == ResolutionV::Resolved(
            c.networks[0].ip_address,
        ));
    }
}

/// Summary of a container's network situation.
#[derive(Debug, Clone)]
pub struct ContainerNetworkAnalysis {
    pub container_id: String,
    pub container_name: String,
    pub networks: Vec<NetworkInfo>,
    pub has_multiple_networks: bool,
    pub network_names: Vec<String>,
    pub labels: Vec<(String, String)>,
}

/// Analyze a container snapshot: list its attachments and their names, note
/// whether there are several, and carry the labels along.
pub fn analyze_container_networks(container: &ContainerInfo) -> (r: ContainerNetworkAnalysis)
    ensures
        r.container_id@ == container@.id,
        r.container_name@ == container@.name,
        r.networks@.map_values(|n: NetworkInfo| n@) == container@.networks,
        r.has_multiple_networks == (container@.networks.len() > 1),
        r.network_names@.map_values(|s: String| s@) == container@.networks.map_values(
            |n: NetworkInfoV| n.name,
        ),
        r.labels@.map_values(|p: (String, String)| (p.0@, p.1@)) == container@.labels,
{
    let cloned = crate::container::clone_container_info(container);
    let n = cloned.networks.len();
    let mut network_names: Vec<String> = Vec::new();
    let mut i: usize = 0;
    while i < n
        invariant
            n == cloned.networks@.len(),
            i <= n,
            network_names@.len() == i,
            forall|j: int| 0 <= j < i ==> network_names@[j]@ == cloned.networks@[j]@.name,
        decreases n - i,
    {
        network_names.push(cloned.networks[i].name.clone());
        i += 1;
    }
    let has_multiple_networks = cloned.networks.len() > 1;
    let r = ContainerNetworkAnalysis {
        container_id: cloned.id,
        container_name: cloned.name,
        networks: cloned.networks,
        has_multiple_networks,
        network_names,
        labels: cloned.labels,
    };
    proof {
        assert(r.network_names@.map_values(|s: String| s@) =~= container@.networks.map_values(
            |nv: NetworkInfoV| nv.name,
        ));
    }
    r
}

/// The pid to enter a container's namespace through: the container must be
/// running, report a pid, and the pid must fit an unsigned 32-bit value.
pub fn get_container_pid(container: &ContainerInfo) -> (r: Result<u32, NetworkError>)
    ensures
        match r {
            Ok(pid) => {
                &&& container@.state == ContainerState::Running
                &&& container@.pid == Some(pid as i64)
                &&& pid as i64 >= 0
            },
            Err(e) => {
                &&& (container@.state != ContainerState::Running || container@.pid is None || (
                container@.pid matches Some(p) && (p < 0 || p > u32::MAX as i64)))
                &&& e matches NetworkError::OperationFailed(_)
            },
        },
{
    match container.state {
        ContainerState::Running => (),
        _ => {
            return Err(NetworkError::OperationFailed(String::from_str("Container is not running")));
        },
    }
    let pid = match container.pid {
        Some(p) => p,
        None => {
            return Err(
                NetworkError::OperationFailed(String::from_str("Container has no PID information")),
            );
        },
    };
    if pid < 0 || pid > u32::MAX as i64 {
        return Err(NetworkError::OperationFailed(String::from_str("Container has invalid PID")));
    }
    Ok(pid as u32)
}

/// Network discovery helper.
pub struct NetworkDiscovery;

impl NetworkDiscovery {
    /// A discovery helper.
    pub fn new() -> (r: Self) {
        NetworkDiscovery
    }

    /// The preferred attachment if a preference is given, else the first.
    pub fn select_network<'a>(
        &self,
        networks: &'a Vec<NetworkInfo>,
        preference: Option<&str>,
    ) -> (r: Option<&'a NetworkInfo>)
        ensures
            ({
                let nv = networks@.map_values(|n: NetworkInfo| n@);
                match r {
                    Some(net) => match preference {
                        Some(p) => find_network(nv, p@) >= 0 && net@ == nv[find_network(nv, p@)],
                        None => nv.len() > 0 && net@ == nv[0],
                    },
                    None => match preference {
                        Some(p) => find_network(nv, p@) == -1,
                        None => nv.len() == 0,
                    },
                }
            }),
    {
        match preference {
            Some(preferred) => find_network_exec(networks, preferred),
            None => {
                if networks.len() > 0 {
                    Some(&networks[0])
                } else {
                    None
                }
            },
        }
    }
}

} // verus!
