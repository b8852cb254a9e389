//! Container snapshots as the runtime adapter hands them to the core: id,
//! name, labels, attached networks, state and first-process pid. Each type
//! has a mathematical view that the contracts speak of.

use vstd::prelude::*;
use crate::ip::IpAddress;
use crate::routing::IpNetwork;
use crate::text::str_eq;
use vstd::string::StrSliceExecFns;

verus! {

/// Lifecycle state of a container, normalized to three values.
#[derive(Debug, Clone, Copy, PartialEq, Eq, Structural)]
pub enum ContainerState {
    Starting,
    Running,
    Stopped,
}

/// One network attachment of a container.
#[derive(Debug, Clone, PartialEq)]
pub struct NetworkInfo {
    pub name: String,
    pub ip_address: IpAddress,
    pub gateway: Option<IpAddress>,
    pub subnet: IpNetwork,
}

/// Mathematical view of a network attachment.
pub ghost struct NetworkInfoV {
    pub name: Seq<char>,
    pub ip_address: IpAddress,
    pub gateway: Option<IpAddress>,
    pub subnet: IpNetwork,
}

impl View for NetworkInfo {
    type V = NetworkInfoV;

    open spec fn view(&self) -> NetworkInfoV {
        NetworkInfoV {
            name: self.name@,
            ip_address: self.ip_address,
            gateway: self.gateway,
            subnet: self.subnet,
        }
    }
}

impl NetworkInfoV {
    /// A well-formed attachment, as the runtime reports it: the address and
    /// its subnet share a family, a present gateway shares it too, and the
    /// subnet contains the address. The runtime adapter is expected to uphold
    /// this; the routing decisions read only the name and the address and do
    /// not depend on it.
    pub open spec fn wf(self) -> bool {
        &&& self.ip_address.family() == self.subnet.family()
        &&& (self.gateway matches Some(g) ==> g.family() == self.ip_address.family())
        &&& self.subnet.contains_address(self.ip_address)
    }
}

/// An inspected container snapshot. Labels are held as key-value pairs; a
/// runtime never reports the same label key twice, and lookups take the first
/// match.
#[derive(Debug, Clone, PartialEq)]
pub struct ContainerInfo {
    pub id: String,
    pub name: String,
    pub labels: Vec<(String, String)>,
    pub networks: Vec<NetworkInfo>,
    pub state: ContainerState,
    pub pid: Option<i64>,
}

/// Mathematical view of a container snapshot.
pub ghost struct ContainerInfoV {
    pub id: Seq<char>,
    pub name: Seq<char>,
    pub labels: Seq<(Seq<char>, Seq<char>)>,
    pub networks: Seq<NetworkInfoV>,
    pub state: ContainerState,
    pub pid: Option<i64>,
}

impl View for ContainerInfo {
    type V = ContainerInfoV;

    open spec fn view(&self) -> ContainerInfoV {
        ContainerInfoV {
            id: self.id@,
            name: self.name@,
            labels: self.labels@.map_values(|p: (String, String)| (p.0@, p.1@)),
            networks: self.networks@.map_values(|n: NetworkInfo| n@),
            state: self.state,
            pid: self.pid,
        }
    }
}

/// A container start event as the loop receives it.
#[derive(Debug, Clone)]
pub struct ContainerStartEvent {
    pub container: ContainerInfo,
}

/// Index of the first label with the given key, or -1 if the key is absent.
pub open spec fn label_index(labels: Seq<(Seq<char>, Seq<char>)>, key: Seq<char>) -> int
    decreases labels.len(),
{
    if labels.len() == 0 {
        -1
    } else if labels[0].0 == key {
        0
    } else {
        let r = label_index(labels.subrange(1, labels.len() as int), key);
        if r < 0 {
            -1
        } else {
            r + 1
        }
    }
}

/// A label with the given key is present.
pub open spec fn has_label(labels: Seq<(Seq<char>, Seq<char>)>, key: Seq<char>) -> bool {
    label_index(labels, key) >= 0
}

/// The value of the first label with the given key; meaningful only when
/// `has_label` holds.
pub open spec fn label_value(labels: Seq<(Seq<char>, Seq<char>)>, key: Seq<char>) -> Seq<char> {
    if has_label(labels, key) {
        labels[label_index(labels, key)].1
    } else {
        Seq::empty()
    }
}

proof fn lemma_label_index_at(labels: Seq<(Seq<char>, Seq<char>)>, key: Seq<char>, i: int)
    requires
        0 <= i < labels.len(),
        labels[i].0 == key,
        forall|j: int| 0 <= j < i ==> labels[j].0 != key,
    ensures
        label_index(labels, key) == i,
    decreases labels.len(),
{
    if i > 0 {
        lemma_label_index_at(labels.subrange(1, labels.len() as int), key, i - 1);
    }
}

proof fn lemma_label_index_none(labels: Seq<(Seq<char>, Seq<char>)>, key: Seq<char>)
    requires
        forall|j: int| 0 <= j < labels.len() ==> labels[j].0 != key,
    ensures
        label_index(labels, key) == -1,
    decreases labels.len(),
{
    if labels.len() > 0 {
        lemma_label_index_none(labels.subrange(1, labels.len() as int), key);
    }
}

impl ContainerInfo {
    /// The value of the label with the given key, if any: the first match in
    /// label order.
    pub fn get_label<'a>(&'a self, key: &str) -> (r: Option<&'a String>)
        ensures
            match r {
                Some(v) => has_label(self@.labels, key@) && v@ == label_value(self@.labels, key@),
                None => !has_label(self@.labels, key@),
            },
    {
        let n = self.labels.len();
        let mut i: usize = 0;
        while i < n
            invariant
                n == self.labels@.len(),
                i <= n,
                forall|j: int| 0 <= j < i ==> self@.labels[j].0 != key@,
            decreases n - i,
        {
            if str_eq(self.labels[i].0.as_str(), key) {
                proof {
                    lemma_label_index_at(self@.labels, key@, i as int);
                }
                return Some(&self.labels[i].1);
            }
            i += 1;
        }
        proof {
            lemma_label_index_none(self@.labels, key@);
        }
        None
    }

    /// A label with the given key is present.
    pub fn has_label_key(&self, key: &str) -> (r: bool)
        ensures
            r == has_label(self@.labels, key@),
    {
        match self.get_label(key) {
            Some(_) => true,
            None => false,
        }
    }
}

/// Cloning helpers that carry the view across: contracts speak of views, so
/// a clone's contract says its view equals the original's.
pub fn clone_opt_string(o: &Option<String>) -> (r: Option<String>)
    ensures
        match r {
            Some(s) => o matches Some(os) && s@ == os@,
            None => o is None,
        },
{
    match o {
        Some(s) => Some(s.clone()),
        None => None,
    }
}

/// Clone a network attachment; the view is preserved.
pub fn clone_network_info(n: &NetworkInfo) -> (r: NetworkInfo)
    ensures
        r@ == n@,
{
    NetworkInfo {
        name: n.name.clone(),
        ip_address: n.ip_address,
        gateway: n.gateway,
        subnet: n.subnet,
    }
}

/// Clone a container snapshot; the view is preserved.
pub fn clone_container_info(c: &ContainerInfo) -> (r: ContainerInfo)
    ensures
        r@ == c@,
{
    let mut labels: Vec<(String, String)> = Vec::new();
    let nl = c.labels.len();
    let mut i: usize = 0;
    while i < nl
        invariant
            nl == c.labels@.len(),
            i <= nl,
            labels@.len() == i,
            forall|j: int|
                0 <= j < i ==> labels@[j].0@ == c.labels@[j].0@ && labels@[j].1@ == c.labels@[j].1@,
        decreases nl - i,
    {
        labels.push((c.labels[i].0.clone(), c.labels[i].1.clone()));
        i += 1;
    }
    let mut networks: Vec<NetworkInfo> = Vec::new();
    let nn = c.networks.len();
    let mut k: usize = 0;
    while k < nn
        invariant
            nn == c.networks@.len(),
            k <= nn,
            networks@.len() == k,
            forall|j: int| 0 <= j < k ==> networks@[j]@ == c.networks@[j]@,
        decreases nn - k,
    {
        networks.push(clone_network_info(&c.networks[k]));
        k += 1;
    }
    let r = ContainerInfo {
        id: c.id.clone(),
        name: c.name.clone(),
        labels,
        networks,
        state: c.state,
        pid: c.pid,
    };
    proof {
        assert(r@.labels =~= c@.labels);
        assert(r@.networks =~= c@.networks);
    }
    r
}

} // verus!

verus! {

/// Normalization of a runtime state code to the three-valued state:
/// `running` is running; `created` and `restarting` are starting; everything
/// else — paused, exited, dead, unknown — is stopped.
pub open spec fn spec_state_from_code(code: Seq<char>) -> ContainerState {
    if code == "running"@ {
        ContainerState::Running
    } else if code == "created"@ || code == "restarting"@ {
        ContainerState::Starting
    } else {
        ContainerState::Stopped
    }
}

/// Normalize a runtime state code, as `spec_state_from_code` states it.
pub fn state_from_code(code: &str) -> (r: ContainerState)
    ensures
        r == spec_state_from_code(code@),
{
    if str_eq(code, "running") {
        ContainerState::Running
    } else if str_eq(code, "created") || str_eq(code, "restarting") {
        ContainerState::Starting
    } else {
        ContainerState::Stopped
    }
}

/// Normalization of the inspect-level state flags: a running container is
/// running, a restarting one is starting, anything else is stopped.
pub fn state_from_flags(running: bool, restarting: bool) -> (r: ContainerState)
    ensures
        r == (if running {
            ContainerState::Running
        } else if restarting {
            ContainerState::Starting
        } else {
            ContainerState::Stopped
        }),
{
    if running {
        ContainerState::Running
    } else if restarting {
        ContainerState::Starting
    } else {
        ContainerState::Stopped
    }
}

/// `s` with every leading `/` removed. The runtime reports container names
/// with a leading slash; the core uses the bare name.
pub open spec fn spec_strip_slashes(s: Seq<char>) -> Seq<char>
    decreases s.len(),
{
    if s.len() > 0 && s[0] == '/' {
        spec_strip_slashes(s.subrange(1, s.len() as int))
    } else {
        s
    }
}

/// Strip the runtime's leading slashes from a container name.
pub fn strip_name_slashes(s: &str) -> (r: &str)
    ensures
        r@ == spec_strip_slashes(s@),
{
    let len = s.unicode_len();
    let mut a: usize = 0;
    while a < len && s.get_char(a) == '/'
        invariant
            len == s@.len(),
            a <= len,
            forall|j: int| 0 <= j < a ==> s@[j] == '/',
        decreases len - a,
    {
        a += 1;
    }
    let r = s.substring_char(a, len);
    proof {
        lemma_strip_slashes_at(s@, a as int);
    }
    r
}

proof fn lemma_strip_slashes_at(s: Seq<char>, a: int)
    requires
        0 <= a <= s.len(),
        forall|j: int| 0 <= j < a ==> s[j] == '/',
        a < s.len() ==> s[a] != '/',
    ensures
        spec_strip_slashes(s) == s.subrange(a, s.len() as int),
    decreases a,
{
    if a == 0 {
        assert(s.subrange(0, s.len() as int) =~= s);
    } else {
        let sub = s.subrange(1, s.len() as int);
        lemma_strip_slashes_at(sub, a - 1);
        assert(sub.subrange(a - 1, sub.len() as int) =~= s.subrange(a, s.len() as int));
    }
}

} // verus!
