//! The REST backend of a virtualization host: the requests it takes and the
//! mapping of its records onto nodes and workloads. The transport itself
//! lives with the caller; everything decided about the answers is here.

use vstd::prelude::*;
use vstd::string::StringExecFns;
use crate::models::{Container, ContainerStatus, ContainerType, Node, NodeStatus};
use crate::text::{decimal, decimal_string, same_text};

verus! {

/// Seconds a whole request may take.
pub const REQUEST_TIMEOUT_SECS: u64 = 10;

/// Seconds a connection may take to open.
pub const CONNECT_TIMEOUT_SECS: u64 = 5;

/// One host as the host listing reports it.
pub struct HostRecord {
    pub node: String,
    pub status: String,
}

/// Memory figures of a host, in bytes.
pub struct MemoryRecord {
    pub total: u64,
    pub used: u64,
}

/// A host's status answer; CPU in hundredths of a percent.
pub struct HostStatusRecord {
    pub cpu: Option<u64>,
    pub memory: Option<MemoryRecord>,
    pub uptime: Option<u64>,
}

/// One virtual machine or container as a guest listing reports it; CPU in
/// hundredths of a percent.
pub struct GuestRecord {
    pub vmid: u32,
    pub name: Option<String>,
    pub status: String,
    pub cpu: Option<u64>,
    pub mem: Option<u64>,
    pub maxmem: Option<u64>,
    pub uptime: Option<u64>,
}

pub open spec fn or_zero(v: Option<u64>) -> u64 {
    match v {
        Some(x) => x,
        None => 0,
    }
}

fn value_or_zero(v: Option<u64>) -> (r: u64)
    ensures
        r == or_zero(v),
{
    match v {
        Some(x) => x,
        None => 0,
    }
}

/// The status word of a host that answers.
pub fn is_online(status: &str) -> (r: bool)
    ensures
        r == (status@ == "online"@),
{
    same_text(status, "online")
}

/// The status word of a running guest.
pub fn is_running(status: &str) -> (r: bool)
    ensures
        r == (status@ == "running"@),
{
    same_text(status, "running")
}

/// The host listing.
pub fn nodes_url(base: &str) -> (r: String)
    ensures
        r@ == base@ + "/api2/json/nodes"@,
{
    let mut r = String::from_str(base);
    r.append("/api2/json/nodes");
    r
}

fn node_url(base: &str, node: &str, tail: &str) -> (r: String)
    ensures
        r@ == base@ + "/api2/json/nodes/"@ + node@ + tail@,
{
    let mut r = String::from_str(base);
    r.append("/api2/json/nodes/");
    r.append(node);
    r.append(tail);
    r
}

/// The status of one host.
pub fn node_status_url(base: &str, node: &str) -> (r: String)
    ensures
        r@ == base@ + "/api2/json/nodes/"@ + node@ + "/status"@,
{
    node_url(base, node, "/status")
}

/// The listing of one kind of guest on one host.
pub fn guests_url(base: &str, node: &str, kind: ContainerType) -> (r: String)
    ensures
        r@ == base@ + "/api2/json/nodes/"@ + node@ + match kind {
            ContainerType::VM => "/qemu"@,
            ContainerType::LXC => "/lxc"@,
        },
{
    match kind {
        ContainerType::VM => node_url(base, node, "/qemu"),
        ContainerType::LXC => node_url(base, node, "/lxc"),
    }
}

/// The value of the authorization header for an API token.
pub fn auth_header(token_id: &str, token_secret: &str) -> (r: String)
    ensures
        r@ == "PVEAPIToken="@ + token_id@ + "="@ + token_secret@,
{
    let mut r = String::from_str("PVEAPIToken=");
    r.append(token_id);
    r.append("=");
    r.append(token_secret);
    r
}

/// The node for a listed host. `status` is the host's status answer; it is
/// read only for a host that is online, and a missing answer or missing
/// figures count as 0.
pub fn node_from_record(host: HostRecord, status: Option<HostStatusRecord>) -> (r: Node)
    ensures
        r.name@ == host.node@,
        r.status == (if host.status@ == "online"@ {
            NodeStatus::Online
        } else {
            NodeStatus::Offline
        }),
        host.status@ == "online"@ && status is Some ==> {
            let s = status->0;
            &&& r.cpu_usage == or_zero(s.cpu)
            &&& r.memory_used == (match s.memory {
                Some(m) => m.used,
                None => 0,
            })
            &&& r.memory_total == (match s.memory {
                Some(m) => m.total,
                None => 0,
            })
            &&& r.uptime == or_zero(s.uptime)
        },
        !(host.status@ == "online"@ && status is Some) ==> r.cpu_usage == 0 && r.memory_used == 0
            && r.memory_total == 0 && r.uptime == 0,
{
    let online = is_online(host.status.as_str());
    let (cpu, used, total, uptime) = match status {
        Some(s) if online => {
            let (used, total) = match s.memory {
                Some(m) => (m.used, m.total),
                None => (0, 0),
            };
            (value_or_zero(s.cpu), used, total, value_or_zero(s.uptime))
        },
        _ => (0, 0, 0, 0),
    };
    Node {
        name: host.node,
        status: if online {
            NodeStatus::Online
        } else {
            NodeStatus::Offline
        },
        cpu_usage: cpu,
        memory_used: used,
        memory_total: total,
        uptime,
    }
}

/// The name a guest without one is shown under: "VM <id>" or "CT <id>".
pub open spec fn default_guest_name(kind: ContainerType, vmid: u32) -> Seq<char> {
    match kind {
        ContainerType::VM => "VM "@ + decimal(vmid as nat),
        ContainerType::LXC => "CT "@ + decimal(vmid as nat),
    }
}

/// `c` is the workload for guest record `rec` of kind `kind` on host
/// `node`: a missing name is replaced by the default one, the status is
/// Running exactly for "running", and missing figures count as 0.
pub open spec fn normalized(c: Container, rec: GuestRecord, node: Seq<char>, kind: ContainerType) -> bool {
    &&& c.vmid == rec.vmid
    &&& c.name@ == (match rec.name {
        Some(n) => n@,
        None => default_guest_name(kind, rec.vmid),
    })
    &&& c.node@ == node
    &&& c.container_type == kind
    &&& c.status == (if rec.status@ == "running"@ {
        ContainerStatus::Running
    } else {
        ContainerStatus::Stopped
    })
    &&& c.cpu_usage == or_zero(rec.cpu)
    &&& c.memory_used == or_zero(rec.mem)
    &&& c.memory_max == or_zero(rec.maxmem)
    &&& c.uptime == or_zero(rec.uptime)
}

/// The workload for a listed guest of kind `kind` on host `node`.
pub fn container_from_record(rec: GuestRecord, node: &str, kind: ContainerType) -> (r: Container)
    ensures
        normalized(r, rec, node@, kind),
{
    let running = is_running(rec.status.as_str());
    let name = match rec.name {
        Some(n) => n,
        None => {
            let mut n = match kind {
                ContainerType::VM => String::from_str("VM "),
                ContainerType::LXC => String::from_str("CT "),
            };
            n.append(decimal_string(rec.vmid as u64).as_str());
            n
        },
    };
    Container {
        vmid: rec.vmid,
        name,
        node: String::from_str(node),
        container_type: kind,
        status: if running {
            ContainerStatus::Running
        } else {
            ContainerStatus::Stopped
        },
        cpu_usage: value_or_zero(rec.cpu),
        memory_used: value_or_zero(rec.mem),
        memory_max: value_or_zero(rec.maxmem),
        uptime: value_or_zero(rec.uptime),
    }
}

pub open spec fn listed(recs: Option<Vec<GuestRecord>>) -> Seq<GuestRecord> {
    match recs {
        Some(v) => v@,
        None => Seq::empty(),
    }
}

/// The workloads of host `node`: its virtual machines, then its containers.
/// A listing that failed (`None`) adds nothing.
pub fn host_containers(
    node: &str,
    vms: Option<Vec<GuestRecord>>,
    cts: Option<Vec<GuestRecord>>,
) -> (r: Vec<Container>)
    ensures
        r@.len() == listed(vms).len() + listed(cts).len(),
        forall|i: int|
            0 <= i < listed(vms).len() ==> normalized(
                #[trigger] r@[i],
                listed(vms)[i],
                node@,
                ContainerType::VM,
            ),
        forall|i: int|
            listed(vms).len() <= i < r@.len() ==> normalized(
                #[trigger] r@[i],
                listed(cts)[i - listed(vms).len()],
                node@,
                ContainerType::LXC,
            ),
{
    let mut r: Vec<Container> = Vec::new();
    append_guests(&mut r, node, vms, ContainerType::VM);
    append_guests(&mut r, node, cts, ContainerType::LXC);
    r
}

fn append_guests(
    out: &mut Vec<Container>,
    node: &str,
    recs: Option<Vec<GuestRecord>>,
    kind: ContainerType,
)
    ensures
        final(out)@.len() == old(out)@.len() + listed(recs).len(),
        forall|i: int| 0 <= i < old(out)@.len() ==> #[trigger] final(out)@[i] == old(out)@[i],
        forall|i: int|
            old(out)@.len() <= i < final(out)@.len() ==> normalized(
                #[trigger] final(out)@[i],
                listed(recs)[i - old(out)@.len()],
                node@,
                kind,
            ),
{
    match recs {
        Some(mut v) => {
            let ghost orig = v@;
            let n = v.len();
            let mut i: usize = 0;
            while i < n
                invariant
                    n == orig.len(),
                    i <= n,
                    v@ == orig.subrange(i as int, n as int),
                    out@.len() == old(out)@.len() + i,
                    forall|k: int| 0 <= k < old(out)@.len() ==> #[trigger] out@[k] == old(out)@[k],
                    forall|k: int|
                        old(out)@.len() <= k < out@.len() ==> normalized(
                            #[trigger] out@[k],
                            orig[k - old(out)@.len()],
                            node@,
                            kind,
                        ),
                decreases n - i,
            {
                let rec = v.remove(0);
                assert(rec == orig[i as int]);
                assert(v@ =~= orig.subrange(i + 1, n as int));
                out.push(container_from_record(rec, node, kind));
                i += 1;
            }
        },
        None => {},
    }
}

} // verus!
