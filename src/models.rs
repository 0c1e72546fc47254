//! The two normalized entity kinds and the formatting of their metrics.

use vstd::prelude::*;
use crate::sort::{name_before, Ranked, RankKey, SortField};
use crate::text::{decimal, decimal_string};
use vstd::string::StringExecFns;

verus! {

/// Whether a node answers.
#[derive(Debug, Clone, Copy, PartialEq, Eq, Structural)]
pub enum NodeStatus {
    Online,
    Offline,
}

/// The two kinds of workload a node runs.
#[derive(Debug, Clone, Copy, PartialEq, Eq, Structural)]
pub enum ContainerType {
    VM,
    LXC,
}

/// Whether a workload is running.
#[derive(Debug, Clone, Copy, PartialEq, Eq, Structural)]
pub enum ContainerStatus {
    Running,
    Stopped,
}

/// A physical or virtual host.
#[derive(Debug, Clone)]
pub struct Node {
    pub name: String,
    pub status: NodeStatus,
    /// CPU utilization in hundredths of a percent (1234 is 12.34%); it may
    /// exceed 10000 on an oversubscribed host.
    pub cpu_usage: u64,
    pub memory_used: u64,
    pub memory_total: u64,
    /// Seconds since the last boot; 0 when unknown.
    pub uptime: u64,
}

/// A virtual machine or a container running on a node.
#[derive(Debug, Clone)]
pub struct Container {
    /// Identifier assigned by the backend.
    pub vmid: u32,
    pub name: String,
    /// Name of the owning node; it need not name a node that is present.
    pub node: String,
    pub container_type: ContainerType,
    pub status: ContainerStatus,
    /// CPU utilization in hundredths of a percent.
    pub cpu_usage: u64,
    pub memory_used: u64,
    pub memory_max: u64,
    pub uptime: u64,
}

/// Memory use as a percentage in hundredths of a percent, rounded down:
/// `used / total * 100`, and 0 when `total` is 0.
pub open spec fn percent_hundredths(used: nat, total: nat) -> nat {
    if total == 0 {
        0
    } else {
        used * 10000 / total
    }
}

fn memory_percent_of(used: u64, total: u64) -> (r: u128)
    ensures
        r == percent_hundredths(used as nat, total as nat),
{
    if total == 0 {
        0
    } else {
        assert(used * 10000 <= u64::MAX * 10000) by (nonlinear_arith);
        (used as u128) * 10000 / (total as u128)
    }
}

impl Node {
    /// Memory use in hundredths of a percent (5000 is 50%).
    pub fn memory_percent(&self) -> (r: u128)
        ensures
            r == percent_hundredths(self.memory_used as nat, self.memory_total as nat),
    {
        memory_percent_of(self.memory_used, self.memory_total)
    }
}

impl Ranked for Node {
    open spec fn rank_key(&self) -> RankKey {
        (
            self.name@,
            self.status == NodeStatus::Online,
            self.cpu_usage as nat,
            percent_hundredths(self.memory_used as nat, self.memory_total as nat),
        )
    }

    fn goes_before(&self, other: &Self, f: SortField, ascending: bool) -> (r: bool) {
        let (a, b) = if ascending { (self, other) } else { (other, self) };
        match f {
            SortField::Name => name_before(a.name.as_str(), b.name.as_str()),
            SortField::Status => a.status == NodeStatus::Online && b.status != NodeStatus::Online,
            SortField::Cpu => a.cpu_usage < b.cpu_usage,
            SortField::Memory => a.memory_percent() < b.memory_percent(),
        }
    }
}

impl Ranked for Container {
    open spec fn rank_key(&self) -> RankKey {
        (
            self.name@,
            self.status == ContainerStatus::Running,
            self.cpu_usage as nat,
            percent_hundredths(self.memory_used as nat, self.memory_max as nat),
        )
    }

    fn goes_before(&self, other: &Self, f: SortField, ascending: bool) -> (r: bool) {
        let (a, b) = if ascending { (self, other) } else { (other, self) };
        match f {
            SortField::Name => name_before(a.name.as_str(), b.name.as_str()),
            SortField::Status => a.status == ContainerStatus::Running && b.status
                != ContainerStatus::Running,
            SortField::Cpu => a.cpu_usage < b.cpu_usage,
            SortField::Memory => a.memory_percent() < b.memory_percent(),
        }
    }
}

/// The label shown for a workload kind.
pub open spec fn type_label_of(t: ContainerType) -> Seq<char> {
    match t {
        ContainerType::VM => "VM"@,
        ContainerType::LXC => "LXC"@,
    }
}

impl Container {
    /// Memory use in hundredths of a percent of `memory_max`.
    pub fn memory_percent(&self) -> (r: u128)
        ensures
            r == percent_hundredths(self.memory_used as nat, self.memory_max as nat),
    {
        memory_percent_of(self.memory_used, self.memory_max)
    }

    pub fn type_label(&self) -> (r: &'static str)
        ensures
            r@ == type_label_of(self.container_type),
    {
        match self.container_type {
            ContainerType::VM => "VM",
            ContainerType::LXC => "LXC",
        }
    }
}

/// Uptime as its two or three largest units: "-" for 0, then "<m>m",
/// "<h>h <m>m" or "<d>d <h>h <m>m".
pub open spec fn uptime_text(seconds: nat) -> Seq<char> {
    let days = seconds / 86400;
    let hours = (seconds % 86400) / 3600;
    let minutes = (seconds % 3600) / 60;
    if seconds == 0 {
        "-"@
    } else if days > 0 {
        decimal(days) + "d "@ + decimal(hours) + "h "@ + decimal(minutes) + "m"@
    } else if hours > 0 {
        decimal(hours) + "h "@ + decimal(minutes) + "m"@
    } else {
        decimal(minutes) + "m"@
    }
}

pub fn format_uptime(seconds: u64) -> (r: String)
    ensures
        r@ == uptime_text(seconds as nat),
{
    if seconds == 0 {
        return String::from_str("-");
    }
    let days = seconds / 86400;
    let hours = (seconds % 86400) / 3600;
    let minutes = (seconds % 3600) / 60;
    let mut r = String::new();
    if days > 0 {
        r.append(decimal_string(days).as_str());
        r.append("d ");
    }
    if days > 0 || hours > 0 {
        r.append(decimal_string(hours).as_str());
        r.append("h ");
    }
    r.append(decimal_string(minutes).as_str());
    r.append("m");
    r
}

pub const KB: u64 = 1024;
pub const MB: u64 = 1048576;
pub const GB: u64 = 1073741824;
pub const TB: u64 = 1099511627776;

/// `n / d` rounded to the nearest integer, ties to the even one.
pub open spec fn round_half_even(n: nat, d: nat) -> nat
    recommends
        d > 0,
{
    let q = n / d;
    let r = n % d;
    if 2 * r > d || (2 * r == d && q % 2 == 1) {
        q + 1
    } else {
        q
    }
}

/// A count of tenths written with one decimal place.
pub open spec fn one_decimal(tenths: nat) -> Seq<char> {
    decimal(tenths / 10) + "."@ + decimal(tenths % 10)
}

/// A byte count in the largest binary unit that it reaches: one decimal
/// place for GB and TB, none for KB and MB, the bare count below 1024.
pub open spec fn bytes_text(b: nat) -> Seq<char> {
    if b >= TB {
        one_decimal(round_half_even(b * 10, TB as nat)) + " TB"@
    } else if b >= GB {
        one_decimal(round_half_even(b * 10, GB as nat)) + " GB"@
    } else if b >= MB {
        decimal(round_half_even(b, MB as nat)) + " MB"@
    } else if b >= KB {
        decimal(round_half_even(b, KB as nat)) + " KB"@
    } else {
        decimal(b) + " B"@
    }
}

fn rounded_div(n: u128, d: u128) -> (r: u128)
    requires
        d > 0,
        n < u128::MAX,
    ensures
        r == round_half_even(n as nat, d as nat),
        r <= n / d + 1,
{
    let q = n / d;
    let rem = n % d;
    if rem > d - rem || (rem == d - rem && q % 2 == 1) {
        assert(q * d + rem == n) by (nonlinear_arith) requires q == n / d, rem == n % d, d > 0;
        assert(q < u128::MAX) by (nonlinear_arith) requires q * d + rem == n, d > 0, n < u128::MAX, rem >= 0;
        q + 1
    } else {
        q
    }
}

fn append_one_decimal(r: &mut String, tenths: u64)
    ensures
        final(r)@ == old(r)@ + one_decimal(tenths as nat),
{
    r.append(decimal_string(tenths / 10).as_str());
    r.append(".");
    r.append(decimal_string(tenths % 10).as_str());
}

pub fn format_bytes(bytes: u64) -> (r: String)
    ensures
        r@ == bytes_text(bytes as nat),
{
    let b = bytes as u128;
    let mut r = String::new();
    if bytes >= TB {
        let t = rounded_div(b * 10, TB as u128);
        assert(t <= 200_000_000);
        append_one_decimal(&mut r, t as u64);
        r.append(" TB");
    } else if bytes >= GB {
        let t = rounded_div(b * 10, GB as u128);
        assert(t <= 20_000);
        append_one_decimal(&mut r, t as u64);
        r.append(" GB");
    } else if bytes >= MB {
        let t = rounded_div(b, MB as u128);
        r.append(decimal_string(t as u64).as_str());
        r.append(" MB");
    } else if bytes >= KB {
        let t = rounded_div(b, KB as u128);
        r.append(decimal_string(t as u64).as_str());
        r.append(" KB");
    } else {
        r.append(decimal_string(bytes).as_str());
        r.append(" B");
    }
    r
}

} // verus!
