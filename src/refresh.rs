//! The refresh coordinator: it asks every provider for both lists, merges
//! what came back, keeps the previous list where a failed refresh brought
//! nothing, and sorts and clamps the selections afterwards.

use std::time::Instant;
use vstd::prelude::*;
use vstd::string::StringExecFns;
use crate::app::{clamp_index, App};
use crate::models::{Container, Node};
use crate::order::{lemma_sort_of_sorted, lemma_sort_sorted, stable_sort};
use crate::sort::{lemma_rank_order_strict_weak, rank_order};
use crate::text::{decimal, decimal_string};

verus! {

/// Relies on `Instant::now`: a reading of the monotonic clock.
#[verifier::external_body]
fn clock_now() -> Instant {
    Instant::now()
}

/// Relies on `Instant::elapsed`: the whole seconds that have passed since `t`.
#[verifier::external_body]
fn seconds_since(t: &Instant) -> u64 {
    t.elapsed().as_secs()
}

/// A source of nodes and workloads: one backend.
pub trait Provider {
    /// The backend's name, for error reports.
    fn name(&self) -> &str;

    fn fetch_nodes(&self) -> Result<Vec<Node>, String>;

    fn fetch_containers(&self) -> Result<Vec<Container>, String>;
}

/// What one provider answered in one refresh.
pub struct ProviderFetch {
    /// The provider's name.
    pub provider: String,
    pub nodes: Result<Vec<Node>, String>,
    pub containers: Result<Vec<Container>, String>,
}

/// The nodes of every successful node fetch, provider after provider.
pub open spec fn fetched_nodes(rs: Seq<ProviderFetch>) -> Seq<Node>
    decreases rs.len(),
{
    if rs.len() == 0 {
        Seq::empty()
    } else {
        fetched_nodes(rs.drop_last()) + match rs.last().nodes {
            Ok(v) => v@,
            Err(_) => Seq::empty(),
        }
    }
}

/// The workloads of every successful workload fetch, provider after provider.
pub open spec fn fetched_containers(rs: Seq<ProviderFetch>) -> Seq<Container>
    decreases rs.len(),
{
    if rs.len() == 0 {
        Seq::empty()
    } else {
        fetched_containers(rs.drop_last()) + match rs.last().containers {
            Ok(v) => v@,
            Err(_) => Seq::empty(),
        }
    }
}

/// The report of a failed node fetch.
pub open spec fn node_error_text(provider: Seq<char>, e: Seq<char>) -> Seq<char> {
    "Error fetching nodes from "@ + provider + ": "@ + e
}

/// The report of a failed workload fetch.
pub open spec fn container_error_text(provider: Seq<char>, e: Seq<char>) -> Seq<char> {
    "Error fetching containers from "@ + provider + ": "@ + e
}

/// The reports of one provider's failed fetches: nodes first, then workloads.
pub open spec fn fetch_errors(f: ProviderFetch) -> Seq<Seq<char>> {
    (match f.nodes {
        Err(e) => seq![node_error_text(f.provider@, e@)],
        Ok(_) => Seq::empty(),
    }) + (match f.containers {
        Err(e) => seq![container_error_text(f.provider@, e@)],
        Ok(_) => Seq::empty(),
    })
}

/// The reports of every failed fetch, in the order the fetches were made.
pub open spec fn error_messages(rs: Seq<ProviderFetch>) -> Seq<Seq<char>>
    decreases rs.len(),
{
    if rs.len() == 0 {
        Seq::empty()
    } else {
        error_messages(rs.drop_last()) + fetch_errors(rs.last())
    }
}

/// Some fetch failed.
pub open spec fn any_error(rs: Seq<ProviderFetch>) -> bool {
    error_messages(rs).len() > 0
}

/// The report of the last failed fetch.
pub open spec fn last_error(rs: Seq<ProviderFetch>) -> Option<Seq<char>> {
    if error_messages(rs).len() == 0 {
        None
    } else {
        Some(error_messages(rs).last())
    }
}

pub open spec fn texts(v: Seq<String>) -> Seq<Seq<char>> {
    v.map_values(|s: String| s@)
}

pub open spec fn text_of(m: Option<String>) -> Option<Seq<char>> {
    match m {
        Some(s) => Some(s@),
        None => None,
    }
}

/// The list a refresh keeps: the new one, unless it is empty while some
/// fetch failed; then the old one.
pub open spec fn retained<T>(old: Seq<T>, new: Seq<T>, failed: bool) -> Seq<T> {
    if new.len() == 0 && failed {
        old
    } else {
        new
    }
}

/// `b` is `a` after a refresh that brought `rs` at time `now`.
pub open spec fn refreshed(a: App, b: App, rs: Seq<ProviderFetch>, now: Instant) -> bool {
    &&& b.nodes@ == stable_sort(
        retained(a.nodes@, fetched_nodes(rs), any_error(rs)),
        rank_order::<Node>(a.sort_field, a.sort_ascending),
    )
    &&& b.containers@ == stable_sort(
        retained(a.containers@, fetched_containers(rs), any_error(rs)),
        rank_order::<Container>(a.sort_field, a.sort_ascending),
    )
    &&& text_of(b.error_message) == last_error(rs)
    &&& b.node_index == clamp_index(a.node_index, b.node_count())
    &&& b.container_index == clamp_index(a.container_index, b.container_count())
    &&& b == (App {
        nodes: b.nodes,
        containers: b.containers,
        error_message: b.error_message,
        last_refresh: Some(now),
        node_index: b.node_index,
        container_index: b.container_index,
        ..a
    })
}

/// How long ago a refresh was: "<n>s ago" under a minute, else "<n>m ago".
pub open spec fn elapsed_text(secs: nat) -> Seq<char> {
    if secs < 60 {
        decimal(secs) + "s ago"@
    } else {
        decimal(secs / 60) + "m ago"@
    }
}

pub fn format_elapsed(secs: u64) -> (r: String)
    ensures
        r@ == elapsed_text(secs as nat),
{
    let mut r = String::new();
    if secs < 60 {
        r.append(decimal_string(secs).as_str());
        r.append("s ago");
    } else {
        r.append(decimal_string(secs / 60).as_str());
        r.append("m ago");
    }
    r
}

fn error_text(prefix: &str, provider: &String, e: &String) -> (r: String)
    ensures
        r@ == prefix@ + provider@ + ": "@ + e@,
{
    let mut r = String::from_str(prefix);
    r.append(provider.as_str());
    r.append(": ");
    r.append(e.as_str());
    r
}

impl App {
    /// Merges what the providers answered into the state at time `now`,
    /// and returns the report of every failed fetch.
    pub fn apply_refresh(&mut self, fetched: Vec<ProviderFetch>, now: Instant) -> (r: Vec<String>)
        ensures
            refreshed(*old(self), *final(self), fetched@, now),
            texts(r@) == error_messages(fetched@),
    {
        let ghost rs = fetched@;
        let ghost a = *self;
        self.error_message = None;
        let mut all_nodes: Vec<Node> = Vec::new();
        let mut all_containers: Vec<Container> = Vec::new();
        let mut errors: Vec<String> = Vec::new();
        let mut rest = fetched;
        let n = rest.len();
        let mut i: usize = 0;
        assert(rs.subrange(0, 0) =~= Seq::<ProviderFetch>::empty());
        while i < n
            invariant
                n == rs.len(),
                i <= n,
                rest@ == rs.subrange(i as int, n as int),
                all_nodes@ == fetched_nodes(rs.subrange(0, i as int)),
                all_containers@ == fetched_containers(rs.subrange(0, i as int)),
                texts(errors@) == error_messages(rs.subrange(0, i as int)),
                text_of(self.error_message) == last_error(rs.subrange(0, i as int)),
                *self == (App { error_message: self.error_message, ..a }),
            decreases n - i,
        {
            let pf = rest.remove(0);
            assert(pf == rs[i as int]);
            assert(rest@ =~= rs.subrange(i + 1, n as int));
            assert(rs.subrange(0, i + 1).drop_last() =~= rs.subrange(0, i as int));
            let ghost before = errors@;
            let ProviderFetch { provider, nodes, containers } = pf;
            match nodes {
                Ok(mut v) => {
                    all_nodes.append(&mut v);
                },
                Err(e) => {
                    errors.push(error_text("Error fetching nodes from ", &provider, &e));
                    self.error_message = Some(error_text("Error fetching nodes from ", &provider, &e));
                },
            }
            match containers {
                Ok(mut v) => {
                    all_containers.append(&mut v);
                },
                Err(e) => {
                    errors.push(error_text("Error fetching containers from ", &provider, &e));
                    self.error_message = Some(
                        error_text("Error fetching containers from ", &provider, &e),
                    );
                },
            }
            proof {
                assert(texts(errors@) =~= texts(before) + fetch_errors(rs[i as int]));
            }
            i += 1;
        }
        assert(rs.subrange(0, n as int) =~= rs);
        let had_error = errors.len() > 0;
        if all_nodes.len() > 0 || !had_error {
            self.nodes = all_nodes;
        }
        if all_containers.len() > 0 || !had_error {
            self.containers = all_containers;
        }
        self.last_refresh = Some(now);
        self.apply_sort();
        let len = self.filtered_nodes().len();
        if self.node_index >= len {
            self.node_index = if len > 0 { len - 1 } else { 0 };
        }
        let len = self.filtered_containers().len();
        if self.container_index >= len {
            self.container_index = if len > 0 { len - 1 } else { 0 };
        }
        errors
    }

    /// Asks every provider for its nodes and then its workloads, merges the
    /// answers, whatever they are, and returns the report of every failed
    /// fetch.
    pub fn refresh<P: Provider>(&mut self, providers: &[P]) -> (r: Vec<String>)
        ensures
            exists|rs: Seq<ProviderFetch>, now: Instant|
                rs.len() == providers@.len() && #[trigger] refreshed(*old(self), *final(self), rs, now)
                    && texts(r@) == error_messages(rs),
    {
        let mut fetched: Vec<ProviderFetch> = Vec::new();
        let mut i: usize = 0;
        while i < providers.len()
            invariant
                i <= providers@.len(),
                fetched@.len() == i,
            decreases providers@.len() - i,
        {
            let p = &providers[i];
            let provider = String::from_str(p.name());
            let nodes = p.fetch_nodes();
            let containers = p.fetch_containers();
            fetched.push(ProviderFetch { provider, nodes, containers });
            i += 1;
        }
        let ghost rs = fetched@;
        let now = clock_now();
        let errors = self.apply_refresh(fetched, now);
        assert(refreshed(*old(self), *self, rs, now));
        errors
    }

    /// How long ago the last refresh was, or "never".
    pub fn time_since_refresh(&self) -> (r: String)
        ensures
            self.last_refresh is None ==> r@ == "never"@,
            self.last_refresh is Some ==> exists|secs: nat| r@ == #[trigger] elapsed_text(secs),
    {
        match &self.last_refresh {
            Some(t) => format_elapsed(seconds_since(t)),
            None => String::from_str("never"),
        }
    }
}

/// After a refresh both lists are ordered by the current criteria.
pub proof fn lemma_sorted_after_refresh(a: App, b: App, rs: Seq<ProviderFetch>, now: Instant)
    requires
        refreshed(a, b, rs, now),
    ensures
        b.lists_sorted(),
{
    lemma_rank_order_strict_weak::<Node>(a.sort_field, a.sort_ascending);
    lemma_rank_order_strict_weak::<Container>(a.sort_field, a.sort_ascending);
    lemma_sort_sorted(
        retained(a.nodes@, fetched_nodes(rs), any_error(rs)),
        rank_order::<Node>(a.sort_field, a.sort_ascending),
    );
    lemma_sort_sorted(
        retained(a.containers@, fetched_containers(rs), any_error(rs)),
        rank_order::<Container>(a.sort_field, a.sort_ascending),
    );
}

/// A refresh that brought no nodes while some fetch failed leaves the node
/// list as it was (a list already sorted by the current criteria); one that
/// brought no nodes and had no failure empties it. Workloads follow the same
/// rule on their own.
pub proof fn lemma_refresh_retention(a: App, b: App, rs: Seq<ProviderFetch>, now: Instant)
    requires
        refreshed(a, b, rs, now),
        a.lists_sorted(),
    ensures
        fetched_nodes(rs).len() == 0 && any_error(rs) ==> b.nodes@ == a.nodes@,
        fetched_nodes(rs).len() == 0 && !any_error(rs) ==> b.nodes@.len() == 0,
        fetched_containers(rs).len() == 0 && any_error(rs) ==> b.containers@ == a.containers@,
        fetched_containers(rs).len() == 0 && !any_error(rs) ==> b.containers@.len() == 0,
{
    lemma_rank_order_strict_weak::<Node>(a.sort_field, a.sort_ascending);
    lemma_rank_order_strict_weak::<Container>(a.sort_field, a.sort_ascending);
    lemma_sort_of_sorted(a.nodes@, rank_order::<Node>(a.sort_field, a.sort_ascending));
    lemma_sort_of_sorted(a.containers@, rank_order::<Container>(a.sort_field, a.sort_ascending));
}

} // verus!
