//! The view state: both entity lists, the focus, the selection in each
//! list, the sort criteria and the search query, with the views derived
//! from them.

use std::time::Instant;
use vstd::prelude::*;
use crate::models::{Container, ContainerStatus, Node, NodeStatus};
use crate::order::{lemma_filter_push, lemma_reverse_twice, lemma_sort_sorted, stable_sort};
use crate::sort::{lemma_rank_order_strict_weak, rank_order, sort_by_field, successor, SortField};
use crate::text::{contains_seq, lower_of, lowercase, pop_char, push_char, text_contains};

verus! {

#[verifier::external_type_specification]
#[verifier::external_body]
pub struct ExInstant(Instant);

/// Which of the two lists has the keyboard focus.
#[derive(Debug, Clone, Copy, PartialEq, Eq, Structural)]
pub enum Panel {
    Nodes,
    Containers,
}

/// Whether keys edit the search query or drive the dashboard.
#[derive(Debug, Clone, Copy, PartialEq, Eq, Structural)]
pub enum InputMode {
    Normal,
    Search,
}

/// The dashboard's whole state.
pub struct App {
    pub running: bool,
    pub active_panel: Panel,
    pub nodes: Vec<Node>,
    pub containers: Vec<Container>,
    /// Selection in the filtered node list.
    pub node_index: usize,
    /// Selection in the filtered workload list.
    pub container_index: usize,
    pub error_message: Option<String>,
    pub last_refresh: Option<Instant>,
    pub sort_field: SortField,
    pub sort_ascending: bool,
    pub input_mode: InputMode,
    pub search_query: String,
    pub show_help: bool,
}

/// A node shows under query `q`: the query is empty, or its lowercase form
/// stands in the lowercase name.
pub open spec fn node_matches(n: Node, q: Seq<char>) -> bool {
    q.len() == 0 || contains_seq(lower_of(n.name@), lower_of(q))
}

/// A workload shows under query `q`: the query is empty, or its lowercase
/// form stands in the lowercase name or in the lowercase node name.
pub open spec fn container_matches(c: Container, q: Seq<char>) -> bool {
    q.len() == 0 || contains_seq(lower_of(c.name@), lower_of(q)) || contains_seq(
        lower_of(c.node@),
        lower_of(q),
    )
}

/// The nodes that show under query `q`, in list order.
pub open spec fn node_view(s: Seq<Node>, q: Seq<char>) -> Seq<Node> {
    s.filter(|n: Node| node_matches(n, q))
}

/// The workloads that show under query `q`, in list order.
pub open spec fn container_view(s: Seq<Container>, q: Seq<char>) -> Seq<Container> {
    s.filter(|c: Container| container_matches(c, q))
}

/// `r` holds, in order, references to the elements of `s`.
pub open spec fn refers_to<T>(r: Seq<&T>, s: Seq<T>) -> bool {
    r.len() == s.len() && forall|i: int| 0 <= i < r.len() ==> *#[trigger] r[i] == s[i]
}

/// The largest index of a list of `len` items, and 0 for an empty list.
pub open spec fn last_index(len: nat) -> nat {
    if len == 0 {
        0
    } else {
        (len - 1) as nat
    }
}

/// An index brought back into a list of `len` items.
pub open spec fn clamp_index(i: usize, len: nat) -> nat {
    if i >= len {
        last_index(len)
    } else {
        i as nat
    }
}

pub open spec fn other_panel(p: Panel) -> Panel {
    match p {
        Panel::Nodes => Panel::Containers,
        Panel::Containers => Panel::Nodes,
    }
}

impl App {
    /// Number of nodes in the filtered view.
    pub open spec fn node_count(self) -> nat {
        node_view(self.nodes@, self.search_query@).len()
    }

    /// Number of workloads in the filtered view.
    pub open spec fn container_count(self) -> nat {
        container_view(self.containers@, self.search_query@).len()
    }

    /// Both lists are ordered by the current criteria.
    pub open spec fn lists_sorted(self) -> bool {
        &&& crate::order::sorted_by(self.nodes@, rank_order::<Node>(self.sort_field, self.sort_ascending))
        &&& crate::order::sorted_by(
            self.containers@,
            rank_order::<Container>(self.sort_field, self.sort_ascending),
        )
    }
}

/// `b` is `a` with both lists sorted again under `b`'s criteria.
pub open spec fn resorted(a: App, b: App) -> bool {
    &&& b.nodes@ == stable_sort(a.nodes@, rank_order::<Node>(b.sort_field, b.sort_ascending))
    &&& b.containers@ == stable_sort(
        a.containers@,
        rank_order::<Container>(b.sort_field, b.sort_ascending),
    )
}

/// `b` is `a` after one step down in the focused list: the index grows by
/// one unless it already stands at the last item.
pub open spec fn selected_next(a: App, b: App) -> bool {
    match a.active_panel {
        Panel::Nodes => b == (App {
            node_index: if a.node_index < last_index(a.node_count()) {
                (a.node_index + 1) as usize
            } else {
                a.node_index
            },
            ..a
        }),
        Panel::Containers => b == (App {
            container_index: if a.container_index < last_index(a.container_count()) {
                (a.container_index + 1) as usize
            } else {
                a.container_index
            },
            ..a
        }),
    }
}

/// `b` is `a` after one step up in the focused list: nothing on an empty
/// view, else the index drops by one unless it is 0.
pub open spec fn selected_previous(a: App, b: App) -> bool {
    match a.active_panel {
        Panel::Nodes => b == (App {
            node_index: if a.node_count() > 0 && a.node_index > 0 {
                (a.node_index - 1) as usize
            } else {
                a.node_index
            },
            ..a
        }),
        Panel::Containers => b == (App {
            container_index: if a.container_count() > 0 && a.container_index > 0 {
                (a.container_index - 1) as usize
            } else {
                a.container_index
            },
            ..a
        }),
    }
}

/// `b` is `a` with the search query replaced by `q` and both selections
/// back at the top.
pub open spec fn query_edited(a: App, b: App, q: Seq<char>) -> bool {
    &&& b.search_query@ == q
    &&& b == (App { search_query: b.search_query, node_index: 0, container_index: 0, ..a })
}

/// `b` is `a` under sort field `f` and direction `ascending`, with both
/// lists sorted again.
pub open spec fn sort_changed(a: App, b: App, f: SortField, ascending: bool) -> bool {
    &&& resorted(a, b)
    &&& b == (App {
        sort_field: f,
        sort_ascending: ascending,
        nodes: b.nodes,
        containers: b.containers,
        ..a
    })
}

/// After a change of the sort criteria both lists are ordered by the new
/// criteria.
pub proof fn lemma_sorted_after_sort_change(a: App, b: App, f: SortField, ascending: bool)
    requires
        sort_changed(a, b, f, ascending),
    ensures
        b.lists_sorted(),
{
    lemma_rank_order_strict_weak::<Node>(f, ascending);
    lemma_rank_order_strict_weak::<Container>(f, ascending);
    lemma_sort_sorted(a.nodes@, rank_order::<Node>(f, ascending));
    lemma_sort_sorted(a.containers@, rank_order::<Container>(f, ascending));
}

/// Flipping the sort direction twice gives back both lists as they were,
/// when they were sorted by the current criteria.
pub proof fn lemma_toggle_twice(a: App, b: App, c: App)
    requires
        a.lists_sorted(),
        sort_changed(a, b, a.sort_field, !a.sort_ascending),
        sort_changed(b, c, b.sort_field, !b.sort_ascending),
    ensures
        c.nodes@ == a.nodes@,
        c.containers@ == a.containers@,
        c.sort_field == a.sort_field,
        c.sort_ascending == a.sort_ascending,
{
    lemma_rank_order_strict_weak::<Node>(a.sort_field, a.sort_ascending);
    lemma_rank_order_strict_weak::<Container>(a.sort_field, a.sort_ascending);
    lemma_reverse_twice(
        a.nodes@,
        rank_order::<Node>(a.sort_field, a.sort_ascending),
        rank_order::<Node>(a.sort_field, !a.sort_ascending),
    );
    lemma_reverse_twice(
        a.containers@,
        rank_order::<Container>(a.sort_field, a.sort_ascending),
        rank_order::<Container>(a.sort_field, !a.sort_ascending),
    );
}

impl App {
    pub fn new() -> (r: App)
        ensures
            r.running,
            r.active_panel == Panel::Nodes,
            r.nodes@.len() == 0,
            r.containers@.len() == 0,
            r.node_index == 0,
            r.container_index == 0,
            r.error_message is None,
            r.last_refresh is None,
            r.sort_field == SortField::Name,
            r.sort_ascending,
            r.input_mode == InputMode::Normal,
            r.search_query@.len() == 0,
            !r.show_help,
    {
        App {
            running: true,
            active_panel: Panel::Nodes,
            nodes: Vec::new(),
            containers: Vec::new(),
            node_index: 0,
            container_index: 0,
            error_message: None,
            last_refresh: None,
            sort_field: SortField::Name,
            sort_ascending: true,
            input_mode: InputMode::Normal,
            search_query: String::new(),
            show_help: false,
        }
    }

    /// The nodes that the search query lets through, in list order.
    pub fn filtered_nodes(&self) -> (r: Vec<&Node>)
        ensures
            refers_to(r@, node_view(self.nodes@, self.search_query@)),
    {
        let ghost q = self.search_query@;
        let ghost pred = |n: Node| node_matches(n, q);
        let all = self.search_query.as_str().is_empty();
        let query = lowercase(self.search_query.as_str());
        let mut r: Vec<&Node> = Vec::new();
        let mut i: usize = 0;
        assert(self.nodes@.subrange(0, 0) =~= Seq::<Node>::empty());
        proof {
            reveal(Seq::filter);
        }
        while i < self.nodes.len()
            invariant
                i <= self.nodes@.len(),
                refers_to(r@, self.nodes@.subrange(0, i as int).filter(pred)),
                query@ == lower_of(q),
                all == (q.len() == 0),
                q == self.search_query@,
                pred == (|n: Node| node_matches(n, q)),
            decreases self.nodes@.len() - i,
        {
            let n = &self.nodes[i];
            let keep = all || text_contains(lowercase(n.name.as_str()).as_str(), query.as_str());
            proof {
                lemma_filter_push(self.nodes@.subrange(0, i as int), self.nodes@[i as int], pred);
                assert(self.nodes@.subrange(0, i + 1) =~= self.nodes@.subrange(0, i as int).push(
                    self.nodes@[i as int],
                ));
            }
            if keep {
                r.push(n);
            }
            i += 1;
        }
        assert(self.nodes@.subrange(0, i as int) =~= self.nodes@);
        r
    }

    /// The workloads that the search query lets through, in list order.
    pub fn filtered_containers(&self) -> (r: Vec<&Container>)
        ensures
            refers_to(r@, container_view(self.containers@, self.search_query@)),
    {
        let ghost q = self.search_query@;
        let ghost pred = |c: Container| container_matches(c, q);
        let all = self.search_query.as_str().is_empty();
        let query = lowercase(self.search_query.as_str());
        let mut r: Vec<&Container> = Vec::new();
        let mut i: usize = 0;
        assert(self.containers@.subrange(0, 0) =~= Seq::<Container>::empty());
        proof {
            reveal(Seq::filter);
        }
        while i < self.containers.len()
            invariant
                i <= self.containers@.len(),
                refers_to(r@, self.containers@.subrange(0, i as int).filter(pred)),
                query@ == lower_of(q),
                all == (q.len() == 0),
                q == self.search_query@,
                pred == (|c: Container| container_matches(c, q)),
            decreases self.containers@.len() - i,
        {
            let c = &self.containers[i];
            let keep = all || text_contains(lowercase(c.name.as_str()).as_str(), query.as_str())
                || text_contains(lowercase(c.node.as_str()).as_str(), query.as_str());
            proof {
                lemma_filter_push(
                    self.containers@.subrange(0, i as int),
                    self.containers@[i as int],
                    pred,
                );
                assert(self.containers@.subrange(0, i + 1) =~= self.containers@.subrange(
                    0,
                    i as int,
                ).push(self.containers@[i as int]));
            }
            if keep {
                r.push(c);
            }
            i += 1;
        }
        assert(self.containers@.subrange(0, i as int) =~= self.containers@);
        r
    }

    /// The node under the selection, if the index falls in the view.
    pub fn selected_node(&self) -> (r: Option<&Node>)
        ensures
            r is Some == (self.node_index < self.node_count()),
            r is Some ==> *r->0 == node_view(self.nodes@, self.search_query@)[self.node_index as int],
    {
        let v = self.filtered_nodes();
        if self.node_index < v.len() {
            Some(v[self.node_index])
        } else {
            None
        }
    }

    /// The workload under the selection, if the index falls in the view.
    pub fn selected_container(&self) -> (r: Option<&Container>)
        ensures
            r is Some == (self.container_index < self.container_count()),
            r is Some ==> *r->0 == container_view(self.containers@, self.search_query@)[
                self.container_index as int],
    {
        let v = self.filtered_containers();
        if self.container_index < v.len() {
            Some(v[self.container_index])
        } else {
            None
        }
    }

    pub fn quit(&mut self)
        ensures
            *final(self) == (App { running: false, ..*old(self) }),
    {
        self.running = false;
    }

    pub fn next_panel(&mut self)
        ensures
            *final(self) == (App { active_panel: other_panel(old(self).active_panel), ..*old(self) }),
    {
        self.active_panel = match self.active_panel {
            Panel::Nodes => Panel::Containers,
            Panel::Containers => Panel::Nodes,
        };
    }

    /// Moves the selection of the focused list one down, stopping at the
    /// last item.
    pub fn select_next(&mut self)
        ensures
            selected_next(*old(self), *final(self)),
            old(self).node_index <= last_index(old(self).node_count()) ==> final(self).node_index
                <= last_index(final(self).node_count()),
            old(self).container_index <= last_index(old(self).container_count())
                ==> final(self).container_index <= last_index(final(self).container_count()),
    {
        match self.active_panel {
            Panel::Nodes => {
                let len = self.filtered_nodes().len();
                let max = if len > 0 { len - 1 } else { 0 };
                if self.node_index < max {
                    self.node_index += 1;
                }
            },
            Panel::Containers => {
                let len = self.filtered_containers().len();
                let max = if len > 0 { len - 1 } else { 0 };
                if self.container_index < max {
                    self.container_index += 1;
                }
            },
        }
    }

    /// Moves the selection of the focused list one up, stopping at the
    /// first item; nothing happens on an empty view.
    pub fn select_previous(&mut self)
        ensures
            selected_previous(*old(self), *final(self)),
    {
        match self.active_panel {
            Panel::Nodes => {
                if self.filtered_nodes().len() > 0 && self.node_index > 0 {
                    self.node_index -= 1;
                }
            },
            Panel::Containers => {
                if self.filtered_containers().len() > 0 && self.container_index > 0 {
                    self.container_index -= 1;
                }
            },
        }
    }

    pub(crate) fn apply_sort(&mut self)
        ensures
            resorted(*old(self), *final(self)),
            *final(self) == (App {
                nodes: final(self).nodes,
                containers: final(self).containers,
                ..*old(self)
            }),
    {
        sort_by_field(&mut self.nodes, self.sort_field, self.sort_ascending);
        sort_by_field(&mut self.containers, self.sort_field, self.sort_ascending);
    }

    /// Moves to the next sort field and sorts both lists by it.
    pub fn cycle_sort(&mut self)
        ensures
            sort_changed(
                *old(self),
                *final(self),
                successor(old(self).sort_field),
                old(self).sort_ascending,
            ),
    {
        self.sort_field = self.sort_field.next();
        self.apply_sort();
    }

    /// Flips the sort direction and sorts both lists again.
    pub fn toggle_sort_order(&mut self)
        ensures
            sort_changed(*old(self), *final(self), old(self).sort_field, !old(self).sort_ascending),
    {
        self.sort_ascending = !self.sort_ascending;
        self.apply_sort();
    }

    pub fn enter_search_mode(&mut self)
        ensures
            *final(self) == (App { input_mode: InputMode::Search, ..*old(self) }),
    {
        self.input_mode = InputMode::Search;
    }

    pub fn exit_search_mode(&mut self)
        ensures
            *final(self) == (App { input_mode: InputMode::Normal, ..*old(self) }),
    {
        self.input_mode = InputMode::Normal;
    }

    /// Empties the search query and puts both selections at the top.
    pub fn clear_search(&mut self)
        ensures
            query_edited(*old(self), *final(self), Seq::empty()),
    {
        self.search_query = String::new();
        self.node_index = 0;
        self.container_index = 0;
    }

    /// Appends `c` to the search query and puts both selections at the top.
    pub fn push_search_char(&mut self, c: char)
        ensures
            query_edited(*old(self), *final(self), old(self).search_query@.push(c)),
    {
        push_char(&mut self.search_query, c);
        self.node_index = 0;
        self.container_index = 0;
    }

    /// Drops the last character of the search query, if any, and puts both
    /// selections at the top.
    pub fn pop_search_char(&mut self)
        ensures
            query_edited(
                *old(self),
                *final(self),
                if old(self).search_query@.len() == 0 {
                    old(self).search_query@
                } else {
                    old(self).search_query@.drop_last()
                },
            ),
    {
        let _ = pop_char(&mut self.search_query);
        self.node_index = 0;
        self.container_index = 0;
    }

    pub fn toggle_help(&mut self)
        ensures
            *final(self) == (App { show_help: !old(self).show_help, ..*old(self) }),
    {
        self.show_help = !self.show_help;
    }

    /// Online nodes and all nodes.
    pub fn nodes_summary(&self) -> (r: (usize, usize))
        ensures
            r.0 == self.nodes@.filter(|n: Node| n.status == NodeStatus::Online).len(),
            r.1 == self.nodes@.len(),
    {
        let ghost pred = |n: Node| n.status == NodeStatus::Online;
        let mut count: usize = 0;
        let mut i: usize = 0;
        assert(self.nodes@.subrange(0, 0) =~= Seq::<Node>::empty());
        proof {
            reveal(Seq::filter);
        }
        while i < self.nodes.len()
            invariant
                i <= self.nodes@.len(),
                count == self.nodes@.subrange(0, i as int).filter(pred).len(),
                count <= i,
                pred == (|n: Node| n.status == NodeStatus::Online),
            decreases self.nodes@.len() - i,
        {
            proof {
                lemma_filter_push(self.nodes@.subrange(0, i as int), self.nodes@[i as int], pred);
                assert(self.nodes@.subrange(0, i + 1) =~= self.nodes@.subrange(0, i as int).push(
                    self.nodes@[i as int],
                ));
            }
            if self.nodes[i].status == NodeStatus::Online {
                count += 1;
            }
            i += 1;
        }
        assert(self.nodes@.subrange(0, i as int) =~= self.nodes@);
        (count, self.nodes.len())
    }

    /// Running workloads and all workloads.
    pub fn containers_summary(&self) -> (r: (usize, usize))
        ensures
            r.0 == self.containers@.filter(|c: Container| c.status == ContainerStatus::Running).len(),
            r.1 == self.containers@.len(),
    {
        let ghost pred = |c: Container| c.status == ContainerStatus::Running;
        let mut count: usize = 0;
        let mut i: usize = 0;
        assert(self.containers@.subrange(0, 0) =~= Seq::<Container>::empty());
        proof {
            reveal(Seq::filter);
        }
        while i < self.containers.len()
            invariant
                i <= self.containers@.len(),
                count == self.containers@.subrange(0, i as int).filter(pred).len(),
                count <= i,
                pred == (|c: Container| c.status == ContainerStatus::Running),
            decreases self.containers@.len() - i,
        {
            proof {
                lemma_filter_push(
                    self.containers@.subrange(0, i as int),
                    self.containers@[i as int],
                    pred,
                );
                assert(self.containers@.subrange(0, i + 1) =~= self.containers@.subrange(
                    0,
                    i as int,
                ).push(self.containers@[i as int]));
            }
            if self.containers[i].status == ContainerStatus::Running {
                count += 1;
            }
            i += 1;
        }
        assert(self.containers@.subrange(0, i as int) =~= self.containers@);
        (count, self.containers.len())
    }
}

} // verus!
