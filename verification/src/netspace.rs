//! The table of nodes: what is stored of each, how it is read and changed.
//!
//! A row is kept as storage holds it: the address as text, the rest as
//! numbers. A row that does not decode is left out of lists and is
//! `Invalid` when it is asked for by name.

use crate::enums::{Failure, NodeRole, NodeService, NodeState};
use crate::formats::{
    ipv4_text, ipv4_to_str_address, lemma_ipv4_round_trip, same_address, str_address_to_ipv4,
    text_ipv4, Ipv4,
};
use crate::node::{Node, NodeView};
use vstd::prelude::*;
use vstd::string::*;

verus! {

/// One row of the table, as it is stored.
#[derive(PartialEq, Eq, Debug)]
pub struct StoredRow {
    pub springname: String,
    pub hostname: String,
    pub address: String,
    pub service: i64,
    pub status: i64,
    pub types: i64,
}

/// A `StoredRow` as a plain value.
pub struct RowView {
    pub springname: Seq<char>,
    pub hostname: Seq<char>,
    pub address: Seq<char>,
    pub service: int,
    pub status: int,
    pub types: int,
}

impl View for StoredRow {
    type V = RowView;

    open spec fn view(&self) -> RowView {
        RowView {
            springname: self.springname@,
            hostname: self.hostname@,
            address: self.address@,
            service: self.service as int,
            status: self.status as int,
            types: self.types as int,
        }
    }
}

impl DeepView for StoredRow {
    type V = RowView;

    open spec fn deep_view(&self) -> RowView {
        self@
    }
}

impl DeepView for Node {
    type V = NodeView;

    open spec fn deep_view(&self) -> NodeView {
        self@
    }
}

impl Clone for StoredRow {
    fn clone(&self) -> (copy: Self)
        ensures
            copy@ == self@,
    {
        StoredRow {
            springname: self.springname.clone(),
            hostname: self.hostname.clone(),
            address: self.address.clone(),
            service: self.service,
            status: self.status,
            types: self.types,
        }
    }
}

/// The node that a row holds. A row whose address is no dotted address, or
/// whose numbers stand for no framing, state or role, is `Invalid`.
pub open spec fn node_of_row(r: RowView) -> Result<NodeView, Failure> {
    if text_ipv4(r.address) is Some && NodeService::of_code(r.service) is Some
        && NodeState::of_code(r.status) is Some && NodeRole::of_code(r.types) is Some {
        Ok(
            NodeView {
                springname: r.springname,
                hostname: r.hostname,
                address: text_ipv4(r.address)->0,
                service: NodeService::of_code(r.service)->0,
                state: NodeState::of_code(r.status)->0,
                role: NodeRole::of_code(r.types)->0,
            },
        )
    } else {
        Err(Failure::Invalid)
    }
}

/// The row that stores a node.
pub open spec fn row_of_node(n: NodeView) -> RowView {
    RowView {
        springname: n.springname,
        hostname: n.hostname,
        address: ipv4_text(n.address),
        service: n.service.code_of(),
        status: n.state.code_of(),
        types: n.role.code_of(),
    }
}

/// A node is read back from the row that stores it.
pub proof fn lemma_row_round_trip(n: NodeView)
    requires
        n.address.len() == 4,
    ensures
        node_of_row(row_of_node(n)) == Ok::<NodeView, Failure>(n),
{
    lemma_ipv4_round_trip(n.address);
    n.service.lemma_round_trip();
    n.state.lemma_round_trip();
    n.role.lemma_round_trip();
}

/// Decodes a row.
pub fn fill_node(row: &StoredRow) -> (node: Result<Node, Failure>)
    ensures
        match node {
            Ok(n) => node_of_row(row@) == Ok::<NodeView, Failure>(n@),
            Err(e) => node_of_row(row@) == Err::<NodeView, Failure>(e),
        },
{
    let address = match str_address_to_ipv4(row.address.as_str()) {
        Ok(a) => a,
        Err(e) => {
            return Err(e);
        },
    };
    let service = match NodeService::from_code(row.service) {
        Some(s) => s,
        None => {
            return Err(Failure::Invalid);
        },
    };
    let state = match NodeState::from_code(row.status) {
        Some(s) => s,
        None => {
            return Err(Failure::Invalid);
        },
    };
    let role = match NodeRole::from_code(row.types) {
        Some(r) => r,
        None => {
            return Err(Failure::Invalid);
        },
    };
    Ok(Node::new(row.springname.clone(), row.hostname.clone(), address, service, state, role))
}

/// Encodes a node for storage.
pub fn row_from_node(node: &Node) -> (row: StoredRow)
    ensures
        row@ == row_of_node(node@),
{
    StoredRow {
        springname: node.springname.clone(),
        hostname: node.hostname.clone(),
        address: ipv4_to_str_address(&node.address),
        service: node.service.code(),
        status: node.state.code(),
        types: node.role.code(),
    }
}

/// Whether every row has a name of its own.
pub open spec fn unique_names(rows: Seq<RowView>) -> bool {
    forall|i: int, j: int|
        0 <= i < j < rows.len() ==> (#[trigger] rows[i]).springname != (#[trigger] rows[j]).springname
}

/// What nodes a list is asked for.
#[derive(Copy, Clone, Debug)]
pub enum Filter {
    All,
    Address(Ipv4),
    Role(NodeRole),
    State(NodeState),
}

/// A `Filter` as a plain value.
pub enum FilterView {
    All,
    Address(Seq<u8>),
    Role(NodeRole),
    State(NodeState),
}

impl View for Filter {
    type V = FilterView;

    open spec fn view(&self) -> FilterView {
        match self {
            Filter::All => FilterView::All,
            Filter::Address(a) => FilterView::Address(a@),
            Filter::Role(r) => FilterView::Role(*r),
            Filter::State(s) => FilterView::State(*s),
        }
    }
}

/// Whether a node is one that the filter asks for.
pub open spec fn passes(filter: FilterView, n: NodeView) -> bool {
    match filter {
        FilterView::All => true,
        FilterView::Address(a) => n.address == a,
        FilterView::Role(r) => n.role == r,
        FilterView::State(s) => n.state == s,
    }
}

/// The nodes of the rows that decode and pass the filter, in the order of
/// the rows.
pub open spec fn select(rows: Seq<RowView>, filter: FilterView) -> Seq<NodeView>
    decreases rows.len(),
{
    if rows.len() == 0 {
        Seq::empty()
    } else {
        let before = select(rows.drop_last(), filter);
        match node_of_row(rows.last()) {
            Ok(n) => if passes(filter, n) {
                before.push(n)
            } else {
                before
            },
            Err(_) => before,
        }
    }
}

/// The name by which a row is looked up: its host name or its name in the
/// network.
pub open spec fn key_of(r: RowView, by_host: bool) -> Seq<char> {
    if by_host {
        r.hostname
    } else {
        r.springname
    }
}

/// Position of the first row at or after `from` with the key `name`; the
/// number of rows where there is none.
pub open spec fn first_keyed(rows: Seq<RowView>, by_host: bool, name: Seq<char>, from: int) -> int
    decreases rows.len() - from,
{
    if from < 0 || from >= rows.len() {
        rows.len() as int
    } else if key_of(rows[from], by_host) == name {
        from
    } else {
        first_keyed(rows, by_host, name, from + 1)
    }
}

/// Position of the row named `name`, or the number of rows.
pub open spec fn position(rows: Seq<RowView>, name: Seq<char>) -> int {
    first_keyed(rows, false, name, 0)
}

/// Whether a row is named `name`.
pub open spec fn has_name(rows: Seq<RowView>, name: Seq<char>) -> bool {
    position(rows, name) < rows.len()
}

/// The node of the first row with the key `name`: `NotFound` where no row
/// has it, `Invalid` where that row does not decode.
pub open spec fn lookup(rows: Seq<RowView>, by_host: bool, name: Seq<char>) -> Result<
    NodeView,
    Failure,
> {
    let i = first_keyed(rows, by_host, name, 0);
    if i >= rows.len() {
        Err(Failure::NotFound)
    } else {
        node_of_row(rows[i])
    }
}

/// A search from `from` ends in the table, at a row with the key, and
/// passes no such row.
pub proof fn lemma_first_keyed(rows: Seq<RowView>, by_host: bool, name: Seq<char>, from: int)
    requires
        0 <= from <= rows.len(),
    ensures
        from <= first_keyed(rows, by_host, name, from) <= rows.len(),
        first_keyed(rows, by_host, name, from) < rows.len() ==> key_of(
            rows[first_keyed(rows, by_host, name, from)],
            by_host,
        ) == name,
        forall|j: int|
            from <= j < first_keyed(rows, by_host, name, from) ==> key_of(
                #[trigger] rows[j],
                by_host,
            ) != name,
    decreases rows.len() - from,
{
    if from < rows.len() && key_of(rows[from], by_host) != name {
        lemma_first_keyed(rows, by_host, name, from + 1);
    }
}

/// A row is named `name` exactly when a search for `name` ends at a row.
pub proof fn lemma_has_name(rows: Seq<RowView>, name: Seq<char>)
    ensures
        has_name(rows, name) <==> exists|i: int|
            0 <= i < rows.len() && (#[trigger] rows[i]).springname == name,
{
    lemma_first_keyed(rows, false, name, 0);
    let p = position(rows, name);
    if p < rows.len() {
        assert(rows[p].springname == name);
    } else {
        assert forall|i: int| 0 <= i < rows.len() implies (#[trigger] rows[i]).springname
            != name by {
            assert(key_of(rows[i], false) != name);
        }
    }
}

/// The table after a node was asked to be registered: with the node's row
/// at its end, or as it was where a row has the node's name already.
pub open spec fn after_register(rows: Seq<RowView>, n: NodeView) -> Seq<RowView> {
    if has_name(rows, n.springname) {
        rows
    } else {
        rows.push(row_of_node(n))
    }
}

/// What registering a node answers: `Duplicate` where a row has its name.
pub open spec fn register_outcome(rows: Seq<RowView>, n: NodeView) -> Result<(), Failure> {
    if has_name(rows, n.springname) {
        Err(Failure::Duplicate)
    } else {
        Ok(())
    }
}

/// The table without the row named `name`.
pub open spec fn after_unregister(rows: Seq<RowView>, name: Seq<char>) -> Seq<RowView> {
    if has_name(rows, name) {
        rows.remove(position(rows, name))
    } else {
        rows
    }
}

/// What a change to the row named `name` answers: `NotFound` where there
/// is no such row.
pub open spec fn change_outcome(rows: Seq<RowView>, name: Seq<char>) -> Result<(), Failure> {
    if has_name(rows, name) {
        Ok(())
    } else {
        Err(Failure::NotFound)
    }
}

/// One of the columns that are changed on their own.
#[derive(Copy, Clone, PartialEq, Eq, Debug, Structural)]
pub enum Field {
    Role,
    State,
    Service,
    Hostname,
    Address,
}

/// The row `r` with one column taken from the node `n`.
pub open spec fn with_field(r: RowView, field: Field, n: NodeView) -> RowView {
    match field {
        Field::Role => RowView { types: n.role.code_of(), ..r },
        Field::State => RowView { status: n.state.code_of(), ..r },
        Field::Service => RowView { service: n.service.code_of(), ..r },
        Field::Hostname => RowView { hostname: n.hostname, ..r },
        Field::Address => RowView { address: ipv4_text(n.address), ..r },
    }
}

/// The table after one column of the row named as `n` was taken from `n`;
/// the table as it was where there is no such row.
pub open spec fn after_update(rows: Seq<RowView>, field: Field, n: NodeView) -> Seq<RowView> {
    if has_name(rows, n.springname) {
        let p = position(rows, n.springname);
        rows.update(p, with_field(rows[p], field, n))
    } else {
        rows
    }
}

/// The table of nodes.
pub struct Netspace {
    rows: Vec<StoredRow>,
}

impl View for Netspace {
    type V = Seq<RowView>;

    closed spec fn view(&self) -> Seq<RowView> {
        self.rows.deep_view()
    }
}

impl Netspace {
    /// Whether the table is as it must be: no two rows have the same name.
    /// Every table that this module hands out is, and stays so.
    pub open spec fn wf(&self) -> bool {
        unique_names(self@)
    }

    /// An empty table.
    pub fn new() -> (table: Netspace)
        ensures
            table@ == Seq::<RowView>::empty(),
            table.wf(),
    {
        let rows: Vec<StoredRow> = Vec::new();
        assert(rows.deep_view() =~= Seq::<RowView>::empty());
        Netspace { rows }
    }

    /// Position of the first row at or after `from` with the key `name`.
    fn find(&self, by_host: bool, name: &str, from: usize) -> (at: usize)
        requires
            from <= self@.len(),
        ensures
            at == first_keyed(self@, by_host, name@, from as int),
            at <= self.rows.len(),
            self.rows.len() == self@.len(),
    {
        let n = self.rows.len();
        let mut i: usize = from;
        while i < n
            invariant
                n == self.rows.len(),
                from <= i <= n,
                self@ == self.rows.deep_view(),
                first_keyed(self@, by_host, name@, from as int) == first_keyed(
                    self@,
                    by_host,
                    name@,
                    i as int,
                ),
            decreases n - i,
        {
            let row = &self.rows[i];
            assert(self@[i as int] == row@);
            let key = if by_host {
                row.hostname.as_str()
            } else {
                row.springname.as_str()
            };
            if crate::text::text_eq(key, name) {
                return i;
            }
            i += 1;
        }
        n
    }

    /// The nodes that the filter asks for.
    pub fn nodes(&self, filter: Filter) -> (list: Vec<Node>)
        ensures
            list.deep_view() == select(self@, filter@),
    {
        let n = self.rows.len();
        let mut list: Vec<Node> = Vec::new();
        let mut i: usize = 0;
        assert(self@.take(0) =~= Seq::<RowView>::empty());
        while i < n
            invariant
                n == self.rows.len(),
                i <= n,
                self@ == self.rows.deep_view(),
                list.deep_view() == select(self@.take(i as int), filter@),
            decreases n - i,
        {
            let row = &self.rows[i];
            proof {
                let t = self@.take(i + 1);
                assert(t.drop_last() =~= self@.take(i as int));
                assert(t.last() == row@);
            }
            let ghost before = list.deep_view();
            match fill_node(row) {
                Ok(node) => {
                    let keep = match filter {
                        Filter::All => true,
                        Filter::Address(a) => same_address(&node.address, &a),
                        Filter::Role(r) => node.role == r,
                        Filter::State(s) => node.state == s,
                    };
                    if keep {
                        list.push(node);
                        assert(list.deep_view() =~= before.push(node@));
                    }
                },
                Err(_) => {},
            }
            i += 1;
        }
        assert(self@.take(n as int) =~= self@);
        list
    }

    /// The table that holds the given rows; `Duplicate` where two of them
    /// have the same name.
    pub fn from_rows(rows: Vec<StoredRow>) -> (table: Result<Netspace, Failure>)
        ensures
            match table {
                Ok(t) => t@ == rows.deep_view() && t.wf(),
                Err(e) => e == Failure::Duplicate && !unique_names(rows.deep_view()),
            },
    {
        let n = rows.len();
        let ghost view = rows.deep_view();
        let mut j: usize = 0;
        while j < n
            invariant
                n == rows.len(),
                j <= n,
                view == rows.deep_view(),
                unique_names(view.take(j as int)),
            decreases n - j,
        {
            let mut i: usize = 0;
            while i < j
                invariant
                    n == rows.len(),
                    i <= j < n,
                    view == rows.deep_view(),
                    forall|k: int| 0 <= k < i ==> (#[trigger] view[k]).springname != view[j as int].springname,
                decreases j - i,
            {
                assert(view[i as int] == rows[i as int]@ && view[j as int] == rows[j as int]@);
                if crate::text::text_eq(rows[i].springname.as_str(), rows[j].springname.as_str()) {
                    return Err(Failure::Duplicate);
                }
                i += 1;
            }
            assert forall|a: int, b: int| 0 <= a < b < j + 1 implies (#[trigger] view.take(
                j + 1,
            )[a]).springname != (#[trigger] view.take(j + 1)[b]).springname by {
                if b < j {
                    assert(view.take(j as int)[a].springname != view.take(j as int)[b].springname);
                } else {
                    assert(view[a].springname != view[j as int].springname);
                }
            }
            j += 1;
        }
        assert(view.take(n as int) =~= view);
        Ok(Netspace { rows })
    }

    /// The rows of the table, as they are to be stored.
    pub fn stored(&self) -> (rows: Vec<StoredRow>)
        ensures
            rows.deep_view() == self@,
    {
        let n = self.rows.len();
        let mut rows: Vec<StoredRow> = Vec::new();
        let mut i: usize = 0;
        while i < n
            invariant
                n == self.rows.len(),
                i <= n,
                self@ == self.rows.deep_view(),
                rows.deep_view() == self@.take(i as int),
            decreases n - i,
        {
            let ghost before = rows.deep_view();
            let row = self.rows[i].clone();
            rows.push(row);
            assert(rows.deep_view() =~= before.push(row@));
            assert(self@.take(i + 1) =~= self@.take(i as int).push(self@[i as int]));
            i += 1;
        }
        assert(self@.take(n as int) =~= self@);
        rows
    }

    /// Every node of the table.
    pub fn gsn_nodes(&self) -> (list: Vec<Node>)
        ensures
            list.deep_view() == select(self@, FilterView::All),
    {
        self.nodes(Filter::All)
    }

    /// The nodes at an address.
    pub fn gsn_nodes_by_address(&self, address: Ipv4) -> (list: Vec<Node>)
        ensures
            list.deep_view() == select(self@, FilterView::Address(address@)),
    {
        self.nodes(Filter::Address(address))
    }

    /// The nodes of a role.
    pub fn gsn_nodes_by_type(&self, role: NodeRole) -> (list: Vec<Node>)
        ensures
            list.deep_view() == select(self@, FilterView::Role(role)),
    {
        self.nodes(Filter::Role(role))
    }

    /// The nodes in a state.
    pub fn gsn_nodes_by_state(&self, state: NodeState) -> (list: Vec<Node>)
        ensures
            list.deep_view() == select(self@, FilterView::State(state)),
    {
        self.nodes(Filter::State(state))
    }

    /// The node of the first row with the key `name`.
    fn node_by(&self, by_host: bool, name: &str) -> (node: Result<Node, Failure>)
        ensures
            match node {
                Ok(n) => lookup(self@, by_host, name@) == Ok::<NodeView, Failure>(n@),
                Err(e) => lookup(self@, by_host, name@) == Err::<NodeView, Failure>(e),
            },
    {
        let at = self.find(by_host, name, 0);
        if at >= self.rows.len() {
            Err(Failure::NotFound)
        } else {
            let row = &self.rows[at];
            assert(self@[at as int] == row@);
            fill_node(row)
        }
    }

    /// The node named `name`.
    pub fn gsn_node_by_springname(&self, name: &str) -> (node: Result<Node, Failure>)
        ensures
            match node {
                Ok(n) => lookup(self@, false, name@) == Ok::<NodeView, Failure>(n@),
                Err(e) => lookup(self@, false, name@) == Err::<NodeView, Failure>(e),
            },
    {
        self.node_by(false, name)
    }

    /// The first node whose host is named `name`.
    pub fn gsn_node_by_hostname(&self, name: &str) -> (node: Result<Node, Failure>)
        ensures
            match node {
                Ok(n) => lookup(self@, true, name@) == Ok::<NodeView, Failure>(n@),
                Err(e) => lookup(self@, true, name@) == Err::<NodeView, Failure>(e),
            },
    {
        self.node_by(true, name)
    }

    /// The root nodes of the wider network: the table holds none.
    pub fn gtn_root_nodes(&self) -> (list: Vec<Node>)
        ensures
            list@.len() == 0,
    {
        Vec::new()
    }

    /// The names of the other networks: the table holds none.
    pub fn gtn_geosubs(&self) -> (list: Vec<String>)
        ensures
            list@.len() == 0,
    {
        Vec::new()
    }

    /// Adds a node, unless a row has its name.
    pub fn gsn_node_register(&mut self, node: &Node) -> (done: Result<(), Failure>)
        requires
            old(self).wf(),
        ensures
            final(self).wf(),
            done == register_outcome(old(self)@, node@),
            final(self)@ == after_register(old(self)@, node@),
    {
        proof {
            lemma_has_name(self@, node@.springname);
        }
        let at = self.find(false, node.springname.as_str(), 0);
        if at < self.rows.len() {
            return Err(Failure::Duplicate);
        }
        let row = row_from_node(node);
        let ghost before = self.rows.deep_view();
        self.rows.push(row);
        proof {
            let after = self.rows.deep_view();
            assert(after =~= before.push(row@));
            assert forall|i: int, j: int| 0 <= i < j < after.len() implies (#[trigger] after[i]).springname
                != (#[trigger] after[j]).springname by {
                if j < before.len() {
                    assert(before[i].springname != before[j].springname);
                } else {
                    assert(before[i].springname != node@.springname);
                }
            }
        }
        Ok(())
    }

    /// Takes the row named as `node` out of the table.
    pub fn gsn_node_unregister(&mut self, node: &Node) -> (done: Result<(), Failure>)
        requires
            old(self).wf(),
        ensures
            final(self).wf(),
            done == change_outcome(old(self)@, node@.springname),
            final(self)@ == after_unregister(old(self)@, node@.springname),
    {
        let at = self.find(false, node.springname.as_str(), 0);
        if at >= self.rows.len() {
            return Err(Failure::NotFound);
        }
        let ghost before = self.rows.deep_view();
        self.rows.remove(at);
        proof {
            let after = self.rows.deep_view();
            assert(after =~= before.remove(at as int));
            assert forall|i: int, j: int| 0 <= i < j < after.len() implies (#[trigger] after[i]).springname
                != (#[trigger] after[j]).springname by {
                let a = if i < at { i } else { i + 1 };
                let b = if j < at { j } else { j + 1 };
                assert(before[a].springname != before[b].springname);
            }
        }
        Ok(())
    }

    /// Stores one column of the row named as `node` anew, from `node`.
    pub fn update_field(&mut self, node: &Node, field: Field) -> (done: Result<(), Failure>)
        requires
            old(self).wf(),
        ensures
            final(self).wf(),
            done == change_outcome(old(self)@, node@.springname),
            final(self)@ == after_update(old(self)@, field, node@),
    {
        let at = self.find(false, node.springname.as_str(), 0);
        if at >= self.rows.len() {
            return Err(Failure::NotFound);
        }
        let ghost before = self.rows.deep_view();
        let mut row = self.rows[at].clone();
        assert(row@ == before[at as int]);
        match field {
            Field::Role => {
                row.types = node.role.code();
            },
            Field::State => {
                row.status = node.state.code();
            },
            Field::Service => {
                row.service = node.service.code();
            },
            Field::Hostname => {
                row.hostname = node.hostname.clone();
            },
            Field::Address => {
                row.address = ipv4_to_str_address(&node.address);
            },
        }
        self.rows.set(at, row);
        proof {
            let after = self.rows.deep_view();
            assert(after =~= before.update(at as int, row@));
            assert forall|i: int, j: int| 0 <= i < j < after.len() implies (#[trigger] after[i]).springname
                != (#[trigger] after[j]).springname by {
                assert(before[i].springname != before[j].springname);
            }
        }
        Ok(())
    }

    /// Stores the role of `node` in the row named as `node`.
    pub fn gsn_node_update_role(&mut self, node: &Node) -> (done: Result<(), Failure>)
        requires
            old(self).wf(),
        ensures
            final(self).wf(),
            done == change_outcome(old(self)@, node@.springname),
            final(self)@ == after_update(old(self)@, Field::Role, node@),
    {
        self.update_field(node, Field::Role)
    }

    /// Stores the state of `node` in the row named as `node`.
    pub fn gsn_node_update_state(&mut self, node: &Node) -> (done: Result<(), Failure>)
        requires
            old(self).wf(),
        ensures
            final(self).wf(),
            done == change_outcome(old(self)@, node@.springname),
            final(self)@ == after_update(old(self)@, Field::State, node@),
    {
        self.update_field(node, Field::State)
    }

    /// Stores the framing of `node` in the row named as `node`.
    pub fn gsn_node_update_service(&mut self, node: &Node) -> (done: Result<(), Failure>)
        requires
            old(self).wf(),
        ensures
            final(self).wf(),
            done == change_outcome(old(self)@, node@.springname),
            final(self)@ == after_update(old(self)@, Field::Service, node@),
    {
        self.update_field(node, Field::Service)
    }

    /// Stores the host name of `node` in the row named as `node`.
    pub fn gsn_node_update_hostname(&mut self, node: &Node) -> (done: Result<(), Failure>)
        requires
            old(self).wf(),
        ensures
            final(self).wf(),
            done == change_outcome(old(self)@, node@.springname),
            final(self)@ == after_update(old(self)@, Field::Hostname, node@),
    {
        self.update_field(node, Field::Hostname)
    }

    /// Stores the address of `node` in the row named as `node`.
    pub fn gsn_node_update_address(&mut self, node: &Node) -> (done: Result<(), Failure>)
        requires
            old(self).wf(),
        ensures
            final(self).wf(),
            done == change_outcome(old(self)@, node@.springname),
            final(self)@ == after_update(old(self)@, Field::Address, node@),
    {
        self.update_field(node, Field::Address)
    }
}

/// A search in a table with one more row at its end: it ends where it
/// ended before, or at the new row, or finds nothing.
pub proof fn lemma_first_keyed_push(
    rows: Seq<RowView>,
    r: RowView,
    by_host: bool,
    name: Seq<char>,
    from: int,
)
    requires
        0 <= from <= rows.len(),
    ensures
        first_keyed(rows.push(r), by_host, name, from) == if first_keyed(rows, by_host, name, from)
            < rows.len() {
            first_keyed(rows, by_host, name, from)
        } else if key_of(r, by_host) == name {
            rows.len() as int
        } else {
            rows.len() as int + 1
        },
    decreases rows.len() - from,
{
    let more = rows.push(r);
    if from < rows.len() {
        assert(more[from] == rows[from]);
        if key_of(rows[from], by_host) != name {
            lemma_first_keyed_push(rows, r, by_host, name, from + 1);
        }
    } else {
        assert(more[from] == r);
        assert(first_keyed(more, by_host, name, from + 1) == more.len());
    }
}

/// A node whose name is new is registered, and is found by its name right
/// after, as it was given.
pub proof fn lemma_registered_is_found(rows: Seq<RowView>, n: NodeView)
    requires
        n.address.len() == 4,
        !has_name(rows, n.springname),
    ensures
        register_outcome(rows, n) == Ok::<(), Failure>(()),
        lookup(after_register(rows, n), false, n.springname) == Ok::<NodeView, Failure>(n),
{
    lemma_first_keyed(rows, false, n.springname, 0);
    lemma_first_keyed_push(rows, row_of_node(n), false, n.springname, 0);
    lemma_row_round_trip(n);
}

/// Once a node is registered, a second registration under its name is a
/// `Duplicate`, whatever else the second node holds, and leaves the table
/// as it was.
pub proof fn lemma_second_registration_fails(rows: Seq<RowView>, n: NodeView, m: NodeView)
    requires
        m.springname == n.springname,
    ensures
        register_outcome(after_register(rows, n), m) == Err::<(), Failure>(Failure::Duplicate),
        after_register(after_register(rows, n), m) == after_register(rows, n),
{
    lemma_first_keyed(rows, false, n.springname, 0);
    lemma_first_keyed_push(rows, row_of_node(n), false, n.springname, 0);
}

/// After a node was unregistered, a search for its name finds nothing.
pub proof fn lemma_unregistered_is_gone(rows: Seq<RowView>, name: Seq<char>)
    requires
        unique_names(rows),
    ensures
        lookup(after_unregister(rows, name), false, name) == Err::<NodeView, Failure>(
            Failure::NotFound,
        ),
        unique_names(after_unregister(rows, name)),
{
    let after = after_unregister(rows, name);
    lemma_first_keyed(rows, false, name, 0);
    lemma_first_keyed(after, false, name, 0);
    let p = position(rows, name);
    if p < rows.len() {
        let q = position(after, name);
        if q < after.len() {
            let b = if q < p { q } else { q + 1 };
            assert(after[q] == rows[b]);
            assert(rows[b].springname == name && rows[p].springname == name);
            if b < p {
                assert(rows[b].springname != rows[p].springname);
            } else {
                assert(rows[p].springname != rows[b].springname);
            }
        }
        assert forall|i: int, j: int| 0 <= i < j < after.len() implies (#[trigger] after[i]).springname
            != (#[trigger] after[j]).springname by {
            let a = if i < p { i } else { i + 1 };
            let b = if j < p { j } else { j + 1 };
            assert(rows[a].springname != rows[b].springname);
        }
    }
}

/// Two nodes of different names, both new, are both registered, in
/// whichever order they come, and both are found afterwards.
pub proof fn lemma_two_registrations(rows: Seq<RowView>, a: NodeView, b: NodeView)
    requires
        a.address.len() == 4,
        b.address.len() == 4,
        a.springname != b.springname,
        !has_name(rows, a.springname),
        !has_name(rows, b.springname),
    ensures
        register_outcome(rows, a) == Ok::<(), Failure>(()),
        register_outcome(after_register(rows, a), b) == Ok::<(), Failure>(()),
        lookup(after_register(after_register(rows, a), b), false, a.springname) == Ok::<
            NodeView,
            Failure,
        >(a),
        lookup(after_register(after_register(rows, a), b), false, b.springname) == Ok::<
            NodeView,
            Failure,
        >(b),
{
    let one = after_register(rows, a);
    lemma_first_keyed(rows, false, a.springname, 0);
    lemma_first_keyed(rows, false, b.springname, 0);
    lemma_first_keyed_push(rows, row_of_node(a), false, a.springname, 0);
    lemma_first_keyed_push(rows, row_of_node(a), false, b.springname, 0);
    assert(!has_name(one, b.springname));
    lemma_first_keyed_push(one, row_of_node(b), false, a.springname, 0);
    lemma_first_keyed_push(one, row_of_node(b), false, b.springname, 0);
    lemma_row_round_trip(a);
    lemma_row_round_trip(b);
}

/// A list holds exactly the nodes of the rows that decode and pass the
/// filter.
pub proof fn lemma_select_is_exact(rows: Seq<RowView>, filter: FilterView, n: NodeView)
    ensures
        select(rows, filter).contains(n) <==> passes(filter, n) && exists|i: int|
            0 <= i < rows.len() && node_of_row(#[trigger] rows[i]) == Ok::<NodeView, Failure>(n),
    decreases rows.len(),
{
    if rows.len() > 0 {
        let before = rows.drop_last();
        lemma_select_is_exact(before, filter, n);
        let list = select(rows, filter);
        let had = select(before, filter);
        if list.contains(n) {
            let k = choose|k: int| 0 <= k < list.len() && list[k] == n;
            if k < had.len() {
                assert(had[k] == n);
                assert(had.contains(n));
                let i = choose|i: int|
                    0 <= i < before.len() && node_of_row(#[trigger] before[i]) == Ok::<
                        NodeView,
                        Failure,
                    >(n);
                assert(rows[i] == before[i]);
            } else {
                assert(node_of_row(rows[rows.len() - 1]) == Ok::<NodeView, Failure>(n));
            }
        }
        if passes(filter, n) && exists|i: int|
            0 <= i < rows.len() && node_of_row(#[trigger] rows[i]) == Ok::<NodeView, Failure>(n) {
            let i = choose|i: int|
                0 <= i < rows.len() && node_of_row(#[trigger] rows[i]) == Ok::<NodeView, Failure>(
                    n,
                );
            if i < before.len() {
                assert(before[i] == rows[i]);
                assert(had.contains(n));
                let k = choose|k: int| 0 <= k < had.len() && had[k] == n;
                assert(list[k] == n);
            } else {
                assert(list[list.len() - 1] == n);
            }
        }
    }
}

/// A change to one column of a node that is in the table is found in that
/// node afterwards, and in nothing else: the node holds what it held in
/// every other column, and every other row is as it was.
pub proof fn lemma_update_is_one_column(rows: Seq<RowView>, field: Field, n: NodeView, held: NodeView)
    requires
        n.address.len() == 4,
        has_name(rows, n.springname),
        lookup(rows, false, n.springname) == Ok::<NodeView, Failure>(held),
    ensures
        lookup(after_update(rows, field, n), false, n.springname) == Ok::<NodeView, Failure>(
            match field {
                Field::Role => NodeView { role: n.role, ..held },
                Field::State => NodeView { state: n.state, ..held },
                Field::Service => NodeView { service: n.service, ..held },
                Field::Hostname => NodeView { hostname: n.hostname, ..held },
                Field::Address => NodeView { address: n.address, ..held },
            },
        ),
        after_update(rows, field, n).len() == rows.len(),
        forall|i: int|
            0 <= i < rows.len() && i != position(rows, n.springname) ==> after_update(
                rows,
                field,
                n,
            )[i] == rows[i],
{
    let after = after_update(rows, field, n);
    let p = position(rows, n.springname);
    lemma_first_keyed(rows, false, n.springname, 0);
    lemma_first_keyed(after, false, n.springname, 0);
    assert(after[p].springname == n.springname);
    let q = position(after, n.springname);
    if q < p {
        assert(after[q] == rows[q]);
        assert(key_of(rows[q], false) != n.springname);
    }
    assert(q == p);
    lemma_ipv4_round_trip(n.address);
    n.service.lemma_round_trip();
    n.state.lemma_round_trip();
    n.role.lemma_round_trip();
}

/// One statement to the store that keeps the table.
#[derive(PartialEq, Eq, Debug)]
pub enum Change {
    /// The row of this name is taken out.
    Delete(String),
    /// The row is added.
    Insert(StoredRow),
    /// One column of the row that is named as this row is stored anew,
    /// from this row.
    Store(Field, StoredRow),
}

/// A `Change` as a plain value.
pub enum ChangeView {
    Delete(Seq<char>),
    Insert(RowView),
    Store(Field, RowView),
}

impl View for Change {
    type V = ChangeView;

    open spec fn view(&self) -> ChangeView {
        match self {
            Change::Delete(name) => ChangeView::Delete(name@),
            Change::Insert(row) => ChangeView::Insert(row@),
            Change::Store(field, row) => ChangeView::Store(*field, row@),
        }
    }
}

impl DeepView for Change {
    type V = ChangeView;

    open spec fn deep_view(&self) -> ChangeView {
        self@
    }
}

/// The rows to take out: one `Delete` for each row of `before` whose name
/// no row of `after` has, in the order of `before`.
pub open spec fn deletions(before: Seq<RowView>, after: Seq<RowView>) -> Seq<ChangeView>
    decreases before.len(),
{
    if before.len() == 0 {
        Seq::empty()
    } else {
        let first = deletions(before.drop_last(), after);
        if has_name(after, before.last().springname) {
            first
        } else {
            first.push(ChangeView::Delete(before.last().springname))
        }
    }
}

/// One `Store` if the two rows differ in the column, none if they do not.
pub open spec fn column_change(differs: bool, field: Field, new: RowView) -> Seq<ChangeView> {
    if differs {
        seq![ChangeView::Store(field, new)]
    } else {
        Seq::empty()
    }
}

/// The columns to store anew to make `old` into `new`: one `Store` for each
/// column in which they differ, in the order host name, address, framing,
/// state, role.
pub open spec fn column_changes(old: RowView, new: RowView) -> Seq<ChangeView> {
    column_change(old.hostname != new.hostname, Field::Hostname, new) + column_change(
        old.address != new.address,
        Field::Address,
        new,
    ) + column_change(old.service != new.service, Field::Service, new) + column_change(
        old.status != new.status,
        Field::State,
        new,
    ) + column_change(old.types != new.types, Field::Role, new)
}

/// The rows to add and the columns to store anew: for each row of `after`,
/// in order, an `Insert` where no row of `before` has its name, and the
/// `column_changes` from the row of that name otherwise.
pub open spec fn writes(before: Seq<RowView>, after: Seq<RowView>) -> Seq<ChangeView>
    decreases after.len(),
{
    if after.len() == 0 {
        Seq::empty()
    } else {
        let first = writes(before, after.drop_last());
        let row = after.last();
        let p = position(before, row.springname);
        if 0 <= p < before.len() {
            first + column_changes(before[p], row)
        } else {
            first.push(ChangeView::Insert(row))
        }
    }
}

/// What is to be stored to make the table `before` into the table `after`:
/// the deletions, then the writes.
pub open spec fn changes_between(before: Seq<RowView>, after: Seq<RowView>) -> Seq<ChangeView> {
    deletions(before, after) + writes(before, after)
}

/// Position of the row named `name` in `rows`, or the number of rows.
pub fn locate(rows: &Vec<StoredRow>, name: &str) -> (at: usize)
    ensures
        at == position(rows.deep_view(), name@),
        at <= rows.len(),
{
    let ghost all = rows.deep_view();
    let n = rows.len();
    let mut i: usize = 0;
    while i < n
        invariant
            n == rows.len(),
            i <= n,
            all == rows.deep_view(),
            position(all, name@) == first_keyed(all, false, name@, i as int),
        decreases n - i,
    {
        assert(all[i as int] == rows[i as int]@);
        if crate::text::text_eq(rows[i].springname.as_str(), name) {
            return i;
        }
        i += 1;
    }
    n
}

/// Adds a `Store` for a column in which two rows differ.
fn push_column(list: &mut Vec<Change>, differs: bool, field: Field, new: &StoredRow)
    ensures
        final(list).deep_view() == old(list).deep_view() + column_change(differs, field, new@),
{
    let ghost before = list.deep_view();
    if differs {
        let change = Change::Store(field, new.clone());
        list.push(change);
        assert(list.deep_view() =~= before.push(change@));
        assert(list.deep_view() =~= before + column_change(differs, field, new@));
    } else {
        assert(list.deep_view() =~= before + column_change(differs, field, new@));
    }
}

impl Netspace {
    /// What is to be stored to make the rows `before` into this table.
    pub fn changes_since(&self, before: &Vec<StoredRow>) -> (list: Vec<Change>)
        ensures
            list.deep_view() == changes_between(before.deep_view(), self@),
    {
        let ghost old_rows = before.deep_view();
        let ghost new_rows = self@;
        let mut list: Vec<Change> = Vec::new();
        let mut i: usize = 0;
        assert(old_rows.take(0) =~= Seq::<RowView>::empty());
        assert(list.deep_view() =~= Seq::<ChangeView>::empty());
        while i < before.len()
            invariant
                i <= before.len(),
                old_rows == before.deep_view(),
                new_rows == self@,
                new_rows == self.rows.deep_view(),
                list.deep_view() == deletions(old_rows.take(i as int), new_rows),
            decreases before.len() - i,
        {
            let row = &before[i];
            proof {
                let t = old_rows.take(i + 1);
                assert(t.drop_last() =~= old_rows.take(i as int));
                assert(t.last() == row@);
            }
            let at = locate(&self.rows, row.springname.as_str());
            if at >= self.rows.len() {
                let ghost had = list.deep_view();
                let change = Change::Delete(row.springname.clone());
                list.push(change);
                assert(list.deep_view() =~= had.push(change@));
            }
            i += 1;
        }
        assert(old_rows.take(before.len() as int) =~= old_rows);
        let ghost gone = list.deep_view();
        let mut j: usize = 0;
        assert(new_rows.take(0) =~= Seq::<RowView>::empty());
        assert(list.deep_view() =~= gone + writes(old_rows, new_rows.take(0)));
        while j < self.rows.len()
            invariant
                j <= self.rows.len(),
                old_rows == before.deep_view(),
                new_rows == self.rows.deep_view(),
                list.deep_view() == gone + writes(old_rows, new_rows.take(j as int)),
            decreases self.rows.len() - j,
        {
            let row = &self.rows[j];
            proof {
                let t = new_rows.take(j + 1);
                assert(t.drop_last() =~= new_rows.take(j as int));
                assert(t.last() == row@);
            }
            let ghost had = list.deep_view();
            let at = locate(before, row.springname.as_str());
            if at < before.len() {
                let held = &before[at];
                assert(old_rows[at as int] == held@);
                push_column(
                    &mut list,
                    !crate::text::text_eq(held.hostname.as_str(), row.hostname.as_str()),
                    Field::Hostname,
                    row,
                );
                push_column(
                    &mut list,
                    !crate::text::text_eq(held.address.as_str(), row.address.as_str()),
                    Field::Address,
                    row,
                );
                push_column(&mut list, held.service != row.service, Field::Service, row);
                push_column(&mut list, held.status != row.status, Field::State, row);
                push_column(&mut list, held.types != row.types, Field::Role, row);
                assert(list.deep_view() =~= had + column_changes(held@, row@));
            } else {
                let change = Change::Insert(row.clone());
                list.push(change);
                assert(list.deep_view() =~= had.push(change@));
            }
            assert(list.deep_view() =~= gone + writes(old_rows, new_rows.take(j + 1)));
            j += 1;
        }
        assert(new_rows.take(self.rows.len() as int) =~= new_rows);
        list
    }
}

/// In a table without two rows of one name, a search for the name of a
/// row ends at that row.
pub proof fn lemma_position_of_row(rows: Seq<RowView>, k: int)
    requires
        unique_names(rows),
        0 <= k < rows.len(),
    ensures
        position(rows, rows[k].springname) == k,
{
    lemma_first_keyed(rows, false, rows[k].springname, 0);
    let p = position(rows, rows[k].springname);
    if p < k {
        assert(rows[p].springname != rows[k].springname);
    } else if p > k {
        assert(key_of(rows[k], false) != rows[k].springname);
    }
}

/// Rows that are in both tables, under the same names and in the same
/// places up to `k`, ask for no deletion and for the column changes of
/// each pair alone.
pub proof fn lemma_changes_rowwise(before: Seq<RowView>, after: Seq<RowView>, k: int)
    requires
        unique_names(before),
        unique_names(after),
        before.len() == after.len(),
        forall|i: int| 0 <= i < before.len() ==> (#[trigger] before[i]).springname == after[i].springname,
        0 <= k <= before.len(),
    ensures
        deletions(before.take(k), after) == Seq::<ChangeView>::empty(),
        k > 0 ==> writes(before, after.take(k)) == writes(before, after.take(k - 1)) + column_changes(
            before[k - 1],
            after[k - 1],
        ),
        k == 0 ==> writes(before, after.take(k)) == Seq::<ChangeView>::empty(),
    decreases k,
{
    if k > 0 {
        lemma_changes_rowwise(before, after, k - 1);
        assert(before.take(k).drop_last() =~= before.take(k - 1));
        assert(after.take(k).drop_last() =~= after.take(k - 1));
        assert(before[k - 1].springname == after[k - 1].springname);
        lemma_position_of_row(after, k - 1);
        lemma_position_of_row(before, k - 1);
    } else {
        assert(before.take(0) =~= Seq::<RowView>::empty());
        assert(after.take(0) =~= Seq::<RowView>::empty());
    }
}

/// Nothing is to be stored where the table is as it was.
pub proof fn lemma_no_change(rows: Seq<RowView>, k: int)
    requires
        unique_names(rows),
        0 <= k <= rows.len(),
    ensures
        deletions(rows.take(k), rows) == Seq::<ChangeView>::empty(),
        writes(rows, rows.take(k)) == Seq::<ChangeView>::empty(),
        k == rows.len() ==> changes_between(rows, rows) == Seq::<ChangeView>::empty(),
    decreases k,
{
    lemma_changes_rowwise(rows, rows, k);
    if k > 0 {
        lemma_no_change(rows, k - 1);
        assert(column_changes(rows[k - 1], rows[k - 1]) =~= Seq::<ChangeView>::empty());
    }
    if k == rows.len() {
        assert(rows.take(k) =~= rows);
    }
}

/// Where two tables differ in the row at `p` alone, and not in its name,
/// what is to be stored is the column changes of that row.
pub proof fn lemma_changes_of_one_row(before: Seq<RowView>, after: Seq<RowView>, p: int, k: int)
    requires
        unique_names(before),
        0 <= p < before.len(),
        after == before.update(p, after[p]),
        after[p].springname == before[p].springname,
        0 <= k <= before.len(),
    ensures
        unique_names(after),
        writes(before, after.take(k)) == if k <= p {
            Seq::<ChangeView>::empty()
        } else {
            column_changes(before[p], after[p])
        },
        k == before.len() ==> changes_between(before, after) == column_changes(
            before[p],
            after[p],
        ),
    decreases k,
{
    assert forall|i: int, j: int| 0 <= i < j < after.len() implies (#[trigger] after[i]).springname
        != (#[trigger] after[j]).springname by {
        assert(before[i].springname != before[j].springname);
    }
    assert forall|i: int| 0 <= i < before.len() implies (#[trigger] before[i]).springname
        == after[i].springname by {}
    lemma_changes_rowwise(before, after, k);
    if k > 0 {
        lemma_changes_of_one_row(before, after, p, k - 1);
        if k - 1 != p {
            assert(after[k - 1] == before[k - 1]);
            assert(column_changes(before[k - 1], after[k - 1]) =~= Seq::<ChangeView>::empty());
        }
    }
    if k == before.len() {
        assert(after.take(k) =~= after);
        assert(before.take(k) =~= before);
    }
}

/// A change to one column of a node is stored with one statement, for
/// that column, or with none where the column holds the value already.
pub proof fn lemma_update_is_one_statement(rows: Seq<RowView>, field: Field, n: NodeView)
    requires
        unique_names(rows),
        has_name(rows, n.springname),
    ensures
        changes_between(rows, after_update(rows, field, n)) == column_change(
            with_field(rows[position(rows, n.springname)], field, n) != rows[position(
                rows,
                n.springname,
            )],
            field,
            with_field(rows[position(rows, n.springname)], field, n),
        ),
{
    let p = position(rows, n.springname);
    lemma_first_keyed(rows, false, n.springname, 0);
    let after = after_update(rows, field, n);
    assert(after[p] == with_field(rows[p], field, n));
    assert(after =~= rows.update(p, after[p]));
    lemma_changes_of_one_row(rows, after, p, rows.len() as int);
    assert(column_changes(rows[p], after[p]) =~= column_change(
        after[p] != rows[p],
        field,
        after[p],
    ));
}

} // verus!
