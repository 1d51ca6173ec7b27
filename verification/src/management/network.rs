//! Commands on the table of nodes: what they say, and what they do.

use crate::enums::{Failure, NodeRole, NodeService, NodeState};
use crate::formats::{ipv4_text, ipv4_to_str_address, str_address_to_ipv4, text_ipv4};
use crate::netspace::{
    after_unregister, after_update, has_name, lookup, select, Field, FilterView,
    Netspace, RowView,
};
use crate::node::{Node, NodeView};
use crate::table::{draw, drawable, table_text};
use crate::text::{append_escaped, escaped, split, split_text, text_eq};
use vstd::prelude::*;
use vstd::string::*;

verus! {

/// What a command does.
#[derive(Copy, Clone, PartialEq, Eq, Debug, Structural)]
pub enum NetworkAction {
    View,
    Remove,
    Update,
}

/// What a command acts on, or the value it sets.
#[derive(PartialEq, Debug)]
pub enum NetworkOperand {
    /// No operand was given, or a word that names none.
    Nothing,
    All,
    Node(String),
    Role(NodeRole),
    State(NodeState),
    Service(NodeService),
    Host(String),
    Address(String),
}

/// A `NetworkOperand` with its texts as sequences of characters.
pub enum OperandView {
    Nothing,
    All,
    Node(Seq<char>),
    Role(NodeRole),
    State(NodeState),
    Service(NodeService),
    Host(Seq<char>),
    Address(Seq<char>),
}

impl View for NetworkOperand {
    type V = OperandView;

    open spec fn view(&self) -> OperandView {
        match self {
            NetworkOperand::Nothing => OperandView::Nothing,
            NetworkOperand::All => OperandView::All,
            NetworkOperand::Node(s) => OperandView::Node(s@),
            NetworkOperand::Role(r) => OperandView::Role(*r),
            NetworkOperand::State(s) => OperandView::State(*s),
            NetworkOperand::Service(s) => OperandView::Service(*s),
            NetworkOperand::Host(s) => OperandView::Host(s@),
            NetworkOperand::Address(s) => OperandView::Address(s@),
        }
    }
}

impl Clone for NetworkOperand {
    fn clone(&self) -> (copy: Self)
        ensures
            copy@ == self@,
    {
        match self {
            NetworkOperand::Nothing => NetworkOperand::Nothing,
            NetworkOperand::All => NetworkOperand::All,
            NetworkOperand::Node(s) => NetworkOperand::Node(s.clone()),
            NetworkOperand::Role(r) => NetworkOperand::Role(*r),
            NetworkOperand::State(s) => NetworkOperand::State(*s),
            NetworkOperand::Service(s) => NetworkOperand::Service(*s),
            NetworkOperand::Host(s) => NetworkOperand::Host(s.clone()),
            NetworkOperand::Address(s) => NetworkOperand::Address(s.clone()),
        }
    }
}

/// A command on the table of nodes, taken apart.
#[derive(PartialEq, Debug)]
pub struct NetworkZone {
    pub action: NetworkAction,
    pub op1: NetworkOperand,
    pub op2: NetworkOperand,
}

/// A `NetworkZone` as a plain value.
pub struct ZoneView {
    pub action: NetworkAction,
    pub op1: OperandView,
    pub op2: OperandView,
}

impl View for NetworkZone {
    type V = ZoneView;

    open spec fn view(&self) -> ZoneView {
        ZoneView { action: self.action, op1: self.op1@, op2: self.op2@ }
    }
}

impl Clone for NetworkZone {
    fn clone(&self) -> (copy: Self)
        ensures
            copy@ == self@,
    {
        NetworkZone { action: self.action, op1: self.op1.clone(), op2: self.op2.clone() }
    }
}

/// The action that a word names: `view`, `rem` or `remove`, `upd` or
/// `update`.
pub open spec fn action_of_word(w: Seq<char>) -> Option<NetworkAction> {
    if w == "view"@ {
        Some(NetworkAction::View)
    } else if w == "rem"@ || w == "remove"@ {
        Some(NetworkAction::Remove)
    } else if w == "upd"@ || w == "update"@ {
        Some(NetworkAction::Update)
    } else {
        None
    }
}

/// Whether a word is a keyword that takes the next word as its value.
pub open spec fn takes_value(w: Seq<char>) -> bool {
    w == "node"@ || w == "springname"@ || w == "role"@ || w == "state"@ || w == "service"@ || w
        == "hostname"@ || w == "address"@
}

/// `all` stands alone: it takes no value.
pub proof fn lemma_all_is_no_key()
    ensures
        !takes_value("all"@),
{
    reveal_strlit("all");
    reveal_strlit("node");
    reveal_strlit("springname");
    reveal_strlit("role");
    reveal_strlit("state");
    reveal_strlit("service");
    reveal_strlit("hostname");
    reveal_strlit("address");
    assert("all"@.len() == 3);
    assert("node"@.len() == 4 && "springname"@.len() == 10 && "role"@.len() == 4);
    assert("state"@.len() == 5 && "service"@.len() == 7 && "hostname"@.len() == 8);
    assert("address"@.len() == 7);
}

/// The operand that a keyword and its value stand for; `None` where the
/// value is not one that the keyword takes.
pub open spec fn operand_of(key: Seq<char>, value: Seq<char>) -> Option<OperandView>
    recommends
        takes_value(key),
{
    if key == "node"@ || key == "springname"@ {
        Some(OperandView::Node(value))
    } else if key == "role"@ {
        match NodeRole::of_word(value) {
            Some(r) => Some(OperandView::Role(r)),
            None => None,
        }
    } else if key == "state"@ {
        match NodeState::of_word(value) {
            Some(s) => Some(OperandView::State(s)),
            None => None,
        }
    } else if key == "service"@ {
        match NodeService::of_word(value) {
            Some(s) => Some(OperandView::Service(s)),
            None => None,
        }
    } else if key == "hostname"@ {
        Some(OperandView::Host(value))
    } else {
        Some(OperandView::Address(value))
    }
}

/// The operand that begins with the word at `at`. Past the last word, and
/// at a word that is no keyword, it is `Nothing`. `None` means that the
/// command is malformed: a keyword without its value, or with a value that
/// it does not take.
pub open spec fn operand_at(atoms: Seq<Seq<char>>, at: int) -> Option<OperandView> {
    if at < 0 || at >= atoms.len() {
        Some(OperandView::Nothing)
    } else if atoms[at] == "all"@ {
        Some(OperandView::All)
    } else if takes_value(atoms[at]) {
        if at + 1 < atoms.len() {
            operand_of(atoms[at], atoms[at + 1])
        } else {
            None
        }
    } else {
        Some(OperandView::Nothing)
    }
}

/// Where the next operand begins, after the one at `at`.
pub open spec fn operand_end(atoms: Seq<Seq<char>>, at: int) -> int {
    if at < 0 || at >= atoms.len() {
        at
    } else if takes_value(atoms[at]) && at + 1 < atoms.len() {
        at + 2
    } else {
        at + 1
    }
}

/// What a command says: its words are parted by single spaces, the first
/// is the action, then come a first operand, which must be there, and a
/// second, which need not.
pub open spec fn zone_of(msg: Seq<char>) -> Option<ZoneView> {
    let atoms = split_text(msg, ' ');
    if msg.len() == 0 {
        None
    } else {
        match action_of_word(atoms[0]) {
            None => None,
            Some(action) => match operand_at(atoms, 1) {
                None => None,
                Some(OperandView::Nothing) => None,
                Some(op1) => match operand_at(atoms, operand_end(atoms, 1)) {
                    None => None,
                    Some(op2) => Some(ZoneView { action, op1, op2 }),
                },
            },
        }
    }
}

impl NetworkZone {
    /// A command of the given parts.
    pub fn new(action: NetworkAction, op1: NetworkOperand, op2: NetworkOperand) -> (zone:
        NetworkZone)
        ensures
            zone@ == (ZoneView { action, op1: op1@, op2: op2@ }),
    {
        NetworkZone { action, op1, op2 }
    }

    /// Reads a command.
    pub fn from_str(msg: &str) -> (zone: Option<NetworkZone>)
        ensures
            match zone {
                Some(z) => zone_of(msg@) == Some(z@),
                None => zone_of(msg@) is None,
            },
    {
        let atoms = split(msg, ' ');
        proof {
            crate::text::lemma_split_nonempty(msg@, ' ');
        }
        if atoms.len() == 0 || text_eq(msg, "") {
            proof {
                reveal_strlit("");
            }
            return None;
        }
        let word = atoms[0];
        assert(word@ == atoms.deep_view()[0]);
        let action = if text_eq(word, "view") {
            NetworkAction::View
        } else if text_eq(word, "rem") || text_eq(word, "remove") {
            NetworkAction::Remove
        } else if text_eq(word, "upd") || text_eq(word, "update") {
            NetworkAction::Update
        } else {
            return None;
        };
        let mut at: usize = 1;
        let op1 = match NetworkZone::extract_operand(&atoms, &mut at) {
            None => {
                return None;
            },
            Some(NetworkOperand::Nothing) => {
                return None;
            },
            Some(op) => op,
        };
        let op2 = match NetworkZone::extract_operand(&atoms, &mut at) {
            None => {
                return None;
            },
            Some(op) => op,
        };
        Some(NetworkZone::new(action, op1, op2))
    }

    /// Reads the operand that begins at the word `at`, and moves `at` past
    /// the words that it took.
    pub fn extract_operand(atoms: &Vec<&str>, at: &mut usize) -> (op: Option<NetworkOperand>)
        ensures
            match op {
                Some(o) => operand_at(atoms.deep_view(), *old(at) as int) == Some(o@),
                None => operand_at(atoms.deep_view(), *old(at) as int) is None,
            },
            *final(at) == operand_end(atoms.deep_view(), *old(at) as int),
    {
        let ghost words = atoms.deep_view();
        if *at >= atoms.len() {
            return Some(NetworkOperand::Nothing);
        }
        let key = atoms[*at];
        assert(key@ == words[*at as int]);
        *at = *at + 1;
        if text_eq(key, "all") {
            proof {
                lemma_all_is_no_key();
            }
            return Some(NetworkOperand::All);
        }
        let keyed = text_eq(key, "node") || text_eq(key, "springname") || text_eq(key, "role")
            || text_eq(key, "state") || text_eq(key, "service") || text_eq(key, "hostname")
            || text_eq(key, "address");
        if !keyed {
            return Some(NetworkOperand::Nothing);
        }
        if *at >= atoms.len() {
            return None;
        }
        let value = atoms[*at];
        assert(value@ == words[*at as int]);
        *at = *at + 1;
        if text_eq(key, "node") || text_eq(key, "springname") {
            Some(NetworkOperand::Node(String::from_str(value)))
        } else if text_eq(key, "role") {
            match NodeRole::from_str(value) {
                Some(r) => Some(NetworkOperand::Role(r)),
                None => None,
            }
        } else if text_eq(key, "state") {
            match NodeState::from_str(value) {
                Some(s) => Some(NetworkOperand::State(s)),
                None => None,
            }
        } else if text_eq(key, "service") {
            match NodeService::from_str(value) {
                Some(s) => Some(NetworkOperand::Service(s)),
                None => None,
            }
        } else if text_eq(key, "hostname") {
            Some(NetworkOperand::Host(String::from_str(value)))
        } else {
            Some(NetworkOperand::Address(String::from_str(value)))
        }
    }
}

/// The first row of every table of nodes.
pub open spec fn headings() -> Seq<Seq<char>> {
    seq!["_spring_"@, "_hostfield_"@, "_address_"@, "_role_"@, "_state_"@, "_service_"@]
}

/// The cells that show a node.
pub open spec fn node_cells(n: NodeView) -> Seq<Seq<char>> {
    seq![
        n.springname,
        n.hostname,
        ipv4_text(n.address),
        n.role.word(),
        n.state.word(),
        n.service.word(),
    ]
}

/// The rows that show a list of nodes: the headings, then one row for
/// each node.
pub open spec fn node_table(nodes: Seq<NodeView>) -> Seq<Seq<Seq<char>>> {
    Seq::new(
        nodes.len() + 1,
        |i: int|
            if i == 0 {
                headings()
            } else {
                node_cells(nodes[i - 1])
            },
    )
}

/// What is answered in place of a table that cannot be drawn.
pub open spec fn undrawn() -> Seq<char> {
    "Error: a node holds text that cannot be shown"@
}

/// The table of the given nodes as text; `undrawn()` where one of them
/// holds text that cannot be drawn.
pub open spec fn shown(nodes: Seq<NodeView>) -> Seq<char> {
    if drawable(node_table(nodes)) {
        table_text(node_table(nodes))
    } else {
        undrawn()
    }
}

/// What is shown for a node that was asked for by name: its table, or why
/// there is none.
pub open spec fn node_report(found: Result<NodeView, Failure>) -> Seq<char> {
    match found {
        Ok(n) => shown(seq![n]),
        Err(e) => "Error requesting node "@ + e.label(),
    }
}

/// What `view` answers for an operand; `None` for an operand that names
/// nothing to show. An address that is no dotted address has no nodes.
pub open spec fn view_text(op: OperandView, rows: Seq<RowView>) -> Option<Seq<char>> {
    match op {
        OperandView::All => Some(shown(select(rows, FilterView::All))),
        OperandView::Node(s) => Some(node_report(lookup(rows, false, s))),
        OperandView::Host(s) => Some(node_report(lookup(rows, true, s))),
        OperandView::Role(r) => Some(shown(select(rows, FilterView::Role(r)))),
        OperandView::State(s) => Some(shown(select(rows, FilterView::State(s)))),
        OperandView::Address(a) => Some(shown(nodes_at(rows, a))),
        _ => None,
    }
}

/// The nodes at the address that a text writes; none where it writes no
/// address.
pub open spec fn nodes_at(rows: Seq<RowView>, a: Seq<char>) -> Seq<NodeView> {
    match text_ipv4(a) {
        Some(b) => select(rows, FilterView::Address(b)),
        None => Seq::empty(),
    }
}

/// The cells of the first row.
fn heading_cells() -> (cells: Vec<String>)
    ensures
        cells.deep_view() == headings(),
{
    let mut cells: Vec<String> = Vec::new();
    cells.push(String::from_str("_spring_"));
    cells.push(String::from_str("_hostfield_"));
    cells.push(String::from_str("_address_"));
    cells.push(String::from_str("_role_"));
    cells.push(String::from_str("_state_"));
    cells.push(String::from_str("_service_"));
    assert(cells.deep_view() =~= headings());
    cells
}

/// The cells of a node's row.
fn cells_of(node: &Node) -> (cells: Vec<String>)
    ensures
        cells.deep_view() == node_cells(node@),
{
    let mut cells: Vec<String> = Vec::new();
    cells.push(node.springname.clone());
    cells.push(node.hostname.clone());
    cells.push(ipv4_to_str_address(&node.address));
    cells.push(String::from_str(node.role.name()));
    cells.push(String::from_str(node.state.name()));
    cells.push(String::from_str(node.service.name()));
    assert(cells.deep_view() =~= node_cells(node@));
    cells
}

/// What the commands do to the table, and what they answer.
pub struct NetworkZoneModel;

impl NetworkZoneModel {
    /// Draws a list of nodes.
    pub fn tabulate_nodes(nodes: &Vec<Node>) -> (text: String)
        ensures
            text@ == shown(nodes.deep_view()),
    {
        let mut rows: Vec<Vec<String>> = Vec::new();
        rows.push(heading_cells());
        let n = nodes.len();
        let mut i: usize = 0;
        assert(rows.deep_view() =~= node_table(nodes.deep_view().take(0)));
        while i < n
            invariant
                n == nodes.len(),
                i <= n,
                rows.deep_view() == node_table(nodes.deep_view().take(i as int)),
            decreases n - i,
        {
            let ghost before = rows.deep_view();
            let cells = cells_of(&nodes[i]);
            rows.push(cells);
            assert(rows.deep_view() =~= before.push(cells.deep_view()));
            assert(nodes.deep_view()[i as int] == nodes[i as int]@);
            assert(rows.deep_view() =~= node_table(nodes.deep_view().take(i + 1)));
            i += 1;
        }
        assert(nodes.deep_view().take(n as int) =~= nodes.deep_view());
        match draw(&rows) {
            Some(text) => text,
            None => String::from_str("Error: a node holds text that cannot be shown"),
        }
    }

    /// Draws a node that was asked for by name, or says why there is none.
    pub fn tabulate_node(found: Result<Node, Failure>) -> (text: String)
        ensures
            text@ == node_report(
                match found {
                    Ok(n) => Ok(n@),
                    Err(e) => Err(e),
                },
            ),
    {
        match found {
            Ok(node) => {
                let mut nodes: Vec<Node> = Vec::new();
                nodes.push(node);
                assert(nodes.deep_view() =~= seq![node@]);
                Self::tabulate_nodes(&nodes)
            },
            Err(e) => {
                let mut text = String::from_str("Error requesting node ");
                text.append(e.name());
                text
            },
        }
    }

    /// Shows the nodes that an operand names.
    pub fn view(op: NetworkOperand, nio: &Netspace) -> (text: Option<String>)
        ensures
            match text {
                Some(t) => view_text(op@, nio@) == Some(t@),
                None => view_text(op@, nio@) is None,
            },
    {
        match op {
            NetworkOperand::All => Some(Self::tabulate_nodes(&nio.gsn_nodes())),
            NetworkOperand::Node(s) => Some(
                Self::tabulate_node(nio.gsn_node_by_springname(s.as_str())),
            ),
            NetworkOperand::Host(s) => Some(
                Self::tabulate_node(nio.gsn_node_by_hostname(s.as_str())),
            ),
            NetworkOperand::Role(r) => Some(Self::tabulate_nodes(&nio.gsn_nodes_by_type(r))),
            NetworkOperand::State(s) => Some(Self::tabulate_nodes(&nio.gsn_nodes_by_state(s))),
            NetworkOperand::Address(a) => Some(Self::tabulate_nodes(&nodes_by_text(nio, a.as_str()))),
            _ => None,
        }
    }
}

/// The nodes at the address that a text writes.
fn nodes_by_text(nio: &Netspace, address: &str) -> (list: Vec<Node>)
    ensures
        list.deep_view() == nodes_at(nio@, address@),
{
    match str_address_to_ipv4(address) {
        Ok(a) => nio.gsn_nodes_by_address(a),
        Err(_) => {
            let list: Vec<Node> = Vec::new();
            assert(list.deep_view() =~= Seq::<NodeView>::empty());
            list
        },
    }
}

/// A node that was asked for, as a plain value.
pub open spec fn found_view(found: Result<Node, Failure>) -> Result<NodeView, Failure> {
    match found {
        Ok(n) => Ok(n@),
        Err(e) => Err(e),
    }
}

/// The column that a value sets, and the node with the value in it;
/// `None` for an operand that is no value, and for an address that is no
/// dotted address.
pub open spec fn changed(n: NodeView, value: OperandView) -> Option<(Field, NodeView)> {
    match value {
        OperandView::Role(r) => Some((Field::Role, NodeView { role: r, ..n })),
        OperandView::State(s) => Some((Field::State, NodeView { state: s, ..n })),
        OperandView::Service(s) => Some((Field::Service, NodeView { service: s, ..n })),
        OperandView::Host(h) => Some((Field::Hostname, NodeView { hostname: h, ..n })),
        OperandView::Address(a) => match text_ipv4(a) {
            Some(b) => Some((Field::Address, NodeView { address: b, ..n })),
            None => None,
        },
        _ => None,
    }
}

/// The word for a column in reports.
pub open spec fn field_word(field: Field) -> Seq<char> {
    match field {
        Field::Role => "role"@,
        Field::State => "state"@,
        Field::Service => "service"@,
        Field::Hostname => "hostname"@,
        Field::Address => "address"@,
    }
}

/// What a node holds in a column, as text.
pub open spec fn field_text(field: Field, n: NodeView) -> Seq<char> {
    match field {
        Field::Role => n.role.word(),
        Field::State => n.state.word(),
        Field::Service => n.service.word(),
        Field::Hostname => n.hostname,
        Field::Address => ipv4_text(n.address),
    }
}

/// The report of a change that was made.
pub open spec fn updated_text(name: Seq<char>, what: Seq<char>, old: Seq<char>, new: Seq<char>) -> Seq<
    char,
> {
    "Updated "@ + name + " "@ + what + ": "@ + old + " -> "@ + new
}

/// What the update of one node answers.
pub open spec fn update_report(
    rows: Seq<RowView>,
    target: Result<NodeView, Failure>,
    value: OperandView,
) -> Seq<char> {
    match target {
        Err(e) => "Error requesting node "@ + e.label(),
        Ok(n) => match changed(n, value) {
            None => "Error: Unknown or unsupported value for updating"@,
            Some((field, m)) => if has_name(rows, n.springname) {
                updated_text(n.springname, field_word(field), field_text(field, n), field_text(field, m))
            } else {
                "Error requesting node "@ + Failure::NotFound.label()
            },
        },
    }
}

/// The table after the update of one node.
pub open spec fn updated_rows(
    rows: Seq<RowView>,
    target: Result<NodeView, Failure>,
    value: OperandView,
) -> Seq<RowView> {
    match target {
        Err(_) => rows,
        Ok(n) => match changed(n, value) {
            None => rows,
            Some((field, m)) => after_update(rows, field, m),
        },
    }
}

/// The table after the update of each of `nodes` in turn.
pub open spec fn updated_all(rows: Seq<RowView>, nodes: Seq<NodeView>, value: OperandView) -> Seq<
    RowView,
>
    decreases nodes.len(),
{
    if nodes.len() == 0 {
        rows
    } else {
        updated_rows(updated_all(rows, nodes.drop_last(), value), Ok(nodes.last()), value)
    }
}

/// What the updates of `nodes` answer, one after the other.
pub open spec fn reports(rows: Seq<RowView>, nodes: Seq<NodeView>, value: OperandView) -> Seq<
    Seq<char>,
>
    decreases nodes.len(),
{
    if nodes.len() == 0 {
        Seq::empty()
    } else {
        reports(rows, nodes.drop_last(), value).push(
            update_report(updated_all(rows, nodes.drop_last(), value), Ok(nodes.last()), value),
        )
    }
}

/// Lines with a line feed between each two.
pub open spec fn join_lines(lines: Seq<Seq<char>>) -> Seq<char>
    decreases lines.len(),
{
    if lines.len() == 0 {
        Seq::empty()
    } else if lines.len() == 1 {
        lines[0]
    } else {
        join_lines(lines.drop_last()) + "\n"@ + lines.last()
    }
}

/// The nodes that an update of many is for; `None` for an operand that
/// names no list.
pub open spec fn listed(rows: Seq<RowView>, target: OperandView) -> Option<Seq<NodeView>> {
    match target {
        OperandView::All => Some(select(rows, FilterView::All)),
        OperandView::Role(r) => Some(select(rows, FilterView::Role(r))),
        OperandView::State(s) => Some(select(rows, FilterView::State(s))),
        OperandView::Address(a) => Some(nodes_at(rows, a)),
        _ => None,
    }
}

/// What `update` answers: one line for each node that the target names,
/// and a line feed at the end; `None` for a target that names no node.
pub open spec fn update_text(rows: Seq<RowView>, target: OperandView, value: OperandView) -> Option<
    Seq<char>,
> {
    match target {
        OperandView::Node(s) => Some(update_report(rows, lookup(rows, false, s), value) + "\n"@),
        _ => match listed(rows, target) {
            Some(nodes) => Some(join_lines(reports(rows, nodes, value)) + "\n"@),
            None => None,
        },
    }
}

/// The table after `update`.
pub open spec fn update_table(rows: Seq<RowView>, target: OperandView, value: OperandView) -> Seq<
    RowView,
> {
    match target {
        OperandView::Node(s) => updated_rows(rows, lookup(rows, false, s), value),
        _ => match listed(rows, target) {
            Some(nodes) => updated_all(rows, nodes, value),
            None => rows,
        },
    }
}

/// The column that a value sets in `node`, with the value set in `node`.
fn apply(node: &mut Node, value: &NetworkOperand) -> (field: Option<Field>)
    ensures
        match field {
            Some(f) => changed(old(node)@, value@) == Some((f, final(node)@)),
            None => changed(old(node)@, value@) is None && final(node)@ == old(node)@,
        },
{
    match value {
        NetworkOperand::Role(r) => {
            node.update_role(*r);
            Some(Field::Role)
        },
        NetworkOperand::State(s) => {
            node.update_state(*s);
            Some(Field::State)
        },
        NetworkOperand::Service(s) => {
            node.update_service(*s);
            Some(Field::Service)
        },
        NetworkOperand::Host(h) => {
            node.update_hostname(h.as_str());
            Some(Field::Hostname)
        },
        NetworkOperand::Address(a) => match str_address_to_ipv4(a.as_str()) {
            Ok(b) => {
                node.update_address(b);
                Some(Field::Address)
            },
            Err(_) => None,
        },
        _ => None,
    }
}

/// What a node holds in a column, as text.
fn text_of(field: Field, node: &Node) -> (text: String)
    ensures
        text@ == field_text(field, node@),
{
    match field {
        Field::Role => String::from_str(node.role.name()),
        Field::State => String::from_str(node.state.name()),
        Field::Service => String::from_str(node.service.name()),
        Field::Hostname => node.hostname.clone(),
        Field::Address => ipv4_to_str_address(&node.address),
    }
}

/// The word for a column.
fn word_of(field: Field) -> (word: &'static str)
    ensures
        word@ == field_word(field),
{
    match field {
        Field::Role => "role",
        Field::State => "state",
        Field::Service => "service",
        Field::Hostname => "hostname",
        Field::Address => "address",
    }
}

/// Joins lines with line feeds.
fn join(lines: &Vec<String>) -> (text: String)
    ensures
        text@ == join_lines(lines.deep_view()),
{
    let mut text = String::new();
    let n = lines.len();
    let mut i: usize = 0;
    let ghost all = lines.deep_view();
    assert(all.take(0) =~= Seq::<Seq<char>>::empty());
    while i < n
        invariant
            n == lines.len(),
            i <= n,
            all == lines.deep_view(),
            text@ == join_lines(all.take(i as int)),
        decreases n - i,
    {
        proof {
            let t = all.take(i + 1);
            assert(t.drop_last() =~= all.take(i as int));
            assert(t.last() == lines[i as int]@);
            if i == 0 {
                assert(t[0] == lines[0]@);
                assert(Seq::<char>::empty() + lines[0]@ =~= lines[0]@);
            }
        }
        if i > 0 {
            text.append("\n");
        }
        text.append(lines[i].as_str());
        i += 1;
    }
    assert(all.take(n as int) =~= all);
    text
}

impl NetworkZoneModel {
    /// Sets a value in one node, stores it, and reports.
    pub fn update_node(found: Result<Node, Failure>, value: NetworkOperand, nio: &mut Netspace) -> (text:
        String)
        requires
            old(nio).wf(),
        ensures
            final(nio).wf(),
            text@ == update_report(old(nio)@, found_view(found), value@),
            final(nio)@ == updated_rows(old(nio)@, found_view(found), value@),
    {
        let mut node = match found {
            Ok(n) => n,
            Err(e) => {
                let mut text = String::from_str("Error requesting node ");
                text.append(e.name());
                return text;
            },
        };
        let before = node.clone();
        let field = match apply(&mut node, &value) {
            Some(f) => f,
            None => {
                return String::from_str("Error: Unknown or unsupported value for updating");
            },
        };
        match nio.update_field(&node, field) {
            Ok(_) => {
                let mut text = String::from_str("Updated ");
                text.append(node.springname());
                text.append(" ");
                text.append(word_of(field));
                text.append(": ");
                text.append(text_of(field, &before).as_str());
                text.append(" -> ");
                text.append(text_of(field, &node).as_str());
                text
            },
            Err(e) => {
                let mut text = String::from_str("Error requesting node ");
                text.append(e.name());
                text
            },
        }
    }

    /// Sets a value in every node that the target names.
    pub fn update(target: NetworkOperand, value: NetworkOperand, nio: &mut Netspace) -> (text: Option<
        String,
    >)
        requires
            old(nio).wf(),
        ensures
            final(nio).wf(),
            match text {
                Some(t) => update_text(old(nio)@, target@, value@) == Some(t@),
                None => update_text(old(nio)@, target@, value@) is None,
            },
            final(nio)@ == update_table(old(nio)@, target@, value@),
    {
        let nodes = match target {
            NetworkOperand::All => nio.gsn_nodes(),
            NetworkOperand::Role(r) => nio.gsn_nodes_by_type(r),
            NetworkOperand::State(s) => nio.gsn_nodes_by_state(s),
            NetworkOperand::Address(a) => nodes_by_text(nio, a.as_str()),
            NetworkOperand::Node(s) => {
                let found = nio.gsn_node_by_springname(s.as_str());
                let mut text = Self::update_node(found, value, nio);
                text.append("\n");
                return Some(text);
            },
            _ => {
                return None;
            },
        };
        let ghost rows = nio@;
        let ghost all = nodes.deep_view();
        let mut lines: Vec<String> = Vec::new();
        let n = nodes.len();
        let mut i: usize = 0;
        assert(all.take(0) =~= Seq::<NodeView>::empty());
        assert(lines.deep_view() =~= Seq::<Seq<char>>::empty());
        while i < n
            invariant
                n == nodes.len(),
                i <= n,
                all == nodes.deep_view(),
                nio.wf(),
                nio@ == updated_all(rows, all.take(i as int), value@),
                lines.deep_view() == reports(rows, all.take(i as int), value@),
            decreases n - i,
        {
            proof {
                let t = all.take(i + 1);
                assert(t.drop_last() =~= all.take(i as int));
                assert(t.last() == nodes[i as int]@);
            }
            let ghost before = lines.deep_view();
            let line = Self::update_node(Ok(nodes[i].clone()), value.clone(), nio);
            lines.push(line);
            assert(lines.deep_view() =~= before.push(line@));
            i += 1;
        }
        assert(all.take(n as int) =~= all);
        let mut text = join(&lines);
        text.append("\n");
        Some(text)
    }
}

/// An operand as it is named in a report: the kind, and what it holds in
/// brackets, a text between double quotes and written as `escaped` says.
pub open spec fn operand_text(op: OperandView) -> Seq<char> {
    match op {
        OperandView::Nothing => "None"@,
        OperandView::All => "All"@,
        OperandView::Node(s) => "Node(\""@ + escaped(s) + "\")"@,
        OperandView::Role(r) => "Role("@ + r.label() + ")"@,
        OperandView::State(s) => "State("@ + s.label() + ")"@,
        OperandView::Service(s) => "Service("@ + s.label() + ")"@,
        OperandView::Host(s) => "Host(\""@ + escaped(s) + "\")"@,
        OperandView::Address(s) => "Address(\""@ + escaped(s) + "\")"@,
    }
}

/// What `remove` answers. Only a node named by its name can be removed.
pub open spec fn remove_text(rows: Seq<RowView>, op: OperandView) -> Seq<char> {
    match op {
        OperandView::Node(s) => match lookup(rows, false, s) {
            Ok(n) => "Removed node "@ + n.springname + "\n"@,
            Err(e) => "Error: unabled to retrieve node ("@ + e.label() + ")\n"@,
        },
        _ => "Error: Unknown or unsupported target filter ("@ + operand_text(op) + ")\n"@,
    }
}

/// The table after `remove`: without the node, where it was found and
/// decodes.
pub open spec fn remove_table(rows: Seq<RowView>, op: OperandView) -> Seq<RowView> {
    match op {
        OperandView::Node(s) => match lookup(rows, false, s) {
            Ok(n) => after_unregister(rows, s),
            Err(_) => rows,
        },
        _ => rows,
    }
}

/// What a command answers; `None` where its operands do not fit its
/// action.
pub open spec fn zone_text(z: ZoneView, rows: Seq<RowView>) -> Option<Seq<char>> {
    match z.action {
        NetworkAction::View => view_text(z.op1, rows),
        NetworkAction::Update => update_text(rows, z.op1, z.op2),
        NetworkAction::Remove => Some(remove_text(rows, z.op1)),
    }
}

/// The table after a command.
pub open spec fn zone_table(z: ZoneView, rows: Seq<RowView>) -> Seq<RowView> {
    match z.action {
        NetworkAction::View => rows,
        NetworkAction::Update => update_table(rows, z.op1, z.op2),
        NetworkAction::Remove => remove_table(rows, z.op1),
    }
}

/// Names an operand for a report.
fn describe(op: &NetworkOperand) -> (text: String)
    ensures
        text@ == operand_text(op@),
{
    match op {
        NetworkOperand::Nothing => String::from_str("None"),
        NetworkOperand::All => String::from_str("All"),
        NetworkOperand::Node(s) => {
            let mut text = String::from_str("Node(\"");
            append_escaped(&mut text, s.as_str());
            text.append("\")");
            text
        },
        NetworkOperand::Role(r) => {
            let mut text = String::from_str("Role(");
            text.append(r.label_text());
            text.append(")");
            text
        },
        NetworkOperand::State(s) => {
            let mut text = String::from_str("State(");
            text.append(s.label_text());
            text.append(")");
            text
        },
        NetworkOperand::Service(s) => {
            let mut text = String::from_str("Service(");
            text.append(s.label_text());
            text.append(")");
            text
        },
        NetworkOperand::Host(s) => {
            let mut text = String::from_str("Host(\"");
            append_escaped(&mut text, s.as_str());
            text.append("\")");
            text
        },
        NetworkOperand::Address(s) => {
            let mut text = String::from_str("Address(\"");
            append_escaped(&mut text, s.as_str());
            text.append("\")");
            text
        },
    }
}

impl NetworkZoneModel {
    /// Takes a node out of the table.
    pub fn remove(op: NetworkOperand, nio: &mut Netspace) -> (text: Option<String>)
        requires
            old(nio).wf(),
        ensures
            final(nio).wf(),
            text matches Some(t) && t@ == remove_text(old(nio)@, op@),
            final(nio)@ == remove_table(old(nio)@, op@),
    {
        match op {
            NetworkOperand::Node(s) => {
                match nio.gsn_node_by_springname(s.as_str()) {
                    Ok(n) => {
                        proof {
                            crate::netspace::lemma_first_keyed(nio@, false, s@, 0);
                        }
                        let _ = nio.gsn_node_unregister(&n);
                        let mut text = String::from_str("Removed node ");
                        text.append(n.springname());
                        text.append("\n");
                        Some(text)
                    },
                    Err(e) => {
                        let mut text = String::from_str("Error: unabled to retrieve node (");
                        text.append(e.name());
                        text.append(")\n");
                        Some(text)
                    },
                }
            },
            other => {
                let mut text = String::from_str("Error: Unknown or unsupported target filter (");
                text.append(describe(&other).as_str());
                text.append(")\n");
                Some(text)
            },
        }
    }
}

impl NetworkZone {
    /// Carries out a command.
    pub fn process(nz: NetworkZone, nio: &mut Netspace) -> (text: Option<String>)
        requires
            old(nio).wf(),
        ensures
            final(nio).wf(),
            match text {
                Some(t) => zone_text(nz@, old(nio)@) == Some(t@),
                None => zone_text(nz@, old(nio)@) is None,
            },
            final(nio)@ == zone_table(nz@, old(nio)@),
    {
        match nz.action {
            NetworkAction::View => NetworkZoneModel::view(nz.op1, nio),
            NetworkAction::Update => NetworkZoneModel::update(nz.op1, nz.op2, nio),
            NetworkAction::Remove => NetworkZoneModel::remove(nz.op1, nio),
        }
    }
}

} // verus!
