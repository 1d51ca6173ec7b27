//! A node as the table knows it.

use crate::enums::{Failure, NodeRole, NodeService, NodeState};
use crate::formats::{str_address_to_ipv4, text_ipv4, Ipv4};
use crate::text::{split, split_text};
use vstd::prelude::*;
use vstd::string::*;

verus! {

/// One peer: its name, which no other peer has, and how to reach it.
#[derive(Debug)]
pub struct Node {
    pub springname: String,
    pub hostname: String,
    pub address: Ipv4,
    pub service: NodeService,
    pub state: NodeState,
    pub role: NodeRole,
}

/// A `Node` as a plain value.
pub struct NodeView {
    pub springname: Seq<char>,
    pub hostname: Seq<char>,
    pub address: Seq<u8>,
    pub service: NodeService,
    pub state: NodeState,
    pub role: NodeRole,
}

impl View for Node {
    type V = NodeView;

    open spec fn view(&self) -> NodeView {
        NodeView {
            springname: self.springname@,
            hostname: self.hostname@,
            address: self.address@,
            service: self.service,
            state: self.state,
            role: self.role,
        }
    }
}

impl Clone for Node {
    fn clone(&self) -> (copy: Self)
        ensures
            copy@ == self@,
    {
        Node {
            springname: self.springname.clone(),
            hostname: self.hostname.clone(),
            address: self.address,
            service: self.service,
            state: self.state,
            role: self.role,
        }
    }
}

/// The node that the text `name,host,address` describes: three fields
/// parted by commas, the third a dotted address. Nothing is known yet of
/// its framing, state and role.
pub open spec fn node_of_text(s: Seq<char>) -> Option<NodeView> {
    let f = split_text(s, ',');
    if f.len() == 3 && text_ipv4(f[2]) is Some {
        Some(
            NodeView {
                springname: f[0],
                hostname: f[1],
                address: text_ipv4(f[2])->0,
                service: NodeService::Undefined,
                state: NodeState::Unspecified,
                role: NodeRole::Undefined,
            },
        )
    } else {
        None
    }
}

impl Node {
    /// A node of the given parts.
    pub fn new(
        springname: String,
        hostname: String,
        address: Ipv4,
        service: NodeService,
        state: NodeState,
        role: NodeRole,
    ) -> (node: Node)
        ensures
            node@ == (NodeView {
                springname: springname@,
                hostname: hostname@,
                address: address@,
                service,
                state,
                role,
            }),
    {
        Node { springname, hostname, address, service, state, role }
    }

    /// Reads a node from the text `name,host,address`. Text of another
    /// shape is `Invalid`.
    pub fn from_node_string(text: &str) -> (node: Result<Node, Failure>)
        ensures
            match node {
                Ok(n) => node_of_text(text@) == Some(n@),
                Err(e) => e == Failure::Invalid && node_of_text(text@) is None,
            },
    {
        let fields = split(text, ',');
        if fields.len() != 3 {
            return Err(Failure::Invalid);
        }
        let ghost f = fields.deep_view();
        assert(f[0] == fields[0]@ && f[1] == fields[1]@ && f[2] == fields[2]@);
        match str_address_to_ipv4(fields[2]) {
            Err(e) => Err(e),
            Ok(address) => Ok(
                Node {
                    springname: String::from_str(fields[0]),
                    hostname: String::from_str(fields[1]),
                    address,
                    service: NodeService::Undefined,
                    state: NodeState::Unspecified,
                    role: NodeRole::Undefined,
                },
            ),
        }
    }

    /// The name of the node in the network.
    pub fn springname(&self) -> (s: &str)
        ensures
            s@ == self@.springname,
    {
        self.springname.as_str()
    }

    /// The name of the node's host.
    pub fn hostname(&self) -> (s: &str)
        ensures
            s@ == self@.hostname,
    {
        self.hostname.as_str()
    }

    /// The address of the node.
    pub fn address(&self) -> (a: Ipv4)
        ensures
            a@ == self@.address,
    {
        self.address
    }

    /// The framing in which the node takes requests.
    pub fn service(&self) -> (s: NodeService)
        ensures
            s == self@.service,
    {
        self.service
    }

    /// Whether the node is in service.
    pub fn state(&self) -> (s: NodeState)
        ensures
            s == self@.state,
    {
        self.state
    }

    /// The place of the node in the network.
    pub fn role(&self) -> (r: NodeRole)
        ensures
            r == self@.role,
    {
        self.role
    }

    /// Gives the node another role.
    pub fn update_role(&mut self, role: NodeRole)
        ensures
            final(self)@ == (NodeView { role, ..old(self)@ }),
    {
        self.role = role;
    }

    /// Gives the node another state.
    pub fn update_state(&mut self, state: NodeState)
        ensures
            final(self)@ == (NodeView { state, ..old(self)@ }),
    {
        self.state = state;
    }

    /// Gives the node another framing.
    pub fn update_service(&mut self, service: NodeService)
        ensures
            final(self)@ == (NodeView { service, ..old(self)@ }),
    {
        self.service = service;
    }

    /// Gives the node another host name.
    pub fn update_hostname(&mut self, hostname: &str)
        ensures
            final(self)@ == (NodeView { hostname: hostname@, ..old(self)@ }),
    {
        self.hostname = String::from_str(hostname);
    }

    /// Gives the node another address.
    pub fn update_address(&mut self, address: Ipv4)
        ensures
            final(self)@ == (NodeView { address: address@, ..old(self)@ }),
    {
        self.address = address;
    }
}

} // verus!
