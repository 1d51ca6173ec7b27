//! The operator's console: a command as a line of text in, a report as
//! text out.
//!
//! The first word of a command names the zone that it is for; the rest is
//! the zone's own.

pub mod network;
pub mod service;

use crate::management::network::{zone_of, zone_table, zone_text, NetworkZone, ZoneView};
use crate::management::service::{
    service_zone_of, work_text, zone_work, ServiceZone, ServiceZoneView,
};
use crate::netspace::{Netspace, RowView};
use crate::text::{split_once, split_once_text, text_eq};
use vstd::prelude::*;
use vstd::string::*;

verus! {

/// A command, by the zone that it is for.
#[derive(PartialEq, Debug)]
pub enum ManagementZone {
    Network(NetworkZone),
    Service(ServiceZone),
}

/// A `ManagementZone` as a plain value.
pub enum ManagementView {
    Network(ZoneView),
    Service(ServiceZoneView),
}

impl View for ManagementZone {
    type V = ManagementView;

    open spec fn view(&self) -> ManagementView {
        match self {
            ManagementZone::Network(z) => ManagementView::Network(z@),
            ManagementZone::Service(z) => ManagementView::Service(z@),
        }
    }
}

impl Clone for ManagementZone {
    fn clone(&self) -> (copy: Self)
        ensures
            copy@ == self@,
    {
        match self {
            ManagementZone::Network(z) => ManagementZone::Network(z.clone()),
            ManagementZone::Service(z) => ManagementZone::Service(z.clone()),
        }
    }
}

/// What a line of text asks for: the word `network`, a space, and a
/// command on the table of nodes; or the word `service`, a space, and a
/// command on the services. Any other line asks for nothing.
pub open spec fn management_of(msg: Seq<char>) -> Option<ManagementView> {
    let atom = split_once_text(msg, ' ');
    if msg.len() > 0 && atom.len() == 2 && atom[0] == "network"@ {
        match zone_of(atom[1]) {
            Some(z) => Some(ManagementView::Network(z)),
            None => None,
        }
    } else if msg.len() > 0 && atom.len() == 2 && atom[0] == "service"@ {
        match service_zone_of(atom[1]) {
            Some(z) => Some(ManagementView::Service(z)),
            None => None,
        }
    } else {
        None
    }
}

/// What a command answers; `None` where its operands do not fit. A
/// command on the services is answered with `work_text`: the console
/// decides what is asked for, and leaves a module's work to the program.
pub open spec fn request_text(request: ManagementView, rows: Seq<RowView>) -> Option<Seq<char>> {
    match request {
        ManagementView::Network(z) => zone_text(z, rows),
        ManagementView::Service(z) => Some(work_text(zone_work(z))),
    }
}

/// The table after a command.
pub open spec fn request_table(request: ManagementView, rows: Seq<RowView>) -> Seq<RowView> {
    match request {
        ManagementView::Network(z) => zone_table(z, rows),
        ManagementView::Service(_) => rows,
    }
}

/// What a line of text answers; `None` where it is no command.
pub open spec fn run_text(msg: Seq<char>, rows: Seq<RowView>) -> Option<Seq<char>> {
    match management_of(msg) {
        Some(request) => request_text(request, rows),
        None => None,
    }
}

/// The table after a line of text was taken as a command.
pub open spec fn run_table(msg: Seq<char>, rows: Seq<RowView>) -> Seq<RowView> {
    match management_of(msg) {
        Some(request) => request_table(request, rows),
        None => rows,
    }
}

/// Cuts a line at its first space: the first word, and the rest.
pub fn binary_split(msg: &str) -> (atom: Vec<&str>)
    ensures
        atom.deep_view() == split_once_text(msg@, ' '),
{
    split_once(msg, ' ')
}

impl ManagementZone {
    /// Reads a command.
    pub fn from_str(msg: &str) -> (zone: Option<ManagementZone>)
        ensures
            match zone {
                Some(z) => management_of(msg@) == Some(z@),
                None => management_of(msg@) is None,
            },
    {
        if text_eq(msg, "") {
            proof {
                reveal_strlit("");
            }
            return None;
        }
        proof {
            reveal_strlit("");
        }
        let atom = binary_split(msg);
        if atom.len() != 2 {
            return None;
        }
        assert(atom.deep_view()[0] == atom[0]@ && atom.deep_view()[1] == atom[1]@);
        if text_eq(atom[0], "network") {
            match NetworkZone::from_str(atom[1]) {
                Some(z) => Some(ManagementZone::Network(z)),
                None => None,
            }
        } else if text_eq(atom[0], "service") {
            match ServiceZone::from_str(atom[1]) {
                Some(z) => Some(ManagementZone::Service(z)),
                None => None,
            }
        } else {
            None
        }
    }
}

/// The console.
pub struct ManagementInstance;

impl ManagementInstance {
    /// A console.
    pub fn new() -> ManagementInstance {
        ManagementInstance
    }

    /// Reads a line as a command and carries it out.
    pub fn run(&self, command: &str, nio: &mut Netspace) -> (text: Option<String>)
        requires
            old(nio).wf(),
        ensures
            final(nio).wf(),
            match text {
                Some(t) => run_text(command@, old(nio)@) == Some(t@),
                None => run_text(command@, old(nio)@) is None,
            },
            final(nio)@ == run_table(command@, old(nio)@),
    {
        match ManagementZone::from_str(command) {
            Some(request) => self.process_request(request, nio),
            None => None,
        }
    }

    /// Carries out a command.
    pub fn process_request(&self, request: ManagementZone, nio: &mut Netspace) -> (text: Option<
        String,
    >)
        requires
            old(nio).wf(),
        ensures
            final(nio).wf(),
            match text {
                Some(t) => request_text(request@, old(nio)@) == Some(t@),
                None => request_text(request@, old(nio)@) is None,
            },
            final(nio)@ == request_table(request@, old(nio)@),
    {
        match request {
            ManagementZone::Network(nz) => NetworkZone::process(nz, nio),
            ManagementZone::Service(sz) => Some(ServiceZone::process(sz).answer()),
        }
    }
}

/// What the console answers to a line that it cannot carry out.
pub open spec fn refusal() -> Seq<char> {
    "Error: Unrecognised or malformed command"@
}

/// Answers one line from the operator: the report of the command, or the
/// refusal where the line is no command.
pub fn management_handler(command: &str, nio: &mut Netspace) -> (out: String)
    requires
        old(nio).wf(),
    ensures
        final(nio).wf(),
        out@ == match run_text(command@, old(nio)@) {
            Some(t) => t,
            None => refusal(),
        },
        final(nio)@ == run_table(command@, old(nio)@),
{
    let mi = ManagementInstance::new();
    match mi.run(command, nio) {
        Some(s) => s,
        None => String::from_str("Error: Unrecognised or malformed command"),
    }
}

} // verus!
