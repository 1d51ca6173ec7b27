//! Commands on the services that the node runs beside the table: what they
//! say, and what is to be done for them. The services themselves are the
//! program's; this module decides and leaves the work to it.

use crate::text::{split, split_text, text_eq};
use vstd::prelude::*;
use vstd::string::*;

verus! {

/// A service that takes commands.
#[derive(Copy, Clone, PartialEq, Eq, Debug, Structural)]
pub enum Module {
    Cert,
}

impl Module {
    /// The module that a word names, if any.
    pub open spec fn of_word(w: Seq<char>) -> Option<Module> {
        if w == "cert"@ {
            Some(Module::Cert)
        } else {
            None
        }
    }

    /// Reads a module from its word.
    pub fn from_str(s: &str) -> (m: Option<Module>)
        ensures
            m == Self::of_word(s@),
    {
        if text_eq(s, "cert") {
            Some(Module::Cert)
        } else {
            None
        }
    }
}

/// What a command does.
#[derive(Copy, Clone, PartialEq, Eq, Debug, Structural)]
pub enum ServiceAction {
    Init,
    Manage,
}

/// What a command acts on, or what it hands to a module.
#[derive(PartialEq, Debug)]
pub enum ServiceOperand {
    /// No operand was given, or a word that names none.
    Nothing,
    All,
    Module(Module),
    /// Words that are handed on as they are.
    Pass(Vec<String>),
}

/// A `ServiceOperand` as a plain value.
pub enum ServiceOperandView {
    Nothing,
    All,
    Module(Module),
    Pass(Seq<Seq<char>>),
}

impl View for ServiceOperand {
    type V = ServiceOperandView;

    open spec fn view(&self) -> ServiceOperandView {
        match self {
            ServiceOperand::Nothing => ServiceOperandView::Nothing,
            ServiceOperand::All => ServiceOperandView::All,
            ServiceOperand::Module(m) => ServiceOperandView::Module(*m),
            ServiceOperand::Pass(p) => ServiceOperandView::Pass(p.deep_view()),
        }
    }
}

/// A copy of words.
fn copy_words(words: &Vec<String>) -> (copy: Vec<String>)
    ensures
        copy.deep_view() == words.deep_view(),
{
    let mut copy: Vec<String> = Vec::new();
    let mut i: usize = 0;
    while i < words.len()
        invariant
            i <= words.len(),
            copy.deep_view() == words.deep_view().take(i as int),
        decreases words.len() - i,
    {
        let ghost before = copy.deep_view();
        let word = words[i].clone();
        copy.push(word);
        assert(copy.deep_view() =~= before.push(word@));
        assert(words.deep_view().take(i + 1) =~= words.deep_view().take(i as int).push(
            words[i as int]@,
        ));
        i += 1;
    }
    assert(words.deep_view().take(words.len() as int) =~= words.deep_view());
    copy
}

impl Clone for ServiceOperand {
    fn clone(&self) -> (copy: Self)
        ensures
            copy@ == self@,
    {
        match self {
            ServiceOperand::Nothing => ServiceOperand::Nothing,
            ServiceOperand::All => ServiceOperand::All,
            ServiceOperand::Module(m) => ServiceOperand::Module(*m),
            ServiceOperand::Pass(p) => ServiceOperand::Pass(copy_words(p)),
        }
    }
}

/// A command on the services, taken apart.
#[derive(PartialEq, Debug)]
pub struct ServiceZone {
    pub action: ServiceAction,
    pub op1: ServiceOperand,
    pub op2: ServiceOperand,
}

/// A `ServiceZone` as a plain value.
pub struct ServiceZoneView {
    pub action: ServiceAction,
    pub op1: ServiceOperandView,
    pub op2: ServiceOperandView,
}

impl View for ServiceZone {
    type V = ServiceZoneView;

    open spec fn view(&self) -> ServiceZoneView {
        ServiceZoneView { action: self.action, op1: self.op1@, op2: self.op2@ }
    }
}

impl Clone for ServiceZone {
    fn clone(&self) -> (copy: Self)
        ensures
            copy@ == self@,
    {
        ServiceZone { action: self.action, op1: self.op1.clone(), op2: self.op2.clone() }
    }
}

/// The action that a word names: `ini` or `init`, `man` or `manage`.
pub open spec fn service_action_of(w: Seq<char>) -> Option<ServiceAction> {
    if w == "ini"@ || w == "init"@ {
        Some(ServiceAction::Init)
    } else if w == "man"@ || w == "manage"@ {
        Some(ServiceAction::Manage)
    } else {
        None
    }
}

/// The operand that begins with the word at `at`: `all`; `mod` or `module`
/// and the name of a module; `:` or `<` and all the words that follow, which
/// are passed on. Past the last word, and at any other word, it is
/// `Nothing`. `None` means that the command is malformed: no module is
/// named, or none that there is.
pub open spec fn service_operand_at(atoms: Seq<Seq<char>>, at: int) -> Option<ServiceOperandView> {
    if at < 0 || at >= atoms.len() {
        Some(ServiceOperandView::Nothing)
    } else if atoms[at] == "all"@ {
        Some(ServiceOperandView::All)
    } else if atoms[at] == "mod"@ || atoms[at] == "module"@ {
        if at + 1 < atoms.len() {
            match Module::of_word(atoms[at + 1]) {
                Some(m) => Some(ServiceOperandView::Module(m)),
                None => None,
            }
        } else {
            None
        }
    } else if atoms[at] == ":"@ || atoms[at] == "<"@ {
        Some(ServiceOperandView::Pass(atoms.subrange(at + 1, atoms.len() as int)))
    } else {
        Some(ServiceOperandView::Nothing)
    }
}

/// Where the next operand begins, after the one at `at`.
pub open spec fn service_operand_end(atoms: Seq<Seq<char>>, at: int) -> int {
    if at < 0 || at >= atoms.len() {
        at
    } else if atoms[at] == "all"@ {
        at + 1
    } else if atoms[at] == "mod"@ || atoms[at] == "module"@ {
        if at + 1 < atoms.len() {
            at + 2
        } else {
            at + 1
        }
    } else if atoms[at] == ":"@ || atoms[at] == "<"@ {
        atoms.len() as int
    } else {
        at + 1
    }
}

/// What a command says: its words are parted by single spaces, the first
/// is the action, then come a first operand, which must be there, and a
/// second, which need not.
pub open spec fn service_zone_of(msg: Seq<char>) -> Option<ServiceZoneView> {
    let atoms = split_text(msg, ' ');
    if msg.len() == 0 {
        None
    } else {
        match service_action_of(atoms[0]) {
            None => None,
            Some(action) => match service_operand_at(atoms, 1) {
                None => None,
                Some(ServiceOperandView::Nothing) => None,
                Some(op1) => match service_operand_at(atoms, service_operand_end(atoms, 1)) {
                    None => None,
                    Some(op2) => Some(ServiceZoneView { action, op1, op2 }),
                },
            },
        }
    }
}

/// What is to be done for a command.
#[derive(PartialEq, Debug)]
pub enum ServiceWork {
    /// Nothing but to answer with this text.
    Answer(String),
    /// The module is to be set up.
    Init(Module),
    /// The words are to be handed to the module.
    Manage(Module, Vec<String>),
}

/// A `ServiceWork` as a plain value.
pub enum ServiceWorkView {
    Answer(Seq<char>),
    Init(Module),
    Manage(Module, Seq<Seq<char>>),
}

impl View for ServiceWork {
    type V = ServiceWorkView;

    open spec fn view(&self) -> ServiceWorkView {
        match self {
            ServiceWork::Answer(s) => ServiceWorkView::Answer(s@),
            ServiceWork::Init(m) => ServiceWorkView::Init(*m),
            ServiceWork::Manage(m, p) => ServiceWorkView::Manage(*m, p.deep_view()),
        }
    }
}

/// What setting up asks for: only a module can be set up.
pub open spec fn init_work(op: ServiceOperandView) -> ServiceWorkView {
    match op {
        ServiceOperandView::Module(m) => ServiceWorkView::Init(m),
        _ => ServiceWorkView::Answer("Init operation is not supported by target filter"@),
    }
}

/// What managing asks for: only a module can be managed, and only with
/// words to pass on.
pub open spec fn manage_work(target: ServiceOperandView, pass: ServiceOperandView) -> ServiceWorkView {
    match target {
        ServiceOperandView::Module(m) => match pass {
            ServiceOperandView::Pass(p) => ServiceWorkView::Manage(m, p),
            _ => ServiceWorkView::Answer("Bad operand for Manage operation"@),
        },
        _ => ServiceWorkView::Answer("Manage operation is not supported by target filter"@),
    }
}

/// What the console answers for work that is a module's to do: it hands
/// the work on and has no answer of its own.
pub open spec fn handed_on() -> Seq<char> {
    "Handed on to the module"@
}

/// What the console answers to a command: the answer, where there is
/// nothing to do but to answer, and `handed_on()` otherwise.
pub open spec fn work_text(work: ServiceWorkView) -> Seq<char> {
    match work {
        ServiceWorkView::Answer(text) => text,
        _ => handed_on(),
    }
}

/// What a command asks for.
pub open spec fn zone_work(z: ServiceZoneView) -> ServiceWorkView {
    match z.action {
        ServiceAction::Init => init_work(z.op1),
        ServiceAction::Manage => manage_work(z.op1, z.op2),
    }
}

impl ServiceZone {
    /// A command of the given parts.
    pub fn new(action: ServiceAction, op1: ServiceOperand, op2: ServiceOperand) -> (zone:
        ServiceZone)
        ensures
            zone@ == (ServiceZoneView { action, op1: op1@, op2: op2@ }),
    {
        ServiceZone { action, op1, op2 }
    }

    /// Reads a command.
    pub fn from_str(msg: &str) -> (zone: Option<ServiceZone>)
        ensures
            match zone {
                Some(z) => service_zone_of(msg@) == Some(z@),
                None => service_zone_of(msg@) is None,
            },
    {
        let atoms = split(msg, ' ');
        proof {
            crate::text::lemma_split_nonempty(msg@, ' ');
            reveal_strlit("");
        }
        if atoms.len() == 0 || text_eq(msg, "") {
            return None;
        }
        let word = atoms[0];
        assert(word@ == atoms.deep_view()[0]);
        let action = if text_eq(word, "ini") || text_eq(word, "init") {
            ServiceAction::Init
        } else if text_eq(word, "man") || text_eq(word, "manage") {
            ServiceAction::Manage
        } else {
            return None;
        };
        let mut at: usize = 1;
        let op1 = match ServiceZone::extract_operand(&atoms, &mut at) {
            None => {
                return None;
            },
            Some(ServiceOperand::Nothing) => {
                return None;
            },
            Some(op) => op,
        };
        let op2 = match ServiceZone::extract_operand(&atoms, &mut at) {
            None => {
                return None;
            },
            Some(op) => op,
        };
        Some(ServiceZone::new(action, op1, op2))
    }

    /// Reads the operand that begins at the word `at`, and moves `at` past
    /// the words that it took.
    pub fn extract_operand(atoms: &Vec<&str>, at: &mut usize) -> (op: Option<ServiceOperand>)
        ensures
            match op {
                Some(o) => service_operand_at(atoms.deep_view(), *old(at) as int) == Some(o@),
                None => service_operand_at(atoms.deep_view(), *old(at) as int) is None,
            },
            *final(at) == service_operand_end(atoms.deep_view(), *old(at) as int),
    {
        let ghost words = atoms.deep_view();
        let n = atoms.len();
        if *at >= n {
            return Some(ServiceOperand::Nothing);
        }
        let key = atoms[*at];
        assert(key@ == words[*at as int]);
        let ghost start = *at as int;
        *at = *at + 1;
        if text_eq(key, "all") {
            Some(ServiceOperand::All)
        } else if text_eq(key, "mod") || text_eq(key, "module") {
            if *at >= n {
                return None;
            }
            let name = atoms[*at];
            assert(name@ == words[*at as int]);
            *at = *at + 1;
            match Module::from_str(name) {
                Some(m) => Some(ServiceOperand::Module(m)),
                None => None,
            }
        } else if text_eq(key, ":") || text_eq(key, "<") {
            let mut pass: Vec<String> = Vec::new();
            assert(pass.deep_view() =~= words.subrange(start + 1, *at as int));
            while *at < n
                invariant
                    n == atoms.len(),
                    words == atoms.deep_view(),
                    words.len() == n,
                    0 <= start,
                    start + 1 <= *at <= n,
                    pass.deep_view() == words.subrange(start + 1, *at as int),
                decreases n - *at,
            {
                let ghost before = pass.deep_view();
                let word = String::from_str(atoms[*at]);
                assert(word@ == words[*at as int]);
                pass.push(word);
                assert(pass.deep_view() =~= before.push(word@));
                *at = *at + 1;
                assert(pass.deep_view() =~= words.subrange(start + 1, *at as int));
            }
            Some(ServiceOperand::Pass(pass))
        } else {
            Some(ServiceOperand::Nothing)
        }
    }

    /// Decides what is to be done for a command.
    pub fn process(sz: ServiceZone) -> (work: ServiceWork)
        ensures
            work@ == zone_work(sz@),
    {
        match sz.action {
            ServiceAction::Init => ServiceZoneModel::init(sz.op1),
            ServiceAction::Manage => ServiceZoneModel::manage(sz.op1, sz.op2),
        }
    }
}

impl ServiceWork {
    /// What the console answers to a command that asks for this work.
    pub fn answer(self) -> (text: String)
        ensures
            text@ == work_text(self@),
    {
        match self {
            ServiceWork::Answer(text) => text,
            _ => String::from_str("Handed on to the module"),
        }
    }
}

/// What the commands on the services ask for.
pub struct ServiceZoneModel;

impl ServiceZoneModel {
    /// Decides what setting up asks for.
    pub fn init(op: ServiceOperand) -> (work: ServiceWork)
        ensures
            work@ == init_work(op@),
    {
        match op {
            ServiceOperand::Module(m) => ServiceWork::Init(m),
            _ => ServiceWork::Answer(
                String::from_str("Init operation is not supported by target filter"),
            ),
        }
    }

    /// Decides what managing asks for.
    pub fn manage(target: ServiceOperand, pass: ServiceOperand) -> (work: ServiceWork)
        ensures
            work@ == manage_work(target@, pass@),
    {
        match target {
            ServiceOperand::Module(m) => match pass {
                ServiceOperand::Pass(p) => ServiceWork::Manage(m, p),
                _ => ServiceWork::Answer(String::from_str("Bad operand for Manage operation")),
            },
            _ => ServiceWork::Answer(
                String::from_str("Manage operation is not supported by target filter"),
            ),
        }
    }
}

} // verus!
