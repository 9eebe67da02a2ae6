use vstd::prelude::*;

use crate::decimal::{decimal, push_decimal};
use crate::gdb::GDBManager;
use crate::mi::RemoteTarget;

verus! {

/// The registry of sessions that the server keeps for as long as it runs,
/// empty at start.
pub fn init_gdb_manager<S>() -> (m: GDBManager<S>)
    ensures
        m.spec_sessions() == Map::<Seq<char>, S>::empty(),
{
    GDBManager::new()
}

/// The remote target of a new session: given only when its type, host and
/// port are all given.
pub fn remote_target_from_options(
    remote_target_type: Option<String>,
    remote_host: Option<String>,
    remote_port: Option<u16>,
) -> (r: Option<RemoteTarget>)
    ensures
        r is Some <==> (remote_target_type is Some && remote_host is Some && remote_port is Some),
        r matches Some(t) ==> {
            &&& t.target_type == remote_target_type->0
            &&& t.host == remote_host->0
            &&& t.port == remote_port->0
        },
{
    match (remote_target_type, remote_host, remote_port) {
        (Some(target_type), Some(host), Some(port)) => Some(RemoteTarget { target_type, host, port }),
        _ => None,
    }
}

/// The answer of a tool, with what it reports.
pub enum ToolReply {
    CreatedSession(String),
    Session(String),
    Sessions(String),
    ClosedSession,
    StartedDebugging(String),
    StoppedDebugging(String),
    Breakpoints(String),
    SetBreakpoint(String),
    BreakpointsDeleted,
    StackFrames(String),
    LocalVariables(String),
    Registers(String),
    RegisterNames(String),
    Memory(String),
    ContinuedExecution(String),
    SteppedInto(String),
    SteppedOver(String),
    ConnectedRemote { host: String, port: u16, result: String },
    DisconnectedRemote(String),
    LoadedSymbols { file: String, result: String },
}

impl ToolReply {
    /// The text a tool answers with.
    pub open spec fn spec_text(&self) -> Seq<char> {
        match self {
            ToolReply::CreatedSession(s) => "Created GDB session: "@ + s@,
            ToolReply::Session(s) => "Session: "@ + s@,
            ToolReply::Sessions(s) => "Sessions: "@ + s@,
            ToolReply::ClosedSession => "Closed GDB session"@,
            ToolReply::StartedDebugging(s) => "Started debugging: "@ + s@,
            ToolReply::StoppedDebugging(s) => "Stopped debugging: "@ + s@,
            ToolReply::Breakpoints(s) => "Breakpoints: "@ + s@,
            ToolReply::SetBreakpoint(s) => "Set breakpoint: "@ + s@,
            ToolReply::BreakpointsDeleted => "Breakpoints deleted"@,
            ToolReply::StackFrames(s) => "Stack frames: "@ + s@,
            ToolReply::LocalVariables(s) => "Local variables: "@ + s@,
            ToolReply::Registers(s) => "Registers: "@ + s@,
            ToolReply::RegisterNames(s) => "Registers: "@ + s@,
            ToolReply::Memory(s) => "Memory: "@ + s@,
            ToolReply::ContinuedExecution(s) => "Continued execution: "@ + s@,
            ToolReply::SteppedInto(s) => "Stepped into next line: "@ + s@,
            ToolReply::SteppedOver(s) => "Stepped over next line: "@ + s@,
            ToolReply::ConnectedRemote { host, port, result } => "Connected to remote target "@
                + host@ + ":"@ + decimal(*port as nat) + ": "@ + result@,
            ToolReply::DisconnectedRemote(s) => "Disconnected from remote target: "@ + s@,
            ToolReply::LoadedSymbols { file, result } => "Loaded symbols from "@ + file@ + ": "@
                + result@,
        }
    }

    /// The text a tool answers with.
    pub fn text(&self) -> (t: String)
        ensures
            t@ == self.spec_text(),
    {
        match self {
            ToolReply::CreatedSession(s) => String::from_str("Created GDB session: ").concat(s.as_str()),
            ToolReply::Session(s) => String::from_str("Session: ").concat(s.as_str()),
            ToolReply::Sessions(s) => String::from_str("Sessions: ").concat(s.as_str()),
            ToolReply::ClosedSession => String::from_str("Closed GDB session"),
            ToolReply::StartedDebugging(s) => String::from_str("Started debugging: ").concat(s.as_str()),
            ToolReply::StoppedDebugging(s) => String::from_str("Stopped debugging: ").concat(s.as_str()),
            ToolReply::Breakpoints(s) => String::from_str("Breakpoints: ").concat(s.as_str()),
            ToolReply::SetBreakpoint(s) => String::from_str("Set breakpoint: ").concat(s.as_str()),
            ToolReply::BreakpointsDeleted => String::from_str("Breakpoints deleted"),
            ToolReply::StackFrames(s) => String::from_str("Stack frames: ").concat(s.as_str()),
            ToolReply::LocalVariables(s) => String::from_str("Local variables: ").concat(s.as_str()),
            ToolReply::Registers(s) => String::from_str("Registers: ").concat(s.as_str()),
            ToolReply::RegisterNames(s) => String::from_str("Registers: ").concat(s.as_str()),
            ToolReply::Memory(s) => String::from_str("Memory: ").concat(s.as_str()),
            ToolReply::ContinuedExecution(s) => String::from_str("Continued execution: ").concat(
                s.as_str(),
            ),
            ToolReply::SteppedInto(s) => String::from_str("Stepped into next line: ").concat(s.as_str()),
            ToolReply::SteppedOver(s) => String::from_str("Stepped over next line: ").concat(s.as_str()),
            ToolReply::ConnectedRemote { host, port, result } => {
                let mut t = String::from_str("Connected to remote target ").concat(host.as_str());
                t.append(":");
                push_decimal(&mut t, *port as u64);
                t.append(": ");
                t.append(result.as_str());
                t
            },
            ToolReply::DisconnectedRemote(s) => String::from_str(
                "Disconnected from remote target: ",
            ).concat(s.as_str()),
            ToolReply::LoadedSymbols { file, result } => {
                let mut t = String::from_str("Loaded symbols from ").concat(file.as_str());
                t.append(": ");
                t.append(result.as_str());
                t
            },
        }
    }
}


/// What a reply reports last: the session id, the result or the serialised
/// value it carries, if any.
pub open spec fn reported(r: ToolReply) -> Option<Seq<char>> {
    match r {
        ToolReply::CreatedSession(s) => Some(s@),
        ToolReply::Session(s) => Some(s@),
        ToolReply::Sessions(s) => Some(s@),
        ToolReply::ClosedSession => None,
        ToolReply::StartedDebugging(s) => Some(s@),
        ToolReply::StoppedDebugging(s) => Some(s@),
        ToolReply::Breakpoints(s) => Some(s@),
        ToolReply::SetBreakpoint(s) => Some(s@),
        ToolReply::BreakpointsDeleted => None,
        ToolReply::StackFrames(s) => Some(s@),
        ToolReply::LocalVariables(s) => Some(s@),
        ToolReply::Registers(s) => Some(s@),
        ToolReply::RegisterNames(s) => Some(s@),
        ToolReply::Memory(s) => Some(s@),
        ToolReply::ContinuedExecution(s) => Some(s@),
        ToolReply::SteppedInto(s) => Some(s@),
        ToolReply::SteppedOver(s) => Some(s@),
        ToolReply::ConnectedRemote { result, .. } => Some(result@),
        ToolReply::DisconnectedRemote(s) => Some(s@),
        ToolReply::LoadedSymbols { result, .. } => Some(result@),
    }
}

/// Every reply ends with the whole of what it reports, uncut: the value
/// reads back as the reply's suffix of its length.
pub proof fn law_reply_ends_with_report(r: ToolReply)
    ensures
        reported(r) matches Some(v) ==> (r.spec_text().len() >= v.len() && r.spec_text().skip(
            r.spec_text().len() - v.len(),
        ) == v),
{
    match reported(r) {
        Some(v) => {
            let t = r.spec_text();
            assert(t.skip(t.len() - v.len()) =~= v);
        },
        None => {},
    }
}

/// The reply to `create_session` carries the whole session id, right after
/// its fixed opening, so the id reads back from the reply; replies to two
/// different ids differ.
pub proof fn law_created_session_reply_names_the_session(a: String, b: String)
    ensures
        ToolReply::CreatedSession(a).spec_text().len() == "Created GDB session: "@.len()
            + a@.len(),
        ToolReply::CreatedSession(a).spec_text().skip("Created GDB session: "@.len() as int)
            == a@,
        ToolReply::CreatedSession(a).spec_text() == ToolReply::CreatedSession(b).spec_text()
            ==> a@ == b@,
{
    let p = "Created GDB session: "@;
    assert(ToolReply::CreatedSession(a).spec_text().skip(p.len() as int) =~= a@);
    assert(ToolReply::CreatedSession(b).spec_text().skip(p.len() as int) =~= b@);
}


/// The reply to `connect_remote` names the target as `host:port`, the port
/// in decimal, and then the result; the reply to `load_symbols` names the
/// whole file and then the result.
pub proof fn law_target_and_file_read_back(host: String, port: u16, file: String, result: String)
    ensures
        ({
            let t = ToolReply::ConnectedRemote { host, port, result }.spec_text();
            let h = "Connected to remote target "@.len() as int;
            let p = h + host@.len() + ":"@.len();
            &&& t.subrange(h, h + host@.len()) == host@
            &&& t.subrange(h + host@.len(), p) == ":"@
            &&& t.subrange(p, p + decimal(port as nat).len()) == decimal(port as nat)
            &&& t.len() == p + decimal(port as nat).len() + ": "@.len() + result@.len()
        }),
        ({
            let t = ToolReply::LoadedSymbols { file, result }.spec_text();
            let f = "Loaded symbols from "@.len() as int;
            &&& t.subrange(f, f + file@.len()) == file@
            &&& t.len() == f + file@.len() + ": "@.len() + result@.len()
        }),
{
    let t = ToolReply::ConnectedRemote { host, port, result }.spec_text();
    let h = "Connected to remote target "@.len() as int;
    let p = h + host@.len() + ":"@.len();
    assert(t.subrange(h, h + host@.len()) =~= host@);
    assert(t.subrange(h + host@.len(), p) =~= ":"@);
    assert(t.subrange(p, p + decimal(port as nat).len()) =~= decimal(port as nat));
    let u = ToolReply::LoadedSymbols { file, result }.spec_text();
    let f = "Loaded symbols from "@.len() as int;
    assert(u.subrange(f, f + file@.len()) =~= file@);
}

} // verus!
