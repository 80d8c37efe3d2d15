//! The messages of the Debug Adapter Protocol that the client sends,
//! receives or hands on, as plain data.

use vstd::prelude::*;

verus! {

/// Identifies one debug session.
#[derive(Clone, Copy, Debug, PartialEq, Eq, Hash)]
pub struct DapId(pub u64);

/// Identifies a terminal that the editor owns.
#[derive(Clone, Copy, Debug, PartialEq, Eq, Hash)]
pub struct TermId(pub u64);

/// Identifies a thread of the debuggee.
#[derive(Clone, Copy, Debug, PartialEq, Eq, Hash)]
pub struct ThreadId(pub i64);

/// The debug adapter to run: its program, arguments and working directory.
#[derive(Clone, Debug, PartialEq, Eq)]
pub struct DapServer {
    pub program: String,
    pub args: Vec<String>,
    pub cwd: Option<String>,
}

/// What to debug, and how it is started.
#[derive(Debug, PartialEq, Eq)]
pub struct RunDebugConfig {
    pub dap_id: DapId,
    pub program: String,
    pub args: Option<Vec<String>>,
    pub cwd: Option<String>,
    /// The command line that the adapter asked to be run in a terminal.
    pub debug_command: Option<String>,
}

/// A run configuration with its texts and lists as sequences.
pub struct RunDebugConfigView {
    pub dap_id: DapId,
    pub program: Seq<char>,
    pub args: Option<Seq<Seq<char>>>,
    pub cwd: Option<Seq<char>>,
    pub debug_command: Option<Seq<char>>,
}

/// The characters of each string of a list.
pub open spec fn texts(list: Seq<String>) -> Seq<Seq<char>> {
    list.map_values(|s: String| s@)
}

/// The characters of an optional string.
pub open spec fn opt_text(s: Option<String>) -> Option<Seq<char>> {
    match s {
        Some(s) => Some(s@),
        None => None,
    }
}

/// The characters of each string of an optional list.
pub open spec fn opt_texts(list: Option<Vec<String>>) -> Option<Seq<Seq<char>>> {
    match list {
        Some(list) => Some(texts(list@)),
        None => None,
    }
}

impl View for RunDebugConfig {
    type V = RunDebugConfigView;

    open spec fn view(&self) -> RunDebugConfigView {
        RunDebugConfigView {
            dap_id: self.dap_id,
            program: self.program@,
            args: opt_texts(self.args),
            cwd: opt_text(self.cwd),
            debug_command: opt_text(self.debug_command),
        }
    }
}

impl Clone for RunDebugConfig {
    fn clone(&self) -> (res: Self)
        ensures
            res@ == self@,
    {
        RunDebugConfig {
            dap_id: self.dap_id,
            program: self.program.clone(),
            args: clone_opt_strings(&self.args),
            cwd: self.cwd.clone(),
            debug_command: self.debug_command.clone(),
        }
    }
}

/// A copy of a list of strings.
pub fn clone_strings(list: &Vec<String>) -> (res: Vec<String>)
    ensures
        res@ == list@,
{
    let mut res: Vec<String> = Vec::new();
    let mut i: usize = 0;
    while i < list.len()
        invariant
            i <= list.len(),
            res@ == list@.subrange(0, i as int),
        decreases list.len() - i,
    {
        res.push(list[i].clone());
        i += 1;
        assert(res@ =~= list@.subrange(0, i as int));
    }
    assert(list@.subrange(0, i as int) =~= list@);
    res
}

/// A copy of an optional list of strings.
pub fn clone_opt_strings(list: &Option<Vec<String>>) -> (res: Option<Vec<String>>)
    ensures
        res is Some == list is Some,
        res is Some ==> res->0@ == list->0@,
        opt_texts(res) == opt_texts(*list),
{
    match list {
        Some(list) => Some(clone_strings(list)),
        None => None,
    }
}

/// A breakpoint that the user set at a line of a source file.
#[derive(Debug, PartialEq, Eq)]
pub struct SourceBreakpoint {
    pub line: u64,
    pub column: Option<u64>,
    pub condition: Option<String>,
    pub hit_condition: Option<String>,
    pub log_message: Option<String>,
}

impl Clone for SourceBreakpoint {
    fn clone(&self) -> (res: Self)
        ensures
            res == *self,
    {
        SourceBreakpoint {
            line: self.line,
            column: self.column,
            condition: self.condition.clone(),
            hit_condition: self.hit_condition.clone(),
            log_message: self.log_message.clone(),
        }
    }
}

/// A source file, as the adapter is told of it.
#[derive(Clone, Debug, PartialEq, Eq)]
pub struct Source {
    pub path: Option<String>,
    pub name: Option<String>,
    pub source_reference: Option<u64>,
    pub presentation_hint: Option<String>,
    pub origin: Option<String>,
}

/// A breakpoint as the adapter reports it.
#[derive(Clone, Debug, PartialEq, Eq)]
pub struct Breakpoint {
    pub id: Option<u64>,
    pub verified: bool,
    pub message: Option<String>,
    pub line: Option<u64>,
    pub column: Option<u64>,
}

/// A thread of the debuggee.
#[derive(Clone, Debug, PartialEq, Eq)]
pub struct Thread {
    pub id: ThreadId,
    pub name: String,
}

/// One frame of a thread's call stack.
#[derive(Clone, Debug, PartialEq, Eq)]
pub struct StackFrame {
    pub id: u64,
    pub name: String,
    pub path: Option<String>,
    pub line: u64,
    pub column: u64,
}

/// The body of a `stopped` event.
#[derive(Clone, Debug, PartialEq, Eq)]
pub struct Stopped {
    pub reason: String,
    pub description: Option<String>,
    pub thread_id: Option<ThreadId>,
    pub preserve_focus_hint: Option<bool>,
    pub text: Option<String>,
    pub all_threads_stopped: Option<bool>,
    pub hit_breakpoint_ids: Option<Vec<u64>>,
}

/// What the adapter says it can do.
#[derive(Clone, Debug, PartialEq, Eq)]
pub struct DebuggerCapabilities {
    pub supports_configuration_done_request: Option<bool>,
    pub supports_conditional_breakpoints: Option<bool>,
    pub supports_restart_request: Option<bool>,
    pub supports_terminate_request: Option<bool>,
}

/// The arguments of `initialize`.
#[derive(Clone, Debug, PartialEq, Eq)]
pub struct InitializeParams {
    pub client_id: Option<String>,
    pub client_name: Option<String>,
    pub adapter_id: String,
    pub locale: Option<String>,
    pub lines_start_at_one: Option<bool>,
    pub columns_start_at_one: Option<bool>,
    pub path_format: Option<String>,
    pub supports_variable_type: Option<bool>,
    pub supports_variable_paging: Option<bool>,
    pub supports_run_in_terminal_request: Option<bool>,
    pub supports_memory_references: Option<bool>,
    pub supports_progress_reporting: Option<bool>,
    pub supports_invalidated_event: Option<bool>,
}

/// The arguments of `launch`.
#[derive(Clone, Debug, PartialEq, Eq)]
pub struct LaunchArguments {
    pub program: String,
    pub args: Option<Vec<String>>,
    pub cwd: Option<String>,
    pub run_in_terminal: bool,
}

/// The arguments of `setBreakpoints`.
#[derive(Clone, Debug, PartialEq, Eq)]
pub struct SetBreakpointsArguments {
    pub source: Source,
    pub breakpoints: Option<Vec<SourceBreakpoint>>,
    pub source_modified: Option<bool>,
}

/// The arguments of `continue`.
#[derive(Clone, Debug, PartialEq, Eq)]
pub struct ContinueArguments {
    pub thread_id: ThreadId,
}

/// The arguments of `pause`.
#[derive(Clone, Debug, PartialEq, Eq)]
pub struct PauseArguments {
    pub thread_id: ThreadId,
}

/// The arguments of `stackTrace`.
#[derive(Clone, Debug, PartialEq, Eq)]
pub struct StackTraceArguments {
    pub thread_id: ThreadId,
    pub start_frame: Option<u64>,
    pub levels: Option<u64>,
}

/// The arguments of `runInTerminal`, which the adapter sends.
#[derive(Clone, Debug, PartialEq, Eq)]
pub struct RunInTerminalArguments {
    pub kind: Option<String>,
    pub title: Option<String>,
    pub cwd: Option<String>,
    pub args: Vec<String>,
}

/// The answer to `runInTerminal`.
#[derive(Clone, Debug, PartialEq, Eq)]
pub struct RunInTerminalResponse {
    pub process_id: Option<u32>,
    pub shell_process_id: Option<u32>,
}

/// The answer to `setBreakpoints`.
#[derive(Clone, Debug, PartialEq, Eq)]
pub struct SetBreakpointsResponse {
    pub breakpoints: Option<Vec<Breakpoint>>,
}

/// The answer to `continue`.
#[derive(Clone, Debug, PartialEq, Eq)]
pub struct ContinueResponse {
    pub all_threads_continued: Option<bool>,
}

/// The answer to `threads`.
#[derive(Clone, Debug, PartialEq, Eq)]
pub struct ThreadsResponse {
    pub threads: Vec<Thread>,
}

/// The answer to `stackTrace`.
#[derive(Clone, Debug, PartialEq, Eq)]
pub struct StackTraceResponse {
    pub total_frames: Option<u64>,
    pub stack_frames: Vec<StackFrame>,
}

/// The arguments of a request.
#[derive(Clone, Debug, PartialEq, Eq)]
pub enum Arguments {
    /// No arguments: the command takes none.
    Unit,
    Initialize(InitializeParams),
    Launch(LaunchArguments),
    SetBreakpoints(SetBreakpointsArguments),
    Continue(ContinueArguments),
    Pause(PauseArguments),
    StackTrace(StackTraceArguments),
    RunInTerminal(RunInTerminalArguments),
    /// Arguments that could not be read, with the reason.
    Unreadable(String),
}

/// The body of a response.
#[derive(Clone, Debug, PartialEq, Eq)]
pub enum Body {
    /// No body: the command answers with none.
    Unit,
    Capabilities(DebuggerCapabilities),
    Breakpoints(SetBreakpointsResponse),
    Continued(ContinueResponse),
    Threads(ThreadsResponse),
    StackTrace(StackTraceResponse),
    RunInTerminal(RunInTerminalResponse),
    /// A body that could not be read, with the reason.
    Unreadable(String),
}

/// A request, in either direction.
#[derive(Clone, Debug, PartialEq, Eq)]
pub struct DapRequest {
    pub seq: u64,
    pub command: String,
    pub arguments: Option<Arguments>,
}

/// The response to the request whose `seq` was `request_seq`.
#[derive(Clone, Debug, PartialEq, Eq)]
pub struct DapResponse {
    pub request_seq: u64,
    pub success: bool,
    pub command: String,
    pub message: Option<String>,
    pub body: Option<Body>,
}

/// An event that the adapter emits. The events that the session does not
/// act on carry nothing here.
#[derive(Clone, Debug, PartialEq, Eq)]
pub enum DapEvent {
    Initialized(Option<DebuggerCapabilities>),
    Stopped(Stopped),
    Continued,
    Exited,
    Terminated,
    Thread,
    Output,
    Breakpoint { reason: String, breakpoint: Breakpoint },
    Module,
    LoadedSource,
    Process,
    Capabilities,
    Memory,
}

/// One message on the wire.
#[derive(Clone, Debug, PartialEq, Eq)]
pub enum DapPayload {
    Request(DapRequest),
    Response(DapResponse),
    Event(DapEvent),
}

/// Why a request failed.
#[derive(Clone, Debug, PartialEq, Eq)]
pub struct RpcError {
    pub code: i64,
    pub message: String,
}

} // verus!
