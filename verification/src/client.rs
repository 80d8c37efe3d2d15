//! The session: the state of one debug adapter as the client knows it, and
//! what the client decides when something happens.
//!
//! Nothing here waits or sends. Each operation takes what happened, brings
//! the state up to date and says what is to be done; the driver that owns
//! the channels and the adapter process does it and reports back.

use crate::breakpoints::{files_view, BreakpointTable, FileBreakpoints};
use crate::rpc::{DapRpcHandler, DapRpcHandlerView, ResponseHandler};
use crate::text::{join_words, joined, text_is};
use crate::types::{
    texts, Arguments, Body, Breakpoint, DapEvent, DapId, DapRequest, DapResponse, DapServer,
    DebuggerCapabilities, InitializeParams, RpcError, RunDebugConfig, RunDebugConfigView,
    RunInTerminalResponse, SourceBreakpoint, StackFrame, Stopped, TermId, Thread, ThreadId,
    opt_text,
};
use std::collections::HashMap;
use vstd::prelude::*;
use vstd::string::StringExecFns;

verus! {

broadcast use vstd::std_specs::hash::group_hash_axioms;

/// The request that ends the debuggee.
#[derive(Clone, Copy, Debug, PartialEq, Eq)]
pub enum StopRequest {
    /// `terminate`: the adapter offers it.
    Terminate,
    /// `disconnect`: the adapter offers nothing gentler.
    Disconnect,
}

/// What a look at a pending restart found.
#[derive(Clone, Copy, Debug, PartialEq, Eq)]
pub enum RestartStep {
    /// No restart is wanted.
    Idle,
    /// A restart is wanted, but the adapter has yet to go away.
    Waiting,
    /// The restart begins and the adapter is gone: start it again,
    /// initialize it, report with `respawned`, then launch.
    Respawn,
    /// The restart begins and the adapter is still there: launch.
    Launch,
}

/// What a request to restart led to.
#[derive(Clone, Copy, Debug, PartialEq, Eq)]
pub enum RestartOutcome {
    /// The debuggee still runs: it is asked to stop first.
    Stop(StopRequest),
    /// The debuggee has ended: the restart was looked at.
    Check(RestartStep),
}

/// What is to be done about an event.
#[derive(Debug, PartialEq, Eq)]
pub enum EventOutcome {
    /// Send the breakpoints of each file, in this order, hand each answer
    /// to `breakpoints_resp`, then send `configurationDone`.
    Configure(Vec<FileBreakpoints>),
    /// Tell the editor that the debuggee stopped. With `query_threads`,
    /// ask for the threads and their stacks first.
    Stopped { stopped: Stopped, query_threads: bool },
    /// Tell the editor that the debuggee runs again.
    Continued(DapId),
    /// The debuggee has ended: close the terminal, if there is one, and go
    /// on with the restart as `restart` says.
    Terminated { close_terminal: Option<TermId>, restart: RestartStep },
    /// A breakpoint changed: worth a line in the log.
    BreakpointChanged { reason: String, breakpoint: Breakpoint },
    /// Nothing.
    Ignored,
}

/// What the editor is told of the breakpoints of one file.
#[derive(Debug, PartialEq, Eq)]
pub struct BreakpointsNotice {
    pub dap_id: DapId,
    pub path: String,
    pub breakpoints: Vec<Breakpoint>,
}

/// The state of a session.
pub struct DapClientView {
    pub server: DapServer,
    pub config: RunDebugConfigView,
    pub breakpoints: Seq<(Seq<char>, Seq<SourceBreakpoint>)>,
    pub term_id: Option<TermId>,
    pub capabilities: Option<DebuggerCapabilities>,
    pub terminated: bool,
    pub disconnected: bool,
    pub restarted: bool,
}

impl DapClientView {
    /// Whether the adapter said that it takes `terminate`.
    pub open spec fn terminate_supported(self) -> bool {
        match self.capabilities {
            Some(capabilities) => capabilities.supports_terminate_request == Some(true),
            None => false,
        }
    }

    /// The request that ends the debuggee.
    pub open spec fn stop_request(self) -> StopRequest {
        if self.terminate_supported() {
            StopRequest::Terminate
        } else {
            StopRequest::Disconnect
        }
    }

    /// What a look at a pending restart finds.
    pub open spec fn restart_step(self) -> RestartStep {
        if !self.restarted {
            RestartStep::Idle
        } else if !self.terminate_supported() && !self.disconnected {
            RestartStep::Waiting
        } else if self.disconnected {
            RestartStep::Respawn
        } else {
            RestartStep::Launch
        }
    }

    /// The state after a look at a pending restart.
    pub open spec fn after_restart_check(self) -> DapClientView {
        match self.restart_step() {
            RestartStep::Idle | RestartStep::Waiting => self,
            RestartStep::Respawn => DapClientView { restarted: false, ..self },
            RestartStep::Launch => DapClientView {
                restarted: false,
                terminated: false,
                disconnected: false,
                ..self
            },
        }
    }

    /// The state once a restart is wanted, with the breakpoints to use from
    /// then on.
    pub open spec fn with_restart_wanted(
        self,
        breakpoints: Seq<(Seq<char>, Seq<SourceBreakpoint>)>,
    ) -> DapClientView {
        DapClientView { restarted: true, breakpoints, ..self }
    }

    /// What a request to restart leads to.
    pub open spec fn restart_outcome(
        self,
        breakpoints: Seq<(Seq<char>, Seq<SourceBreakpoint>)>,
    ) -> RestartOutcome {
        let wanted = self.with_restart_wanted(breakpoints);
        if !self.terminated {
            RestartOutcome::Stop(wanted.stop_request())
        } else {
            RestartOutcome::Check(wanted.restart_step())
        }
    }

    /// The state after a request to restart.
    pub open spec fn after_restart(
        self,
        breakpoints: Seq<(Seq<char>, Seq<SourceBreakpoint>)>,
    ) -> DapClientView {
        let wanted = self.with_restart_wanted(breakpoints);
        if !self.terminated {
            wanted
        } else {
            wanted.after_restart_check()
        }
    }

    /// The state once the debuggee has ended.
    pub open spec fn after_terminated(self) -> DapClientView {
        (DapClientView { terminated: true, ..self }).after_restart_check()
    }

    /// The state once the adapter is gone.
    pub open spec fn after_disconnected(self) -> DapClientView {
        (DapClientView { disconnected: true, ..self }).after_restart_check()
    }

    /// The state after an event.
    pub open spec fn after_event(self, event: DapEvent) -> DapClientView {
        match event {
            DapEvent::Terminated => self.after_terminated(),
            _ => self,
        }
    }

    /// Whether `outcome` is what is to be done about `event`.
    pub open spec fn event_outcome(self, event: DapEvent, outcome: EventOutcome) -> bool {
        match event {
            DapEvent::Initialized(_) => outcome matches EventOutcome::Configure(files)
                && files_view(files@) == self.breakpoints,
            DapEvent::Stopped(stopped) => outcome == (EventOutcome::Stopped {
                stopped,
                query_threads: stopped.all_threads_stopped == Some(true),
            }),
            DapEvent::Continued => outcome == EventOutcome::Continued(self.config.dap_id),
            DapEvent::Terminated => outcome == (EventOutcome::Terminated {
                close_terminal: self.term_id,
                restart: (DapClientView { terminated: true, ..self }).restart_step(),
            }),
            DapEvent::Breakpoint { reason, breakpoint } => outcome == (
            EventOutcome::BreakpointChanged { reason, breakpoint }),
            _ => outcome == EventOutcome::Ignored,
        }
    }
}

/// What the client answers to a request of the adapter: the configuration
/// to run in a terminal, or the reason why the request fails.
pub open spec fn host_request_outcome(config: RunDebugConfigView, req: DapRequest) -> Result<
    RunDebugConfigView,
    Seq<char>,
> {
    if req.command@ != "runInTerminal"@ {
        Err("not implemented"@)
    } else {
        match req.arguments {
            None => Err("no arguments"@),
            Some(Arguments::RunInTerminal(arguments)) => Ok(
                RunDebugConfigView {
                    debug_command: Some(joined(texts(arguments.args@))),
                    ..config
                },
            ),
            Some(Arguments::Unreadable(reason)) => Err(reason@),
            Some(_) => Err("invalid arguments"@),
        }
    }
}

/// A configuration or a reason, by their contents.
pub open spec fn config_or_reason(r: Result<RunDebugConfig, String>) -> Result<
    RunDebugConfigView,
    Seq<char>,
> {
    match r {
        Ok(config) => Ok(config@),
        Err(reason) => Err(reason@),
    }
}

/// The threads whose stacks are asked for after `threads` was answered
/// with `answer`: those of the answer, in its order.
pub open spec fn threads_to_trace(answer: Result<Body, RpcError>) -> Seq<ThreadId> {
    match answer {
        Ok(Body::Threads(response)) => response.threads@.map_values(|t: Thread| t.id),
        _ => Seq::empty(),
    }
}

/// The stacks by thread: of each thread whose stack came, the frames that
/// came last.
pub open spec fn stacks_by_thread(traces: Seq<(ThreadId, Result<Body, RpcError>)>) -> Map<
    i64,
    Vec<StackFrame>,
>
    decreases traces.len(),
{
    if traces.len() == 0 {
        Map::empty()
    } else {
        let earlier = stacks_by_thread(traces.drop_last());
        match traces.last().1 {
            Ok(Body::StackTrace(response)) => earlier.insert(
                traces.last().0.0,
                response.stack_frames,
            ),
            _ => earlier,
        }
    }
}

/// Whether `params` are what the client says of itself: its name, that it
/// counts lines and columns from one and writes paths as paths, that it
/// takes the types of variables, and, as the platform allows, that it can
/// run the debuggee in a terminal. It offers nothing else.
pub open spec fn advertised(params: InitializeParams, supports_run_in_terminal: bool) -> bool {
    &&& opt_text(params.client_id) == Some("lapce"@)
    &&& opt_text(params.client_name) == Some("Lapce"@)
    &&& params.adapter_id@ == Seq::<char>::empty()
    &&& opt_text(params.locale) == Some("en-us"@)
    &&& params.lines_start_at_one == Some(true)
    &&& params.columns_start_at_one == Some(true)
    &&& opt_text(params.path_format) == Some("path"@)
    &&& params.supports_variable_type == Some(true)
    &&& params.supports_variable_paging == Some(false)
    &&& params.supports_run_in_terminal_request == Some(supports_run_in_terminal)
    &&& params.supports_memory_references == Some(false)
    &&& params.supports_progress_reporting == Some(false)
    &&& params.supports_invalidated_event == Some(false)
}

/// One debug session.
pub struct DapClient {
    dap_server: DapServer,
    config: RunDebugConfig,
    breakpoints: BreakpointTable,
    term_id: Option<TermId>,
    capabilities: Option<DebuggerCapabilities>,
    terminated: bool,
    disconnected: bool,
    restarted: bool,
}

impl View for DapClient {
    type V = DapClientView;

    closed spec fn view(&self) -> DapClientView {
        DapClientView {
            server: self.dap_server,
            config: self.config@,
            breakpoints: self.breakpoints@,
            term_id: self.term_id,
            capabilities: self.capabilities,
            terminated: self.terminated,
            disconnected: self.disconnected,
            restarted: self.restarted,
        }
    }
}

impl DapClient {
    /// A session that has not begun: no terminal, no capabilities, and
    /// neither ended nor gone nor to be restarted.
    pub fn new(dap_server: DapServer, config: RunDebugConfig, breakpoints: BreakpointTable) -> (client:
        Self)
        ensures
            client@ == (DapClientView {
                server: dap_server,
                config: config@,
                breakpoints: breakpoints@,
                term_id: None,
                capabilities: None,
                terminated: false,
                disconnected: false,
                restarted: false,
            }),
    {
        DapClient {
            dap_server,
            config,
            breakpoints,
            term_id: None,
            capabilities: None,
            terminated: false,
            disconnected: false,
            restarted: false,
        }
    }

    /// Begins a session: the session itself, its protocol runtime, and the
    /// `initialize` request to send once the adapter runs. The request is
    /// the runtime's first, and its response goes to the waiter at the
    /// other end of `tx`; hand the outcome to `initialize`.
    pub fn start<C, F>(
        dap_server: DapServer,
        config: RunDebugConfig,
        breakpoints: BreakpointTable,
        supports_run_in_terminal: bool,
        tx: C,
    ) -> (started: (DapClient, DapRpcHandler<C, F>, DapRequest))
        ensures
            started.0@ == (DapClientView {
                server: dap_server,
                config: config@,
                breakpoints: breakpoints@,
                term_id: None,
                capabilities: None,
                terminated: false,
                disconnected: false,
                restarted: false,
            }),
            started.1@ == (DapRpcHandlerView::<C, F> {
                dap_id: config.dap_id,
                seq_counter: 1,
                pending: Map::<u64, ResponseHandler<C, F>>::empty().insert(
                    0,
                    ResponseHandler::Chan(tx),
                ),
            }),
            started.2.seq == 0,
            started.2.command@ == "initialize"@,
            started.2.arguments matches Some(Arguments::Initialize(params)) && advertised(
                params,
                supports_run_in_terminal,
            ),
    {
        let mut dap_rpc = DapRpcHandler::new(config.dap_id);
        let client = DapClient::new(dap_server, config, breakpoints);
        let params = DapClient::initialize_params(supports_run_in_terminal);
        let request = dap_rpc.initialize(params, tx);
        (client, dap_rpc, request)
    }

    /// What the client says of itself in `initialize`. Whether it can run
    /// the debuggee in a terminal depends on the platform, so the caller
    /// says it.
    pub fn initialize_params(supports_run_in_terminal: bool) -> (params: InitializeParams)
        ensures
            advertised(params, supports_run_in_terminal),
    {
        InitializeParams {
            client_id: Some(String::from_str("lapce")),
            client_name: Some(String::from_str("Lapce")),
            adapter_id: String::new(),
            locale: Some(String::from_str("en-us")),
            lines_start_at_one: Some(true),
            columns_start_at_one: Some(true),
            path_format: Some(String::from_str("path")),
            supports_variable_type: Some(true),
            supports_variable_paging: Some(false),
            supports_run_in_terminal_request: Some(supports_run_in_terminal),
            supports_memory_references: Some(false),
            supports_progress_reporting: Some(false),
            supports_invalidated_event: Some(false),
        }
    }

    /// Takes the answer to `initialize`: the capabilities are kept, or the
    /// failure is reported with its message and nothing changes.
    pub fn initialize(&mut self, answer: Result<Body, RpcError>) -> (r: Result<(), String>)
        ensures
            match answer {
                Ok(Body::Capabilities(capabilities)) => r is Ok && final(self)@ == (DapClientView {
                    capabilities: Some(capabilities),
                    ..old(self)@
                }),
                Ok(_) => r is Err && r->Err_0@ == "unexpected response body"@ && final(self)@
                    == old(self)@,
                Err(e) => r == Err::<(), String>(e.message) && final(self)@ == old(self)@,
            },
    {
        match answer {
            Ok(Body::Capabilities(capabilities)) => {
                self.capabilities = Some(capabilities);
                Ok(())
            },
            Ok(_) => Err(String::from_str("unexpected response body")),
            Err(e) => Err(e.message),
        }
    }

    /// The request that ends the debuggee: `terminate` where the adapter
    /// offers it, else `disconnect`.
    pub fn stop(&self) -> (request: StopRequest)
        ensures
            request == self@.stop_request(),
    {
        if self.supports_terminate() {
            StopRequest::Terminate
        } else {
            StopRequest::Disconnect
        }
    }

    fn supports_terminate(&self) -> (supported: bool)
        ensures
            supported == self@.terminate_supported(),
    {
        match &self.capabilities {
            Some(capabilities) => match capabilities.supports_terminate_request {
                Some(supported) => supported,
                None => false,
            },
            None => false,
        }
    }

    /// Looks at a pending restart, when the debuggee has ended or the
    /// adapter is gone. The restart begins if one is wanted and the adapter
    /// either takes `terminate` or is gone.
    pub fn check_restart(&mut self) -> (step: RestartStep)
        ensures
            step == old(self)@.restart_step(),
            final(self)@ == old(self)@.after_restart_check(),
    {
        if !self.restarted {
            return RestartStep::Idle;
        }
        if !self.supports_terminate() && !self.disconnected {
            return RestartStep::Waiting;
        }
        self.restarted = false;
        if self.disconnected {
            return RestartStep::Respawn;
        }
        self.terminated = false;
        self.disconnected = false;
        RestartStep::Launch
    }

    /// Notes that the adapter runs again and is initialized, after
    /// `RestartStep::Respawn`: the session is neither ended nor gone, and
    /// the launch may follow.
    pub fn respawned(&mut self)
        ensures
            final(self)@ == (DapClientView {
                terminated: false,
                disconnected: false,
                ..old(self)@
            }),
    {
        self.terminated = false;
        self.disconnected = false;
    }

    /// Asks for a restart with new breakpoints. A debuggee that still runs
    /// is stopped first; the restart then begins when it has ended.
    pub fn restart(&mut self, breakpoints: BreakpointTable) -> (outcome: RestartOutcome)
        ensures
            outcome == old(self)@.restart_outcome(breakpoints@),
            final(self)@ == old(self)@.after_restart(breakpoints@),
    {
        self.restarted = true;
        self.breakpoints = breakpoints;
        if !self.terminated {
            RestartOutcome::Stop(self.stop())
        } else {
            RestartOutcome::Check(self.check_restart())
        }
    }

    /// Notes that the adapter is gone, and looks at a pending restart.
    /// The terminal to close, if any, is `term_id`.
    pub fn disconnected(&mut self) -> (step: RestartStep)
        ensures
            step == (DapClientView { disconnected: true, ..old(self)@ }).restart_step(),
            final(self)@ == old(self)@.after_disconnected(),
    {
        self.disconnected = true;
        self.check_restart()
    }

    /// Decides about a request of the adapter. `runInTerminal` gives the
    /// configuration to hand to the editor, with the command line made of
    /// the request's words; anything else fails.
    pub fn handle_host_request(&self, req: &DapRequest) -> (r: Result<RunDebugConfig, String>)
        ensures
            config_or_reason(r) == host_request_outcome(self@.config, *req),
    {
        if !text_is(&req.command, "runInTerminal") {
            return Err(String::from_str("not implemented"));
        }
        match &req.arguments {
            None => Err(String::from_str("no arguments")),
            Some(Arguments::RunInTerminal(arguments)) => {
                let command = join_words(&arguments.args);
                let mut config = self.config.clone();
                config.debug_command = Some(command);
                Ok(config)
            },
            Some(Arguments::Unreadable(reason)) => Err(reason.clone()),
            Some(_) => Err(String::from_str("invalid arguments")),
        }
    }

    /// Takes what the editor reported after it ran the debuggee in a
    /// terminal: the terminal is bound to the session and the adapter gets
    /// the process id. A failed handshake fails the request and binds
    /// nothing.
    pub fn bind_terminal(&mut self, handshake: Result<(TermId, Option<u32>), String>) -> (r: Result<
        Body,
        String,
    >)
        ensures
            match handshake {
                Ok((term_id, process_id)) => r == Ok::<Body, String>(
                    Body::RunInTerminal(
                        RunInTerminalResponse { process_id, shell_process_id: None },
                    ),
                ) && final(self)@ == (DapClientView { term_id: Some(term_id), ..old(self)@ }),
                Err(reason) => r == Err::<Body, String>(reason) && final(self)@ == old(self)@,
            },
    {
        match handshake {
            Ok((term_id, process_id)) => {
                self.term_id = Some(term_id);
                Ok(Body::RunInTerminal(RunInTerminalResponse { process_id, shell_process_id: None }))
            },
            Err(reason) => Err(reason),
        }
    }

    /// The response to a request of the adapter, given how it went.
    pub fn host_response(req: &DapRequest, result: Result<Body, String>) -> (response: DapResponse)
        ensures
            response.request_seq == req.seq,
            response.command == req.command,
            match result {
                Ok(body) => response.success && response.message.is_none() && response.body
                    == Some(body),
                Err(reason) => !response.success && response.message == Some(reason)
                    && response.body.is_none(),
            },
    {
        match result {
            Ok(body) => DapResponse {
                request_seq: req.seq,
                success: true,
                command: req.command.clone(),
                message: None,
                body: Some(body),
            },
            Err(reason) => DapResponse {
                request_seq: req.seq,
                success: false,
                command: req.command.clone(),
                message: Some(reason),
                body: None,
            },
        }
    }

    /// Decides about an event of the adapter.
    pub fn handle_host_event(&mut self, event: DapEvent) -> (outcome: EventOutcome)
        ensures
            old(self)@.event_outcome(event, outcome),
            final(self)@ == old(self)@.after_event(event),
    {
        match event {
            DapEvent::Initialized(_) => {
                let files = self.breakpoints.clone_entries();
                EventOutcome::Configure(files)
            },
            DapEvent::Stopped(stopped) => {
                let query_threads = match stopped.all_threads_stopped {
                    Some(all) => all,
                    None => false,
                };
                EventOutcome::Stopped { stopped, query_threads }
            },
            DapEvent::Continued => EventOutcome::Continued(self.config.dap_id),
            DapEvent::Terminated => {
                self.terminated = true;
                let close_terminal = self.term_id;
                let restart = self.check_restart();
                EventOutcome::Terminated { close_terminal, restart }
            },
            DapEvent::Breakpoint { reason, breakpoint } => EventOutcome::BreakpointChanged {
                reason,
                breakpoint,
            },
            _ => EventOutcome::Ignored,
        }
    }

    /// What the editor is told once `setBreakpoints` for `path` was
    /// answered: the breakpoints as the adapter reports them, none if it
    /// reported none. A failed request tells the editor nothing.
    pub fn breakpoints_resp(&self, path: String, answer: Result<Body, RpcError>) -> (notice: Option<
        BreakpointsNotice,
    >)
        ensures
            match answer {
                Ok(Body::Breakpoints(response)) => notice matches Some(n) && n.dap_id
                    == self@.config.dap_id && n.path == path && match response.breakpoints {
                    Some(breakpoints) => n.breakpoints == breakpoints,
                    None => n.breakpoints@ == Seq::<Breakpoint>::empty(),
                },
                _ => notice.is_none(),
            },
    {
        match answer {
            Ok(Body::Breakpoints(response)) => {
                let breakpoints = match response.breakpoints {
                    Some(breakpoints) => breakpoints,
                    None => Vec::new(),
                };
                Some(BreakpointsNotice { dap_id: self.config.dap_id, path, breakpoints })
            },
            _ => None,
        }
    }

    /// The threads whose stacks are to be asked for, given the answer to
    /// `threads`: all of them, in order; none if the request failed.
    pub fn stack_trace_targets(answer: Result<Body, RpcError>) -> (targets: Vec<ThreadId>)
        ensures
            targets@ == threads_to_trace(answer),
    {
        let mut targets: Vec<ThreadId> = Vec::new();
        match answer {
            Ok(Body::Threads(response)) => {
                let mut i: usize = 0;
                while i < response.threads.len()
                    invariant
                        i <= response.threads.len(),
                        targets@ == response.threads@.map_values(|t: Thread| t.id).subrange(
                            0,
                            i as int,
                        ),
                    decreases response.threads.len() - i,
                {
                    targets.push(response.threads[i].id);
                    i += 1;
                    assert(targets@ =~= response.threads@.map_values(
                        |t: Thread| t.id,
                    ).subrange(0, i as int));
                }
                assert(targets@ =~= threads_to_trace(answer));
            },
            _ => {},
        }
        targets
    }

    /// Gathers the stacks that came, by thread. A thread whose request
    /// failed has no entry; where a thread stands twice, its later stack
    /// counts.
    pub fn collect_stack_frames(traces: Vec<(ThreadId, Result<Body, RpcError>)>) -> (stacks: HashMap<
        i64,
        Vec<StackFrame>,
    >)
        ensures
            stacks@ == stacks_by_thread(traces@),
    {
        let ghost all = traces@;
        let mut traces = traces;
        let mut stacks: HashMap<i64, Vec<StackFrame>> = HashMap::new();
        while traces.len() > 0
            invariant
                forall|k: i64| #[trigger]
                    stacks_by_thread(all).contains_key(k) <==> stacks@.contains_key(k)
                        || stacks_by_thread(traces@).contains_key(k),
                forall|k: i64|
                    stacks@.contains_key(k) ==> #[trigger] stacks_by_thread(all)[k] == stacks@[k],
                forall|k: i64|
                    !stacks@.contains_key(k) && stacks_by_thread(traces@).contains_key(k)
                        ==> #[trigger] stacks_by_thread(all)[k] == stacks_by_thread(traces@)[k],
            decreases traces.len(),
        {
            let ghost before = traces@;
            let last = traces.pop();
            assert(traces@ =~= before.drop_last());
            match last {
                Some((thread, Ok(Body::StackTrace(response)))) => {
                    if !stacks.contains_key(&thread.0) {
                        stacks.insert(thread.0, response.stack_frames);
                    }
                },
                _ => {},
            }
        }
        assert(stacks@ =~= stacks_by_thread(all));
        stacks
    }

    /// The adapter to run.
    pub fn dap_server(&self) -> (server: &DapServer)
        ensures
            *server == self@.server,
    {
        &self.dap_server
    }

    /// What is debugged.
    pub fn config(&self) -> (config: &RunDebugConfig)
        ensures
            config@ == self@.config,
    {
        &self.config
    }

    /// The breakpoints, as they are sent whenever the adapter is
    /// initialized.
    pub fn breakpoints(&self) -> (table: &BreakpointTable)
        ensures
            table@ == self@.breakpoints,
    {
        &self.breakpoints
    }

    /// The terminal in which the debuggee runs, if the editor made one.
    pub fn term_id(&self) -> (term_id: Option<TermId>)
        ensures
            term_id == self@.term_id,
    {
        self.term_id
    }

    /// What the adapter said it can do, once it has said it.
    pub fn capabilities(&self) -> (capabilities: &Option<DebuggerCapabilities>)
        ensures
            *capabilities == self@.capabilities,
    {
        &self.capabilities
    }

    /// Whether the debuggee has ended.
    pub fn is_terminated(&self) -> (terminated: bool)
        ensures
            terminated == self@.terminated,
    {
        self.terminated
    }

    /// Whether the adapter is gone.
    pub fn is_disconnected(&self) -> (disconnected: bool)
        ensures
            disconnected == self@.disconnected,
    {
        self.disconnected
    }

    /// Whether a restart is wanted and has not begun.
    pub fn is_restarted(&self) -> (restarted: bool)
        ensures
            restarted == self@.restarted,
    {
        self.restarted
    }
}

/// To ask for a restart a second time while the debuggee still runs
/// changes only the breakpoints: the restart is wanted as before, and the
/// debuggee is asked to stop in the same way.
pub proof fn lemma_restart_twice(
    state: DapClientView,
    first: Seq<(Seq<char>, Seq<SourceBreakpoint>)>,
    second: Seq<(Seq<char>, Seq<SourceBreakpoint>)>,
)
    requires
        !state.terminated,
    ensures
        state.after_restart(first).after_restart(second) == state.after_restart(second),
        state.after_restart(first).restart_outcome(second) == state.restart_outcome(second),
        state.after_restart(second).restarted,
        state.after_restart(second).breakpoints == second,
{
}

/// A restart begins once: when a look at it has let it begin, it is no
/// longer wanted, and as long as none is wanted neither the end of the
/// debuggee nor the loss of the adapter lets one begin.
pub proof fn lemma_restart_begins_once(state: DapClientView)
    ensures
        state.restart_step() == RestartStep::Launch || state.restart_step()
            == RestartStep::Respawn ==> !state.after_restart_check().restarted,
        !state.restarted ==> (DapClientView { terminated: true, ..state }).restart_step()
            == RestartStep::Idle && !state.after_terminated().restarted && (DapClientView {
            disconnected: true,
            ..state
        }).restart_step() == RestartStep::Idle && !state.after_disconnected().restarted,
{
}

/// Two requests to restart a running debuggee lead to one launch. Where
/// the adapter takes `terminate`, the launch follows the end of the
/// debuggee, and the loss of the adapter after that starts nothing. Where
/// it does not, the end of the debuggee starts nothing, the loss of the
/// adapter has it started again, and a second look starts nothing.
pub proof fn lemma_two_restarts_one_launch(
    state: DapClientView,
    first: Seq<(Seq<char>, Seq<SourceBreakpoint>)>,
    second: Seq<(Seq<char>, Seq<SourceBreakpoint>)>,
)
    requires
        !state.terminated,
        !state.disconnected,
    ensures
        ({
            let wanted = state.after_restart(first).after_restart(second);
            let ended = wanted.after_terminated();
            if state.terminate_supported() {
                &&& (DapClientView { terminated: true, ..wanted }).restart_step()
                    == RestartStep::Launch
                &&& (DapClientView { disconnected: true, ..ended }).restart_step()
                    == RestartStep::Idle
                &&& (DapClientView { terminated: true, ..ended }).restart_step()
                    == RestartStep::Idle
            } else {
                &&& (DapClientView { terminated: true, ..wanted }).restart_step()
                    == RestartStep::Waiting
                &&& (DapClientView { disconnected: true, ..ended }).restart_step()
                    == RestartStep::Respawn
                &&& ended.after_disconnected().restart_step() == RestartStep::Idle
            }
        }),
{
}

} // verus!
