//! The protocol runtime: sequence numbers, the table of requests that
//! await their response, the sorting of what the adapter sends, and the
//! step that the session's main loop takes for each control message.

use crate::breakpoints::BreakpointTable;
use crate::client::{
    host_request_outcome, DapClient, DapClientView, EventOutcome, RestartOutcome, RestartStep,
    StopRequest,
};
use crate::types::{
    opt_text, opt_texts, Arguments, Body, ContinueArguments, DapEvent, DapId, DapPayload,
    DapRequest, DapResponse, InitializeParams, LaunchArguments, PauseArguments, RpcError,
    RunDebugConfig, SetBreakpointsArguments, Source, SourceBreakpoint, StackTraceArguments,
    TermId, ThreadId, clone_opt_strings,
};
use std::collections::HashMap;
use vstd::prelude::*;
use vstd::string::StringExecFns;

verus! {

broadcast use vstd::std_specs::hash::group_hash_axioms;

/// Who gets the response to a request: a waiter at the other end of a
/// rendezvous, or a callback.
#[derive(Debug, PartialEq, Eq)]
pub enum ResponseHandler<C, F> {
    Chan(C),
    Callback(F),
}

/// A control message for the session's main loop.
#[derive(Debug, PartialEq, Eq)]
pub enum DapRpc {
    /// The adapter asks the client for something.
    HostRequest(DapRequest),
    /// The adapter reports an event.
    HostEvent(DapEvent),
    /// The user wants the debuggee stopped.
    Stop,
    /// The user wants the debuggee restarted, with these breakpoints.
    Restart(BreakpointTable),
    /// The session ends.
    Shutdown,
    /// The adapter is gone.
    Disconnected,
}

/// A command of the protocol, with its arguments.
#[derive(Debug, PartialEq, Eq)]
pub enum Command {
    Initialize(InitializeParams),
    Launch(LaunchArguments),
    SetBreakpoints(SetBreakpointsArguments),
    ConfigurationDone,
    Continue(ContinueArguments),
    Pause(PauseArguments),
    Threads,
    StackTrace(StackTraceArguments),
    Disconnect,
    Terminate,
}

impl Command {
    /// The command's name on the wire.
    pub open spec fn spec_name(self) -> Seq<char> {
        match self {
            Command::Initialize(_) => "initialize"@,
            Command::Launch(_) => "launch"@,
            Command::SetBreakpoints(_) => "setBreakpoints"@,
            Command::ConfigurationDone => "configurationDone"@,
            Command::Continue(_) => "continue"@,
            Command::Pause(_) => "pause"@,
            Command::Threads => "threads"@,
            Command::StackTrace(_) => "stackTrace"@,
            Command::Disconnect => "disconnect"@,
            Command::Terminate => "terminate"@,
        }
    }

    /// The command's arguments as a request carries them.
    pub open spec fn spec_arguments(self) -> Arguments {
        match self {
            Command::Initialize(arguments) => Arguments::Initialize(arguments),
            Command::Launch(arguments) => Arguments::Launch(arguments),
            Command::SetBreakpoints(arguments) => Arguments::SetBreakpoints(arguments),
            Command::Continue(arguments) => Arguments::Continue(arguments),
            Command::Pause(arguments) => Arguments::Pause(arguments),
            Command::StackTrace(arguments) => Arguments::StackTrace(arguments),
            Command::ConfigurationDone
            | Command::Threads
            | Command::Disconnect
            | Command::Terminate => Arguments::Unit,
        }
    }

    /// The command's name on the wire.
    pub fn name(&self) -> (name: &'static str)
        ensures
            name@ == self.spec_name(),
    {
        match self {
            Command::Initialize(_) => "initialize",
            Command::Launch(_) => "launch",
            Command::SetBreakpoints(_) => "setBreakpoints",
            Command::ConfigurationDone => "configurationDone",
            Command::Continue(_) => "continue",
            Command::Pause(_) => "pause",
            Command::Threads => "threads",
            Command::StackTrace(_) => "stackTrace",
            Command::Disconnect => "disconnect",
            Command::Terminate => "terminate",
        }
    }

    /// The command's arguments as a request carries them.
    pub fn into_arguments(self) -> (arguments: Arguments)
        ensures
            arguments == self.spec_arguments(),
    {
        match self {
            Command::Initialize(arguments) => Arguments::Initialize(arguments),
            Command::Launch(arguments) => Arguments::Launch(arguments),
            Command::SetBreakpoints(arguments) => Arguments::SetBreakpoints(arguments),
            Command::Continue(arguments) => Arguments::Continue(arguments),
            Command::Pause(arguments) => Arguments::Pause(arguments),
            Command::StackTrace(arguments) => Arguments::StackTrace(arguments),
            Command::ConfigurationDone => Arguments::Unit,
            Command::Threads => Arguments::Unit,
            Command::Disconnect => Arguments::Unit,
            Command::Terminate => Arguments::Unit,
        }
    }
}

/// What became of a message of the adapter.
#[derive(Debug, PartialEq, Eq)]
pub enum ServerMessage<C, F> {
    /// It is dropped: it could not be read, or it answers no request that
    /// awaits a response.
    Dropped,
    /// It goes to the session's main loop.
    Forward(DapRpc),
    /// It answers a request: the handler is to be invoked with it.
    Respond { handler: ResponseHandler<C, F>, response: DapResponse },
}

/// What the main loop is to do for one control message.
#[derive(Debug, PartialEq, Eq)]
pub enum Step {
    /// Send this response to the adapter.
    Respond(DapResponse),
    /// Have the editor run `config` in a terminal, wait for its handshake,
    /// hand that to `bind_terminal`, and answer `request` as
    /// `host_response` says.
    RunInTerminal { request: DapRequest, config: RunDebugConfig },
    /// Do about an event what the outcome says.
    Event(EventOutcome),
    /// Send this request on a worker of its own.
    Stop(StopRequest),
    /// Go on with the restart.
    Restart(RestartOutcome),
    /// Close the terminal, if there is one, and leave the loop.
    Shutdown { close_terminal: Option<TermId> },
    /// Close the terminal, if there is one, and go on with the restart as
    /// `restart` says.
    Disconnected { close_terminal: Option<TermId>, restart: RestartStep },
}

/// What the reader leaves behind when the adapter's output ends.
#[derive(Debug, PartialEq, Eq)]
pub struct ReaderExit {
    /// Put on the outbound queue, so that nothing keeps waiting for the
    /// adapter to be initialized.
    pub inject: DapPayload,
    /// For the log, as an error.
    pub log: String,
    /// For the session's main loop.
    pub signal: DapRpc,
}

/// How many seconds the caller of a request waits for the response.
pub const RESPONSE_TIMEOUT_SECS: u64 = 30;

/// The sequence number after `seq`.
pub open spec fn next_seq(seq: u64) -> u64 {
    if seq == u64::MAX {
        0
    } else {
        (seq + 1) as u64
    }
}

/// The state of the protocol runtime.
pub struct DapRpcHandlerView<C, F> {
    pub dap_id: DapId,
    /// The sequence number of the next request.
    pub seq_counter: u64,
    /// The requests that await their response, by sequence number.
    pub pending: Map<u64, ResponseHandler<C, F>>,
}

impl<C, F> DapRpcHandlerView<C, F> {
    /// The state after a request was issued with `handler`.
    pub open spec fn issued(self, handler: ResponseHandler<C, F>) -> Self {
        DapRpcHandlerView {
            dap_id: self.dap_id,
            seq_counter: next_seq(self.seq_counter),
            pending: self.pending.insert(self.seq_counter, handler),
        }
    }

    /// The state after the response to request `seq` came.
    pub open spec fn completed(self, seq: u64) -> Self {
        DapRpcHandlerView {
            dap_id: self.dap_id,
            seq_counter: self.seq_counter,
            pending: self.pending.remove(seq),
        }
    }

    /// Every request that awaits its response was issued: its number is
    /// below the next one.
    pub open spec fn all_issued(self) -> bool {
        forall|seq: u64| #[trigger] self.pending.contains_key(seq) ==> seq < self.seq_counter
    }

    /// The state after as many requests were issued as `handlers` has
    /// entries, one with each.
    pub open spec fn issued_all(self, handlers: Seq<ResponseHandler<C, F>>) -> Self
        decreases handlers.len(),
    {
        if handlers.len() == 0 {
            self
        } else {
            self.issued_all(handlers.drop_last()).issued(handlers.last())
        }
    }

    /// What becomes of a message of the adapter.
    pub open spec fn server_message(self, payload: Option<DapPayload>) -> ServerMessage<C, F> {
        match payload {
            None => ServerMessage::Dropped,
            Some(DapPayload::Request(request)) => ServerMessage::Forward(
                DapRpc::HostRequest(request),
            ),
            Some(DapPayload::Event(event)) => ServerMessage::Forward(DapRpc::HostEvent(event)),
            Some(DapPayload::Response(response)) => if self.pending.contains_key(
                response.request_seq,
            ) {
                ServerMessage::Respond { handler: self.pending[response.request_seq], response }
            } else {
                ServerMessage::Dropped
            },
        }
    }

    /// The state after a message of the adapter.
    pub open spec fn after_server_message(self, payload: Option<DapPayload>) -> Self {
        match payload {
            Some(DapPayload::Response(response)) => self.completed(response.request_seq),
            _ => self,
        }
    }
}

/// What a response means to the caller of the request: the body of one
/// that reports success, the message of one that reports failure.
pub open spec fn response_outcome(response: DapResponse) -> Result<Body, Seq<char>> {
    if response.success {
        match response.body {
            None => Ok(Body::Unit),
            Some(Body::Unreadable(reason)) => Err(reason@),
            Some(body) => Ok(body),
        }
    } else {
        match response.message {
            Some(message) => Err(message@),
            None => Err(Seq::empty()),
        }
    }
}

/// What the caller of a request gets, given what it received while it
/// waited: nothing in time, or a response.
pub open spec fn request_outcome(received: Option<DapResponse>) -> Result<Body, Seq<char>> {
    match received {
        None => Err("io error"@),
        Some(response) => response_outcome(response),
    }
}

/// A result, with the text of its error.
pub open spec fn body_or_reason(r: Result<Body, RpcError>) -> Result<Body, Seq<char>> {
    match r {
        Ok(body) => Ok(body),
        Err(e) => Err(e.message@),
    }
}

/// What the caller of a request gets for `response`.
pub fn response_result(response: DapResponse) -> (r: Result<Body, RpcError>)
    ensures
        body_or_reason(r) == response_outcome(response),
        r matches Err(e) ==> e.code == 0,
{
    if response.success {
        match response.body {
            None => Ok(Body::Unit),
            Some(Body::Unreadable(reason)) => Err(RpcError { code: 0, message: reason }),
            Some(body) => Ok(body),
        }
    } else {
        match response.message {
            Some(message) => Err(RpcError { code: 0, message }),
            None => Err(RpcError { code: 0, message: String::new() }),
        }
    }
}

/// What the caller of a request gets, given what it received while it
/// waited: `None` if nothing came in time.
pub fn request_result(received: Option<DapResponse>) -> (r: Result<Body, RpcError>)
    ensures
        body_or_reason(r) == request_outcome(received),
        r matches Err(e) ==> e.code == 0,
{
    match received {
        None => Err(RpcError { code: 0, message: String::from_str("io error") }),
        Some(response) => response_result(response),
    }
}

/// What the main loop does for `msg` in state `before`.
pub open spec fn step_for(before: DapClientView, msg: DapRpc, step: Step) -> bool {
    match msg {
        DapRpc::HostRequest(req) => match host_request_outcome(before.config, req) {
            Ok(config_view) => step matches Step::RunInTerminal { request, config } && request
                == req && config@ == config_view,
            Err(reason) => step matches Step::Respond(response) && response.request_seq
                == req.seq && !response.success && response.command == req.command && opt_text(
                response.message,
            ) == Some(reason) && response.body.is_none(),
        },
        DapRpc::HostEvent(event) => step matches Step::Event(outcome) && before.event_outcome(
            event,
            outcome,
        ),
        DapRpc::Stop => step == Step::Stop(before.stop_request()),
        DapRpc::Restart(breakpoints) => step == Step::Restart(
            before.restart_outcome(breakpoints@),
        ),
        DapRpc::Shutdown => step == (Step::Shutdown { close_terminal: before.term_id }),
        DapRpc::Disconnected => step == (Step::Disconnected {
            close_terminal: before.term_id,
            restart: (DapClientView { disconnected: true, ..before }).restart_step(),
        }),
    }
}

/// The state of the session after the main loop's step for `msg`.
pub open spec fn state_after(before: DapClientView, msg: DapRpc) -> DapClientView {
    match msg {
        DapRpc::HostEvent(event) => before.after_event(event),
        DapRpc::Restart(breakpoints) => before.after_restart(breakpoints@),
        DapRpc::Disconnected => before.after_disconnected(),
        _ => before,
    }
}

/// The log line for an adapter that went away.
pub open spec fn stopped_line(program: Seq<char>) -> Seq<char> {
    "dap server "@ + program + " stopped!"@
}

/// The protocol runtime of one session.
pub struct DapRpcHandler<C, F> {
    pub dap_id: DapId,
    seq_counter: u64,
    server_pending: HashMap<u64, ResponseHandler<C, F>>,
}

impl<C, F> View for DapRpcHandler<C, F> {
    type V = DapRpcHandlerView<C, F>;

    closed spec fn view(&self) -> DapRpcHandlerView<C, F> {
        DapRpcHandlerView {
            dap_id: self.dap_id,
            seq_counter: self.seq_counter,
            pending: self.server_pending@,
        }
    }
}

impl<C, F> DapRpcHandler<C, F> {
    /// A runtime that has issued nothing.
    pub fn new(dap_id: DapId) -> (handler: Self)
        ensures
            handler@ == (DapRpcHandlerView::<C, F> {
                dap_id,
                seq_counter: 0,
                pending: Map::empty(),
            }),
    {
        DapRpcHandler { dap_id, seq_counter: 0, server_pending: HashMap::new() }
    }

    /// The sequence number of the next request.
    pub fn seq_counter(&self) -> (seq: u64)
        ensures
            seq == self@.seq_counter,
    {
        self.seq_counter
    }

    /// The number of requests that await their response.
    pub fn pending_len(&self) -> (n: usize)
        ensures
            n == self@.pending.len(),
    {
        self.server_pending.len()
    }

    /// Whether request `seq` awaits its response.
    pub fn is_pending(&self, seq: u64) -> (pending: bool)
        ensures
            pending == self@.pending.contains_key(seq),
    {
        self.server_pending.contains_key(&seq)
    }

    /// Issues a request: it takes the next sequence number, its handler is
    /// kept under that number, and the request is returned to be sent.
    pub fn request_common(
        &mut self,
        command: &str,
        arguments: Arguments,
        rh: ResponseHandler<C, F>,
    ) -> (request: DapRequest)
        ensures
            request.seq == old(self)@.seq_counter,
            request.command@ == command@,
            request.arguments == Some(arguments),
            final(self)@ == old(self)@.issued(rh),
    {
        let seq = self.seq_counter;
        self.seq_counter = if seq == u64::MAX {
            0
        } else {
            seq + 1
        };
        self.server_pending.insert(seq, rh);
        DapRequest { seq, command: String::from_str(command), arguments: Some(arguments) }
    }

    /// Issues a request whose caller waits at the other end of `tx`.
    pub fn request(&mut self, command: Command, tx: C) -> (request: DapRequest)
        ensures
            request.seq == old(self)@.seq_counter,
            request.command@ == command.spec_name(),
            request.arguments == Some(command.spec_arguments()),
            final(self)@ == old(self)@.issued(ResponseHandler::Chan(tx)),
    {
        let name = command.name();
        self.request_common(name, command.into_arguments(), ResponseHandler::Chan(tx))
    }

    /// Issues a request whose response goes to the callback `f`.
    pub fn request_async(&mut self, command: Command, f: F) -> (request: DapRequest)
        ensures
            request.seq == old(self)@.seq_counter,
            request.command@ == command.spec_name(),
            request.arguments == Some(command.spec_arguments()),
            final(self)@ == old(self)@.issued(ResponseHandler::Callback(f)),
    {
        let name = command.name();
        self.request_common(name, command.into_arguments(), ResponseHandler::Callback(f))
    }

    /// Takes the handler of the request that `resp` answers out of the
    /// table, if that request awaits a response.
    pub fn handle_server_response(&mut self, resp: &DapResponse) -> (handler: Option<
        ResponseHandler<C, F>,
    >)
        ensures
            handler == if old(self)@.pending.contains_key(resp.request_seq) {
                Some(old(self)@.pending[resp.request_seq])
            } else {
                None
            },
            final(self)@ == old(self)@.completed(resp.request_seq),
    {
        self.server_pending.remove(&resp.request_seq)
    }

    /// Sorts a message of the adapter, given what it was read as (`None`
    /// if it could not be read). Requests and events go to the main loop. A
    /// response goes to the handler of the request it answers, which
    /// leaves the table; a response to anything else is dropped, and so is
    /// what could not be read.
    pub fn handle_server_message(&mut self, payload: Option<DapPayload>) -> (message:
        ServerMessage<C, F>)
        ensures
            message == old(self)@.server_message(payload),
            final(self)@ == old(self)@.after_server_message(payload),
    {
        match payload {
            None => ServerMessage::Dropped,
            Some(DapPayload::Request(request)) => ServerMessage::Forward(
                DapRpc::HostRequest(request),
            ),
            Some(DapPayload::Event(event)) => ServerMessage::Forward(DapRpc::HostEvent(event)),
            Some(DapPayload::Response(response)) => {
                let handler = self.handle_server_response(&response);
                proof {
                    if !old(self)@.pending.contains_key(response.request_seq) {
                        assert(self@.pending =~= old(self)@.pending);
                    }
                }
                match handler {
                    Some(handler) => ServerMessage::Respond { handler, response },
                    None => ServerMessage::Dropped,
                }
            },
        }
    }

    /// What the reader leaves behind when the output of the adapter
    /// `program` ends: an `initialized` event without capabilities for the
    /// outbound queue, a line for the log, and the notice for the main loop.
    pub fn reader_stopped(program: &str) -> (exit: ReaderExit)
        ensures
            exit.inject == DapPayload::Event(DapEvent::Initialized(None)),
            exit.log@ == stopped_line(program@),
            exit.signal == DapRpc::Disconnected,
    {
        let log = String::from_str("dap server ").concat(program).concat(" stopped!");
        ReaderExit {
            inject: DapPayload::Event(DapEvent::Initialized(None)),
            log,
            signal: DapRpc::Disconnected,
        }
    }

    /// One turn of the session's main loop: what is to be done for `msg`,
    /// with the session brought up to date.
    pub fn mainloop(&self, dap_client: &mut DapClient, msg: DapRpc) -> (step: Step)
        ensures
            step_for(old(dap_client)@, msg, step),
            final(dap_client)@ == state_after(old(dap_client)@, msg),
    {
        match msg {
            DapRpc::HostRequest(req) => {
                match dap_client.handle_host_request(&req) {
                    Ok(config) => Step::RunInTerminal { request: req, config },
                    Err(reason) => Step::Respond(DapClient::host_response(&req, Err(reason))),
                }
            },
            DapRpc::HostEvent(event) => Step::Event(dap_client.handle_host_event(event)),
            DapRpc::Stop => Step::Stop(dap_client.stop()),
            DapRpc::Restart(breakpoints) => Step::Restart(dap_client.restart(breakpoints)),
            DapRpc::Shutdown => Step::Shutdown { close_terminal: dap_client.term_id() },
            DapRpc::Disconnected => {
                let close_terminal = dap_client.term_id();
                let restart = dap_client.disconnected();
                Step::Disconnected { close_terminal, restart }
            },
        }
    }

    /// Issues `launch` for `config`, to run in a terminal.
    pub fn launch(&mut self, config: &RunDebugConfig, tx: C) -> (request: DapRequest)
        ensures
            request.seq == old(self)@.seq_counter,
            request.command@ == "launch"@,
            request.arguments matches Some(Arguments::Launch(arguments)) && arguments.program@
                == config@.program && opt_texts(arguments.args) == config@.args && opt_text(
                arguments.cwd,
            ) == config@.cwd && arguments.run_in_terminal,
            final(self)@ == old(self)@.issued(ResponseHandler::Chan(tx)),
    {
        let arguments = LaunchArguments {
            program: config.program.clone(),
            args: clone_opt_strings(&config.args),
            cwd: config.cwd.clone(),
            run_in_terminal: true,
        };
        self.request(Command::Launch(arguments), tx)
    }

    /// The control message that asks the main loop to stop the debuggee.
    pub fn stop(&self) -> (msg: DapRpc)
        ensures
            msg == DapRpc::Stop,
    {
        DapRpc::Stop
    }

    /// The control message that asks the main loop to restart the
    /// debuggee with `breakpoints`.
    pub fn restart(&self, breakpoints: BreakpointTable) -> (msg: DapRpc)
        ensures
            msg == DapRpc::Restart(breakpoints),
    {
        DapRpc::Restart(breakpoints)
    }

    /// The control message that tells the main loop that the adapter is
    /// gone.
    pub fn disconnected(&self) -> (msg: DapRpc)
        ensures
            msg == DapRpc::Disconnected,
    {
        DapRpc::Disconnected
    }

    /// Issues `disconnect`.
    pub fn disconnect(&mut self, tx: C) -> (request: DapRequest)
        ensures
            request.seq == old(self)@.seq_counter,
            request.command@ == "disconnect"@,
            request.arguments == Some(Arguments::Unit),
            final(self)@ == old(self)@.issued(ResponseHandler::Chan(tx)),
    {
        self.request(Command::Disconnect, tx)
    }

    /// Issues `terminate`.
    pub fn terminate(&mut self, tx: C) -> (request: DapRequest)
        ensures
            request.seq == old(self)@.seq_counter,
            request.command@ == "terminate"@,
            request.arguments == Some(Arguments::Unit),
            final(self)@ == old(self)@.issued(ResponseHandler::Chan(tx)),
    {
        self.request(Command::Terminate, tx)
    }

    /// Issues `configurationDone`.
    pub fn configuration_done(&mut self, tx: C) -> (request: DapRequest)
        ensures
            request.seq == old(self)@.seq_counter,
            request.command@ == "configurationDone"@,
            request.arguments == Some(Arguments::Unit),
            final(self)@ == old(self)@.issued(ResponseHandler::Chan(tx)),
    {
        self.request(Command::ConfigurationDone, tx)
    }

    /// Issues `initialize` with `params`.
    pub fn initialize(&mut self, params: InitializeParams, tx: C) -> (request: DapRequest)
        ensures
            request.seq == old(self)@.seq_counter,
            request.command@ == "initialize"@,
            request.arguments == Some(Arguments::Initialize(params)),
            final(self)@ == old(self)@.issued(ResponseHandler::Chan(tx)),
    {
        self.request(Command::Initialize(params), tx)
    }

    /// Issues `setBreakpoints` for the source file `file`; the response
    /// goes to the callback `f`.
    pub fn set_breakpoints_async(&mut self, file: String, breakpoints: Vec<SourceBreakpoint>, f: F) -> (request:
        DapRequest)
        ensures
            request.seq == old(self)@.seq_counter,
            request.command@ == "setBreakpoints"@,
            request.arguments == Some(
                Arguments::SetBreakpoints(set_breakpoints_arguments(file, breakpoints)),
            ),
            final(self)@ == old(self)@.issued(ResponseHandler::Callback(f)),
    {
        let arguments = Self::breakpoints_arguments(file, breakpoints);
        self.request_async(Command::SetBreakpoints(arguments), f)
    }

    /// Issues `setBreakpoints` for the source file `file`.
    pub fn set_breakpoints(&mut self, file: String, breakpoints: Vec<SourceBreakpoint>, tx: C) -> (request:
        DapRequest)
        ensures
            request.seq == old(self)@.seq_counter,
            request.command@ == "setBreakpoints"@,
            request.arguments == Some(
                Arguments::SetBreakpoints(set_breakpoints_arguments(file, breakpoints)),
            ),
            final(self)@ == old(self)@.issued(ResponseHandler::Chan(tx)),
    {
        let arguments = Self::breakpoints_arguments(file, breakpoints);
        self.request(Command::SetBreakpoints(arguments), tx)
    }

    fn breakpoints_arguments(file: String, breakpoints: Vec<SourceBreakpoint>) -> (arguments:
        SetBreakpointsArguments)
        ensures
            arguments == set_breakpoints_arguments(file, breakpoints),
    {
        SetBreakpointsArguments {
            source: Source {
                path: Some(file),
                name: None,
                source_reference: None,
                presentation_hint: None,
                origin: None,
            },
            breakpoints: Some(breakpoints),
            source_modified: Some(false),
        }
    }

    /// Issues `continue` for a thread.
    pub fn continue_thread(&mut self, thread_id: ThreadId, tx: C) -> (request: DapRequest)
        ensures
            request.seq == old(self)@.seq_counter,
            request.command@ == "continue"@,
            request.arguments == Some(Arguments::Continue(ContinueArguments { thread_id })),
            final(self)@ == old(self)@.issued(ResponseHandler::Chan(tx)),
    {
        self.request(Command::Continue(ContinueArguments { thread_id }), tx)
    }

    /// Issues `pause` for a thread.
    pub fn pause_thread(&mut self, thread_id: ThreadId, tx: C) -> (request: DapRequest)
        ensures
            request.seq == old(self)@.seq_counter,
            request.command@ == "pause"@,
            request.arguments == Some(Arguments::Pause(PauseArguments { thread_id })),
            final(self)@ == old(self)@.issued(ResponseHandler::Chan(tx)),
    {
        self.request(Command::Pause(PauseArguments { thread_id }), tx)
    }

    /// Issues `threads`.
    pub fn threads(&mut self, tx: C) -> (request: DapRequest)
        ensures
            request.seq == old(self)@.seq_counter,
            request.command@ == "threads"@,
            request.arguments == Some(Arguments::Unit),
            final(self)@ == old(self)@.issued(ResponseHandler::Chan(tx)),
    {
        self.request(Command::Threads, tx)
    }

    /// Issues `stackTrace` for a thread: all of its frames.
    pub fn stack_trace(&mut self, thread_id: ThreadId, tx: C) -> (request: DapRequest)
        ensures
            request.seq == old(self)@.seq_counter,
            request.command@ == "stackTrace"@,
            request.arguments == Some(
                Arguments::StackTrace(
                    StackTraceArguments { thread_id, start_frame: None, levels: None },
                ),
            ),
            final(self)@ == old(self)@.issued(ResponseHandler::Chan(tx)),
    {
        self.request(
            Command::StackTrace(StackTraceArguments { thread_id, start_frame: None, levels: None }),
            tx,
        )
    }
}

/// The arguments of `setBreakpoints` for a source file that was not
/// modified.
pub open spec fn set_breakpoints_arguments(
    file: String,
    breakpoints: Vec<SourceBreakpoint>,
) -> SetBreakpointsArguments {
    SetBreakpointsArguments {
        source: Source {
            path: Some(file),
            name: None,
            source_reference: None,
            presentation_hint: None,
            origin: None,
        },
        breakpoints: Some(breakpoints),
        source_modified: Some(false),
    }
}

/// Something that changes the runtime's table or counter.
pub enum Transition<C, F> {
    /// A request is issued with this handler.
    Issue(ResponseHandler<C, F>),
    /// The response to the request with this number comes.
    Complete(u64),
}

impl<C, F> DapRpcHandlerView<C, F> {
    /// The state after one transition.
    pub open spec fn after(self, transition: Transition<C, F>) -> Self {
        match transition {
            Transition::Issue(handler) => self.issued(handler),
            Transition::Complete(seq) => self.completed(seq),
        }
    }

    /// The state after the transitions, in their order.
    pub open spec fn after_all(self, transitions: Seq<Transition<C, F>>) -> Self
        decreases transitions.len(),
    {
        if transitions.len() == 0 {
            self
        } else {
            self.after_all(transitions.drop_last()).after(transitions.last())
        }
    }
}

/// The number of requests that are issued among the transitions.
pub open spec fn issues<C, F>(transitions: Seq<Transition<C, F>>) -> nat
    decreases transitions.len(),
{
    if transitions.len() == 0 {
        0
    } else {
        issues(transitions.drop_last()) + if transitions.last() is Issue {
            1nat
        } else {
            0nat
        }
    }
}

/// The counter counts the requests: as long as it does not pass the
/// largest number, it has risen by one for each request issued, and every
/// request that awaits its response has a number below it.
pub proof fn lemma_counter_counts<C, F>(
    state: DapRpcHandlerView<C, F>,
    transitions: Seq<Transition<C, F>>,
)
    requires
        state.seq_counter + issues(transitions) <= u64::MAX,
    ensures
        state.after_all(transitions).seq_counter == state.seq_counter + issues(transitions),
        state.all_issued() ==> state.after_all(transitions).all_issued(),
    decreases transitions.len(),
{
    if transitions.len() > 0 {
        lemma_counter_counts(state, transitions.drop_last());
    }
}

/// Sequence numbers rise: of two requests, the later has the larger
/// number, whatever happened between them, as long as the counter does not
/// pass the largest number.
pub proof fn lemma_seq_increases<C, F>(
    state: DapRpcHandlerView<C, F>,
    first: ResponseHandler<C, F>,
    between: Seq<Transition<C, F>>,
)
    requires
        state.seq_counter + 1 + issues(between) <= u64::MAX,
    ensures
        state.seq_counter < state.issued(first).after_all(between).seq_counter,
{
    lemma_counter_counts(state.issued(first), between);
}

/// Requests issued one after the other each get an entry of their own in
/// the table: the numbers from the counter on, which the table did not
/// hold, each with its handler; nothing else changes.
pub proof fn lemma_each_request_pends<C, F>(
    state: DapRpcHandlerView<C, F>,
    handlers: Seq<ResponseHandler<C, F>>,
)
    requires
        state.all_issued(),
        state.seq_counter + handlers.len() <= u64::MAX,
    ensures
        state.issued_all(handlers).seq_counter == state.seq_counter + handlers.len(),
        forall|seq: u64|
            state.seq_counter <= seq < state.seq_counter + handlers.len()
                ==> !state.pending.contains_key(seq) && #[trigger] state.issued_all(
                handlers,
            ).pending.contains_key(seq) && state.issued_all(handlers).pending[seq]
                == handlers[seq - state.seq_counter],
        forall|seq: u64|
            !(state.seq_counter <= seq < state.seq_counter + handlers.len()) ==> (
            #[trigger] state.issued_all(handlers).pending.contains_key(seq)
                <==> state.pending.contains_key(seq)) && (state.pending.contains_key(seq)
                ==> state.issued_all(handlers).pending[seq] == state.pending[seq]),
        state.pending.dom().finite() ==> state.issued_all(handlers).pending.dom().finite()
            && state.issued_all(handlers).pending.dom().len() == state.pending.dom().len()
            + handlers.len(),
    decreases handlers.len(),
{
    if handlers.len() > 0 {
        let earlier = handlers.drop_last();
        lemma_each_request_pends(state, earlier);
        let before = state.issued_all(earlier);
        assert(!before.pending.contains_key(before.seq_counter));
        assert(before.issued(handlers.last()).pending.dom() =~= before.pending.dom().insert(
            before.seq_counter,
        ));
    }
}

/// A response takes its request out of the table once: after it, the
/// request no longer awaits a response, the other requests are as they
/// were, and a second response to it changes nothing.
pub proof fn lemma_completed_once<C, F>(state: DapRpcHandlerView<C, F>, seq: u64)
    ensures
        !state.completed(seq).pending.contains_key(seq),
        forall|other: u64|
            other != seq ==> (#[trigger] state.completed(seq).pending.contains_key(other)
                <==> state.pending.contains_key(other)),
        state.completed(seq).completed(seq) == state.completed(seq),
        state.pending.contains_key(seq) && state.pending.dom().finite() ==> state.completed(
            seq,
        ).pending.dom().len() == state.pending.dom().len() - 1,
{
    assert(state.completed(seq).completed(seq).pending =~= state.completed(seq).pending);
}

/// A response to a request that does not await one is dropped, and
/// nothing changes.
pub proof fn lemma_unknown_response<C, F>(state: DapRpcHandlerView<C, F>, response: DapResponse)
    requires
        !state.pending.contains_key(response.request_seq),
    ensures
        state.server_message(Some(DapPayload::Response(response))) == ServerMessage::<
            C,
            F,
        >::Dropped,
        state.after_server_message(Some(DapPayload::Response(response))) == state,
{
    assert(state.pending.remove(response.request_seq) =~= state.pending);
}

/// The response to a request goes to the handler that the request was
/// issued with, and the caller gets the body of a response that reports
/// success: whatever happened in between, as long as no other response
/// took the request's number and the counter did not pass the largest
/// number.
pub proof fn lemma_response_reaches_handler<C, F>(
    state: DapRpcHandlerView<C, F>,
    handler: ResponseHandler<C, F>,
    between: Seq<Transition<C, F>>,
    response: DapResponse,
)
    requires
        response.request_seq == state.seq_counter,
        state.seq_counter + 1 + issues(between) <= u64::MAX,
        forall|i: int|
            0 <= i < between.len() ==> #[trigger] between[i] != Transition::<C, F>::Complete(
                state.seq_counter,
            ),
    ensures
        state.issued(handler).after_all(between).server_message(
            Some(DapPayload::Response(response)),
        ) == (ServerMessage::Respond { handler, response }),
        response.success && response.body is Some && !(response.body->0 is Unreadable)
            ==> response_outcome(response) == Ok::<Body, Seq<char>>(response.body->0),
    decreases between.len(),
{
    let issued = state.issued(handler);
    lemma_still_pending(issued, state.seq_counter, between);
}

/// A request keeps its place in the table as long as no response to it
/// comes and the counter does not pass the largest number.
proof fn lemma_still_pending<C, F>(
    state: DapRpcHandlerView<C, F>,
    seq: u64,
    between: Seq<Transition<C, F>>,
)
    requires
        state.pending.contains_key(seq),
        seq < state.seq_counter,
        state.seq_counter + issues(between) <= u64::MAX,
        forall|i: int|
            0 <= i < between.len() ==> #[trigger] between[i] != Transition::<C, F>::Complete(seq),
    ensures
        state.after_all(between).pending.contains_key(seq),
        state.after_all(between).pending[seq] == state.pending[seq],
    decreases between.len(),
{
    if between.len() > 0 {
        let earlier = between.drop_last();
        assert forall|i: int| 0 <= i < earlier.len() implies #[trigger] earlier[i]
            != Transition::<C, F>::Complete(seq) by {
            assert(earlier[i] == between[i]);
        }
        lemma_still_pending(state, seq, earlier);
        lemma_counter_counts(state, earlier);
        assert(between.last() == between[between.len() - 1]);
    }
}

} // verus!
