use dap_client::breakpoints::{BreakpointTable, FileBreakpoints};
use dap_client::client::{
    BreakpointsNotice, DapClient, EventOutcome, RestartOutcome, RestartStep, StopRequest,
};
use dap_client::rpc::{request_result, DapRpc, DapRpcHandler, Step};
use dap_client::types::{
    Arguments, Body, Breakpoint, DapEvent, DapId, DapPayload, DapRequest, DapResponse, DapServer,
    DebuggerCapabilities, InitializeParams, RpcError, RunDebugConfig, RunInTerminalArguments,
    RunInTerminalResponse, SetBreakpointsArguments, SetBreakpointsResponse, Source,
    SourceBreakpoint, StackFrame, StackTraceResponse, Stopped, TermId, Thread, ThreadId,
    ThreadsResponse,
};
use std::collections::HashMap;

type Handler = DapRpcHandler<u32, u32>;

fn server() -> DapServer {
    DapServer { program: "adapter".to_string(), args: vec!["--stdio".to_string()], cwd: None }
}

fn config() -> RunDebugConfig {
    RunDebugConfig {
        dap_id: DapId(11),
        program: "app".to_string(),
        args: Some(vec!["--flag".to_string()]),
        cwd: Some("/work".to_string()),
        debug_command: None,
    }
}

fn at_line(line: u64) -> SourceBreakpoint {
    SourceBreakpoint { line, column: None, condition: None, hit_condition: None, log_message: None }
}

fn table(path: &str, line: u64) -> BreakpointTable {
    let mut table = BreakpointTable::new();
    table.insert(path.to_string(), vec![at_line(line)]);
    table
}

fn capabilities(terminate: Option<bool>) -> DebuggerCapabilities {
    DebuggerCapabilities {
        supports_configuration_done_request: Some(true),
        supports_conditional_breakpoints: None,
        supports_restart_request: None,
        supports_terminate_request: terminate,
    }
}

fn client(terminate: Option<bool>) -> DapClient {
    let mut client = DapClient::new(server(), config(), table("/a.rs", 10));
    assert_eq!(client.initialize(Ok(Body::Capabilities(capabilities(terminate)))), Ok(()));
    client
}

fn frame(id: u64, name: &str) -> StackFrame {
    StackFrame { id, name: name.to_string(), path: None, line: 1, column: 1 }
}

fn stopped(all_threads_stopped: Option<bool>) -> Stopped {
    Stopped {
        reason: "breakpoint".to_string(),
        description: None,
        thread_id: Some(ThreadId(1)),
        preserve_focus_hint: None,
        text: None,
        all_threads_stopped,
        hit_breakpoint_ids: None,
    }
}

fn flags(client: &DapClient) -> (bool, bool, bool) {
    (client.is_terminated(), client.is_disconnected(), client.is_restarted())
}

#[test]
fn new_session_has_not_begun() {
    let client = DapClient::new(server(), config(), table("/a.rs", 10));
    assert_eq!(client.dap_server(), &server());
    assert_eq!(client.config(), &config());
    assert_eq!(client.breakpoints(), &table("/a.rs", 10));
    assert_eq!(client.term_id(), None);
    assert_eq!(client.capabilities(), &None);
    assert_eq!(flags(&client), (false, false, false));
}

#[test]
fn initialize_params_are_what_the_client_advertises() {
    let expected = |run_in_terminal: bool| InitializeParams {
        client_id: Some("lapce".to_string()),
        client_name: Some("Lapce".to_string()),
        adapter_id: String::new(),
        locale: Some("en-us".to_string()),
        lines_start_at_one: Some(true),
        columns_start_at_one: Some(true),
        path_format: Some("path".to_string()),
        supports_variable_type: Some(true),
        supports_variable_paging: Some(false),
        supports_run_in_terminal_request: Some(run_in_terminal),
        supports_memory_references: Some(false),
        supports_progress_reporting: Some(false),
        supports_invalidated_event: Some(false),
    };
    assert_eq!(DapClient::initialize_params(true), expected(true));
    assert_eq!(DapClient::initialize_params(false), expected(false));
    let mut handler = Handler::new(DapId(11));
    let request = handler.initialize(DapClient::initialize_params(true), 0);
    assert_eq!(request.seq, 0);
    assert_eq!(request.command, "initialize");
    assert_eq!(request.arguments, Some(Arguments::Initialize(expected(true))));
}

#[test]
fn initialize_keeps_the_capabilities() {
    let mut client = DapClient::new(server(), config(), BreakpointTable::new());
    assert_eq!(client.initialize(Ok(Body::Capabilities(capabilities(Some(true))))), Ok(()));
    assert_eq!(client.capabilities(), &Some(capabilities(Some(true))));
    assert_eq!(flags(&client), (false, false, false));
}

#[test]
fn failed_initialize_reports_the_message() {
    let mut client = DapClient::new(server(), config(), BreakpointTable::new());
    let failure = Err(RpcError { code: 0, message: "io error".to_string() });
    assert_eq!(client.initialize(failure), Err("io error".to_string()));
    assert_eq!(client.capabilities(), &None);
    assert_eq!(client.initialize(Ok(Body::Unit)), Err("unexpected response body".to_string()));
    assert_eq!(client.capabilities(), &None);
}

#[test]
fn stop_prefers_terminate() {
    assert_eq!(client(Some(true)).stop(), StopRequest::Terminate);
    assert_eq!(client(Some(false)).stop(), StopRequest::Disconnect);
    assert_eq!(client(None).stop(), StopRequest::Disconnect);
    let fresh = DapClient::new(server(), config(), BreakpointTable::new());
    assert_eq!(fresh.stop(), StopRequest::Disconnect);
    let handler = Handler::new(DapId(11));
    let mut running = client(Some(true));
    assert_eq!(handler.mainloop(&mut running, DapRpc::Stop), Step::Stop(StopRequest::Terminate));
    assert_eq!(flags(&running), (false, false, false));
}

#[test]
fn happy_path() {
    let mut rpc = Handler::new(DapId(11));
    let mut client = DapClient::new(server(), config(), table("/a.rs", 10));
    let init = rpc.initialize(DapClient::initialize_params(true), 0);
    assert_eq!(init.seq, 0);
    assert_eq!(client.initialize(Ok(Body::Capabilities(capabilities(Some(true))))), Ok(()));

    let step = rpc.mainloop(&mut client, DapRpc::HostEvent(DapEvent::Initialized(None)));
    let files = match step {
        Step::Event(EventOutcome::Configure(files)) => files,
        other => panic!("unexpected step {other:?}"),
    };
    assert_eq!(
        files,
        vec![FileBreakpoints { path: "/a.rs".to_string(), breakpoints: vec![at_line(10)] }]
    );

    let mut sent = Vec::new();
    let mut notices = Vec::new();
    for file in files {
        let request = rpc.set_breakpoints(file.path.clone(), file.breakpoints, 0);
        sent.push(request);
        let answer = Ok(Body::Breakpoints(SetBreakpointsResponse {
            breakpoints: Some(vec![Breakpoint {
                id: Some(1),
                verified: true,
                message: None,
                line: Some(10),
                column: None,
            }]),
        }));
        if let Some(notice) = client.breakpoints_resp(file.path, answer) {
            notices.push(notice);
        }
    }
    sent.push(rpc.configuration_done(0));

    assert_eq!(sent.len(), 2);
    assert_eq!(sent[0].command, "setBreakpoints");
    assert_eq!(
        sent[0].arguments,
        Some(Arguments::SetBreakpoints(SetBreakpointsArguments {
            source: Source {
                path: Some("/a.rs".to_string()),
                name: None,
                source_reference: None,
                presentation_hint: None,
                origin: None,
            },
            breakpoints: Some(vec![at_line(10)]),
            source_modified: Some(false),
        }))
    );
    assert_eq!(sent[1].command, "configurationDone");
    assert!(sent[0].seq < sent[1].seq);
    assert_eq!(
        notices,
        vec![BreakpointsNotice {
            dap_id: DapId(11),
            path: "/a.rs".to_string(),
            breakpoints: vec![Breakpoint {
                id: Some(1),
                verified: true,
                message: None,
                line: Some(10),
                column: None,
            }],
        }]
    );
    assert_eq!(client.breakpoints(), &table("/a.rs", 10));
}

#[test]
fn breakpoints_resp_only_for_an_answer() {
    let client = client(Some(true));
    let none_reported = Ok(Body::Breakpoints(SetBreakpointsResponse { breakpoints: None }));
    assert_eq!(
        client.breakpoints_resp("/a.rs".to_string(), none_reported),
        Some(BreakpointsNotice { dap_id: DapId(11), path: "/a.rs".to_string(), breakpoints: vec![] })
    );
    let failed = Err(RpcError { code: 0, message: "io error".to_string() });
    assert_eq!(client.breakpoints_resp("/a.rs".to_string(), failed), None);
    assert_eq!(client.breakpoints_resp("/a.rs".to_string(), Ok(Body::Unit)), None);
}

#[test]
fn stopped_event_with_all_threads_stopped() {
    let rpc = Handler::new(DapId(11));
    let mut client = client(Some(true));
    let step = rpc.mainloop(&mut client, DapRpc::HostEvent(DapEvent::Stopped(stopped(Some(true)))));
    assert_eq!(
        step,
        Step::Event(EventOutcome::Stopped { stopped: stopped(Some(true)), query_threads: true })
    );
    let threads = Ok(Body::Threads(ThreadsResponse {
        threads: vec![
            Thread { id: ThreadId(1), name: "main".to_string() },
            Thread { id: ThreadId(2), name: "worker".to_string() },
        ],
    }));
    let targets = DapClient::stack_trace_targets(threads);
    assert_eq!(targets, vec![ThreadId(1), ThreadId(2)]);
    let traces = vec![
        (
            targets[0],
            Ok(Body::StackTrace(StackTraceResponse {
                total_frames: Some(1),
                stack_frames: vec![frame(1, "F1")],
            })),
        ),
        (
            targets[1],
            Ok(Body::StackTrace(StackTraceResponse {
                total_frames: None,
                stack_frames: vec![frame(2, "F2")],
            })),
        ),
    ];
    let mut expected = HashMap::new();
    expected.insert(1i64, vec![frame(1, "F1")]);
    expected.insert(2i64, vec![frame(2, "F2")]);
    assert_eq!(DapClient::collect_stack_frames(traces), expected);
    assert_eq!(flags(&client), (false, false, false));
}

#[test]
fn stopped_event_without_all_threads_asks_for_no_threads() {
    let mut client = client(Some(true));
    assert_eq!(
        client.handle_host_event(DapEvent::Stopped(stopped(Some(false)))),
        EventOutcome::Stopped { stopped: stopped(Some(false)), query_threads: false }
    );
    assert_eq!(
        client.handle_host_event(DapEvent::Stopped(stopped(None))),
        EventOutcome::Stopped { stopped: stopped(None), query_threads: false }
    );
    assert_eq!(DapClient::collect_stack_frames(Vec::new()), HashMap::new());
}

#[test]
fn stack_trace_targets_of_a_failure_are_none() {
    let failed = Err(RpcError { code: 0, message: "io error".to_string() });
    assert_eq!(DapClient::stack_trace_targets(failed), Vec::<ThreadId>::new());
    assert_eq!(DapClient::stack_trace_targets(Ok(Body::Unit)), Vec::<ThreadId>::new());
    let empty = Ok(Body::Threads(ThreadsResponse { threads: vec![] }));
    assert_eq!(DapClient::stack_trace_targets(empty), Vec::<ThreadId>::new());
}

#[test]
fn collect_stack_frames_skips_failures_and_keeps_the_later_stack() {
    let ok = |frames: Vec<StackFrame>| {
        Ok(Body::StackTrace(StackTraceResponse { total_frames: None, stack_frames: frames }))
    };
    let traces = vec![
        (ThreadId(1), ok(vec![frame(1, "old")])),
        (ThreadId(2), Err(RpcError { code: 0, message: "io error".to_string() })),
        (ThreadId(3), ok(vec![])),
        (ThreadId(1), ok(vec![frame(2, "new"), frame(3, "newer")])),
        (ThreadId(4), Ok(Body::Unit)),
        (ThreadId(-5), ok(vec![frame(9, "negative")])),
    ];
    let mut expected = HashMap::new();
    expected.insert(1i64, vec![frame(2, "new"), frame(3, "newer")]);
    expected.insert(3i64, vec![]);
    expected.insert(-5i64, vec![frame(9, "negative")]);
    assert_eq!(DapClient::collect_stack_frames(traces), expected);
}

#[test]
fn run_in_terminal() {
    let rpc = Handler::new(DapId(11));
    let mut client = client(Some(true));
    let request = DapRequest {
        seq: 7,
        command: "runInTerminal".to_string(),
        arguments: Some(Arguments::RunInTerminal(RunInTerminalArguments {
            kind: None,
            title: None,
            cwd: None,
            args: vec!["node".to_string(), "app.js".to_string()],
        })),
    };
    let step = rpc.mainloop(&mut client, DapRpc::HostRequest(request.clone()));
    let mut expected_config = config();
    expected_config.debug_command = Some("node app.js".to_string());
    assert_eq!(step, Step::RunInTerminal { request: request.clone(), config: expected_config });
    assert_eq!(client.term_id(), None);
    assert_eq!(client.config(), &config());

    let result = client.bind_terminal(Ok((TermId(42), Some(9876))));
    assert_eq!(client.term_id(), Some(TermId(42)));
    let response = DapClient::host_response(&request, result);
    assert_eq!(
        response,
        DapResponse {
            request_seq: 7,
            success: true,
            command: "runInTerminal".to_string(),
            message: None,
            body: Some(Body::RunInTerminal(RunInTerminalResponse {
                process_id: Some(9876),
                shell_process_id: None,
            })),
        }
    );
}

#[test]
fn run_in_terminal_without_a_handshake_fails_the_request() {
    let mut client = client(Some(true));
    let request = DapRequest { seq: 7, command: "runInTerminal".to_string(), arguments: None };
    let result = client.bind_terminal(Err("channel closed".to_string()));
    assert_eq!(result, Err("channel closed".to_string()));
    assert_eq!(client.term_id(), None);
    assert_eq!(
        DapClient::host_response(&request, result),
        DapResponse {
            request_seq: 7,
            success: false,
            command: "runInTerminal".to_string(),
            message: Some("channel closed".to_string()),
            body: None,
        }
    );
    assert_eq!(
        client.bind_terminal(Ok((TermId(1), None))),
        Ok(Body::RunInTerminal(RunInTerminalResponse { process_id: None, shell_process_id: None }))
    );
    assert_eq!(client.term_id(), Some(TermId(1)));
}

#[test]
fn other_host_requests_are_not_implemented() {
    let rpc = Handler::new(DapId(11));
    let mut client = client(Some(true));
    let request =
        DapRequest { seq: 3, command: "startDebugging".to_string(), arguments: Some(Arguments::Unit) };
    assert_eq!(client.handle_host_request(&request), Err("not implemented".to_string()));
    assert_eq!(
        rpc.mainloop(&mut client, DapRpc::HostRequest(request)),
        Step::Respond(DapResponse {
            request_seq: 3,
            success: false,
            command: "startDebugging".to_string(),
            message: Some("not implemented".to_string()),
            body: None,
        })
    );
    let run_in_terminal_args = Arguments::RunInTerminal(RunInTerminalArguments {
        kind: None,
        title: None,
        cwd: None,
        args: vec!["x".to_string()],
    });
    let misnamed =
        DapRequest { seq: 4, command: "runinterminal".to_string(), arguments: Some(run_in_terminal_args) };
    assert_eq!(client.handle_host_request(&misnamed), Err("not implemented".to_string()));
}

#[test]
fn run_in_terminal_needs_readable_arguments() {
    let client = client(Some(true));
    let mut request = DapRequest { seq: 1, command: "runInTerminal".to_string(), arguments: None };
    assert_eq!(client.handle_host_request(&request), Err("no arguments".to_string()));
    request.arguments = Some(Arguments::Unreadable("missing field `args`".to_string()));
    assert_eq!(client.handle_host_request(&request), Err("missing field `args`".to_string()));
    request.arguments = Some(Arguments::Unit);
    assert_eq!(client.handle_host_request(&request), Err("invalid arguments".to_string()));
    request.arguments = Some(Arguments::RunInTerminal(RunInTerminalArguments {
        kind: Some("integrated".to_string()),
        title: None,
        cwd: Some("/tmp".to_string()),
        args: vec![],
    }));
    let mut expected = config();
    expected.debug_command = Some(String::new());
    assert_eq!(client.handle_host_request(&request), Ok(expected));
}

#[test]
fn restart_while_running_terminate_supported() {
    let rpc = Handler::new(DapId(11));
    let mut client = client(Some(true));
    let step = rpc.mainloop(&mut client, DapRpc::Restart(table("/b.rs", 20)));
    assert_eq!(step, Step::Restart(RestartOutcome::Stop(StopRequest::Terminate)));
    assert_eq!(flags(&client), (false, false, true));
    assert_eq!(client.breakpoints(), &table("/b.rs", 20));

    let step = rpc.mainloop(&mut client, DapRpc::HostEvent(DapEvent::Terminated));
    assert_eq!(
        step,
        Step::Event(EventOutcome::Terminated { close_terminal: None, restart: RestartStep::Launch })
    );
    assert_eq!(flags(&client), (false, false, false));
    assert_eq!(client.breakpoints(), &table("/b.rs", 20));
    assert_eq!(client.config(), &config());

    let step = rpc.mainloop(&mut client, DapRpc::Disconnected);
    assert_eq!(step, Step::Disconnected { close_terminal: None, restart: RestartStep::Idle });
    assert_eq!(flags(&client), (false, true, false));
}

#[test]
fn restart_while_running_terminate_not_supported() {
    let rpc = Handler::new(DapId(11));
    let mut client = client(None);
    assert_eq!(client.bind_terminal(Ok((TermId(5), None))).is_ok(), true);
    let step = rpc.mainloop(&mut client, DapRpc::Restart(table("/b.rs", 20)));
    assert_eq!(step, Step::Restart(RestartOutcome::Stop(StopRequest::Disconnect)));
    assert_eq!(flags(&client), (false, false, true));

    let step = rpc.mainloop(&mut client, DapRpc::HostEvent(DapEvent::Terminated));
    assert_eq!(
        step,
        Step::Event(EventOutcome::Terminated {
            close_terminal: Some(TermId(5)),
            restart: RestartStep::Waiting
        })
    );
    assert_eq!(flags(&client), (true, false, true));

    let step = rpc.mainloop(&mut client, DapRpc::Disconnected);
    assert_eq!(
        step,
        Step::Disconnected { close_terminal: Some(TermId(5)), restart: RestartStep::Respawn }
    );
    assert_eq!(flags(&client), (true, true, false));

    assert_eq!(client.initialize(Ok(Body::Capabilities(capabilities(None)))), Ok(()));
    client.respawned();
    assert_eq!(flags(&client), (false, false, false));
    assert_eq!(client.breakpoints(), &table("/b.rs", 20));
    assert_eq!(client.check_restart(), RestartStep::Idle);
}

#[test]
fn restart_of_an_ended_session_launches_at_once() {
    let mut client = client(Some(true));
    assert_eq!(
        client.handle_host_event(DapEvent::Terminated),
        EventOutcome::Terminated { close_terminal: None, restart: RestartStep::Idle }
    );
    assert_eq!(flags(&client), (true, false, false));
    assert_eq!(
        client.restart(table("/c.rs", 1)),
        RestartOutcome::Check(RestartStep::Launch)
    );
    assert_eq!(flags(&client), (false, false, false));
    assert_eq!(client.breakpoints(), &table("/c.rs", 1));
}

#[test]
fn restart_of_a_lost_adapter_respawns_first() {
    let mut client = client(Some(false));
    assert_eq!(client.handle_host_event(DapEvent::Terminated), EventOutcome::Terminated {
        close_terminal: None,
        restart: RestartStep::Idle
    });
    assert_eq!(client.disconnected(), RestartStep::Idle);
    assert_eq!(flags(&client), (true, true, false));
    assert_eq!(client.restart(BreakpointTable::new()), RestartOutcome::Check(RestartStep::Respawn));
    assert_eq!(flags(&client), (true, true, false));
    client.respawned();
    assert_eq!(flags(&client), (false, false, false));
}

#[test]
fn restart_twice_relaunches_once() {
    let mut client = client(Some(true));
    assert_eq!(client.restart(table("/b.rs", 1)), RestartOutcome::Stop(StopRequest::Terminate));
    assert_eq!(client.restart(table("/c.rs", 2)), RestartOutcome::Stop(StopRequest::Terminate));
    assert_eq!(flags(&client), (false, false, true));
    assert_eq!(client.breakpoints(), &table("/c.rs", 2));
    let mut launches = 0;
    let events = [DapEvent::Terminated, DapEvent::Exited, DapEvent::Terminated];
    for event in events {
        if let EventOutcome::Terminated { restart: RestartStep::Launch, .. } =
            client.handle_host_event(event)
        {
            launches += 1;
        }
    }
    if client.disconnected() == RestartStep::Launch {
        launches += 1;
    }
    assert_eq!(client.check_restart(), RestartStep::Idle);
    assert_eq!(launches, 1);
}

#[test]
fn check_restart_without_intent_does_nothing() {
    let mut client = client(Some(true));
    assert_eq!(client.check_restart(), RestartStep::Idle);
    assert_eq!(flags(&client), (false, false, false));
}

#[test]
fn adapter_crash_mid_session() {
    let rpc = Handler::new(DapId(11));
    let mut client = client(Some(true));
    assert!(client.bind_terminal(Ok((TermId(8), Some(1)))).is_ok());
    let exit = Handler::reader_stopped(&client.dap_server().program);
    assert_eq!(exit.inject, DapPayload::Event(DapEvent::Initialized(None)));
    assert_eq!(exit.log, "dap server adapter stopped!");
    let step = rpc.mainloop(&mut client, exit.signal);
    assert_eq!(
        step,
        Step::Disconnected { close_terminal: Some(TermId(8)), restart: RestartStep::Idle }
    );
    assert_eq!(flags(&client), (false, true, false));
    assert_eq!(request_result(None), Err(RpcError { code: 0, message: "io error".to_string() }));
}

#[test]
fn shutdown_closes_the_terminal() {
    let rpc = Handler::new(DapId(11));
    let mut client = client(Some(true));
    assert_eq!(rpc.mainloop(&mut client, DapRpc::Shutdown), Step::Shutdown { close_terminal: None });
    assert!(client.bind_terminal(Ok((TermId(8), None))).is_ok());
    assert_eq!(
        rpc.mainloop(&mut client, DapRpc::Shutdown),
        Step::Shutdown { close_terminal: Some(TermId(8)) }
    );
    assert_eq!(flags(&client), (false, false, false));
}

#[test]
fn continued_event_names_the_session() {
    let mut client = client(Some(true));
    assert_eq!(client.handle_host_event(DapEvent::Continued), EventOutcome::Continued(DapId(11)));
}

#[test]
fn breakpoint_event_is_handed_on_for_the_log() {
    let mut client = client(Some(true));
    let breakpoint =
        Breakpoint { id: Some(4), verified: false, message: None, line: Some(3), column: None };
    assert_eq!(
        client.handle_host_event(DapEvent::Breakpoint {
            reason: "changed".to_string(),
            breakpoint: breakpoint.clone()
        }),
        EventOutcome::BreakpointChanged { reason: "changed".to_string(), breakpoint }
    );
}

#[test]
fn other_events_are_ignored() {
    let mut client = client(Some(true));
    let events = [
        DapEvent::Exited,
        DapEvent::Thread,
        DapEvent::Output,
        DapEvent::Module,
        DapEvent::LoadedSource,
        DapEvent::Process,
        DapEvent::Capabilities,
        DapEvent::Memory,
    ];
    for event in events {
        assert_eq!(client.handle_host_event(event), EventOutcome::Ignored);
        assert_eq!(flags(&client), (false, false, false));
    }
}

#[test]
fn initialized_event_sends_every_file_in_order() {
    let mut breakpoints = BreakpointTable::new();
    breakpoints.insert("/b.rs".to_string(), vec![at_line(2), at_line(3)]);
    breakpoints.insert("/a.rs".to_string(), vec![]);
    let mut client = DapClient::new(server(), config(), breakpoints);
    let capabilities_of_event = Some(capabilities(Some(true)));
    assert_eq!(
        client.handle_host_event(DapEvent::Initialized(capabilities_of_event)),
        EventOutcome::Configure(vec![
            FileBreakpoints { path: "/b.rs".to_string(), breakpoints: vec![at_line(2), at_line(3)] },
            FileBreakpoints { path: "/a.rs".to_string(), breakpoints: vec![] },
        ])
    );
    assert_eq!(client.capabilities(), &None);
    let mut empty = DapClient::new(server(), config(), BreakpointTable::new());
    assert_eq!(
        empty.handle_host_event(DapEvent::Initialized(None)),
        EventOutcome::Configure(vec![])
    );
}

#[test]
fn start_issues_initialize_first() {
    let (client, mut rpc, request): (DapClient, Handler, DapRequest) =
        DapClient::start(server(), config(), table("/a.rs", 10), true, 77);
    assert_eq!(client.config(), &config());
    assert_eq!(client.breakpoints(), &table("/a.rs", 10));
    assert_eq!(client.capabilities(), &None);
    assert_eq!(client.term_id(), None);
    assert_eq!(flags(&client), (false, false, false));
    assert_eq!(rpc.dap_id, DapId(11));
    assert_eq!(
        request,
        DapRequest {
            seq: 0,
            command: "initialize".to_string(),
            arguments: Some(Arguments::Initialize(DapClient::initialize_params(true))),
        }
    );
    assert_eq!(rpc.seq_counter(), 1);
    assert_eq!(rpc.pending_len(), 1);
    let answer = DapResponse {
        request_seq: 0,
        success: true,
        command: "initialize".to_string(),
        message: None,
        body: Some(Body::Capabilities(capabilities(Some(true)))),
    };
    assert_eq!(
        rpc.handle_server_message(Some(DapPayload::Response(answer.clone()))),
        dap_client::rpc::ServerMessage::Respond {
            handler: dap_client::rpc::ResponseHandler::Chan(77),
            response: answer
        }
    );
    let (_, _, windows): (DapClient, Handler, DapRequest) =
        DapClient::start(server(), config(), BreakpointTable::new(), false, 1);
    assert_eq!(
        windows.arguments,
        Some(Arguments::Initialize(DapClient::initialize_params(false)))
    );
}
