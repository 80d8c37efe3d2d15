use dap_client::breakpoints::BreakpointTable;
use dap_client::rpc::{
    request_result, response_result, Command, DapRpc, DapRpcHandler, ReaderExit, ResponseHandler,
    ServerMessage, RESPONSE_TIMEOUT_SECS,
};
use dap_client::types::{
    Arguments, Body, ContinueArguments, ContinueResponse, DapEvent, DapId, DapPayload, DapRequest,
    DapResponse, InitializeParams, LaunchArguments, PauseArguments, RpcError, RunDebugConfig,
    SetBreakpointsArguments, Source, SourceBreakpoint, StackTraceArguments, Thread, ThreadId,
    ThreadsResponse,
};

type Handler = DapRpcHandler<u32, &'static str>;

fn response(request_seq: u64, success: bool, body: Option<Body>) -> DapResponse {
    DapResponse { request_seq, success, command: "threads".to_string(), message: None, body }
}

fn at_line(line: u64) -> SourceBreakpoint {
    SourceBreakpoint { line, column: None, condition: None, hit_condition: None, log_message: None }
}

#[test]
fn new_handler_has_issued_nothing() {
    let handler = Handler::new(DapId(5));
    assert_eq!(handler.dap_id, DapId(5));
    assert_eq!(handler.seq_counter(), 0);
    assert_eq!(handler.pending_len(), 0);
    assert!(!handler.is_pending(0));
}

#[test]
fn request_common_stamps_the_next_seq_and_keeps_the_handler() {
    let mut handler = Handler::new(DapId(1));
    let request = handler.request_common("threads", Arguments::Unit, ResponseHandler::Chan(9));
    assert_eq!(
        request,
        DapRequest { seq: 0, command: "threads".to_string(), arguments: Some(Arguments::Unit) }
    );
    assert_eq!(handler.seq_counter(), 1);
    assert!(handler.is_pending(0));
    assert_eq!(handler.pending_len(), 1);
}

#[test]
fn sequence_numbers_rise_by_one() {
    let mut handler = Handler::new(DapId(1));
    let mut last = None;
    for i in 0..50u32 {
        let request = if i % 2 == 0 {
            handler.request(Command::Threads, i)
        } else {
            handler.request_async(Command::Terminate, "callback")
        };
        if let Some(last) = last {
            assert!(last < request.seq);
        }
        assert_eq!(request.seq, u64::from(i));
        last = Some(request.seq);
        if i % 3 == 0 {
            let _ = handler.handle_server_message(Some(DapPayload::Response(response(
                request.seq,
                true,
                None,
            ))));
        }
    }
    assert_eq!(handler.seq_counter(), 50);
}

#[test]
fn n_requests_make_n_entries_and_each_leaves_once() {
    let mut handler = Handler::new(DapId(1));
    for i in 0..8u32 {
        handler.request(Command::Threads, i);
    }
    assert_eq!(handler.pending_len(), 8);
    for seq in 0..8u64 {
        let message = handler.handle_server_message(Some(DapPayload::Response(response(seq, true, None))));
        assert_eq!(
            message,
            ServerMessage::Respond {
                handler: ResponseHandler::Chan(seq as u32),
                response: response(seq, true, None)
            }
        );
        assert!(!handler.is_pending(seq));
        assert_eq!(handler.pending_len(), 7 - seq as usize);
        let again = handler.handle_server_message(Some(DapPayload::Response(response(seq, true, None))));
        assert_eq!(again, ServerMessage::Dropped);
        assert_eq!(handler.pending_len(), 7 - seq as usize);
    }
}

#[test]
fn response_to_an_unknown_request_changes_nothing() {
    let mut handler = Handler::new(DapId(1));
    handler.request(Command::Threads, 1);
    handler.request_async(Command::Threads, "f");
    let message = handler.handle_server_message(Some(DapPayload::Response(response(17, true, None))));
    assert_eq!(message, ServerMessage::Dropped);
    assert_eq!(handler.pending_len(), 2);
    assert!(handler.is_pending(0));
    assert!(handler.is_pending(1));
    assert_eq!(handler.seq_counter(), 2);
    assert_eq!(handler.handle_server_response(&response(17, false, None)), None);
    assert_eq!(handler.pending_len(), 2);
}

#[test]
fn handle_server_response_hands_out_the_handler() {
    let mut handler = Handler::new(DapId(1));
    handler.request(Command::Threads, 4);
    handler.request_async(Command::Threads, "later");
    assert_eq!(
        handler.handle_server_response(&response(1, true, None)),
        Some(ResponseHandler::Callback("later"))
    );
    assert_eq!(handler.handle_server_response(&response(0, false, None)), Some(ResponseHandler::Chan(4)));
    assert_eq!(handler.pending_len(), 0);
}

#[test]
fn requests_and_events_go_to_the_main_loop() {
    let mut handler = Handler::new(DapId(1));
    let request = DapRequest { seq: 7, command: "runInTerminal".to_string(), arguments: None };
    assert_eq!(
        handler.handle_server_message(Some(DapPayload::Request(request.clone()))),
        ServerMessage::Forward(DapRpc::HostRequest(request))
    );
    assert_eq!(
        handler.handle_server_message(Some(DapPayload::Event(DapEvent::Continued))),
        ServerMessage::Forward(DapRpc::HostEvent(DapEvent::Continued))
    );
    assert_eq!(handler.pending_len(), 0);
    assert_eq!(handler.seq_counter(), 0);
}

#[test]
fn what_could_not_be_read_is_dropped() {
    let mut handler = Handler::new(DapId(1));
    handler.request(Command::Threads, 1);
    assert_eq!(handler.handle_server_message(None), ServerMessage::Dropped);
    assert_eq!(handler.pending_len(), 1);
}

#[test]
fn successful_response_gives_its_body() {
    let body = Body::Threads(ThreadsResponse {
        threads: vec![Thread { id: ThreadId(1), name: "main".to_string() }],
    });
    assert_eq!(response_result(response(0, true, Some(body.clone()))), Ok(body.clone()));
    assert_eq!(request_result(Some(response(0, true, Some(body.clone())))), Ok(body));
    assert_eq!(response_result(response(0, true, None)), Ok(Body::Unit));
    assert_eq!(
        response_result(response(
            0,
            true,
            Some(Body::Continued(ContinueResponse { all_threads_continued: Some(true) }))
        )),
        Ok(Body::Continued(ContinueResponse { all_threads_continued: Some(true) }))
    );
}

#[test]
fn failed_response_gives_its_message() {
    let failed = DapResponse {
        request_seq: 3,
        success: false,
        command: "launch".to_string(),
        message: Some("no such program".to_string()),
        body: Some(Body::Unit),
    };
    assert_eq!(
        response_result(failed),
        Err(RpcError { code: 0, message: "no such program".to_string() })
    );
    assert_eq!(
        response_result(response(3, false, None)),
        Err(RpcError { code: 0, message: String::new() })
    );
}

#[test]
fn unreadable_body_is_an_error() {
    assert_eq!(
        response_result(response(3, true, Some(Body::Unreadable("missing field `threads`".to_string())))),
        Err(RpcError { code: 0, message: "missing field `threads`".to_string() })
    );
}

#[test]
fn no_response_in_time_is_an_io_error() {
    assert_eq!(request_result(None), Err(RpcError { code: 0, message: "io error".to_string() }));
}

#[test]
fn command_names_and_arguments() {
    let params = InitializeParams {
        client_id: None,
        client_name: None,
        adapter_id: String::new(),
        locale: None,
        lines_start_at_one: None,
        columns_start_at_one: None,
        path_format: None,
        supports_variable_type: None,
        supports_variable_paging: None,
        supports_run_in_terminal_request: None,
        supports_memory_references: None,
        supports_progress_reporting: None,
        supports_invalidated_event: None,
    };
    assert_eq!(Command::Initialize(params.clone()).name(), "initialize");
    assert_eq!(Command::Initialize(params.clone()).into_arguments(), Arguments::Initialize(params));
    assert_eq!(Command::ConfigurationDone.name(), "configurationDone");
    assert_eq!(Command::Threads.name(), "threads");
    assert_eq!(Command::Disconnect.name(), "disconnect");
    assert_eq!(Command::Terminate.name(), "terminate");
    for command in [Command::ConfigurationDone, Command::Threads, Command::Disconnect, Command::Terminate] {
        assert_eq!(command.into_arguments(), Arguments::Unit);
    }
    let pause = PauseArguments { thread_id: ThreadId(2) };
    assert_eq!(Command::Pause(pause.clone()).name(), "pause");
    assert_eq!(Command::Pause(pause.clone()).into_arguments(), Arguments::Pause(pause));
    let go = ContinueArguments { thread_id: ThreadId(2) };
    assert_eq!(Command::Continue(go.clone()).name(), "continue");
    assert_eq!(Command::Continue(go.clone()).into_arguments(), Arguments::Continue(go));
    let trace = StackTraceArguments { thread_id: ThreadId(2), start_frame: Some(1), levels: Some(2) };
    assert_eq!(Command::StackTrace(trace.clone()).name(), "stackTrace");
    assert_eq!(Command::StackTrace(trace.clone()).into_arguments(), Arguments::StackTrace(trace));
    let launch = LaunchArguments { program: "p".to_string(), args: None, cwd: None, run_in_terminal: true };
    assert_eq!(Command::Launch(launch.clone()).name(), "launch");
    assert_eq!(Command::Launch(launch.clone()).into_arguments(), Arguments::Launch(launch));
}

#[test]
fn launch_takes_program_args_and_cwd_from_the_configuration() {
    let mut handler = Handler::new(DapId(1));
    let config = RunDebugConfig {
        dap_id: DapId(1),
        program: "/bin/app".to_string(),
        args: Some(vec!["--fast".to_string(), "x y".to_string()]),
        cwd: Some("/work".to_string()),
        debug_command: Some("ignored".to_string()),
    };
    let request = handler.launch(&config, 1);
    assert_eq!(
        request,
        DapRequest {
            seq: 0,
            command: "launch".to_string(),
            arguments: Some(Arguments::Launch(LaunchArguments {
                program: "/bin/app".to_string(),
                args: Some(vec!["--fast".to_string(), "x y".to_string()]),
                cwd: Some("/work".to_string()),
                run_in_terminal: true,
            })),
        }
    );
    let bare = RunDebugConfig {
        dap_id: DapId(1),
        program: "app".to_string(),
        args: None,
        cwd: None,
        debug_command: None,
    };
    assert_eq!(
        handler.launch(&bare, 2).arguments,
        Some(Arguments::Launch(LaunchArguments {
            program: "app".to_string(),
            args: None,
            cwd: None,
            run_in_terminal: true,
        }))
    );
    assert!(handler.is_pending(0) && handler.is_pending(1));
}

#[test]
fn set_breakpoints_names_the_file_and_says_it_is_unmodified() {
    let mut handler = Handler::new(DapId(1));
    let expected = Arguments::SetBreakpoints(SetBreakpointsArguments {
        source: Source {
            path: Some("/a.rs".to_string()),
            name: None,
            source_reference: None,
            presentation_hint: None,
            origin: None,
        },
        breakpoints: Some(vec![at_line(10)]),
        source_modified: Some(false),
    });
    let sync = handler.set_breakpoints("/a.rs".to_string(), vec![at_line(10)], 3);
    assert_eq!(sync.seq, 0);
    assert_eq!(sync.command, "setBreakpoints");
    assert_eq!(sync.arguments, Some(expected.clone()));
    let later = handler.set_breakpoints_async("/a.rs".to_string(), vec![at_line(10)], "f");
    assert_eq!(later.seq, 1);
    assert_eq!(later.command, "setBreakpoints");
    assert_eq!(later.arguments, Some(expected));
    assert_eq!(handler.handle_server_response(&response(0, true, None)), Some(ResponseHandler::Chan(3)));
    assert_eq!(
        handler.handle_server_response(&response(1, true, None)),
        Some(ResponseHandler::Callback("f"))
    );
}

#[test]
fn thread_requests() {
    let mut handler = Handler::new(DapId(1));
    let go = handler.continue_thread(ThreadId(4), 0);
    assert_eq!(go.command, "continue");
    assert_eq!(go.arguments, Some(Arguments::Continue(ContinueArguments { thread_id: ThreadId(4) })));
    let pause = handler.pause_thread(ThreadId(5), 0);
    assert_eq!(pause.command, "pause");
    assert_eq!(pause.arguments, Some(Arguments::Pause(PauseArguments { thread_id: ThreadId(5) })));
    let threads = handler.threads(0);
    assert_eq!(threads.command, "threads");
    assert_eq!(threads.arguments, Some(Arguments::Unit));
    let trace = handler.stack_trace(ThreadId(6), 0);
    assert_eq!(trace.command, "stackTrace");
    assert_eq!(
        trace.arguments,
        Some(Arguments::StackTrace(StackTraceArguments {
            thread_id: ThreadId(6),
            start_frame: None,
            levels: None
        }))
    );
    assert_eq!((go.seq, pause.seq, threads.seq, trace.seq), (0, 1, 2, 3));
}

#[test]
fn requests_without_arguments() {
    let mut handler = Handler::new(DapId(1));
    let disconnect = handler.disconnect(0);
    let terminate = handler.terminate(0);
    let done = handler.configuration_done(0);
    assert_eq!(disconnect.command, "disconnect");
    assert_eq!(terminate.command, "terminate");
    assert_eq!(done.command, "configurationDone");
    for request in [&disconnect, &terminate, &done] {
        assert_eq!(request.arguments, Some(Arguments::Unit));
    }
    assert_eq!((disconnect.seq, terminate.seq, done.seq), (0, 1, 2));
}

#[test]
fn control_messages() {
    let handler = Handler::new(DapId(1));
    assert_eq!(handler.stop(), DapRpc::Stop);
    assert_eq!(handler.disconnected(), DapRpc::Disconnected);
    let mut table = BreakpointTable::new();
    table.insert("/a.rs".to_string(), vec![at_line(1)]);
    assert_eq!(handler.restart(table.clone()), DapRpc::Restart(table));
}

#[test]
fn reader_leaves_the_shutdown_sequence() {
    assert_eq!(
        Handler::reader_stopped("lldb-vscode"),
        ReaderExit {
            inject: DapPayload::Event(DapEvent::Initialized(None)),
            log: "dap server lldb-vscode stopped!".to_string(),
            signal: DapRpc::Disconnected,
        }
    );
}

#[test]
fn callers_wait_half_a_minute() {
    assert_eq!(RESPONSE_TIMEOUT_SECS, 30);
}
