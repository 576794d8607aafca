use localitysrv::cli::Args;
use localitysrv::cmd::{ensure_tools_are_present, CmdError};
use localitysrv::lifecycle::{CodexNodeManager, NodeManagerError};
use localitysrv::transport::{
    handle_stream_request, select_accept, AcceptAction, OnionAddressHandoff, RetryAction,
    RetryPolicy, StreamAction, TorRetryState,
};

#[test]
fn the_manager_runs_one_node_and_stops_cleanly() {
    let mut manager = CodexNodeManager::new();
    assert!(!manager.is_running());
    assert!(matches!(manager.get_node(), Err(NodeManagerError::NodeNotRunning)));

    // start: the decision says there is work, then the handle is stored
    assert!(manager.should_start());
    manager.note_started(11);
    assert!(manager.is_running());
    // every operation sees the same node
    assert_eq!(manager.get_node().unwrap(), 11);
    assert_eq!(manager.get_node().unwrap(), 11);
    // starting again is a no-op
    assert!(!manager.should_start());

    // stop: the handle leaves and the manager is no longer running,
    // whatever the stop and destroy calls then return
    assert_eq!(manager.take_node_for_stop(), Some(11));
    assert!(!manager.is_running());
    // stopping again is a no-op
    assert_eq!(manager.take_node_for_stop(), None);
    assert!(matches!(manager.get_node(), Err(NodeManagerError::NodeNotRunning)));
}

#[test]
fn the_hidden_service_retries_with_linear_backoff_then_gives_up() {
    let policy = RetryPolicy { max_retries: 5, base_delay_secs: 5 };
    let mut state = TorRetryState::new();

    assert_eq!(state.on_service_result(policy, false), RetryAction::RetryAfter(5));
    assert_eq!(state.on_service_result(policy, false), RetryAction::RetryAfter(10));
    assert_eq!(state.on_service_result(policy, false), RetryAction::RetryAfter(15));
    assert_eq!(state.on_service_result(policy, false), RetryAction::RetryAfter(20));
    assert_eq!(state.on_service_result(policy, false), RetryAction::RetryAfter(25));
    // the budget is spent: the hidden service is abandoned
    assert_eq!(state.on_service_result(policy, false), RetryAction::GiveUp);
    assert_eq!(state.on_service_result(policy, false), RetryAction::GiveUp);

    let mut clean = TorRetryState::new();
    assert_eq!(clean.on_service_result(policy, true), RetryAction::Stop);
}

#[test]
fn the_onion_address_is_published_exactly_once() {
    let mut handoff = OnionAddressHandoff::new();
    assert!(handoff.try_publish());
    // a later bootstrap after a transient retry does not re-publish
    assert!(!handoff.try_publish());
    assert!(!handoff.try_publish());
}

#[test]
fn only_the_expected_port_is_bridged() {
    assert_eq!(handle_stream_request(true, 80), StreamAction::Bridge);
    assert_eq!(handle_stream_request(true, 443), StreamAction::RejectCircuit);
    assert_eq!(handle_stream_request(true, 0), StreamAction::RejectCircuit);
    // only a connection-open request can be bridged
    assert_eq!(handle_stream_request(false, 80), StreamAction::RejectCircuit);
}

#[test]
fn shutdown_outranks_new_connections() {
    assert_eq!(select_accept(true, true), AcceptAction::ShutDown);
    assert_eq!(select_accept(true, false), AcceptAction::ShutDown);
    assert_eq!(select_accept(false, true), AcceptAction::Serve);
    assert_eq!(select_accept(false, false), AcceptAction::KeepWaiting);
}

#[test]
fn switches_decide_downloading_extracting_and_prompting() {
    let interactive = Args { non_interactive: false, no_download: false, no_extract: false };
    assert!(interactive.is_interactive_mode());
    assert!(!interactive.should_download_database());
    assert!(!interactive.should_extract_localities());

    let auto = Args { non_interactive: true, no_download: false, no_extract: false };
    assert!(!auto.is_interactive_mode());
    assert!(auto.should_download_database());
    assert!(auto.should_extract_localities());

    let frozen = Args { non_interactive: true, no_download: true, no_extract: true };
    assert!(!frozen.should_download_database());
    assert!(!frozen.should_extract_localities());
    assert!(!frozen.is_interactive_mode());

    let no_download_only = Args { non_interactive: false, no_download: true, no_extract: false };
    assert!(!no_download_only.is_interactive_mode());
}

#[test]
fn missing_tools_are_reported_by_name() {
    let all_present = vec![("pmtiles".to_string(), true), ("bzip2".to_string(), true)];
    assert!(ensure_tools_are_present(&all_present).is_ok());

    let some_missing = vec![
        ("pmtiles".to_string(), false),
        ("bzip2".to_string(), true),
        ("find".to_string(), false),
    ];
    match ensure_tools_are_present(&some_missing) {
        Err(CmdError::CommandNotFound(msg)) => {
            assert_eq!(msg, "Required tools not found: pmtiles, find");
        }
        other => panic!("expected missing tools, got {:?}", other),
    }
}
