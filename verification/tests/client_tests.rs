use tcp_echo::client::cli_args::CLIArgs;
use tcp_echo::client::client_service::{ClientAction, ClientEvent, ClientSession, Phase};
use tcp_echo::client::reporting_service::{ReportEvent, ReportTally, ReportUpdate};
use tcp_echo::client::{expected_echoes, final_echo_count, run_verdict, tally_client_results, ClientRunError};

fn expect_send(action: ClientAction, message: &str) {
    match action {
        ClientAction::Send(line) => assert_eq!(line, message),
        _ => panic!("expected a send"),
    }
}

fn expect_stop(action: ClientAction, sent: u64) {
    match action {
        ClientAction::Stop(n) => assert_eq!(n, sent),
        _ => panic!("expected a stop"),
    }
}

#[test]
fn session_with_faithful_server_sends_max_count() {
    let mut s = ClientSession::new(0, "ping".to_string(), 3);
    assert_eq!(s.id(), 0);
    expect_send(s.current_action(), "ping");
    for round in 1..=3u64 {
        assert!(matches!(s.step(ClientEvent::SendCompleted), ClientAction::AwaitReply));
        assert_eq!(s.sent(), round);
        match s.step(ClientEvent::Reply("ping".to_string())) {
            ClientAction::Report(update) => assert_eq!(update.count, 1),
            _ => panic!("expected a report"),
        }
        let next = s.step(ClientEvent::ReportDelivered);
        if round < 3 {
            expect_send(next, "ping");
            assert_eq!(s.phase(), Phase::Sending);
        } else {
            expect_stop(next, 3);
            assert_eq!(s.phase(), Phase::Finished);
        }
    }
    assert_eq!(s.sent(), 3);
    // a finished session stays finished
    expect_stop(s.step(ClientEvent::SendCompleted), 3);
}

#[test]
fn session_stops_on_mismatch() {
    let mut s = ClientSession::new(1, "ping".to_string(), 5);
    s.step(ClientEvent::SendCompleted);
    expect_stop(s.step(ClientEvent::Reply("pong".to_string())), 1);
    assert_eq!(s.phase(), Phase::Finished);
}

#[test]
fn session_stops_on_shutdown_and_errors() {
    let mut s = ClientSession::new(2, "m".to_string(), 5);
    expect_stop(s.step(ClientEvent::ShutdownSignal), 0);

    let mut s = ClientSession::new(2, "m".to_string(), 5);
    expect_stop(s.step(ClientEvent::SendFailed), 0);

    let mut s = ClientSession::new(2, "m".to_string(), 5);
    s.step(ClientEvent::SendCompleted);
    expect_stop(s.step(ClientEvent::ConnectionClosed), 1);

    let mut s = ClientSession::new(2, "m".to_string(), 5);
    s.step(ClientEvent::SendCompleted);
    expect_stop(s.step(ClientEvent::ReceiveFailed), 1);

    let mut s = ClientSession::new(2, "m".to_string(), 5);
    s.step(ClientEvent::SendCompleted);
    s.step(ClientEvent::Reply("m".to_string()));
    expect_stop(s.step(ClientEvent::ReportRejected), 1);
}

#[test]
fn session_ignores_events_of_other_phases() {
    let mut s = ClientSession::new(0, "x".to_string(), 2);
    // a reply before anything was sent changes nothing and asks for nothing
    assert!(matches!(s.step(ClientEvent::Reply("y".to_string())), ClientAction::Wait));
    expect_send(s.current_action(), "x");
    assert_eq!(s.sent(), 0);
    assert_eq!(s.phase(), Phase::Sending);
    s.step(ClientEvent::SendCompleted);
    assert!(matches!(s.step(ClientEvent::ShutdownSignal), ClientAction::Wait));
    assert_eq!(s.phase(), Phase::AwaitingReply);
    s.step(ClientEvent::Reply("x".to_string()));
    // a second delivery notice before a new send does not ask for another report
    assert!(matches!(s.step(ClientEvent::SendCompleted), ClientAction::Wait));
    assert_eq!(s.sent(), 1);
    assert_eq!(s.phase(), Phase::Reporting);
}

#[test]
fn reporter_stops_at_max_total() {
    let up = |n: u64| ReportEvent::Update(ReportUpdate { count: n });
    let mut tally = ReportTally::new(3);
    assert_eq!(tally.max_total(), 3);
    assert_eq!(tally.step(up(1)), None);
    assert_eq!(tally.step(up(1)), None);
    assert_eq!(tally.step(up(1)), Some(3));
    assert_eq!(tally.total(), 3);

    let mut tally = ReportTally::new(0);
    assert_eq!(tally.step(up(1)), Some(1));

    let mut tally = ReportTally::new(10);
    assert_eq!(tally.step(up(25)), Some(25));
    assert_eq!(tally.total(), 25);
}

#[test]
fn reporter_stops_when_clients_are_gone() {
    let mut tally = ReportTally::new(100);
    assert_eq!(tally.step(ReportEvent::Update(ReportUpdate { count: 1 })), None);
    assert_eq!(tally.step(ReportEvent::Closed), Some(1));
    assert_eq!(tally.total(), 1);
    // with no clients at all the run is judged at once
    let mut empty = ReportTally::new(0);
    assert_eq!(empty.step(ReportEvent::Closed), Some(0));
    assert_eq!(run_verdict(1, 100), Err(ClientRunError::NotAllClientsReachedMaxCount));
}

#[test]
fn two_clients_of_ten_messages_make_twenty_echoes() {
    assert_eq!(expected_echoes(10, 2), Some(20));
    assert_eq!(expected_echoes(50, 2), Some(100));
    assert_eq!(expected_echoes(1, 0), Some(0));
    assert_eq!(expected_echoes(u64::MAX, 2), None);
}

#[test]
fn client_results_are_summed() {
    assert_eq!(tally_client_results(&[Some(50), None, Some(50)]), Some(100));
    assert_eq!(tally_client_results(&[]), Some(0));
    assert_eq!(tally_client_results(&[None]), Some(0));
    assert_eq!(tally_client_results(&[Some(u64::MAX), Some(1)]), None);
    assert_eq!(tally_client_results(&[Some(u64::MAX), None]), Some(u64::MAX));
}

#[test]
fn run_is_judged_by_the_reporter() {
    assert_eq!(run_verdict(100, 100), Ok(()));
    assert_eq!(run_verdict(101, 100), Ok(()));
    assert_eq!(run_verdict(99, 100), Err(ClientRunError::NotAllClientsReachedMaxCount));
    assert_eq!(final_echo_count(7, 9), 9);
    assert_eq!(final_echo_count(9, 7), 9);
}

#[test]
fn client_cli_args_clone_is_equal() {
    let args = CLIArgs {
        log_level: log::LevelFilter::Trace,
        server_ip: "127.0.0.1".into(),
        server_port: 9000,
        num_clients: 2,
        message: "ping".into(),
        max_count: 50,
    };
    let copy = args.clone();
    assert_eq!(copy, args);
    assert!(copy.server_port > 0);
}
