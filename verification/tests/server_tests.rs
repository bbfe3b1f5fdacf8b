use tcp_echo::addr::endpoint_text;
use tcp_echo::server::cli_args::CLIArgs;
use tcp_echo::server::connection_service::{any_room, choose_worker, LoadBalancer, LoadUpdate};
use tcp_echo::server::echo_service::{respond, EchoAction, PeerTable, StreamItem};
use tokio::sync::mpsc;

#[test]
fn endpoint_text_joins_ip_and_port() {
    assert_eq!(endpoint_text("127.0.0.1", 9000), "127.0.0.1:9000");
    assert_eq!(endpoint_text("127.0.0.1", 0), "127.0.0.1:0");
    assert_eq!(endpoint_text("10.0.0.7", 65535), "10.0.0.7:65535");
    assert_eq!(endpoint_text("", 7), ":7");
    assert_eq!(endpoint_text("::1", 80), "::1:80");
}

#[test]
fn choose_worker_prefers_least_loaded_last() {
    // equal loads: the last worker wins the tie
    assert_eq!(choose_worker(&[0, 0], &[true, true]), Some(1));
    assert_eq!(choose_worker(&[3, 1, 1], &[true, true, true]), Some(2));
    assert_eq!(choose_worker(&[1, 0, 2], &[true, true, true]), Some(1));
    // a full queue is skipped even when it is the least loaded
    assert_eq!(choose_worker(&[0, 5], &[false, true]), Some(1));
    assert_eq!(choose_worker(&[0, 5], &[false, false]), None);
    assert_eq!(choose_worker(&[], &[]), None);
    assert_eq!(choose_worker(&[i32::MAX, i32::MAX], &[true, true]), Some(1));
    assert_eq!(choose_worker(&[-4, 2], &[true, true]), Some(0));
    // extra loads beyond the queues are ignored
    assert_eq!(choose_worker(&[4, 3, -10], &[true, true]), Some(1));
}

#[test]
fn any_room_finds_a_free_queue() {
    assert!(any_room(&[false, true]));
    assert!(!any_room(&[false, false]));
    assert!(!any_room(&[]));
}

#[test]
fn balancer_spreads_connections() {
    let (tx0, _rx0) = mpsc::channel::<u32>(4);
    let (tx1, _rx1) = mpsc::channel::<u32>(4);
    let mut balancer = LoadBalancer::new(vec![tx0, tx1]);
    assert_eq!(balancer.num_workers(), 2);
    assert_eq!(balancer.loads(), &[0, 0]);
    assert!(balancer.any_capacity());

    let first = balancer.select_worker();
    assert_eq!(first, Some(1));
    balancer.record_dispatch(1);
    assert_eq!(balancer.loads(), &[0, 1]);

    assert_eq!(balancer.select_worker(), Some(0));
    balancer.record_dispatch(0);
    assert_eq!(balancer.select_worker(), Some(1));

    // the worker's own report replaces the optimistic count
    assert!(balancer.apply_load_update(&LoadUpdate { worker_id: 0, total: 7 }));
    assert_eq!(balancer.loads(), &[7, 1]);
    assert_eq!(balancer.select_worker(), Some(1));
    // a report from an unknown worker is refused and changes nothing
    assert!(!balancer.apply_load_update(&LoadUpdate { worker_id: 2, total: 0 }));
    assert_eq!(balancer.loads(), &[7, 1]);

    balancer.close();
    assert_eq!(balancer.num_workers(), 0);
    assert_eq!(balancer.select_worker(), None);
    assert!(!balancer.any_capacity());
}

#[test]
fn balancer_skips_full_queues() {
    let (tx0, _rx0) = mpsc::channel::<u32>(1);
    let (tx1, _rx1) = mpsc::channel::<u32>(1);
    // fill worker 1's queue
    tx1.try_send(5).unwrap();
    let balancer = LoadBalancer::new(vec![tx0, tx1]);
    assert!(balancer.any_capacity());
    assert_eq!(balancer.select_worker(), Some(0));
    balancer.queue(0).try_send(6).unwrap();
    assert!(!balancer.any_capacity());
    assert_eq!(balancer.select_worker(), None);
}

#[test]
fn balancer_with_no_workers() {
    let balancer: LoadBalancer<u8> = LoadBalancer::new(Vec::new());
    assert_eq!(balancer.num_workers(), 0);
    assert!(!balancer.any_capacity());
    assert_eq!(balancer.select_worker(), None);
}

#[test]
fn peer_table_counts_distinct_peers() {
    let mut table = PeerTable::new(3);
    assert_eq!(table.worker_id(), 3);
    assert_eq!(table.num_peers(), 0);
    let a = (4u8, 0x7f00_0001u128, 50000u16, 0u32, 0u32);
    let b = (4u8, 0x7f00_0001u128, 50001u16, 0u32, 0u32);

    let u = table.on_new_connection(Some(a)).unwrap();
    assert_eq!((u.worker_id, u.total), (3, 1));
    let u = table.on_new_connection(Some(b)).unwrap();
    assert_eq!((u.worker_id, u.total), (3, 2));
    // the same address again is still one peer
    let u = table.on_new_connection(Some(a)).unwrap();
    assert_eq!(u.total, 2);
    // a connection without a peer address is ignored
    assert!(table.on_new_connection(None).is_none());
    assert_eq!(table.num_peers(), 2);

    let u = table.handle_disconnect(a);
    assert_eq!((u.worker_id, u.total), (3, 1));
    // an unknown peer leaves the count alone
    let u = table.handle_disconnect((4, 0, 0, 0, 0));
    assert_eq!(u.total, 1);
    let u = table.handle_disconnect(b);
    assert_eq!(u.total, 0);
    assert_eq!(table.load_update().total, 0);
}

#[test]
fn peer_connect_then_disconnect_restores_load() {
    let mut table = PeerTable::new(0);
    table.on_new_connection(Some((6, 1, 9000, 0, 2)));
    let before = table.load_update().total;
    table.on_new_connection(Some((6, 1, 9000, 0, 3)));
    let after = table.handle_disconnect((6, 1, 9000, 0, 3));
    assert_eq!(after.total, before);
}

#[test]
fn worker_echoes_each_line_unchanged() {
    match respond(StreamItem::Line("hello world #1".to_string())) {
        EchoAction::Reply(line) => assert_eq!(line, "hello world #1"),
        EchoAction::Disconnect => panic!("a line must be echoed"),
    }
    match respond(StreamItem::Line(String::new())) {
        EchoAction::Reply(line) => assert_eq!(line, ""),
        EchoAction::Disconnect => panic!("a line must be echoed"),
    }
    assert!(matches!(respond(StreamItem::CodecError), EchoAction::Disconnect));
    assert!(matches!(respond(StreamItem::Ended), EchoAction::Disconnect));
}

#[test]
fn server_cli_args_clone_is_equal() {
    let args = CLIArgs {
        log_level: log::LevelFilter::Debug,
        ip: "127.0.0.1".into(),
        port: 0,
        num_workers: 1,
        channel_capacity: 10,
    };
    let copy = args.clone();
    assert_eq!(copy, args);
    assert_eq!(copy.ip, "127.0.0.1");
}
