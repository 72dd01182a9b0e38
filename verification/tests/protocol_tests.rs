use mpk_handshake::domain::{ProtectionDomain, TextRegion};
use mpk_handshake::errors::SetupError;
use mpk_handshake::flag::{decode_flag, encode_flag, FlagChannel, FlagState, FLAG_NOT_READY_BYTE,
    FLAG_READY_BYTE};
use mpk_handshake::handshake::{recv_data, recv_step, Exchange, ExchangeConfig, PollConfig, Sender,
    WaitOutcome};
use mpk_handshake::region::{CreationMode, SharedRegion};

fn unique_id(tag: &str) -> String {
    let nanos = std::time::SystemTime::now()
        .duration_since(std::time::UNIX_EPOCH)
        .unwrap()
        .as_nanos();
    format!("/mpk_hs_{}_{}", tag, nanos)
}

#[test]
fn stray_flag_bytes_read_as_not_ready() {
    assert_eq!(decode_flag(FLAG_READY_BYTE), FlagState::Ready);
    assert_eq!(decode_flag(FLAG_NOT_READY_BYTE), FlagState::NotReady);
    assert_eq!(decode_flag(0), FlagState::NotReady);
    assert_eq!(decode_flag(b'x'), FlagState::NotReady);
    assert_eq!(encode_flag(FlagState::Ready), b'D');
    assert_eq!(encode_flag(FlagState::NotReady), b'N');
}

#[test]
fn modify_then_lock_returns_the_written_value() {
    let domain = ProtectionDomain::allocate(false).unwrap();
    let mut region = TextRegion::new(&domain, "first".to_string()).unwrap();
    assert_eq!(region.lock(), "first");
    region.modify("second".to_string()).unwrap();
    assert_eq!(region.lock(), "second");
    region.modify("third".to_string()).unwrap();
    region.modify("fourth".to_string()).unwrap();
    assert_eq!(region.lock(), "fourth");
}

#[test]
fn a_required_protection_domain_is_real_or_refused() {
    match ProtectionDomain::allocate(true) {
        Ok(domain) => assert!(!domain.is_degraded()),
        Err(e) => assert_eq!(e, SetupError::KeyExhausted),
    }
}

#[test]
fn reopening_a_region_with_matching_length_joins_it() {
    let id = unique_id("join");
    let creator = SharedRegion::open_or_create(&id, 64).unwrap();
    assert_eq!(creator.len(), 64);
    let joiner = SharedRegion::open_or_create(&id, 64).unwrap();
    assert_eq!(joiner.mode(), CreationMode::Opened);
    assert_eq!(joiner.len(), 64);
    assert!(creator.is_creator());
    assert!(!joiner.is_creator());
}

#[test]
fn reopening_with_another_length_is_refused() {
    let id = unique_id("len");
    let creator = SharedRegion::open_or_create(&id, 64).unwrap();
    assert_eq!(creator.len(), 64);
    let clash = SharedRegion::open_or_create(&id, 32);
    match clash {
        Err(SetupError::AlreadyExistsIncompatible(requested, found)) => {
            assert_eq!(requested, 32);
            assert_eq!(found, 64);
        }
        other => panic!("expected an incompatible-length failure, got {:?}", other.is_ok()),
    }
}

#[test]
fn a_flag_channel_is_one_byte_long() {
    let id = unique_id("flag");
    let channel = FlagChannel::open_or_create(&id).unwrap();
    assert_eq!(channel.region().len(), 1);
}

#[test]
fn the_producer_sequence_shuts_the_consumer_out_mid_write() {
    let domain = ProtectionDomain::allocate(false).unwrap();
    let mut region = TextRegion::new(&domain, "old".to_string()).unwrap();

    // A stale ready byte shows the previous, complete value.
    let mut flag_byte: u8 = FLAG_READY_BYTE;
    assert_eq!(recv_data(&region, flag_byte), Some("old".to_string()));

    // Clear, write, signal: at every point in between, the consumer is
    // shut out and never observes a half-written region.
    let mut sender = Sender::new();
    flag_byte = sender.clear_byte();
    assert_eq!(recv_data(&region, flag_byte), None);
    sender.send_data(&mut region, "new".to_string()).unwrap();
    assert_eq!(recv_data(&region, flag_byte), None);
    flag_byte = sender.ready_byte();
    assert_eq!(recv_data(&region, flag_byte), Some("new".to_string()));
}

#[test]
fn the_poll_budget_runs_out() {
    let domain = ProtectionDomain::allocate(false).unwrap();
    let region = TextRegion::new(&domain, "value".to_string()).unwrap();
    let cfg = PollConfig { max_polls: Some(2) };

    match recv_step(cfg, 0, &region, FLAG_NOT_READY_BYTE) {
        WaitOutcome::KeepPolling(next) => assert_eq!(next, 1),
        _ => panic!("expected to keep polling"),
    }
    match recv_step(cfg, 2, &region, FLAG_NOT_READY_BYTE) {
        WaitOutcome::TimedOut => {}
        _ => panic!("expected a timeout"),
    }
    match recv_step(cfg, 2, &region, FLAG_READY_BYTE) {
        WaitOutcome::Delivered(s) => assert_eq!(s, "value"),
        _ => panic!("expected delivery"),
    }
    let unbounded = PollConfig { max_polls: None };
    match recv_step(unbounded, 1_000_000, &region, FLAG_NOT_READY_BYTE) {
        WaitOutcome::KeepPolling(next) => assert_eq!(next, 1_000_001),
        _ => panic!("expected to keep polling"),
    }
}

#[test]
fn an_exchange_sets_up_whole() {
    let manager_domain = ProtectionDomain::allocate(false).unwrap();
    let calculator_domain = ProtectionDomain::allocate(false).unwrap();
    let cfg = ExchangeConfig {
        request_region_id: unique_id("req"),
        response_region_id: unique_id("resp"),
        request_flag_id: unique_id("req_flag"),
        response_flag_id: unique_id("resp_flag"),
        region_length: 4096,
    };
    let exchange = Exchange::setup(
        &cfg,
        &manager_domain,
        &calculator_domain,
        "request goes here".to_string(),
        "response goes here".to_string(),
    )
    .unwrap();
    assert_eq!(exchange.request_region.lock(), "request goes here");
    assert_eq!(exchange.response_region.lock(), "response goes here");
    assert_eq!(exchange.request_buffer.len(), 4096);
    assert_eq!(exchange.response_buffer.len(), 4096);
    assert_eq!(exchange.request_flag.region().len(), 1);
    assert_eq!(exchange.response_flag.region().len(), 1);
}

#[test]
fn a_whole_cycle_over_protected_regions() {
    // Both directions of one request/response cycle, the roles driven
    // in turn as the two-thread pairing would interleave them.
    let manager_domain = ProtectionDomain::allocate(false).unwrap();
    let calculator_domain = ProtectionDomain::allocate(false).unwrap();
    let mut request_region = TextRegion::new(&manager_domain, String::new()).unwrap();
    let mut response_region = TextRegion::new(&calculator_domain, String::new()).unwrap();

    // Manager produces the request.
    let request = mpk_handshake::codec::build_total_request("hello world hello");
    let mut manager = Sender::new();
    let mut request_flag = manager.clear_byte();
    assert_eq!(recv_data(&request_region, request_flag), None);
    manager.send_data(&mut request_region, request).unwrap();
    assert_eq!(recv_data(&request_region, request_flag), None);
    request_flag = manager.ready_byte();

    // Calculator consumes it, computes, and produces the response.
    let seen = recv_data(&request_region, request_flag).expect("request must be ready");
    let response = mpk_handshake::codec::process_request(&seen);
    let mut calculator = Sender::new();
    let mut response_flag = calculator.clear_byte();
    assert_eq!(recv_data(&response_region, response_flag), None);
    calculator.send_data(&mut response_region, response).unwrap();
    response_flag = calculator.ready_byte();

    // Manager consumes the response.
    let answer = recv_data(&response_region, response_flag).expect("response must be ready");
    assert_eq!(answer, "3");
}

#[test]
fn pipe_setup_tolerates_existing_endpoints() {
    let request_path = "/tmp/mpk_handshake_test_request_pipe";
    let response_path = "/tmp/mpk_handshake_test_response_pipe";
    mpk_handshake::pipes::setup_pipes(request_path, response_path).unwrap();
    // the second role runs the same setup and simply joins
    mpk_handshake::pipes::setup_pipes(request_path, response_path).unwrap();
    mpk_handshake::pipes::create_pipe(request_path).unwrap();
}

#[test]
fn a_zero_length_region_is_refused() {
    let id = unique_id("zero");
    match SharedRegion::open_or_create(&id, 0) {
        Err(e) => assert_eq!(e, SetupError::RegionUnavailable),
        Ok(_) => panic!("a zero-length region must be refused"),
    }
}

#[test]
fn an_unreachable_pipe_path_is_refused() {
    let result = mpk_handshake::pipes::create_pipe("/mpk_hs_no_such_dir/pipe");
    assert_eq!(result, Err(SetupError::EndpointUnavailable));
}

#[test]
fn many_interleaved_cycles_never_show_a_torn_value() {
    // Many producer/consumer cycles on the same region, with the
    // consumer polling at every point a scheduler could preempt:
    // between the clear and the write, and between the write and the
    // signal. At every poll the consumer either is shut out or sees a
    // value some completed write put there whole.
    let domain = ProtectionDomain::allocate(false).unwrap();
    let mut region = TextRegion::new(&domain, "cycle 0".to_string()).unwrap();
    let mut flag_byte: u8 = FLAG_READY_BYTE;
    let mut last_complete = "cycle 0".to_string();

    for cycle in 1..100u32 {
        // preemption point: before the producer starts
        if let Some(seen) = recv_data(&region, flag_byte) {
            assert_eq!(seen, last_complete);
        }
        let mut sender = Sender::new();
        flag_byte = sender.clear_byte();
        // preemption point: flag cleared, write not begun
        assert_eq!(recv_data(&region, flag_byte), None);
        let value = format!("cycle {}", cycle);
        sender.send_data(&mut region, value.clone()).unwrap();
        // preemption point: write done, not yet signalled
        assert_eq!(recv_data(&region, flag_byte), None);
        flag_byte = sender.ready_byte();
        last_complete = value;
        // the signal delivers the whole value
        assert_eq!(recv_data(&region, flag_byte), Some(last_complete.clone()));
    }
}
