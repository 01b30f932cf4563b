use trichter::scan::{AddressScan, ScanStep, LAST_ADDRESS};
use trichter::server::{ServerAction, ServerEvent, ServerPhase, ServerSupervisor};
use trichter::wifi::{random_seed, LinkAction, LinkEvent, LinkPhase, LinkSupervisor};

#[test]
fn link_connected_waits_then_pauses() {
    let mut s = LinkSupervisor::new();
    assert_eq!(s.action(), LinkAction::QueryState);
    assert_eq!(s.step(LinkEvent::State(true)), LinkAction::WaitForDisconnect);
    assert_eq!(s.step(LinkEvent::Disconnected), LinkAction::Sleep(5000));
    assert_eq!(s.step(LinkEvent::Slept), LinkAction::QueryStarted);
    assert_eq!(s.step(LinkEvent::Started(true)), LinkAction::Connect);
    assert_eq!(s.step(LinkEvent::Connected(true)), LinkAction::QueryState);
}

#[test]
fn link_brings_radio_up_and_backs_off() {
    let mut s = LinkSupervisor::new();
    assert_eq!(s.step(LinkEvent::State(false)), LinkAction::QueryStarted);
    assert_eq!(s.step(LinkEvent::Started(false)), LinkAction::Configure);
    assert_eq!(s.step(LinkEvent::Done), LinkAction::StartRadio);
    assert_eq!(s.step(LinkEvent::Done), LinkAction::Scan(10));
    assert_eq!(s.step(LinkEvent::Done), LinkAction::Connect);
    assert_eq!(s.step(LinkEvent::Connected(false)), LinkAction::Sleep(5000));
    assert_eq!(s.phase(), LinkPhase::Backoff);
    assert_eq!(s.step(LinkEvent::Slept), LinkAction::QueryState);
}

#[test]
fn link_ignores_unexpected_event() {
    let mut s = LinkSupervisor::new();
    assert_eq!(s.step(LinkEvent::Done), LinkAction::QueryState);
    assert_eq!(s.phase(), LinkPhase::AwaitState);
}

#[test]
fn seed_from_two_words() {
    assert_eq!(random_seed(1, 2), (1u64 << 32) | 2);
    assert_eq!(random_seed(0xDEAD_BEEF, 0xFFFF_FFFF), 0xDEAD_BEEF_FFFF_FFFF);
    assert_eq!(random_seed(0, 0), 0);
}

#[test]
fn server_startup_and_one_client() {
    let mut s = ServerSupervisor::new();
    assert_eq!(s.action(), ServerAction::CheckLink);
    assert_eq!(s.step(ServerEvent::Link(false)), ServerAction::Sleep(500));
    assert_eq!(s.step(ServerEvent::Slept), ServerAction::CheckLink);
    assert_eq!(s.step(ServerEvent::Link(true)), ServerAction::CheckAddress);
    assert_eq!(s.step(ServerEvent::Address(false)), ServerAction::Sleep(500));
    assert_eq!(s.step(ServerEvent::Slept), ServerAction::CheckAddress);
    assert_eq!(s.step(ServerEvent::Address(true)), ServerAction::Sleep(1000));
    assert_eq!(s.step(ServerEvent::Slept), ServerAction::Accept { port: 80, timeout_secs: 10 });
    assert_eq!(s.step(ServerEvent::Accepted(false)), ServerAction::Sleep(1000));
    assert_eq!(s.step(ServerEvent::Slept), ServerAction::Accept { port: 80, timeout_secs: 10 });
    assert_eq!(s.step(ServerEvent::Accepted(true)), ServerAction::Read(512));
    assert_eq!(s.step(ServerEvent::Read(Some(b"GET / HTTP/1.0\r\n".to_vec()))), ServerAction::Read(496));
    assert_eq!(s.step(ServerEvent::Read(Some(b"\r\n".to_vec()))), ServerAction::Respond);
    assert_eq!(s.request(), &b"GET / HTTP/1.0\r\n\r\n".to_vec());
    assert_eq!(s.step(ServerEvent::Responded), ServerAction::Sleep(1000));
    assert_eq!(s.step(ServerEvent::Slept), ServerAction::Accept { port: 80, timeout_secs: 10 });
    assert_eq!(s.step(ServerEvent::Accepted(true)), ServerAction::Read(512));
    assert!(s.request().is_empty());
    assert_eq!(s.step(ServerEvent::Read(None)), ServerAction::Respond);
    assert_eq!(s.phase(), ServerPhase::Responding);
}

#[test]
fn server_client_closing_gets_answer() {
    let mut s = ServerSupervisor::new();
    s.step(ServerEvent::Link(true));
    s.step(ServerEvent::Address(true));
    s.step(ServerEvent::Slept);
    s.step(ServerEvent::Accepted(true));
    assert_eq!(s.step(ServerEvent::Read(Some(Vec::new()))), ServerAction::Respond);
}

#[test]
fn scan_stops_at_first_answer() {
    let mut s = AddressScan::new();
    for a in 1..=5u8 {
        assert_eq!(s.step(), ScanStep::Probe(a));
        s.report(a == 5);
    }
    assert_eq!(s.step(), ScanStep::Finished(Some(5)));
}

#[test]
fn scan_without_answer_probes_all() {
    let mut s = AddressScan::new();
    let mut probed = Vec::new();
    while let ScanStep::Probe(a) = s.step() {
        probed.push(a);
        s.report(false);
    }
    assert_eq!(probed, (1..=LAST_ADDRESS).collect::<Vec<_>>());
    assert_eq!(s.step(), ScanStep::Finished(None));
}
