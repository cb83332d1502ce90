use protohackers::server::{
    datagram_bytes, format_stats, on_datagram_event, on_stream_event, DatagramAction,
    DatagramEvent, Metrics, Snapshot, StreamAction, StreamEvent, DATAGRAM_BUFFER_SIZE,
    REPORT_INTERVAL_SECS,
};
use protohackers::text::push_decimal;
use protohackers::smoke_test::{Echo, EchoAction, EchoEvent, EchoState};

#[test]
fn new_metrics_are_at_zero() {
    let metrics = Metrics::new();
    assert_eq!(
        metrics.snapshot(),
        Snapshot {
            connections_total: 0,
            connections_active: 0,
            bytes_received: 0,
            bytes_sent: 0,
            errors_total: 0,
        }
    );
}

#[test]
fn each_operation_moves_its_own_counter() {
    let mut metrics = Metrics::new();
    metrics.connection_opened();
    metrics.connection_opened();
    metrics.connection_closed();
    metrics.bytes_received(10);
    metrics.bytes_received(5);
    metrics.bytes_sent(7);
    metrics.error_occurred();
    assert_eq!(
        metrics.snapshot(),
        Snapshot {
            connections_total: 2,
            connections_active: 1,
            bytes_received: 15,
            bytes_sent: 7,
            errors_total: 1,
        }
    );
    assert_eq!(metrics.connections_total, 2);
    assert_eq!(metrics.connections_active, 1);
    assert_eq!(metrics.bytes_received, 15);
    assert_eq!(metrics.bytes_sent, 7);
    assert_eq!(metrics.errors_total, 1);
}

#[test]
fn counters_start_over_past_their_range() {
    let mut metrics = Metrics::new();
    metrics.bytes_received(u64::MAX);
    metrics.bytes_received(2);
    assert_eq!(metrics.snapshot().bytes_received, 1);
    metrics.connection_closed();
    assert_eq!(metrics.snapshot().connections_active, u64::MAX);
    metrics.connection_opened();
    assert_eq!(metrics.snapshot().connections_active, 0);
}

#[test]
fn uptime_does_not_go_back() {
    let metrics = Metrics::new();
    let first = metrics.uptime();
    let second = metrics.uptime();
    assert!(second >= first);
}

#[test]
fn report_interval_and_buffer_size() {
    assert_eq!(REPORT_INTERVAL_SECS, 30);
    assert_eq!(DATAGRAM_BUFFER_SIZE, 1024);
}

#[test]
fn stream_acceptor_counts_connections() {
    let mut metrics = Metrics::new();
    assert_eq!(on_stream_event(&mut metrics, StreamEvent::Accepted), StreamAction::Spawn);
    assert_eq!(on_stream_event(&mut metrics, StreamEvent::Accepted), StreamAction::Spawn);
    assert_eq!(metrics.snapshot().connections_total, 2);
    assert_eq!(metrics.snapshot().connections_active, 2);
    assert_eq!(
        on_stream_event(&mut metrics, StreamEvent::Finished { failed: false }),
        StreamAction::Continue
    );
    assert_eq!(metrics.snapshot().connections_active, 1);
    assert_eq!(metrics.snapshot().errors_total, 0);
    assert_eq!(
        on_stream_event(&mut metrics, StreamEvent::Finished { failed: true }),
        StreamAction::Continue
    );
    assert_eq!(metrics.snapshot().connections_active, 0);
    assert_eq!(metrics.snapshot().connections_total, 2);
    assert_eq!(metrics.snapshot().errors_total, 1);
}

#[test]
fn stream_acceptor_stops_when_accepting_fails() {
    let mut metrics = Metrics::new();
    assert_eq!(on_stream_event(&mut metrics, StreamEvent::AcceptFailed), StreamAction::Stop);
    assert_eq!(metrics.snapshot().errors_total, 1);
    assert_eq!(metrics.snapshot().connections_total, 0);
    assert_eq!(metrics.snapshot().connections_active, 0);
}

#[test]
fn datagram_acceptor_counts_and_goes_on() {
    let mut metrics = Metrics::new();
    let action = on_datagram_event(&mut metrics, DatagramEvent::Received(b"key=value".to_vec()));
    assert_eq!(action, DatagramAction::Spawn(b"key=value".to_vec()));
    assert_eq!(metrics.snapshot().bytes_received, 9);
    assert_eq!(
        on_datagram_event(&mut metrics, DatagramEvent::ReceiveFailed),
        DatagramAction::Continue
    );
    assert_eq!(
        on_datagram_event(&mut metrics, DatagramEvent::HandlerFailed),
        DatagramAction::Continue
    );
    assert_eq!(metrics.snapshot().errors_total, 2);
    assert_eq!(metrics.snapshot().connections_total, 0);
}

#[test]
fn datagram_bytes_are_copied_up_to_their_length() {
    let mut buffer = [0u8; 16];
    buffer[..5].copy_from_slice(b"hello");
    assert_eq!(datagram_bytes(&buffer, 5), b"hello".to_vec());
    assert_eq!(datagram_bytes(&buffer, 0), Vec::<u8>::new());
    assert_eq!(datagram_bytes(&buffer, 16), buffer.to_vec());
    assert_eq!(datagram_bytes(&buffer, 99), buffer.to_vec());
}

#[test]
fn echo_sends_back_what_it_was_sent() {
    let mut metrics = Metrics::new();
    let mut echo = Echo::new();
    assert_eq!(echo.state, EchoState::Reading);
    let action = echo.step(&mut metrics, EchoEvent::Received(b"ping".to_vec()));
    assert_eq!(action, EchoAction::Write(b"ping".to_vec()));
    assert_eq!(echo.state, EchoState::Writing { len: 4 });
    assert_eq!(metrics.snapshot().bytes_received, 4);
    assert_eq!(metrics.snapshot().bytes_sent, 0);
    assert_eq!(echo.step(&mut metrics, EchoEvent::Written), EchoAction::Read);
    assert_eq!(metrics.snapshot().bytes_sent, 4);
    assert_eq!(echo.step(&mut metrics, EchoEvent::Closed), EchoAction::Finish { failed: false });
    assert_eq!(echo.state, EchoState::Done);
}

#[test]
fn echo_fails_only_when_writing_fails() {
    let mut metrics = Metrics::new();
    let mut echo = Echo::new();
    echo.step(&mut metrics, EchoEvent::Received(b"ping".to_vec()));
    assert_eq!(
        echo.step(&mut metrics, EchoEvent::WriteFailed),
        EchoAction::Finish { failed: true }
    );
    assert_eq!(metrics.snapshot().errors_total, 0);
    assert_eq!(metrics.snapshot().bytes_sent, 0);

    let mut echo = Echo::new();
    assert_eq!(
        echo.step(&mut metrics, EchoEvent::ReadFailed),
        EchoAction::Finish { failed: false }
    );
    assert_eq!(metrics.snapshot().errors_total, 1);
}

#[test]
fn one_connection_that_sends_100_bytes_and_gets_50_back() {
    let mut metrics = Metrics::new();
    assert_eq!(on_stream_event(&mut metrics, StreamEvent::Accepted), StreamAction::Spawn);
    assert_eq!(metrics.snapshot().connections_active, 1);
    let mut echo = Echo::new();
    let first = vec![7u8; 50];
    assert_eq!(
        echo.step(&mut metrics, EchoEvent::Received(first.clone())),
        EchoAction::Write(first)
    );
    assert_eq!(echo.step(&mut metrics, EchoEvent::Written), EchoAction::Read);
    let second = vec![9u8; 50];
    assert_eq!(
        echo.step(&mut metrics, EchoEvent::Received(second.clone())),
        EchoAction::Write(second)
    );
    let action = echo.step(&mut metrics, EchoEvent::WriteFailed);
    assert_eq!(action, EchoAction::Finish { failed: true });
    on_stream_event(&mut metrics, StreamEvent::Finished { failed: true });
    let counters = metrics.snapshot();
    assert!(counters.bytes_received >= 100);
    assert!(counters.bytes_sent >= 50);
    assert_eq!(counters.bytes_received, 100);
    assert_eq!(counters.bytes_sent, 50);
    assert_eq!(counters.connections_total, 1);
    assert_eq!(counters.connections_active, 0);
    assert_eq!(counters.errors_total, 1);
}

#[test]
fn report_names_the_six_fields() {
    let counters = Snapshot {
        connections_total: 12,
        connections_active: 3,
        bytes_received: 4096,
        bytes_sent: 0,
        errors_total: u64::MAX,
    };
    assert_eq!(
        format_stats(counters, "30.000123s"),
        vec![
            "=== SERVER METRICS ===",
            "Uptime: 30.000123s",
            "Total connections: 12",
            "Active connections: 3",
            "Bytes received: 4096",
            "Bytes sent: 0",
            "Total errors: 18446744073709551615",
            "======================",
        ]
    );
}

#[test]
fn numbers_are_written_in_decimal() {
    for n in [0u64, 1, 9, 10, 11, 99, 100, 101, 1000, 65535, 1234567890, u64::MAX - 1, u64::MAX] {
        let mut text = String::from("n=");
        push_decimal(&mut text, n);
        assert_eq!(text, format!("n={n}"));
    }
}
