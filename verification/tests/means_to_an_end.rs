use protohackers::means_to_an_end::handler::{
    handle, Action, Event, Handled, PriceFeed, Stage, UNRECOGNIZED,
};
use protohackers::means_to_an_end::protocol::{serialize_mean, Message, MESSAGE_LEN};
use protohackers::means_to_an_end::session::Session;
use protohackers::server::Metrics;

fn message(kind: u8, first: i32, second: i32) -> Vec<u8> {
    let mut bytes = vec![kind];
    bytes.extend_from_slice(&first.to_be_bytes());
    bytes.extend_from_slice(&second.to_be_bytes());
    bytes
}

#[test]
fn insert_is_parsed() {
    let bytes = [0x49, 0x00, 0x00, 0x30, 0x39, 0x00, 0x00, 0x00, 0x65];
    assert_eq!(Message::parse(&bytes), Some(Message::Insert { timestamp: 12345, price: 101 }));
}

#[test]
fn query_is_parsed() {
    let bytes = [0x51, 0x00, 0x00, 0x03, 0xe8, 0x00, 0x01, 0x86, 0xa0];
    assert_eq!(Message::parse(&bytes), Some(Message::Query { mintime: 1000, maxtime: 100000 }));
}

#[test]
fn numbers_are_signed_and_big_endian() {
    for value in [0, 1, -1, 255, 256, -256, 65536, i32::MAX, i32::MIN, 0x01020304, -0x01020304] {
        let bytes = message(b'I', value, -value.wrapping_add(3));
        assert_eq!(
            Message::parse(&bytes),
            Some(Message::Insert { timestamp: value, price: -value.wrapping_add(3) })
        );
        assert_eq!(serialize_mean(value), value.to_be_bytes());
    }
}

#[test]
fn other_lengths_and_letters_are_no_message() {
    assert_eq!(MESSAGE_LEN, 9);
    assert_eq!(Message::parse(&[]), None);
    assert_eq!(Message::parse(&[0x49; 8]), None);
    assert_eq!(Message::parse(&[0x49; 10]), None);
    assert_eq!(Message::parse(&message(b'X', 1, 2)), None);
    assert_eq!(Message::parse(&message(b'i', 1, 2)), None);
    assert_eq!(Message::parse(&message(b'q', 1, 2)), None);
}

#[test]
fn mean_is_serialised_most_significant_byte_first() {
    assert_eq!(serialize_mean(101), [0x00, 0x00, 0x00, 0x65]);
    assert_eq!(serialize_mean(-1), [0xff, 0xff, 0xff, 0xff]);
    assert_eq!(serialize_mean(i32::MIN), [0x80, 0x00, 0x00, 0x00]);
    assert_eq!(serialize_mean(0x12345678), [0x12, 0x34, 0x56, 0x78]);
}

#[test]
fn mean_of_the_period() {
    let mut session = Session::new();
    session.insert(12345, 101);
    session.insert(12346, 102);
    session.insert(12347, 100);
    session.insert(40960, 5);
    assert_eq!(session.query(12288, 16384), 101);
    assert_eq!(session.query(12345, 12345), 101);
    assert_eq!(session.query(0, 50000), 77);
}

#[test]
fn mean_of_an_empty_period_is_zero() {
    let mut session = Session::new();
    assert_eq!(session.query(0, 100), 0);
    session.insert(10, 50);
    assert_eq!(session.query(11, 100), 0);
    assert_eq!(session.query(100, 0), 0);
}

#[test]
fn mean_is_rounded_towards_zero() {
    let mut session = Session::new();
    session.insert(1, -3);
    session.insert(2, -4);
    assert_eq!(session.query(0, 10), -3);
    session.insert(3, 8);
    session.insert(4, 2);
    assert_eq!(session.query(3, 4), 5);
    assert_eq!(session.query(0, 10), 0);
    let mut other = Session::new();
    other.insert(1, 7);
    other.insert(2, 8);
    assert_eq!(other.query(1, 2), 7);
}

#[test]
fn mean_of_extreme_prices() {
    let mut session = Session::new();
    for t in 0..4 {
        session.insert(t, i32::MAX);
    }
    assert_eq!(session.query(0, 3), i32::MAX);
    let mut session = Session::new();
    for t in 0..4 {
        session.insert(t, i32::MIN);
    }
    assert_eq!(session.query(i32::MIN, i32::MAX), i32::MIN);
}

#[test]
fn handler_stores_answers_and_turns_down() {
    let mut session = Session::new();
    assert_eq!(handle(&mut session, &message(b'I', 12345, 101)), Handled::Stored);
    assert_eq!(handle(&mut session, &message(b'I', 12346, 102)), Handled::Stored);
    assert_eq!(
        handle(&mut session, &message(b'Q', 12288, 16384)),
        Handled::Mean([0x00, 0x00, 0x00, 0x65])
    );
    assert_eq!(handle(&mut session, &message(b'Z', 0, 0)), Handled::Unrecognized);
    assert_eq!(handle(&mut session, b"short"), Handled::Unrecognized);
    assert_eq!(session.query(0, 20000), 101);
    assert_eq!(UNRECOGNIZED, "unrecognized request, disconnecting");
}

#[test]
fn feed_takes_prices_and_answers_queries() {
    let mut metrics = Metrics::new();
    let mut feed = PriceFeed::new();
    assert_eq!(feed.stage, Stage::Reading);
    assert_eq!(feed.step(&mut metrics, Event::Message(message(b'I', 12345, 101))), Action::Read);
    assert_eq!(feed.step(&mut metrics, Event::Message(message(b'I', 12347, 100))), Action::Read);
    assert_eq!(feed.stage, Stage::Reading);
    assert_eq!(
        feed.step(&mut metrics, Event::Message(message(b'Q', 12288, 16384))),
        Action::Write(vec![0x00, 0x00, 0x00, 0x64])
    );
    assert_eq!(feed.stage, Stage::Answering);
    assert_eq!(feed.step(&mut metrics, Event::Written), Action::Read);
    assert_eq!(metrics.snapshot().bytes_received, 27);
    assert_eq!(metrics.snapshot().bytes_sent, 0);
    assert_eq!(metrics.snapshot().errors_total, 0);
    assert_eq!(feed.session.query(0, 20000), 100);
}

#[test]
fn feed_ends_on_what_is_no_message() {
    let mut metrics = Metrics::new();
    let mut feed = PriceFeed::new();
    assert_eq!(
        feed.step(&mut metrics, Event::Message(message(b'?', 0, 0))),
        Action::Write(b"unrecognized request, disconnecting".to_vec())
    );
    assert_eq!(feed.stage, Stage::Refusing);
    assert_eq!(feed.step(&mut metrics, Event::Written), Action::Finish { failed: false });
    assert_eq!(feed.stage, Stage::Done);
    assert_eq!(
        feed.step(&mut metrics, Event::Message(message(b'I', 1, 1))),
        Action::Finish { failed: false }
    );
    assert_eq!(metrics.snapshot().bytes_received, 9);
}

#[test]
fn feed_counts_failed_reads_and_reports_failed_writes() {
    let mut metrics = Metrics::new();
    let mut feed = PriceFeed::new();
    assert_eq!(feed.step(&mut metrics, Event::ReadFailed), Action::Finish { failed: false });
    assert_eq!(metrics.snapshot().errors_total, 1);

    let mut feed = PriceFeed::new();
    feed.step(&mut metrics, Event::Message(message(b'Q', 0, 1)));
    assert_eq!(feed.step(&mut metrics, Event::WriteFailed), Action::Finish { failed: true });
    assert_eq!(metrics.snapshot().errors_total, 1);

    let mut feed = PriceFeed::new();
    assert_eq!(feed.step(&mut metrics, Event::Closed), Action::Finish { failed: false });
    assert_eq!(metrics.snapshot().errors_total, 1);
}
