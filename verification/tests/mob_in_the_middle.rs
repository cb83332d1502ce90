use protohackers::mob_in_the_middle::proxy::{relay, UPSTREAM_ADDR};
use protohackers::mob_in_the_middle::rewrite::{
    rewrite_boguscoin, rewrite_matches, ADDRESS_PATTERN, TONY_ADDRESS,
};

#[test]
fn constants_of_the_relay() {
    assert_eq!(TONY_ADDRESS, "7YWHMfk9JZe0LM0g1ZauHuiSxhI");
    assert_eq!(ADDRESS_PATTERN, "\\b7[a-zA-Z0-9]{25,34}\\b");
    assert_eq!(UPSTREAM_ADDR, "chat.protohackers.com:16963");
}

#[test]
fn address_on_its_own_is_replaced() {
    assert_eq!(
        rewrite_boguscoin(b"7F1u3wSD5RbOHQmupo9nx4TnhQ"),
        b"7YWHMfk9JZe0LM0g1ZauHuiSxhI".to_vec()
    );
    assert_eq!(
        rewrite_boguscoin(b"7F1u3wSD5RbOHQmupo9nx4TnhQ\n"),
        b"7YWHMfk9JZe0LM0g1ZauHuiSxhI\n".to_vec()
    );
}

#[test]
fn address_in_a_sentence_is_replaced() {
    assert_eq!(
        rewrite_boguscoin(b"Hi alice, please send payment to 7iKDZEwPZSqIvDnHvVN2r0hUWXD5rHX\n"),
        b"Hi alice, please send payment to 7YWHMfk9JZe0LM0g1ZauHuiSxhI\n".to_vec()
    );
    assert_eq!(
        rewrite_boguscoin(b"[bob] 7LOrwbDlS8NujgjddyogWgIM93MV5N2VR to me\n"),
        b"[bob] 7YWHMfk9JZe0LM0g1ZauHuiSxhI to me\n".to_vec()
    );
}

#[test]
fn every_address_of_a_line_is_replaced() {
    assert_eq!(
        rewrite_boguscoin(
            b"7adNeSwJkMakpEcln9HEtthSRtxdmEHOT8T 7F1u3wSD5RbOHQmupo9nx4TnhQ 7iKDZEwPZSqIvDnHvVN2r0hUWXD5rHX\n"
        ),
        b"7YWHMfk9JZe0LM0g1ZauHuiSxhI 7YWHMfk9JZe0LM0g1ZauHuiSxhI 7YWHMfk9JZe0LM0g1ZauHuiSxhI\n"
            .to_vec()
    );
}

#[test]
fn what_is_too_short_or_too_long_is_kept() {
    let short = b"send to 7F1u3wSD5RbOHQmupo9nx4Tnh now\n";
    assert_eq!(rewrite_boguscoin(short), short.to_vec());
    let long = b"send to 7F1u3wSD5RbOHQmupo9nx4TnhQ0123456789 now\n";
    assert_eq!(rewrite_boguscoin(long), long.to_vec());
    let other = b"send to 8F1u3wSD5RbOHQmupo9nx4TnhQ now\n";
    assert_eq!(rewrite_boguscoin(other), other.to_vec());
}

#[test]
fn address_next_to_punctuation_is_kept() {
    let dashed = b"id 7F1u3wSD5RbOHQmupo9nx4TnhQ-ABCDEFGHIJKLMNOPQRST-1234 ok\n";
    assert_eq!(rewrite_boguscoin(dashed), dashed.to_vec());
    let quoted = b"pay \"7F1u3wSD5RbOHQmupo9nx4TnhQ\" please\n";
    assert_eq!(rewrite_boguscoin(quoted), quoted.to_vec());
    let comma = b"pay 7F1u3wSD5RbOHQmupo9nx4TnhQ, please\n";
    assert_eq!(rewrite_boguscoin(comma), comma.to_vec());
}

#[test]
fn text_without_addresses_is_kept() {
    assert_eq!(rewrite_boguscoin(b""), Vec::<u8>::new());
    assert_eq!(rewrite_boguscoin(b"hello world\n"), b"hello world\n".to_vec());
    assert_eq!(rewrite_boguscoin(b"\xff\xfe 7 \n"), b"\xff\xfe 7 \n".to_vec());
}

#[test]
fn spans_are_replaced_where_they_stand_alone() {
    let input = b"ab cd,ef gh";
    let out = rewrite_matches(input, &[(0, 2), (3, 5), (6, 8), (9, 11)]);
    assert_eq!(
        out,
        b"7YWHMfk9JZe0LM0g1ZauHuiSxhI cd,ef 7YWHMfk9JZe0LM0g1ZauHuiSxhI".to_vec()
    );
    assert_eq!(rewrite_matches(input, &[]), input.to_vec());
    assert_eq!(rewrite_matches(b"", &[]), Vec::<u8>::new());
    assert_eq!(rewrite_matches(b"x\ny", &[(2, 3)]), b"x\n7YWHMfk9JZe0LM0g1ZauHuiSxhI".to_vec());
}

#[test]
fn relay_passes_lines_on_and_ends_on_nothing() {
    assert_eq!(relay(b""), None);
    assert_eq!(relay(b"hello\n"), Some(b"hello\n".to_vec()));
    assert_eq!(
        relay(b"to 7F1u3wSD5RbOHQmupo9nx4TnhQ\n"),
        Some(b"to 7YWHMfk9JZe0LM0g1ZauHuiSxhI\n".to_vec())
    );
    assert_eq!(relay(b"no newline"), Some(b"no newline".to_vec()));
}
