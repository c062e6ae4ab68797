use collatz::{calc_sequence_reply, terminate_strings};

#[test]
fn reply_for_twelve() {
    let reply = calc_sequence_reply("12");
    assert!(!reply.failed);
    assert_eq!(reply.count, 10);
    assert_eq!(
        reply.strings,
        vec!["12\0", "6\0", "3\0", "10\0", "5\0", "16\0", "8\0", "4\0", "2\0", "1\0"]
    );
}

#[test]
fn reply_strings_hold_digits_and_one_closing_nul() {
    let reply = calc_sequence_reply("18446744073709551616");
    assert!(!reply.failed);
    assert_eq!(reply.count, reply.strings.len());
    assert_eq!(reply.count, 65);
    for s in &reply.strings {
        let bytes = s.as_bytes();
        assert!(bytes.len() >= 2);
        assert_eq!(bytes[bytes.len() - 1], 0);
        assert!(bytes[..bytes.len() - 1].iter().all(|b| b.is_ascii_digit()));
    }
    assert_eq!(reply.strings[0], "18446744073709551616\0");
    assert_eq!(reply.strings[64], "1\0");
}

#[test]
fn reply_on_failure_hands_over_nothing() {
    for text in ["", "12a", "0", "-5"] {
        let reply = calc_sequence_reply(text);
        assert!(reply.failed);
        assert_eq!(reply.count, 0);
        assert!(reply.strings.is_empty());
    }
}

#[test]
fn terminate_strings_closes_each_string_once() {
    let closed = terminate_strings(vec![String::from("12"), String::new(), String::from("1")]);
    assert_eq!(closed, vec!["12\0", "\0", "1\0"]);
    assert_eq!(terminate_strings(Vec::new()).len(), 0);
}
