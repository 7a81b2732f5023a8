use bancho::misc::{nonblock_outcome, nonblock_unwrap, time_diff, ByteCount, Duration, Instant};

#[test]
fn time_diff_is_the_distance_either_way() {
    let a = Instant { nanos: 5_000 };
    let b = Instant { nanos: 2_000 };
    assert_eq!(time_diff(a, b), Duration { nanos: 3_000 });
    assert_eq!(time_diff(b, a), Duration { nanos: 3_000 });
    assert_eq!(time_diff(a, a), Duration { nanos: 0 });
}

#[test]
fn durations_from_milliseconds() {
    assert_eq!(Duration::from_millis(48_000), Duration { nanos: 48_000_000_000 });
    assert_eq!(Duration::from_millis(0), Duration { nanos: 0 });
}

#[test]
fn elapsed_saturates_at_zero() {
    let t = Instant { nanos: 100 };
    assert_eq!(t.elapsed_at(Instant { nanos: 150 }), Duration { nanos: 50 });
    assert_eq!(t.elapsed_at(Instant { nanos: 50 }), Duration { nanos: 0 });
}

#[test]
fn byte_counts_of_wire_values() {
    assert_eq!("abc".to_string().byte_count(), 5);
    assert_eq!("é".to_string().byte_count(), 4);
    assert_eq!(String::new().byte_count(), 2);
    assert_eq!(1i64.byte_count(), 8);
    assert_eq!(1u32.byte_count(), 4);
    assert_eq!(1i32.byte_count(), 4);
    assert_eq!(1u16.byte_count(), 2);
    assert_eq!(1i16.byte_count(), 2);
    assert_eq!(1u8.byte_count(), 1);
}

#[test]
fn nonblock_unwrap_keeps_values() {
    let r = nonblock_unwrap(Ok::<usize, std::io::Error>(2));
    assert_eq!(r.unwrap(), Some(2));
}

#[test]
fn nonblock_unwrap_turns_would_block_into_none() {
    let e = std::io::Error::from(std::io::ErrorKind::WouldBlock);
    let r = nonblock_unwrap(Err::<usize, _>(e));
    assert_eq!(r.unwrap(), None);
}

#[test]
fn nonblock_unwrap_hands_on_other_errors() {
    let e = std::io::Error::from(std::io::ErrorKind::ConnectionReset);
    let r = nonblock_unwrap(Err::<usize, _>(e));
    assert_eq!(r.unwrap_err().kind(), std::io::ErrorKind::ConnectionReset);
}

#[test]
fn nonblock_outcome_decides_by_the_given_kind() {
    assert_eq!(nonblock_outcome::<u8, &str>(Ok(5), false), Ok(Some(5)));
    assert_eq!(nonblock_outcome::<u8, &str>(Ok(5), true), Ok(Some(5)));
    assert_eq!(nonblock_outcome::<u8, &str>(Err("wait"), true), Ok(None));
    assert_eq!(nonblock_outcome::<u8, &str>(Err("reset"), false), Err("reset"));
}

#[test]
fn nonblock_unwrap_hands_on_interrupted_errors() {
    let e = std::io::Error::new(std::io::ErrorKind::Interrupted, "signal");
    let r = nonblock_unwrap(Err::<u8, _>(e)).unwrap_err();
    assert_eq!(r.kind(), std::io::ErrorKind::Interrupted);
    assert_eq!(r.to_string(), "signal");
}
