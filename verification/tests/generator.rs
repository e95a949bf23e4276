use snowflake::layout::{compose, node_id_of, sequence_of, timestamp_of};
use snowflake::{Error, Outcome, Snowflake};

fn generator(epoch: u128, node_id: u16) -> Snowflake {
    match Snowflake::new(epoch, node_id) {
        Ok(g) => g,
        Err(e) => panic!("generator refused: {:?}", e),
    }
}

fn issued(g: &mut Snowflake, now_ms: u128) -> u64 {
    match g.generate(now_ms) {
        Ok(Outcome::Issued(id)) => id,
        other => panic!("no identifier at {}: {:?}", now_ms, other),
    }
}

/// Drives a generator the way a caller does: hand in a reading, and on
/// exhaustion wait, which here moves the clock on by `step_ms`.
fn generate_waiting(g: &mut Snowflake, clock_ms: &mut u128, waits: &mut u32, step_ms: u128) -> u64 {
    loop {
        match g.generate(*clock_ms) {
            Ok(Outcome::Issued(id)) => return id,
            Ok(Outcome::Exhausted) => {
                *waits += 1;
                *clock_ms += step_ms;
            }
            Err(e) => panic!("reading {} refused: {:?}", *clock_ms, e),
        }
    }
}

#[test]
fn new_accepts_node_ids_up_to_1023() {
    assert!(Snowflake::new(0, 0).is_ok());
    assert!(Snowflake::new(0, 5).is_ok());
    assert!(Snowflake::new(1_600_000_000_000, 1023).is_ok());
    assert!(Snowflake::new(u128::MAX, 1023).is_ok());
}

#[test]
fn new_refuses_node_ids_over_1023() {
    assert_eq!(Snowflake::new(0, 1024).err(), Some(Error::InvalidConfiguration));
    assert_eq!(Snowflake::new(0, 1029).err(), Some(Error::InvalidConfiguration));
    assert_eq!(Snowflake::new(77, u16::MAX).err(), Some(Error::InvalidConfiguration));
}

#[test]
fn first_and_second_call_in_one_millisecond() {
    let mut g: Snowflake = generator(0, 5);
    let first: Result<Outcome, Error> = g.generate(1000);
    assert_eq!(first, Ok(Outcome::Issued((1000u64 << 22) | (5u64 << 12) | 0)));
    let second: Result<Outcome, Error> = g.generate(1000);
    assert_eq!(second, Ok(Outcome::Issued((1000u64 << 22) | (5u64 << 12) | 1)));
    assert_eq!(first, Ok(Outcome::Issued(4_194_324_480)));
    assert_eq!(second, Ok(Outcome::Issued(4_194_324_481)));
}

#[test]
fn epoch_is_subtracted_from_the_reading() {
    let mut g: Snowflake = generator(1_600_000_000_000, 1);
    let id: u64 = issued(&mut g, 1_600_000_000_123);
    assert_eq!(id, compose(123, 1, 0));
    assert_eq!(id, (123u64 << 22) | (1u64 << 12));
    assert_eq!(timestamp_of(id), 123);
}

#[test]
fn reading_before_the_epoch_is_a_clock_regression() {
    let mut g: Snowflake = generator(5000, 3);
    assert_eq!(g.generate(4999), Err(Error::ClockRegression));
    assert_eq!(g.generate(0), Err(Error::ClockRegression));
}

#[test]
fn clock_regression_changes_nothing() {
    let mut g: Snowflake = generator(5000, 3);
    assert_eq!(issued(&mut g, 6000), compose(1000, 3, 0));
    assert_eq!(issued(&mut g, 6000), compose(1000, 3, 1));
    assert_eq!(g.generate(4999), Err(Error::ClockRegression));
    assert_eq!(issued(&mut g, 6000), compose(1000, 3, 2));
}

#[test]
fn reading_too_far_after_the_epoch_is_an_overflow() {
    let mut g: Snowflake = generator(10, 3);
    let span: u128 = 1u128 << 42;
    assert_eq!(g.generate(10 + span), Err(Error::TimestampOverflow));
    assert_eq!(g.generate(u128::MAX), Err(Error::TimestampOverflow));
    assert_eq!(issued(&mut g, 10 + span - 1), compose((1u64 << 42) - 1, 3, 0));
}

#[test]
fn overflow_changes_nothing() {
    let mut g: Snowflake = generator(0, 9);
    assert_eq!(issued(&mut g, 42), compose(42, 9, 0));
    assert_eq!(g.generate(1u128 << 42), Err(Error::TimestampOverflow));
    assert_eq!(issued(&mut g, 42), compose(42, 9, 1));
}

#[test]
fn largest_epoch_accepts_only_itself() {
    let mut g: Snowflake = generator(u128::MAX, 0);
    assert_eq!(g.generate(u128::MAX - 1), Err(Error::ClockRegression));
    assert_eq!(issued(&mut g, u128::MAX), compose(0, 0, 0));
    assert_eq!(issued(&mut g, u128::MAX), compose(0, 0, 1));
}

#[test]
fn first_reading_at_the_epoch_opens_a_millisecond() {
    let mut g: Snowflake = generator(1000, 5);
    assert_eq!(g.generate(1000), Ok(Outcome::Issued(20480)));
    assert_eq!(issued(&mut g, 1000), compose(0, 5, 1));
    assert_eq!(issued(&mut g, 1001), compose(1, 5, 0));
}

#[test]
fn first_call_has_sequence_zero_at_any_reading() {
    let readings: Vec<u128> = vec![0, 1, 1000, (1u128 << 42) - 1];
    for now_ms in readings {
        let mut g: Snowflake = generator(0, 0);
        let id: u64 = issued(&mut g, now_ms);
        assert_eq!(sequence_of(id), 0);
        assert_eq!(id, compose(now_ms as u64, 0, 0));
    }
    let mut g: Snowflake = generator(0, 0);
    assert_eq!(g.generate(0), Ok(Outcome::Issued(0)));
    assert_eq!(g.generate(0), Ok(Outcome::Issued(1)));
}

#[test]
fn rejected_reading_before_the_first_call_leaves_it_the_first() {
    let mut g: Snowflake = generator(1000, 5);
    assert_eq!(g.generate(999), Err(Error::ClockRegression));
    assert_eq!(g.generate(1000 + (1u128 << 42)), Err(Error::TimestampOverflow));
    assert_eq!(g.generate(1000), Ok(Outcome::Issued(compose(0, 5, 0))));
}

#[test]
fn issued_fields_round_trip() {
    let mut g: Snowflake = generator(250, 777);
    let readings: Vec<u128> = vec![250, 250, 251, 300, 300, 300, 1_000_000, 1_000_000];
    let sequences: Vec<u16> = vec![0, 1, 0, 0, 1, 2, 0, 1];
    for k in 0..readings.len() {
        let id: u64 = issued(&mut g, readings[k]);
        assert_eq!(timestamp_of(id) as u128, readings[k] - 250);
        assert_eq!(node_id_of(id), 777);
        assert_eq!(sequence_of(id), sequences[k]);
        assert!(sequence_of(id) <= 4095);
    }
}

#[test]
fn timestamps_never_decrease_with_a_steady_clock() {
    let mut g: Snowflake = generator(0, 1);
    let readings: Vec<u128> = vec![1, 1, 1, 2, 5, 5, 8, 13, 13, 13, 21];
    let mut previous: u64 = 0;
    for now_ms in readings {
        let id: u64 = issued(&mut g, now_ms);
        assert!(timestamp_of(id) >= previous);
        assert_eq!(timestamp_of(id) as u128, now_ms);
        previous = timestamp_of(id);
    }
}

#[test]
fn identifiers_grow_with_a_steady_clock() {
    let mut g: Snowflake = generator(0, 1);
    let readings: Vec<u128> = vec![1, 1, 1, 2, 5, 5, 8, 13, 13, 13, 21];
    let mut previous: u64 = 0;
    for now_ms in readings {
        let id: u64 = issued(&mut g, now_ms);
        assert!(id > previous);
        previous = id;
    }
}

#[test]
fn same_millisecond_increments_sequence_by_one() {
    let mut g: Snowflake = generator(0, 12);
    let first: u64 = issued(&mut g, 70);
    let second: u64 = issued(&mut g, 70);
    let third: u64 = issued(&mut g, 70);
    assert_ne!(sequence_of(first), sequence_of(second));
    assert_eq!(sequence_of(second), (sequence_of(first) + 1) % 4096);
    assert_eq!(sequence_of(third), (sequence_of(second) + 1) % 4096);
    assert_eq!(second, first + 1);
    assert_eq!(third, second + 1);
}

#[test]
fn new_millisecond_resets_sequence() {
    let mut g: Snowflake = generator(0, 12);
    for expected in 0u16..100 {
        assert_eq!(sequence_of(issued(&mut g, 70)), expected);
    }
    let id: u64 = issued(&mut g, 71);
    assert_eq!(sequence_of(id), 0);
    assert_eq!(id, compose(71, 12, 0));
    assert_eq!(sequence_of(issued(&mut g, 71)), 1);
    assert_eq!(sequence_of(issued(&mut g, 9000)), 0);
}

#[test]
fn earlier_millisecond_also_resets_sequence() {
    let mut g: Snowflake = generator(0, 12);
    assert_eq!(issued(&mut g, 70), compose(70, 12, 0));
    assert_eq!(issued(&mut g, 70), compose(70, 12, 1));
    assert_eq!(issued(&mut g, 69), compose(69, 12, 0));
    assert_eq!(issued(&mut g, 69), compose(69, 12, 1));
}

#[test]
fn millisecond_budget_is_4096_identifiers() {
    let mut g: Snowflake = generator(0, 5);
    for expected in 0u16..4096 {
        assert_eq!(g.generate(1000), Ok(Outcome::Issued(compose(1000, 5, expected))));
    }
    assert_eq!(g.generate(1000), Ok(Outcome::Exhausted));
    assert_eq!(g.generate(1001), Ok(Outcome::Issued(compose(1001, 5, 0))));
}

#[test]
fn frozen_clock_waits_once_in_4097_calls() {
    let mut g: Snowflake = generator(0, 5);
    let mut clock_ms: u128 = 1000;
    let mut waits: u32 = 0;
    let opening: u64 = generate_waiting(&mut g, &mut clock_ms, &mut waits, 1);
    assert_eq!(opening, compose(1000, 5, 0));
    for expected in 1u16..4096 {
        let id: u64 = generate_waiting(&mut g, &mut clock_ms, &mut waits, 1);
        assert_eq!(sequence_of(id), expected);
        assert_eq!(timestamp_of(id), 1000);
        assert_eq!(waits, 0);
    }
    assert_eq!(clock_ms, 1000);
    let after: u64 = generate_waiting(&mut g, &mut clock_ms, &mut waits, 1);
    assert_eq!(waits, 1);
    assert_eq!(clock_ms, 1001);
    assert_eq!(sequence_of(after), 0);
    assert_eq!(after, compose(1001, 5, 0));
}

#[test]
fn identifiers_are_unique_across_wraps() {
    let mut g: Snowflake = generator(100, 1023);
    let mut clock_ms: u128 = 100;
    let mut waits: u32 = 0;
    let mut ids: Vec<u64> = Vec::new();
    for k in 0u32..10_000 {
        if k % 5000 == 4999 {
            clock_ms += 2;
        }
        ids.push(generate_waiting(&mut g, &mut clock_ms, &mut waits, 1));
    }
    assert!(waits >= 1);
    for k in 1..ids.len() {
        assert!(ids[k - 1] < ids[k]);
        assert_eq!(node_id_of(ids[k]), 1023);
    }
    ids.sort();
    ids.dedup();
    assert_eq!(ids.len(), 10_000);
}

#[test]
fn exhausted_call_leaves_the_counter_at_zero() {
    let mut g: Snowflake = generator(0, 2);
    for _ in 0u16..4096 {
        issued(&mut g, 30);
    }
    assert_eq!(g.generate(30), Ok(Outcome::Exhausted));
    assert_eq!(g.generate(30), Ok(Outcome::Issued(compose(30, 2, 1))));
}

#[test]
fn two_nodes_never_share_an_identifier() {
    let mut a: Snowflake = generator(0, 1);
    let mut b: Snowflake = generator(0, 2);
    for now_ms in 1u128..50 {
        let x: u64 = issued(&mut a, now_ms);
        let y: u64 = issued(&mut b, now_ms);
        assert_ne!(x, y);
        assert_eq!(timestamp_of(x), timestamp_of(y));
        assert_eq!(sequence_of(x), sequence_of(y));
    }
}

#[test]
fn errors_and_outcomes_compare_and_copy() {
    let e: Error = Error::ClockRegression;
    let f: Error = e;
    assert_eq!(e, f);
    assert_ne!(Error::ClockRegression, Error::TimestampOverflow);
    assert_ne!(Error::InvalidConfiguration, Error::ClockRegression);
    let o: Outcome = Outcome::Issued(7);
    let p: Outcome = o;
    assert_eq!(o, p);
    assert_ne!(Outcome::Issued(7), Outcome::Issued(8));
    assert_ne!(Outcome::Issued(0), Outcome::Exhausted);
    assert_eq!(format!("{:?}", Outcome::Exhausted), "Exhausted");
}
