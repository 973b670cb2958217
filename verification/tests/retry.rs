use hook_core::retry::{auto_join_on_invite, connect_store_with_retry, Backoff, Next};

/// Runs attempts on a schedule: the delays, and how they end.
fn run(mut b: Backoff, attempt: impl Fn(usize) -> Result<u8, usize>) -> (Vec<u64>, Result<u8, usize>) {
    let mut all = Vec::new();
    for i in 0.. {
        match b.after(attempt(i)) {
            Next::Done(value) => return (all, Ok(value)),
            Next::Again { secs, rest, error } => {
                assert_eq!(error, i);
                all.push(secs);
                b = rest;
            }
            Next::GiveUp { secs, error } => {
                all.push(secs);
                return (all, Err(error));
            }
        }
    }
    unreachable!()
}

fn delays(b: Backoff) -> Vec<u64> {
    run(b, Err).0
}

#[test]
fn attempts_end_at_the_first_success() {
    let b = connect_store_with_retry();
    assert_eq!(run(b, |_| Ok(7)), (vec![], Ok(7)));
    let third = |i: usize| if i == 2 { Ok(7) } else { Err(i) };
    assert_eq!(run(b, third), (vec![1, 2], Ok(7)));
    let last = |i: usize| if i == 11 { Ok(7) } else { Err(i) };
    assert_eq!(run(b, last).1, Ok(7));
}

#[test]
fn attempts_end_with_the_last_error() {
    assert_eq!(run(connect_store_with_retry(), Err).1, Err(11));
    let once = Backoff { left: 1, delay: 3, longest: u64::MAX / 2 };
    assert_eq!(run(once, Err), (vec![3], Err(0)));
}

#[test]
fn invitations_of_others_are_ignored() {
    assert!(auto_join_on_invite("@bot:s", Some("@bot:s")).is_some());
    assert!(auto_join_on_invite("@eve:s", Some("@bot:s")).is_none());
    assert!(auto_join_on_invite("@bot:s", None).is_none());
}

#[test]
fn delays_double() {
    let joins = auto_join_on_invite("@bot:s", Some("@bot:s")).unwrap();
    assert_eq!(delays(joins), vec![1, 2, 4, 8, 16]);
    assert_eq!(delays(connect_store_with_retry()), vec![1, 2, 4, 8, 10, 10, 10, 10, 10, 10, 10, 10]);
}
