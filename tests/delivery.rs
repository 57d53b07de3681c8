use tox::delivery::{Action, Event, Phase, SendError, Transfer};

/// Runs a transfer of `values` against a destination that accepts the first
/// `accepts` values and then fails, or never answers when `stall` is set.
fn drive(values: &[u32], accepts: usize, stall: bool) -> (Vec<u32>, Result<(), SendError<&'static str>>) {
    let mut t = Transfer::for_sequence();
    let mut pending = values.iter();
    let mut delivered = Vec::new();
    let mut action: Action<u32, &'static str> = Action::Pull;
    loop {
        let event = match action {
            Action::Pull => match pending.next() {
                Some(v) => Event::Produced(*v),
                None => Event::Exhausted,
            },
            Action::Deliver(v) => {
                if stall {
                    Event::Elapsed
                } else if delivered.len() < accepts {
                    delivered.push(v);
                    Event::Accepted
                } else {
                    Event::Failed("closed")
                }
            }
            Action::Finish(r) => return (delivered, r),
        };
        assert!(t.accepts(&event));
        action = t.step(event);
    }
}

#[test]
fn send_all_delivers_in_order() {
    let (delivered, r) = drive(&[10, 20, 30], 3, false);
    assert_eq!(delivered, vec![10, 20, 30]);
    assert_eq!(r, Ok(()));
}

#[test]
fn send_all_of_nothing_succeeds() {
    let (delivered, r) = drive(&[], 0, false);
    assert!(delivered.is_empty());
    assert_eq!(r, Ok(()));
}

#[test]
fn send_all_stops_at_first_failure() {
    let (delivered, r) = drive(&[1, 2, 3, 4], 2, false);
    assert_eq!(delivered, vec![1, 2]);
    assert_eq!(r, Err(SendError::Inner("closed")));
}

#[test]
fn stalled_destination_times_out() {
    let (delivered, r) = drive(&[5, 6], 2, true);
    assert!(delivered.is_empty());
    assert_eq!(r, Err(SendError::TimedOut));
}

#[test]
fn single_value_is_delivered_then_finished() {
    let (mut t, a) = Transfer::for_value::<u8, ()>(7);
    assert_eq!(a, Action::Deliver(7));
    assert_eq!(t.phase, Phase::Delivering);
    assert!(!t.accepts(&Event::<u8, ()>::Produced(1)));
    assert_eq!(t.step::<u8, ()>(Event::Accepted), Action::Finish(Ok(())));
    assert!(t.is_finished());
    assert!(!t.accepts(&Event::<u8, ()>::Elapsed));
}

#[test]
fn single_value_times_out_on_deadline() {
    let (mut t, _) = Transfer::for_value::<u8, ()>(7);
    assert_eq!(t.step::<u8, ()>(Event::Elapsed), Action::Finish(Err(SendError::TimedOut)));
    assert!(t.is_finished());
}

#[test]
fn destination_error_is_passed_on_unchanged() {
    let (mut t, _) = Transfer::for_value::<u8, i32>(7);
    assert_eq!(t.step::<u8, i32>(Event::Failed(-3)), Action::Finish(Err(SendError::Inner(-3))));
}

#[test]
fn sequence_end_while_pulling_finishes() {
    let mut t = Transfer::for_sequence();
    assert!(t.accepts(&Event::<u8, ()>::Exhausted));
    assert!(!t.accepts(&Event::<u8, ()>::Accepted));
    assert_eq!(t.step::<u8, ()>(Event::Produced(1)), Action::Deliver(1));
    assert_eq!(t.step::<u8, ()>(Event::Accepted), Action::Pull);
    assert_eq!(t.step::<u8, ()>(Event::Exhausted), Action::Finish(Ok(())));
    assert_eq!(t, Transfer { phase: Phase::Finished, more: true });
}
