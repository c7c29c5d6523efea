use touch_proxy::drain::{Drain, DrainAction, LinkOutcome};

fn run(frames: usize) -> (Vec<DrainAction>, Vec<Vec<u8>>) {
    let mut drain = Drain::new();
    let mut actions = Vec::new();
    let mut sent = Vec::new();
    let mut left = frames;
    loop {
        actions.push(drain.next);
        let outcome = match drain.next {
            DrainAction::SendReset | DrainAction::SendHalt => {
                sent.push(drain.command().unwrap());
                LinkOutcome::Done
            }
            DrainAction::ReadFrame => {
                if left == 0 {
                    LinkOutcome::TimedOut
                } else {
                    left -= 1;
                    LinkOutcome::Done
                }
            }
            _ => break,
        };
        drain.step(outcome);
    }
    (actions, sent)
}

#[test]
fn drain_sends_reset_then_halt_and_consumes_frames() {
    let (actions, sent) = run(3);
    assert_eq!(sent, vec![b"{RSET}".to_vec(), b"{HALT}".to_vec()]);
    assert_eq!(
        actions,
        vec![
            DrainAction::SendReset,
            DrainAction::SendHalt,
            DrainAction::ReadFrame,
            DrainAction::ReadFrame,
            DrainAction::ReadFrame,
            DrainAction::ReadFrame,
            DrainAction::Finished,
        ]
    );
}

#[test]
fn drain_of_silent_link() {
    let (actions, _) = run(0);
    assert_eq!(actions.len(), 4);
    assert_eq!(actions[3], DrainAction::Finished);
}

#[test]
fn drain_aborts_on_failure() {
    let mut drain = Drain::new();
    assert_eq!(drain.step(LinkOutcome::Failed), DrainAction::Aborted);
    let mut drain = Drain::new();
    drain.step(LinkOutcome::Done);
    drain.step(LinkOutcome::Done);
    drain.step(LinkOutcome::Done);
    assert_eq!(drain.step(LinkOutcome::Failed), DrainAction::Aborted);
    assert!(drain.command().is_none());
}
