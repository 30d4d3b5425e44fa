use smdr::delivery::{heartbeat_action, next_delay, DeliveryAttempt, DeliveryStep, HeartbeatAction, HeartbeatResult};
use smdr::stream::{handle_trimmed_line, read_step, ReadEvent, ReadOutcome, RECONNECT_DELAY_SECS};
use smdr::types::ParseError;

fn schedule(max_retries: u32, base: u64) -> Vec<DeliveryStep> {
    let mut attempt = DeliveryAttempt::new(max_retries, base);
    let mut steps = Vec::new();
    loop {
        let step = attempt.on_failure();
        steps.push(step);
        if step == DeliveryStep::Abandon {
            return steps;
        }
    }
}

#[test]
fn backoff_doubles_up_to_the_cap() {
    let steps = schedule(25, 30);
    assert_eq!(steps.len(), 25);
    let sleeps: Vec<u64> = steps[..24]
        .iter()
        .map(|s| match s {
            DeliveryStep::Retry { sleep_secs } => *sleep_secs,
            DeliveryStep::Abandon => panic!("abandoned early"),
        })
        .collect();
    assert_eq!(&sleeps[..8], &[30, 60, 120, 240, 480, 960, 1920, 3600]);
    assert!(sleeps[7..].iter().all(|s| *s == 3600));
    assert_eq!(steps[24], DeliveryStep::Abandon);
    assert_eq!(steps.iter().filter(|s| **s == DeliveryStep::Abandon).count(), 1);
}

#[test]
fn backoff_with_large_base() {
    let steps = schedule(3, 5000);
    assert_eq!(steps, vec![
        DeliveryStep::Retry { sleep_secs: 5000 },
        DeliveryStep::Retry { sleep_secs: 3600 },
        DeliveryStep::Abandon,
    ]);
}

#[test]
fn one_attempt_when_limit_is_zero_or_one() {
    assert_eq!(schedule(0, 30), vec![DeliveryStep::Abandon]);
    assert_eq!(schedule(1, 30), vec![DeliveryStep::Abandon]);
}

#[test]
fn next_delay_caps() {
    assert_eq!(next_delay(0), 0);
    assert_eq!(next_delay(7), 14);
    assert_eq!(next_delay(1799), 3598);
    assert_eq!(next_delay(1800), 3600);
    assert_eq!(next_delay(u64::MAX), 3600);
}

#[test]
fn heartbeat_sleeps() {
    assert_eq!(heartbeat_action(180, HeartbeatResult::Success), HeartbeatAction { sleep_secs: 180, report: false });
    assert_eq!(heartbeat_action(180, HeartbeatResult::BadStatus), HeartbeatAction { sleep_secs: 90, report: false });
    assert_eq!(heartbeat_action(180, HeartbeatResult::TransportError), HeartbeatAction { sleep_secs: 90, report: true });
    assert_eq!(heartbeat_action(4, HeartbeatResult::BadStatus), HeartbeatAction { sleep_secs: 5, report: false });
    assert_eq!(heartbeat_action(0, HeartbeatResult::Success), HeartbeatAction { sleep_secs: 0, report: false });
}

#[test]
fn read_steps() {
    let s = read_step(ReadEvent::Failed);
    assert!(!s.keep_connection);
    assert!(matches!(s.outcome, ReadOutcome::TransportFailed));
    let s = read_step(ReadEvent::Line("  \r\n".to_string()));
    assert!(s.keep_connection);
    assert!(matches!(s.outcome, ReadOutcome::NoRecord));
    let s = read_step(ReadEvent::Line("a,b\n".to_string()));
    assert!(s.keep_connection);
    assert!(matches!(s.outcome, ReadOutcome::Invalid(ParseError::MalformedRecord { expected: 17, actual: 2 })));
    assert_eq!(RECONNECT_DELAY_SECS, 10);
}

#[test]
fn line_is_trimmed_before_parsing() {
    let line = "\t t,0:0:1,0,c,In,d,e,f,0,id,1,g,h,i,j,0,0 \n".to_string();
    match read_step(ReadEvent::Line(line)).outcome {
        ReadOutcome::Record(r) => {
            assert_eq!(r.start, "t");
            assert_eq!(r.park_time, 0);
        }
        other => panic!("unexpected {:?}", other),
    }
}

#[test]
fn trimmed_line_outcomes() {
    assert!(matches!(handle_trimmed_line(""), ReadOutcome::NoRecord));
    assert!(matches!(handle_trimmed_line("x"), ReadOutcome::Invalid(_)));
}
