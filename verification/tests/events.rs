use std::sync::Arc;
use std::time::{Duration, Instant};

use event_wait::{
    wait_for_all, wait_for_all_until, wait_for_all_with, wait_for_any, wait_for_any_until,
    wait_for_any_with, Event,
};

/// Pauses the calling thread by waiting out a deadline on an event that
/// nobody ever notifies.
fn sleep_ms(ms: u64) {
    let pause = Event::new(false, false).unwrap();
    let r = pause.wait_for(Duration::from_millis(ms));
    assert!(r.timed_out());
}

fn unsignaled_events(n: usize) -> Vec<Arc<Event>> {
    let mut v = vec![];
    for _ in 0..n {
        v.push(Arc::new(Event::new(false, false).unwrap()));
    }
    v
}

#[test]
fn test_wait() {
    let event = Event::new(false, false).unwrap();
    crossbeam::scope(|scope| {
        scope.spawn(|_| {
            event.wait();
        });
        event.notify();
    })
    .unwrap();
}

#[test]
fn test_wait_for() {
    let event = Event::new(false, false).unwrap();
    let result = event.wait_for(Duration::from_millis(200));
    assert!(result.timed_out());
}

#[test]
fn test_wait_for_any() {
    let event_vec = unsignaled_events(5);
    crossbeam::scope(|scope| {
        let random_num = rand::random_range(0..event_vec.len());
        for (i, event_ref) in event_vec.iter().enumerate() {
            scope.spawn(move |_| {
                if i == random_num {
                    event_ref.notify();
                }
            });
        }
        assert_eq!(random_num, wait_for_any(&event_vec));
    })
    .unwrap();
}

#[test]
fn test_wait_for_any_with() {
    let event_vec = unsignaled_events(5);
    let result = wait_for_any_with(&event_vec, Duration::from_millis(200));
    assert!(result.is_err());
    assert!(result.unwrap_err().timed_out());
}

#[test]
fn test_wait_for_all() {
    let event_vec = unsignaled_events(5);
    crossbeam::scope(|scope| {
        for event_ref in event_vec.iter() {
            scope.spawn(move |_| {
                event_ref.notify();
            });
        }
        wait_for_all(&event_vec);
    })
    .unwrap();
}

#[test]
fn test_wait_for_all_with() {
    let event_vec = unsignaled_events(5);
    let result = wait_for_all_with(&event_vec, Duration::from_millis(200));
    assert!(result.timed_out());
}

#[test]
fn notify_before_wait_is_observed() {
    let event = Event::new(false, false).unwrap();
    event.notify();
    let start = Instant::now();
    event.wait();
    assert!(start.elapsed() < Duration::from_millis(500));

    let event2 = Arc::new(Event::new(false, false).unwrap());
    let notifier = event2.clone();
    crossbeam::scope(|scope| {
        scope.spawn(move |_| {
            sleep_ms(50);
            notifier.notify();
        });
        event2.wait();
    })
    .unwrap();
}

#[test]
fn any_returns_presignaled_index_immediately() {
    let events = unsignaled_events(5);
    events[3].notify();
    let start = Instant::now();
    assert_eq!(wait_for_any(&events), 3);
    assert!(start.elapsed() < Duration::from_millis(500));
    for e in events.iter() {
        assert_eq!(e.registration_count(), 0);
    }
}

#[test]
fn any_prefers_lowest_presignaled_index() {
    let events = unsignaled_events(5);
    events[4].notify();
    events[2].notify();
    assert_eq!(wait_for_any(&events), 2);
}

#[test]
fn any_returns_index_notified_later() {
    let events = unsignaled_events(5);
    crossbeam::scope(|scope| {
        let notified = &events[2];
        scope.spawn(move |_| {
            sleep_ms(50);
            notified.notify();
        });
        assert_eq!(wait_for_any(&events), 2);
    })
    .unwrap();
}

#[test]
fn all_blocks_until_every_event_notified() {
    let events = unsignaled_events(5);
    for e in events.iter().take(4) {
        e.notify();
    }
    let result = wait_for_all_with(&events, Duration::from_millis(200));
    assert!(result.timed_out());
    events[4].notify();
    let start = Instant::now();
    wait_for_all(&events);
    assert!(start.elapsed() < Duration::from_millis(500));
    for e in events.iter() {
        assert_eq!(e.registration_count(), 0);
    }
}

#[test]
fn group_waits_leave_no_registrations() {
    let events = unsignaled_events(5);
    let any = wait_for_any_with(&events, Duration::from_millis(100));
    assert!(any.is_err());
    for e in events.iter() {
        assert_eq!(e.registration_count(), 0);
    }
    let all = wait_for_all_with(&events, Duration::from_millis(100));
    assert!(all.timed_out());
    for e in events.iter() {
        assert_eq!(e.registration_count(), 0);
    }
    events[1].notify();
    assert_eq!(wait_for_any(&events), 1);
    for e in events.iter() {
        assert_eq!(e.registration_count(), 0);
    }
}

#[test]
fn manual_reset_stays_signaled_for_all_waiters() {
    let event = Arc::new(Event::new(false, false).unwrap());
    event.notify();
    crossbeam::scope(|scope| {
        for _ in 0..3 {
            let waiter = event.clone();
            scope.spawn(move |_| {
                let start = Instant::now();
                waiter.wait();
                assert!(start.elapsed() < Duration::from_millis(500));
            });
        }
    })
    .unwrap();
    assert!(!event.wait_for(Duration::from_millis(50)).timed_out());
    event.unnotify();
    assert!(event.wait_for(Duration::from_millis(100)).timed_out());
}

#[test]
fn auto_reset_signal_is_consumed_by_one_wait() {
    let event = Event::new(false, true).unwrap();
    event.notify();
    event.wait();
    assert!(event.wait_for(Duration::from_millis(100)).timed_out());
}

#[test]
fn initially_signaled_events() {
    let manual = Event::new(true, false).unwrap();
    assert!(!manual.wait_for(Duration::from_millis(50)).timed_out());
    assert!(!manual.wait_for(Duration::from_millis(50)).timed_out());
    let auto = Event::new(true, true).unwrap();
    auto.wait();
    assert!(auto.wait_for(Duration::from_millis(50)).timed_out());
}

#[test]
fn any_on_background_thread_returns_notified_index() {
    let events = unsignaled_events(5);
    let chosen = rand::random_range(0..events.len());
    let start = Instant::now();
    crossbeam::scope(|scope| {
        let slice = &events;
        let waiter = scope.spawn(move |_| wait_for_any(slice));
        sleep_ms(50);
        events[chosen].notify();
        assert_eq!(waiter.join().unwrap(), chosen);
    })
    .unwrap();
    assert!(start.elapsed() < Duration::from_millis(500));
    for (j, e) in events.iter().enumerate() {
        assert_eq!(e.registration_count(), 0);
        if j != chosen {
            assert!(e.wait_for(Duration::from_millis(1)).timed_out());
        }
    }
}

#[test]
fn all_counts_presignaled_events() {
    let events = unsignaled_events(3);
    for e in events.iter() {
        e.notify();
    }
    let start = Instant::now();
    wait_for_all(&events);
    assert!(start.elapsed() < Duration::from_millis(500));

    let mixed = unsignaled_events(3);
    mixed[0].notify();
    mixed[2].notify();
    crossbeam::scope(|scope| {
        let late = &mixed[1];
        scope.spawn(move |_| {
            sleep_ms(50);
            late.notify();
        });
        let result = wait_for_all_with(&mixed, Duration::from_millis(5000));
        assert!(!result.timed_out());
    })
    .unwrap();
}

#[test]
fn until_variants_respect_deadlines() {
    let event = Event::new(false, false).unwrap();
    let r = event.wait_until(Instant::now() + Duration::from_millis(150));
    assert!(r.timed_out());
    event.notify();
    let r = event.wait_until(Instant::now() + Duration::from_millis(150));
    assert!(!r.timed_out());

    let events = unsignaled_events(3);
    let any = wait_for_any_until(&events, Instant::now() + Duration::from_millis(150));
    assert!(any.is_err());
    assert!(any.unwrap_err().timed_out());
    let all = wait_for_all_until(&events, Instant::now() + Duration::from_millis(150));
    assert!(all.timed_out());

    events[0].notify();
    let any = wait_for_any_until(&events, Instant::now() + Duration::from_millis(150));
    assert_eq!(any.unwrap(), 0);
}

#[test]
fn any_does_not_consume_auto_reset_signal() {
    let events = vec![Arc::new(Event::new(true, true).unwrap())];
    assert_eq!(wait_for_any(&events), 0);
    events[0].wait();
    assert!(events[0].wait_for(Duration::from_millis(50)).timed_out());
}

#[test]
fn unnotify_cancels_pending_signal() {
    let event = Event::new(false, false).unwrap();
    event.notify();
    event.unnotify();
    assert!(event.wait_for(Duration::from_millis(100)).timed_out());
}

#[test]
fn empty_and_single_element_groups() {
    let none: Vec<Arc<Event>> = vec![];
    let start = Instant::now();
    wait_for_all(&none);
    assert!(start.elapsed() < Duration::from_millis(500));
    let r = wait_for_all_with(&none, Duration::from_millis(50));
    assert!(!r.timed_out());
    let r = wait_for_any_with(&none, Duration::from_millis(50));
    assert!(r.is_err());

    let one = unsignaled_events(1);
    one[0].notify();
    assert_eq!(wait_for_any(&one), 0);
    wait_for_all(&one);
}

#[test]
fn all_mode_double_notify_overshoots_target() {
    // The all-mode accumulator adds a credit on every notification, so a
    // second notification from the same registered event overshoots the
    // target and the wait can only end by deadline.
    let events = unsignaled_events(2);
    crossbeam::scope(|scope| {
        let pair = &events;
        scope.spawn(move |_| {
            sleep_ms(50);
            pair[0].notify();
            pair[0].notify();
            pair[1].notify();
        });
        let result = wait_for_all_with(&events, Duration::from_millis(300));
        assert!(result.timed_out());
    })
    .unwrap();
    for e in events.iter() {
        assert_eq!(e.registration_count(), 0);
    }
}

#[test]
fn duration_range_check() {
    assert!(event_wait::duration_in_range(&Duration::from_millis(200)));
    assert!(!event_wait::duration_in_range(&Duration::MAX));
}
