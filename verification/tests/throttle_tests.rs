use esmart_mqtt::throttle::Throttle;

const SEC: i128 = 1_000_000_000;

fn flush(v: &Option<Vec<u32>>) -> Option<Vec<u32>> {
    v.clone()
}

#[test]
fn first_reading_announces_and_publishes_its_value() {
    let mut t = Throttle::new(300);
    let r = t.on_reading("flow_1", 5, 1000 * SEC);
    assert!(r.announce);
    assert_eq!(flush(&r.flush), Some(vec![5]));
}

#[test]
fn readings_within_the_period_are_held() {
    let mut t = Throttle::new(300);
    t.on_reading("flow_1", 5, 1000 * SEC);
    let r = t.on_reading("flow_1", 6, 1100 * SEC);
    assert!(!r.announce);
    assert_eq!(flush(&r.flush), None);
    let r = t.on_reading("flow_1", 7, 1300 * SEC);
    assert_eq!(flush(&r.flush), None, "exactly at the end of the period: still held");
    let r = t.on_reading("flow_1", 8, 1300 * SEC + 1);
    assert_eq!(flush(&r.flush), Some(vec![6, 7, 8]));
    let r = t.on_reading("flow_1", 9, 1300 * SEC + 2);
    assert_eq!(flush(&r.flush), None);
}

#[test]
fn identifiers_are_independent() {
    let mut t = Throttle::new(10);
    let r = t.on_reading("a", 1, 0);
    assert!(r.announce);
    assert_eq!(flush(&r.flush), Some(vec![1]));
    let r = t.on_reading("b", 2, 0);
    assert!(r.announce);
    assert_eq!(flush(&r.flush), Some(vec![2]));
    assert!(!t.on_reading("a", 3, SEC).announce);
    let r = t.on_reading("b", 4, 11 * SEC);
    assert_eq!(flush(&r.flush), Some(vec![4]));
    let r = t.on_reading("a", 5, 11 * SEC);
    assert_eq!(flush(&r.flush), Some(vec![3, 5]));
}

#[test]
fn zero_period_sends_every_later_reading() {
    let mut t = Throttle::new(0);
    assert_eq!(flush(&t.on_reading("x", 1, 0).flush), Some(vec![1]));
    assert_eq!(flush(&t.on_reading("x", 2, 1).flush), Some(vec![2]));
    assert_eq!(flush(&t.on_reading("x", 3, 1).flush), None);
    assert_eq!(flush(&t.on_reading("x", 4, 2).flush), Some(vec![3, 4]));
}

#[test]
fn readings_conserved_over_a_run() {
    let mut t = Throttle::new(5);
    let mut delivered = Vec::new();
    let values: Vec<u32> = (0..40).collect();
    for (i, v) in values.iter().enumerate() {
        let r = t.on_reading("k", *v, i as i128 * SEC);
        if let Some(f) = r.flush {
            delivered.extend(f);
        }
    }
    // every value is delivered, or still waiting for the next update
    let last = t.on_reading("k", 100, 1_000 * SEC).flush.unwrap();
    delivered.extend(last.iter().copied().filter(|x| *x != 100));
    assert_eq!(delivered, (0..40).collect::<Vec<u32>>());
}

#[test]
fn updates_are_spaced_by_more_than_the_period() {
    let mut t = Throttle::new(3);
    let mut sent_at = Vec::new();
    for i in 0..50i128 {
        if t.on_reading("k", 0, i * SEC / 2).flush.is_some() {
            sent_at.push(i * SEC / 2);
        }
    }
    assert!(sent_at.len() > 2);
    for w in sent_at.windows(2) {
        assert!(w[1] > w[0] + 3 * SEC);
    }
}

#[test]
fn extreme_times_do_not_overflow() {
    let mut t = Throttle::new(u32::MAX);
    t.on_reading("k", 1, i128::MAX - 1);
    assert_eq!(flush(&t.on_reading("k", 2, i128::MAX).flush), None);
    let mut t = Throttle::new(1);
    t.on_reading("k", 1, i128::MIN);
    assert_eq!(flush(&t.on_reading("k", 2, i128::MAX).flush), Some(vec![2]));
}
