use groundcontrol::ring::RingBuffer;
use groundcontrol::sample::TelemetrySample;

fn numbered_sample(n: i32) -> TelemetrySample {
    TelemetrySample {
        timestamp: 0,
        elapsed: b"1.0".to_vec(),
        flow_fuel: b"2.5".to_vec(),
        flow_oxi: b"3.1".to_vec(),
        pulse_fuel: n,
        pulse_oxi: 0,
        pos_fuel: 0,
        pos_oxi: 0,
        emergency: false,
        fuel_valve_open: false,
        oxi_valve_open: false,
        raw: b"1.0,2.5,3.1,0,0,0,0,0".to_vec(),
    }
}

#[test]
fn keeps_everything_under_capacity() {
    let mut ring = RingBuffer::new(3);
    assert_eq!(ring.len(), 0);
    assert_eq!(ring.capacity(), 3);
    ring.push(numbered_sample(1));
    ring.push(numbered_sample(2));
    assert_eq!(ring.len(), 2);
    assert_eq!(ring.get(0).pulse_fuel, 1);
    assert_eq!(ring.get(1).pulse_fuel, 2);
}

#[test]
fn evicts_oldest_beyond_capacity() {
    let mut ring = RingBuffer::new(3);
    for n in 1..=5 {
        ring.push(numbered_sample(n));
    }
    // Five pushed into capacity three: exactly the three newest remain,
    // in original order.
    assert_eq!(ring.len(), 3);
    assert_eq!(ring.get(0).pulse_fuel, 3);
    assert_eq!(ring.get(1).pulse_fuel, 4);
    assert_eq!(ring.get(2).pulse_fuel, 5);
}

#[test]
fn eviction_is_one_at_a_time() {
    let mut ring = RingBuffer::new(2);
    ring.push(numbered_sample(1));
    ring.push(numbered_sample(2));
    ring.push(numbered_sample(3));
    assert_eq!(ring.len(), 2);
    assert_eq!(ring.get(0).pulse_fuel, 2);
    assert_eq!(ring.get(1).pulse_fuel, 3);
}

#[test]
fn snapshot_is_chronological() {
    let mut ring = RingBuffer::new(4);
    for n in 1..=6 {
        ring.push(numbered_sample(n));
    }
    let seen: Vec<i32> = ring.snapshot().iter().map(|s| s.pulse_fuel).collect();
    assert_eq!(seen, vec![3, 4, 5, 6]);
}
