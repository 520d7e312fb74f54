use groundcontrol::decode::DecodeError;
use groundcontrol::pipeline::Pipeline;
use groundcontrol::pipeline::ReadEvent;
use groundcontrol::pipeline::StepOutcome;
use groundcontrol::relay::ValveCommand;

fn closed() -> ValveCommand {
    ValveCommand {
        fuel_open: false,
        oxi_open: false,
    }
}

#[test]
fn scenario_three_valid_lines_one_bad() {
    let mut pipeline = Pipeline::new(1000);
    let lines: [&[u8]; 4] = [
        b"1.0,2.5,3.1,10,12,5,5,0",
        b"2.0,2.6,3.0,11,12,5,5,1",
        b"bad,line",
        b"3.0,2.7,3.2,12,13,5,5,0",
    ];
    let mut records: Vec<Vec<u8>> = Vec::new();
    let mut rejections = 0;
    for (k, line) in lines.iter().enumerate() {
        let event = ReadEvent::Received(line.to_vec());
        match pipeline.acquisition_step(event, 100 + k as u64, closed()) {
            StepOutcome::Accepted { record, .. } => records.push(record),
            StepOutcome::Rejected(e) => {
                assert_eq!(e, DecodeError::FieldCount { found: 2 });
                rejections += 1;
            }
            _ => panic!("unexpected outcome"),
        }
    }
    // One decode error was reported, for the third line only.
    assert_eq!(rejections, 1);
    // The history ends with three samples, elapsed times in order.
    let recent = pipeline.recent_samples();
    assert_eq!(recent.len(), 3);
    assert_eq!(recent[0].elapsed, b"1.0".to_vec());
    assert_eq!(recent[1].elapsed, b"2.0".to_vec());
    assert_eq!(recent[2].elapsed, b"3.0".to_vec());
    // Exactly three records were written, in decode order.
    assert_eq!(records.len(), 3);
    assert_eq!(records[0], b"100,1.0,2.5,3.1,10,12,5,5,false,false\n".to_vec());
    assert_eq!(records[1], b"101,2.0,2.6,3.0,11,12,5,5,false,false\n".to_vec());
    assert_eq!(records[2], b"103,3.0,2.7,3.2,12,13,5,5,false,false\n".to_vec());
}

#[test]
fn timeout_and_io_error_change_nothing() {
    let mut pipeline = Pipeline::new(10);
    match pipeline.acquisition_step(ReadEvent::TimedOut, 1, closed()) {
        StepOutcome::Idle => {}
        _ => panic!("a timeout should be idle"),
    }
    match pipeline.acquisition_step(ReadEvent::Failed, 2, closed()) {
        StepOutcome::IoTrouble => {}
        _ => panic!("an I/O error should only be reported"),
    }
    assert_eq!(pipeline.recent_samples().len(), 0);
}

#[test]
fn keeps_accepting_after_malformed_lines() {
    let mut pipeline = Pipeline::new(10);
    let bad: [&[u8]; 3] = [b"", b"1.0,2.5,3.1,ten,12,5,5,0", b"1.0,2.5,3.1,10,12,5,5,9"];
    for line in bad {
        match pipeline.acquisition_step(ReadEvent::Received(line.to_vec()), 5, closed()) {
            StepOutcome::Rejected(_) => {}
            _ => panic!("malformed line should be rejected"),
        }
    }
    assert_eq!(pipeline.recent_samples().len(), 0);
    match pipeline.acquisition_step(
        ReadEvent::Received(b"4.0,1.1,2.2,1,2,3,4,0".to_vec()),
        6,
        closed(),
    ) {
        StepOutcome::Accepted { sample, .. } => {
            assert_eq!(sample.elapsed, b"4.0".to_vec());
            assert_eq!(sample.timestamp, 6);
        }
        _ => panic!("valid line should be accepted"),
    }
    assert_eq!(pipeline.recent_samples().len(), 1);
}

#[test]
fn stamps_time_and_commanded_intent() {
    let mut pipeline = Pipeline::new(10);
    let cmd = ValveCommand {
        fuel_open: true,
        oxi_open: false,
    };
    match pipeline.acquisition_step(
        ReadEvent::Received(b"1.0,2.5,3.1,10,12,5,5,0".to_vec()),
        777,
        cmd,
    ) {
        StepOutcome::Accepted { sample, record } => {
            assert_eq!(sample.timestamp, 777);
            assert!(sample.fuel_valve_open);
            assert!(!sample.oxi_valve_open);
            assert_eq!(record, b"777,1.0,2.5,3.1,10,12,5,5,true,false\n".to_vec());
        }
        _ => panic!("valid line should be accepted"),
    }
}

#[test]
fn history_eviction_through_the_pipeline() {
    let mut pipeline = Pipeline::new(2);
    let lines: [&[u8]; 3] = [
        b"1.0,0,0,1,0,0,0,0",
        b"2.0,0,0,2,0,0,0,0",
        b"3.0,0,0,3,0,0,0,0",
    ];
    for line in lines {
        match pipeline.acquisition_step(ReadEvent::Received(line.to_vec()), 9, closed()) {
            StepOutcome::Accepted { .. } => {}
            _ => panic!("valid line should be accepted"),
        }
    }
    let recent = pipeline.recent_samples();
    assert_eq!(recent.len(), 2);
    assert_eq!(recent[0].elapsed, b"2.0".to_vec());
    assert_eq!(recent[1].elapsed, b"3.0".to_vec());
}
