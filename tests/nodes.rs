use flow_nodes::{
    annotations, bind, delay_for_fps, display_actions, parse_resolution, scale_region,
    Accumulator, CameraSource, CameraState, ControlKind, CountSource, Counter, Direction,
    DisplayAction, Event, FDState, FaceDetection, GenericSink, InvocationError, Lifecycle,
    Message, Phase, PortTable, RandomSource, RecordLine, Region, SetupError, SinkAction,
    SinkState, SumAndSend, VideoSink, DEFAULT_DELAY_MS, DEFAULT_HEIGHT, DEFAULT_WIDTH,
};

fn names(v: &[&str]) -> Vec<String> {
    v.iter().map(|s| s.to_string()).collect()
}

fn table(inputs: &[&str], outputs: &[&str]) -> PortTable {
    PortTable::new(names(inputs), names(outputs))
}

#[test]
fn unknown_port_is_not_found() {
    let mut t = table(&["Frame"], &["Frame"]);
    assert_eq!(t.take(&"Data".to_string(), Direction::Input).err(), Some(SetupError::PortNotFound));
    assert_eq!(t.take(&"Frame".to_string(), Direction::Output).unwrap().name, "Frame");
}

#[test]
fn port_is_taken_once() {
    let mut t = table(&["Data", "Data"], &[]);
    let p = t.take(&"Data".to_string(), Direction::Input).unwrap();
    assert_eq!(p.name, "Data");
    assert_eq!(p.direction, Direction::Input);
    assert_eq!(t.take(&"Data".to_string(), Direction::Input).err(), Some(SetupError::PortNotFound));
}

#[test]
fn direction_is_respected() {
    let mut t = table(&["Number"], &[]);
    assert!(bind(&mut t, "Number", Direction::Output).is_err());
    assert!(bind(&mut t, "Number", Direction::Input).is_ok());
}

#[test]
fn sum_and_send_emits_running_totals() {
    let mut t = table(&["Number"], &["Sum"]);
    let mut node = SumAndSend::setup(&mut t, None).unwrap();
    let mut out = Vec::new();
    for v in [3u64, 4, 5] {
        out.push(node.iterate(Message::Data { payload: v, timestamp: None }).unwrap());
    }
    assert_eq!(out, vec![3, 7, 12]);
}

#[test]
fn sum_and_send_starts_from_initial() {
    let mut t = table(&["Number"], &["Sum"]);
    let mut node = SumAndSend::setup(&mut t, Some(10)).unwrap();
    assert_eq!(node.iterate(Message::Data { payload: 1, timestamp: Some(5) }), Ok(11));
}

#[test]
fn sum_and_send_rejects_control_and_keeps_total() {
    let mut t = table(&["Number"], &["Sum"]);
    let mut node = SumAndSend::setup(&mut t, Some(2)).unwrap();
    assert_eq!(node.iterate(Message::Control(ControlKind::EndOfStream)), Err(InvocationError::NoData));
    assert_eq!(node.state.total(), 2);
}

#[test]
fn sum_and_send_needs_both_ports() {
    let mut t = table(&["Number"], &[]);
    assert_eq!(SumAndSend::setup(&mut t, None).err(), Some(SetupError::PortNotFound));
}

#[test]
fn accumulator_overflow_keeps_total() {
    let mut a = Accumulator::new(Some(u64::MAX - 1));
    assert_eq!(a.add(2), Err(InvocationError::Overflow));
    assert_eq!(a.total(), u64::MAX - 1);
    assert_eq!(a.add(1), Ok(u64::MAX));
}

#[test]
fn accumulator_add_all_prefix_sums() {
    let mut a = Accumulator::new(Some(100));
    assert_eq!(a.add_all(&vec![1, 2, 3, 4]), Ok(vec![101, 103, 106, 110]));
    assert_eq!(a.total(), 110);
    let mut b = Accumulator::new(None);
    assert_eq!(b.add_all(&vec![]), Ok(vec![]));
    let mut c = Accumulator::new(Some(5));
    assert_eq!(c.add_all(&vec![1, u64::MAX]), Err(InvocationError::Overflow));
    assert_eq!(c.total(), 5);
}

#[test]
fn counter_counts_from_initial() {
    let mut t = table(&[], &["Counter"]);
    let mut node = CountSource::setup(&mut t, Some(7)).unwrap();
    assert_eq!(node.iterate(), Ok(7));
    assert_eq!(node.iterate(), Ok(8));
    assert_eq!(node.iterate(), Ok(9));
}

#[test]
fn counter_counts_from_zero() {
    let mut c = Counter::new(None);
    assert_eq!(c.emit_n(4), Ok(vec![0, 1, 2, 3]));
    assert_eq!(c.emit(), Ok(4));
}

#[test]
fn counter_overflow() {
    let mut c = Counter::new(Some(u64::MAX - 1));
    assert_eq!(c.emit(), Ok(u64::MAX - 1));
    assert_eq!(c.emit(), Err(InvocationError::Overflow));
    let mut d = Counter::new(Some(u64::MAX - 2));
    assert_eq!(d.emit_n(3), Err(InvocationError::Overflow));
    assert_eq!(d.emit(), Ok(u64::MAX - 2));
}

#[test]
fn counter_reaches_largest_value_minus_one() {
    let mut c = Counter::new(Some(u64::MAX - 3));
    assert_eq!(c.emit_n(3), Ok(vec![u64::MAX - 3, u64::MAX - 2, u64::MAX - 1]));
    assert_eq!(c.emit_n(1), Err(InvocationError::Overflow));
    assert_eq!(c.emit_n(0), Ok(vec![]));
}

#[test]
fn resolution_parses() {
    assert_eq!(parse_resolution("800x600"), Ok((800, 600)));
    assert_eq!(parse_resolution("1920x1080"), Ok((1920, 1080)));
    assert_eq!(parse_resolution("2147483647x1"), Ok((2147483647, 1)));
}

#[test]
fn resolution_malformed() {
    for t in ["", "800", "x600", "800x", "800x600x1", "0x600", "800x0", "-1x2", "8a0x600", "2147483648x1", "800 x600"] {
        assert_eq!(parse_resolution(t), Err(SetupError::MalformedConfig), "{}", t);
    }
}

#[test]
fn fps_gives_delay() {
    assert_eq!(delay_for_fps(25), Ok(40));
    assert_eq!(delay_for_fps(30), Ok(33));
    assert_eq!(delay_for_fps(2000), Ok(0));
    assert_eq!(delay_for_fps(0), Err(SetupError::MalformedConfig));
}

#[test]
fn camera_defaults() {
    let c = CameraState::new(None, None).unwrap();
    assert_eq!(c.resize_target(), (DEFAULT_WIDTH, DEFAULT_HEIGHT));
    assert_eq!(c.resize_target(), (800, 600));
    assert_eq!(c.delay_ms, DEFAULT_DELAY_MS);
    assert_eq!(c.delay_ms, 40);
}

#[test]
fn camera_configured_resolution_is_resize_target() {
    let c = CameraState::new(Some("640x480"), Some(10)).unwrap();
    assert_eq!(c.resize_target(), (640, 480));
    assert_eq!(c.delay_ms, 100);
}

#[test]
fn camera_setup_errors() {
    let mut t = table(&[], &["Frame"]);
    assert_eq!(CameraSource::setup(&mut t, Some("big"), None).err(), Some(SetupError::MalformedConfig));
    assert_eq!(CameraSource::setup(&mut t, None, Some(0)).err(), Some(SetupError::MalformedConfig));
    let ok = CameraSource::setup(&mut t, None, None).unwrap();
    assert_eq!(ok.output.name, "Frame");
    assert_eq!(CameraSource::setup(&mut t, None, None).err(), Some(SetupError::PortNotFound));
}

#[test]
fn no_regions_no_annotations() {
    assert_eq!(annotations(&vec![]), Ok(vec![]));
}

#[test]
fn one_region_scaled_back() {
    let r = Region { x: 10, y: 20, width: 30, height: 40 };
    let out = annotations(&vec![r]).unwrap();
    assert_eq!(out, vec![Region { x: 40, y: 80, width: 120, height: 160 }]);
}

#[test]
fn region_overflow() {
    let r = Region { x: i32::MAX / 4 + 1, y: 0, width: 30, height: 30 };
    assert_eq!(scale_region(r), Err(InvocationError::Overflow));
    assert_eq!(annotations(&vec![Region { x: 1, y: 1, width: 1, height: 1 }, r]), Err(InvocationError::Overflow));
}

#[test]
fn face_detection_setup() {
    let mut t = table(&["Frame"], &["Frame"]);
    let fd = FaceDetection::setup(&mut t, None).unwrap();
    assert_eq!(fd.state.model, "haarcascades/haarcascade_frontalface_alt.xml");
    assert_eq!(fd.input.direction, Direction::Input);
    assert_eq!(fd.output.direction, Direction::Output);
    assert_eq!(FDState::new(Some("m.xml".to_string())).model, "m.xml");
    let mut t2 = table(&[], &["Frame"]);
    assert!(FaceDetection::setup(&mut t2, None).is_err());
}

#[test]
fn file_sink_syncs_once_per_record() {
    let s = SinkState::new(Some("out.txt".to_string()));
    let a = s.record_actions();
    assert_eq!(
        a,
        vec![
            SinkAction::Write(RecordLine::Separator),
            SinkAction::Write(RecordLine::Received),
            SinkAction::Write(RecordLine::Separator),
            SinkAction::Sync,
        ]
    );
    assert_eq!(a.iter().filter(|x| **x == SinkAction::Sync).count(), 1);
}

#[test]
fn console_sink_prints() {
    let s = SinkState::new(None);
    assert_eq!(
        s.record_actions(),
        vec![
            SinkAction::Print(RecordLine::Separator),
            SinkAction::Print(RecordLine::Received),
            SinkAction::Print(RecordLine::Separator),
        ]
    );
}

#[test]
fn sinks_setup() {
    let mut t = table(&["Data", "Frame"], &[]);
    assert!(GenericSink::setup(&mut t, None).is_ok());
    assert!(VideoSink::setup(&mut t).is_ok());
    assert_eq!(VideoSink::setup(&mut t).err(), Some(SetupError::PortNotFound));
}

#[test]
fn degenerate_frame_not_shown() {
    assert_eq!(display_actions(0), vec![DisplayAction::WaitKey]);
    assert_eq!(display_actions(640), vec![DisplayAction::Show, DisplayAction::WaitKey]);
}

#[test]
fn random_source_draws() {
    let mut t = table(&[], &["Random"]);
    let r = RandomSource::setup(&mut t).unwrap();
    let draws: Vec<usize> = (0..8).map(|_| r.iterate()).collect();
    assert!(draws.iter().any(|d| *d != draws[0]));
}

#[test]
fn lifecycle_finalize_once_after_invocations() {
    let mut l = Lifecycle::new();
    assert!(!l.apply(Event::Finalize));
    assert!(l.apply(Event::SetupSucceeded));
    assert!(l.apply(Event::InvocationStarted));
    assert!(!l.apply(Event::Finalize));
    assert!(l.apply(Event::InvocationEnded));
    assert!(l.apply(Event::Finalize));
    assert_eq!(l.phase(), Phase::Finalized);
    assert!(!l.apply(Event::Finalize));
    assert!(!l.apply(Event::InvocationStarted));
}

#[test]
fn lifecycle_setup_failure_never_runs() {
    let mut l = Lifecycle::new();
    let n = l.apply_all(&vec![Event::SetupFailed, Event::InvocationStarted]);
    assert_eq!(n, 1);
    assert_eq!(l.phase(), Phase::Aborted);
    let mut m = Lifecycle::new();
    let all = vec![Event::SetupSucceeded, Event::InvocationStarted, Event::InvocationEnded, Event::Finalize];
    assert_eq!(m.apply_all(&all), 4);
}

#[test]
fn control_message_is_not_data() {
    let m: Message<u64> = Message::Control(ControlKind::EndOfStream);
    assert_eq!(m.into_data(), Err(InvocationError::NoData));
    let d: Message<u64> = Message::Data { payload: 9, timestamp: None };
    assert_eq!(d.into_data(), Ok(9));
}
