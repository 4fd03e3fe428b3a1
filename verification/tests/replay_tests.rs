use egui_replay::events::{FrameEvents, SimEvent, SimPos};
use egui_replay::manager::{
    codec_for_file, event_logfile, pick_default_file, ReplayManager, StoreError, StoreFormat,
};
use egui_replay::merge::apply_event_postprocessing;
use egui_replay::timestamp::NanoTimestamp;

fn toggle_press() -> SimEvent {
    SimEvent::Key { toggle: true, pressed: true }
}

fn pos(x: i64, y: i64) -> SimPos {
    SimPos { x, y }
}

fn frame(t: i64, events: Vec<SimEvent>) -> FrameEvents<SimEvent> {
    FrameEvents { time: NanoTimestamp::from_nanos(t), events }
}

fn total_events(frames: &[FrameEvents<SimEvent>]) -> usize {
    frames.iter().map(|f| f.events.len()).sum()
}

fn flattened(frames: &[FrameEvents<SimEvent>]) -> Vec<SimEvent> {
    frames.iter().flat_map(|f| f.events.iter().copied()).collect()
}

#[test]
fn toggle_starts_recording_with_anchor_frame() {
    let mut manager = ReplayManager::<SimEvent>::new();
    let t0 = NanoTimestamp::from_nanos(0);
    let mut events = vec![toggle_press()];
    let save = manager.intercept_input(t0, &mut events);

    assert!(save.is_none());
    assert!(manager.is_recording());
    assert!(!manager.is_replaying());
    assert_eq!(manager.num_recorded_frames(), 1);
    assert_eq!(manager.frame_events[0].time, t0);
    assert_eq!(
        manager.frame_events[0].events,
        vec![SimEvent::PointerMoved(pos(0, 0))]
    );
    // The host's own batch is passed through untouched.
    assert_eq!(events, vec![toggle_press()]);
}

#[test]
fn recording_buffers_pointer_moves_and_buttons() {
    let mut manager = ReplayManager::<SimEvent>::new();
    let mut batch0 = vec![toggle_press()];
    manager.intercept_input(NanoTimestamp::from_nanos(0), &mut batch0);

    let mut batch1 = vec![SimEvent::PointerMoved(pos(5, 5))];
    manager.intercept_input(NanoTimestamp::from_nanos(1), &mut batch1);

    let mut batch2 = vec![SimEvent::PointerButton { pos: pos(5, 5), pressed: true }];
    manager.intercept_input(NanoTimestamp::from_nanos(1), &mut batch2);

    assert_eq!(manager.num_recorded_frames(), 3);
    assert_eq!(manager.frame_events[0].time.as_nanos(), 0);
    assert_eq!(
        manager.frame_events[0].events,
        vec![SimEvent::PointerMoved(pos(0, 0))]
    );
    assert_eq!(manager.frame_events[1].time.as_nanos(), 1);
    assert_eq!(
        manager.frame_events[1].events,
        vec![SimEvent::PointerMoved(pos(5, 5))]
    );
    assert_eq!(manager.frame_events[2].time.as_nanos(), 1);
    assert_eq!(
        manager.frame_events[2].events,
        vec![
            SimEvent::PointerMoved(pos(5, 5)),
            SimEvent::PointerButton { pos: pos(5, 5), pressed: true },
        ]
    );
    assert_eq!(manager.num_recorded_events(), 4);
}

#[test]
fn pointer_move_runs_are_simplified() {
    let mut manager = ReplayManager::<SimEvent>::new();
    let mut batch0 = vec![toggle_press()];
    manager.intercept_input(NanoTimestamp::from_nanos(0), &mut batch0);

    // A contiguous run of pointer moves keeps only its first sample; a key
    // event resets the run. Coarse motion is never recorded.
    let mut batch1 = vec![
        SimEvent::PointerMoved(pos(1, 1)),
        SimEvent::PointerMoved(pos(2, 2)),
        SimEvent::CoarseMove,
        SimEvent::PointerMoved(pos(3, 3)),
        SimEvent::Key { toggle: false, pressed: true },
        SimEvent::PointerMoved(pos(4, 4)),
    ];
    manager.intercept_input(NanoTimestamp::from_nanos(1), &mut batch1);

    assert_eq!(manager.num_recorded_frames(), 2);
    assert_eq!(
        manager.frame_events[1].events,
        vec![
            SimEvent::PointerMoved(pos(1, 1)),
            SimEvent::Key { toggle: false, pressed: true },
            SimEvent::PointerMoved(pos(4, 4)),
        ]
    );
}

#[test]
fn stop_recording_yields_save_request() {
    let mut manager = ReplayManager::<SimEvent>::new();
    let mut batch0 = vec![toggle_press()];
    manager.intercept_input(NanoTimestamp::from_nanos(0), &mut batch0);
    let mut batch1 = vec![SimEvent::PointerMoved(pos(5, 5))];
    manager.intercept_input(NanoTimestamp::from_nanos(1), &mut batch1);
    let mut batch2 = vec![SimEvent::PointerButton { pos: pos(5, 5), pressed: true }];
    manager.intercept_input(NanoTimestamp::from_nanos(1), &mut batch2);

    let stop_time = NanoTimestamp::from_nanos(2);
    let mut batch3 = vec![toggle_press()];
    let save = manager.intercept_input(stop_time, &mut batch3);

    let request = save.expect("stopping a recording must yield a save request");
    assert!(!manager.is_recording());
    assert!(request.use_bincode);
    assert_eq!(
        request.file_name,
        format!("./egui_replay_{}.bin", stop_time.as_rfc3339())
    );

    // Postprocessing is on by default: the anchor frame is untouched, and the
    // remaining events regroup into maximal runs of one classification.
    assert_eq!(request.frames.len(), 3);
    assert_eq!(
        request.frames[0].events,
        vec![SimEvent::PointerMoved(pos(0, 0))]
    );
    assert_eq!(request.frames[1].time.as_nanos(), 1);
    assert_eq!(
        request.frames[1].events,
        vec![SimEvent::PointerMoved(pos(5, 5)), SimEvent::PointerMoved(pos(5, 5))]
    );
    assert_eq!(request.frames[2].time.as_nanos(), 1);
    assert_eq!(
        request.frames[2].events,
        vec![SimEvent::PointerButton { pos: pos(5, 5), pressed: true }]
    );

    // The manager keeps the finished session too.
    assert_eq!(manager.num_recorded_frames(), 3);
}

#[test]
fn merge_preserves_count_and_order() {
    let frames = vec![
        frame(0, vec![SimEvent::PointerMoved(pos(0, 0))]),
        frame(1, vec![SimEvent::PointerMoved(pos(1, 1))]),
        frame(
            2,
            vec![
                SimEvent::PointerMoved(pos(2, 2)),
                SimEvent::Key { toggle: false, pressed: true },
            ],
        ),
        frame(3, vec![SimEvent::Key { toggle: false, pressed: false }]),
        frame(4, vec![SimEvent::PointerMoved(pos(4, 4))]),
    ];
    let before_total = total_events(&frames);
    let before_stream = flattened(&frames);
    let anchor_time = frames[0].time;
    let anchor_events = frames[0].events.clone();

    let merged = apply_event_postprocessing(frames);

    assert_eq!(total_events(&merged), before_total);
    assert_eq!(flattened(&merged), before_stream);
    // Anchor frame untouched.
    assert_eq!(merged[0].time, anchor_time);
    assert_eq!(merged[0].events, anchor_events);
    // No merged frame mixes pointer moves with other events.
    for f in merged.iter().skip(1) {
        let first_is_move = matches!(f.events[0], SimEvent::PointerMoved(_));
        for e in f.events.iter() {
            assert_eq!(matches!(e, SimEvent::PointerMoved(_)), first_is_move);
        }
    }
    // Runs are maximal: adjacent merged frames beyond the anchor differ in
    // classification, and frame times never decrease.
    for w in merged[1..].windows(2) {
        assert_ne!(
            matches!(w[0].events[0], SimEvent::PointerMoved(_)),
            matches!(w[1].events[0], SimEvent::PointerMoved(_))
        );
    }
    for w in merged.windows(2) {
        assert!(w[0].time <= w[1].time);
    }
    // The exact regrouping: [PM(1,1), PM(2,2)] | [Key, Key] | [PM(4,4)].
    assert_eq!(merged.len(), 4);
    assert_eq!(merged[1].time.as_nanos(), 1);
    assert_eq!(merged[1].events.len(), 2);
    assert_eq!(merged[2].time.as_nanos(), 2);
    assert_eq!(merged[2].events.len(), 2);
    assert_eq!(merged[3].time.as_nanos(), 4);
    assert_eq!(merged[3].events.len(), 1);
}

#[test]
fn merge_of_empty_session_is_empty() {
    let frames: Vec<FrameEvents<SimEvent>> = Vec::new();
    let merged = apply_event_postprocessing(frames);
    assert!(merged.is_empty());
}

#[test]
fn replay_delivers_frames_then_closes() {
    let mut manager = ReplayManager::<SimEvent>::new();
    manager.open_window();

    let session = vec![
        frame(0, vec![SimEvent::PointerMoved(pos(0, 0))]),
        frame(1, vec![SimEvent::PointerMoved(pos(5, 5))]),
        frame(2, vec![SimEvent::PointerButton { pos: pos(5, 5), pressed: true }]),
    ];
    let expected: Vec<Vec<SimEvent>> = session.iter().map(|f| f.events.clone()).collect();
    manager.begin_replay(session);
    assert!(manager.is_replaying());

    // Three ticks deliver exactly frames[0], frames[1], frames[2]; the live
    // batch is overwritten each time.
    let now = NanoTimestamp::from_nanos(100);
    for expected_events in expected.iter() {
        let mut live = vec![SimEvent::CoarseMove, toggle_press()];
        let save = manager.intercept_input(now, &mut live);
        assert!(save.is_none());
        assert_eq!(&live, expected_events);
    }

    // The session is exhausted: the window closed and the manager is reset.
    assert!(!manager.is_replaying());
    assert!(!manager.is_recording());
    assert_eq!(manager.num_recorded_frames(), 0);

    // A fourth tick has no further effect on host input.
    let mut live = vec![SimEvent::PointerMoved(pos(9, 9))];
    let save = manager.intercept_input(now, &mut live);
    assert!(save.is_none());
    assert_eq!(live, vec![SimEvent::PointerMoved(pos(9, 9))]);
    assert!(!manager.is_recording(), "replayed input is not reinterpreted");
}

#[test]
fn replay_takes_priority_over_recording() {
    let mut manager = ReplayManager::<SimEvent>::new();
    manager.open_window();
    let session = vec![
        frame(0, vec![toggle_press()]),
        frame(1, vec![SimEvent::PointerMoved(pos(1, 1))]),
    ];
    manager.begin_replay(session);

    // The replayed toggle key is not reinterpreted as a live control.
    let mut live = vec![toggle_press()];
    manager.intercept_input(NanoTimestamp::from_nanos(0), &mut live);
    assert_eq!(live, vec![toggle_press()]);
    assert!(!manager.is_recording());
    assert!(manager.is_replaying());
}

#[test]
fn codec_is_chosen_by_extension() {
    assert!(matches!(
        codec_for_file("./egui_replay_x.bin"),
        Ok(StoreFormat::Binary)
    ));
    assert!(matches!(
        codec_for_file("./egui_replay_x.json"),
        Ok(StoreFormat::Json)
    ));
    assert!(matches!(
        codec_for_file("./egui_replay_x.txt"),
        Err(StoreError::Format(_))
    ));
    assert!(matches!(codec_for_file(""), Err(StoreError::Format(_))));
}

#[test]
fn failed_load_leaves_state_unchanged() {
    let mut manager = ReplayManager::<SimEvent>::new();
    manager.open_window();
    let mut batch = vec![toggle_press(), SimEvent::PointerMoved(pos(1, 2))];
    manager.intercept_input(NanoTimestamp::from_nanos(3), &mut batch);

    let frames_before: Vec<(i64, Vec<SimEvent>)> = manager
        .frame_events
        .iter()
        .map(|f| (f.time.as_nanos(), f.events.clone()))
        .collect();
    let recording_before = manager.is_recording();
    let window_before = manager.is_window_open;

    // Loading a `.txt` file fails with a Format error before any bytes are
    // decoded...
    let err = codec_for_file("./egui_replay_session.txt")
        .err()
        .expect("a .txt extension must be refused");
    assert!(matches!(err, StoreError::Format(_)));

    // ...and digesting the failure leaves the manager exactly as it was.
    manager.on_replay_loaded(Err(err));
    assert!(!manager.is_replaying());
    assert_eq!(manager.is_recording(), recording_before);
    assert_eq!(manager.is_window_open, window_before);
    let frames_after: Vec<(i64, Vec<SimEvent>)> = manager
        .frame_events
        .iter()
        .map(|f| (f.time.as_nanos(), f.events.clone()))
        .collect();
    assert_eq!(frames_after, frames_before);
}

#[test]
fn empty_session_closes_replay_window() {
    let mut manager = ReplayManager::<SimEvent>::new();
    manager.open_window();
    manager.on_replay_loaded(Ok(Vec::new()));
    assert!(!manager.is_replaying());
    assert!(!manager.is_window_open);
}

#[test]
fn logfile_names_carry_time_and_extension() {
    let t = NanoTimestamp::from_nanos(1_123_456_789_000_000);
    assert_eq!(
        event_logfile(t, true),
        "./egui_replay_1970-01-14T00:04:16.789+00:00.bin"
    );
    assert_eq!(
        event_logfile(t, false),
        "./egui_replay_1970-01-14T00:04:16.789+00:00.json"
    );
}

#[test]
fn default_file_is_smallest_prefixed_name() {
    let names: Vec<Vec<u8>> = vec![
        b"other_file.bin".to_vec(),
        b"egui_replay_b.json".to_vec(),
        b"egui_replay_a.bin".to_vec(),
        b"zzz.bin".to_vec(),
    ];
    assert_eq!(pick_default_file(&names), Some(2));

    let no_match: Vec<Vec<u8>> = vec![b"other.bin".to_vec()];
    assert_eq!(pick_default_file(&no_match), None);

    let empty: Vec<Vec<u8>> = Vec::new();
    assert_eq!(pick_default_file(&empty), None);
}

#[test]
fn without_simplification_every_pointer_move_is_kept() {
    let mut manager = ReplayManager::<SimEvent>::new();
    manager.simplify_pointer_events = false;
    let mut batch0 = vec![toggle_press()];
    manager.intercept_input(NanoTimestamp::from_nanos(0), &mut batch0);

    let mut batch1 = vec![
        SimEvent::PointerMoved(pos(1, 1)),
        SimEvent::PointerMoved(pos(2, 2)),
        SimEvent::PointerButton { pos: pos(2, 2), pressed: true },
    ];
    manager.intercept_input(NanoTimestamp::from_nanos(1), &mut batch1);

    // No run suppression and no synthetic move before the button event.
    assert_eq!(
        manager.frame_events[1].events,
        vec![
            SimEvent::PointerMoved(pos(1, 1)),
            SimEvent::PointerMoved(pos(2, 2)),
            SimEvent::PointerButton { pos: pos(2, 2), pressed: true },
        ]
    );
}

#[test]
fn without_postprocessing_frames_are_saved_unmerged() {
    let mut manager = ReplayManager::<SimEvent>::new();
    manager.record_apply_postprocessing = false;
    manager.record_use_bincode = false;
    let mut batch0 = vec![toggle_press()];
    manager.intercept_input(NanoTimestamp::from_nanos(0), &mut batch0);
    let mut batch1 = vec![SimEvent::PointerMoved(pos(1, 1))];
    manager.intercept_input(NanoTimestamp::from_nanos(1), &mut batch1);
    let mut batch2 = vec![SimEvent::Key { toggle: false, pressed: true }];
    manager.intercept_input(NanoTimestamp::from_nanos(2), &mut batch2);

    let stop_time = NanoTimestamp::from_nanos(3);
    let mut batch3 = vec![toggle_press()];
    let request = manager
        .intercept_input(stop_time, &mut batch3)
        .expect("stopping a recording must yield a save request");

    assert!(!request.use_bincode);
    assert_eq!(
        request.file_name,
        format!("./egui_replay_{}.json", stop_time.as_rfc3339())
    );
    // One frame per tick survives: anchor, then the two single-move frames.
    assert_eq!(request.frames.len(), 3);
    assert_eq!(request.frames[1].time.as_nanos(), 1);
    assert_eq!(request.frames[2].time.as_nanos(), 2);
}

#[test]
fn double_toggle_in_one_batch_saves_the_anchor_alone() {
    let mut manager = ReplayManager::<SimEvent>::new();
    let t = NanoTimestamp::from_nanos(7);
    let mut batch = vec![toggle_press(), toggle_press()];
    let request = manager
        .intercept_input(t, &mut batch)
        .expect("the second toggle stops the recording");

    assert!(!manager.is_recording());
    assert_eq!(request.frames.len(), 1);
    assert_eq!(request.frames[0].time, t);
    assert_eq!(
        request.frames[0].events,
        vec![SimEvent::PointerMoved(pos(0, 0))]
    );
}

#[test]
fn open_and_close_window_reset_state() {
    let mut manager = ReplayManager::<SimEvent>::new();
    let mut batch = vec![toggle_press()];
    manager.intercept_input(NanoTimestamp::from_nanos(0), &mut batch);
    assert!(manager.is_recording());

    manager.open_window();
    assert!(manager.is_window_open);
    assert!(!manager.is_recording());
    assert_eq!(manager.num_recorded_frames(), 0);

    manager.close_window();
    assert!(!manager.is_window_open);
    assert!(!manager.is_replaying());
    assert_eq!(manager.num_recorded_frames(), 0);
}
