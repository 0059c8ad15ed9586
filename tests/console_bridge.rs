use abathur::bridge::{BridgeAction, BridgeEvent, BridgeSession};

fn frame_of(a: BridgeAction) -> (Vec<u8>, bool) {
    match a {
        BridgeAction::SendFrame { frame, first } => (frame, first),
        _ => panic!("expected a frame"),
    }
}

#[test]
fn client_frame_goes_to_stdin_verbatim() {
    let mut s = BridgeSession::new();
    match s.step(BridgeEvent::ClientData(b"ping".to_vec())) {
        BridgeAction::WriteInput(bytes) => assert_eq!(bytes, b"ping".to_vec()),
        _ => panic!("expected a write"),
    }
    assert!(s.input_open && s.output_open);
}

#[test]
fn two_output_writes_become_two_frames() {
    let mut s = BridgeSession::new();
    let first = vec![b'a'; 1000];
    let second = vec![b'b'; 1000];
    let (f1, is_first) = frame_of(s.step(BridgeEvent::ProcessOutput(first.clone())));
    let (f2, again_first) = frame_of(s.step(BridgeEvent::ProcessOutput(second.clone())));
    assert_eq!(f1.len(), 1000);
    assert_eq!(f2.len(), 1000);
    assert_eq!(f1, first);
    assert_eq!(f2, second);
    assert!(is_first);
    assert!(!again_first);
}

#[test]
fn end_of_output_closes_one_direction() {
    let mut s = BridgeSession::new();
    assert!(matches!(s.step(BridgeEvent::ProcessOutput(Vec::new())), BridgeAction::Idle));
    assert!(!s.output_open);
    assert!(s.input_open);
    assert!(!s.is_finished());
    assert!(matches!(s.step(BridgeEvent::ProcessOutput(vec![1])), BridgeAction::Idle));
    assert!(matches!(s.step(BridgeEvent::ClientData(vec![2])), BridgeAction::WriteInput(_)));
    assert!(matches!(s.step(BridgeEvent::ClientClosed), BridgeAction::Finish));
    assert!(s.is_finished());
    assert!(matches!(s.step(BridgeEvent::ClientFailed), BridgeAction::Idle));
}

#[test]
fn client_failure_keeps_output_relaying() {
    let mut s = BridgeSession::new();
    assert!(matches!(s.step(BridgeEvent::ClientFailed), BridgeAction::Idle));
    assert!(!s.input_open);
    assert!(matches!(s.step(BridgeEvent::ClientData(vec![1])), BridgeAction::Idle));
    let (f, _) = frame_of(s.step(BridgeEvent::ProcessOutput(vec![9, 8])));
    assert_eq!(f, vec![9, 8]);
    assert!(matches!(s.step(BridgeEvent::ProcessOutputFailed), BridgeAction::Finish));
}

#[test]
fn stdin_write_failure_closes_input_only() {
    let mut s = BridgeSession::new();
    assert!(matches!(s.step(BridgeEvent::ProcessInputFailed), BridgeAction::Idle));
    assert!(!s.input_open && s.output_open);
    assert!(matches!(s.step(BridgeEvent::ProcessOutput(Vec::new())), BridgeAction::Finish));
}

#[test]
fn control_frames_relay_nothing() {
    let mut s = BridgeSession::new();
    assert!(matches!(s.step(BridgeEvent::ClientControl), BridgeAction::Idle));
    assert_eq!(s, BridgeSession::new());
}

#[test]
fn client_frames_reach_stdin_in_order() {
    let mut s = BridgeSession::new();
    let frames: Vec<Vec<u8>> = vec![b"ls\n".to_vec(), Vec::new(), b"exit\n".to_vec()];
    for f in &frames {
        match s.step(BridgeEvent::ClientData(f.clone())) {
            BridgeAction::WriteInput(bytes) => assert_eq!(&bytes, f),
            _ => panic!("expected a write"),
        }
    }
    assert_eq!(s, BridgeSession::new());
}
