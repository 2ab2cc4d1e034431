use fdtshim::fixup::prepare_buffer;
use fdtshim::fixup::DtFixupFlags;
use fdtshim::fixup::FixupError;
use fdtshim::fixup::FixupOrchestrator;
use fdtshim::fixup::FixupRequest;
use fdtshim::fixup::FixupState;
use fdtshim::fixup::FixupStatus;
use fdtshim::fixup::FixupTarget;

#[test]
fn flags_encode_their_bits() {
    assert_eq!(DtFixupFlags { apply_fixups: true, reserve_memory: false }.bits(), 1);
    assert_eq!(DtFixupFlags { apply_fixups: false, reserve_memory: true }.bits(), 2);
    assert_eq!(DtFixupFlags { apply_fixups: true, reserve_memory: true }.bits(), 3);
    assert_eq!(DtFixupFlags { apply_fixups: false, reserve_memory: false }.bits(), 0);
}

#[test]
fn probe_request_covers_the_original_buffer() {
    let orch = FixupOrchestrator::new(1000);
    assert_eq!(
        orch.request(),
        Some(FixupRequest {
            target: FixupTarget::Original,
            size: 1000,
            flags: DtFixupFlags { apply_fixups: true, reserve_memory: false },
        })
    );
}

#[test]
fn size_report_grows_the_buffer_and_keeps_the_prefix() {
    // The service reports that 4096 bytes are required: the final buffer
    // is exactly 4096 bytes and the original bytes sit in its head.
    let original: Vec<u8> = (0u8..100).collect();
    let mut orch = FixupOrchestrator::new(original.len());

    assert!(orch.note_outcome(FixupStatus::BufferTooSmall, 4096).is_ok());
    let req = orch.request().unwrap();
    assert_eq!(req.target, FixupTarget::Allocated);
    assert_eq!(req.size, 4096);
    assert_eq!(req.flags, DtFixupFlags { apply_fixups: true, reserve_memory: true });

    let buffer = prepare_buffer(&original, req.size);
    assert_eq!(buffer.len(), 4096);
    assert_eq!(&buffer[..100], &original[..]);
    assert!(buffer[100..].iter().all(|b| *b == 0));

    assert!(orch.note_outcome(FixupStatus::Success, req.size).is_ok());
    assert_eq!(orch.state, FixupState::Done { size: 4096 });
}

#[test]
fn successful_probe_keeps_the_original_size() {
    // The original buffer already sufficed: no allocation beyond the
    // reported size, and apply still runs exactly once.
    let mut orch = FixupOrchestrator::new(256);
    assert!(orch.note_outcome(FixupStatus::Success, 256).is_ok());

    let req = orch.request().unwrap();
    assert_eq!(req.size, 256);
    assert_eq!(req.target, FixupTarget::Allocated);

    assert!(orch.note_outcome(FixupStatus::Success, req.size).is_ok());
    assert_eq!(orch.state, FixupState::Done { size: 256 });

    // The apply ran once; a third outcome is a protocol violation and
    // does not move the machine.
    assert_eq!(
        orch.note_outcome(FixupStatus::Success, 256),
        Err(FixupError::Violation)
    );
    assert_eq!(orch.state, FixupState::Done { size: 256 });
    assert_eq!(orch.request(), None);
}

#[test]
fn unexpected_probe_status_is_fatal() {
    let mut orch = FixupOrchestrator::new(64);
    assert_eq!(
        orch.note_outcome(FixupStatus::Other(21), 64),
        Err(FixupError::Probe(21))
    );
    assert_eq!(orch.state, FixupState::Failed);
    assert_eq!(orch.request(), None);
}

#[test]
fn any_apply_failure_is_fatal() {
    let mut orch = FixupOrchestrator::new(64);
    assert!(orch.note_outcome(FixupStatus::Success, 64).is_ok());
    assert_eq!(
        orch.note_outcome(FixupStatus::BufferTooSmall, 128),
        Err(FixupError::Apply(FixupStatus::BufferTooSmall))
    );
    assert_eq!(orch.state, FixupState::Failed);
}

#[test]
fn undersized_report_breaks_the_protocol() {
    let mut orch = FixupOrchestrator::new(100);
    assert_eq!(
        orch.note_outcome(FixupStatus::BufferTooSmall, 50),
        Err(FixupError::Violation)
    );
    assert_eq!(orch.state, FixupState::Failed);
}

#[test]
fn outcome_after_failure_stays_failed() {
    let mut orch = FixupOrchestrator::new(10);
    let _ = orch.note_outcome(FixupStatus::Other(5), 10);
    assert_eq!(
        orch.note_outcome(FixupStatus::Success, 10),
        Err(FixupError::Violation)
    );
    assert_eq!(orch.state, FixupState::Failed);
}

#[test]
fn prepare_buffer_of_equal_size_copies_exactly() {
    let original = vec![7u8, 8, 9];
    let buffer = prepare_buffer(&original, 3);
    assert_eq!(buffer, original);
}
