use reliability::fault::{fault_role, FaultGate, FaultRole, ReleaseChannel};
use reliability::symbols::RawFrame;
use reliability::watchdog::{
    hang_monitor_enabled, CaptureSlot, CaptureState, ProbeAction, Prober, SendOutcome, HEARTBEAT_CAPACITY,
    MAX_CAPTURED_FRAMES,
};
use std::sync::mpsc::{sync_channel, TrySendError};

#[test]
fn roles_of_faulting_threads() {
    assert_eq!(fault_role(0, ReleaseChannel::Stable, false), FaultRole::Report { write_file: true });
    assert_eq!(fault_role(0, ReleaseChannel::Nightly, true), FaultRole::Report { write_file: false });
    assert_eq!(fault_role(0, ReleaseChannel::Dev, false), FaultRole::PrintAndExit);
    assert_eq!(fault_role(1, ReleaseChannel::Stable, false), FaultRole::Wait);
    assert_eq!(fault_role(u32::MAX, ReleaseChannel::Dev, false), FaultRole::Wait);
}

#[test]
fn only_the_first_fault_reports() {
    let gate = FaultGate::new();
    let roles: Vec<FaultRole> = (0..5).map(|_| gate.enter(ReleaseChannel::Preview, false)).collect();
    assert_eq!(roles.iter().filter(|r| **r != FaultRole::Wait).count(), 1);
    assert_eq!(roles[0], FaultRole::Report { write_file: true });
}

#[test]
fn channel_names() {
    assert_eq!(ReleaseChannel::Dev.dev_name(), "dev");
    assert_eq!(ReleaseChannel::Nightly.dev_name(), "nightly");
    assert_eq!(ReleaseChannel::Preview.dev_name(), "preview");
    assert_eq!(ReleaseChannel::Stable.dev_name(), "stable");
}

#[test]
fn hang_monitor_runs_before_stable_with_diagnostics() {
    assert!(hang_monitor_enabled(ReleaseChannel::Dev, true));
    assert!(hang_monitor_enabled(ReleaseChannel::Nightly, true));
    assert!(hang_monitor_enabled(ReleaseChannel::Preview, true));
    assert!(!hang_monitor_enabled(ReleaseChannel::Stable, true));
    assert!(!hang_monitor_enabled(ReleaseChannel::Nightly, false));
}

#[test]
fn stalled_primary_thread_is_captured_once() {
    let (tx, _rx) = sync_channel::<()>(HEARTBEAT_CAPACITY);
    let mut prober = Prober::new();
    let mut actions = Vec::new();
    for _ in 0..8 {
        let outcome = match tx.try_send(()) {
            Ok(()) => SendOutcome::Sent,
            Err(TrySendError::Full(())) => SendOutcome::Full,
            Err(TrySendError::Disconnected(())) => SendOutcome::Closed,
        };
        actions.push(prober.probe(outcome));
    }
    assert_eq!(
        actions,
        vec![
            ProbeAction::Continue,
            ProbeAction::Continue,
            ProbeAction::Continue,
            ProbeAction::Capture,
            ProbeAction::Stop,
            ProbeAction::Stop,
            ProbeAction::Stop,
            ProbeAction::Stop,
        ]
    );
}

#[test]
fn healthy_primary_thread_is_never_captured() {
    let (tx, rx) = sync_channel::<()>(HEARTBEAT_CAPACITY);
    let mut prober = Prober::new();
    for _ in 0..20 {
        let outcome = match tx.try_send(()) {
            Ok(()) => SendOutcome::Sent,
            Err(TrySendError::Full(())) => SendOutcome::Full,
            Err(TrySendError::Disconnected(())) => SendOutcome::Closed,
        };
        assert_eq!(prober.probe(outcome), ProbeAction::Continue);
        while rx.try_recv().is_ok() {}
    }
}

#[test]
fn closed_heartbeat_queue_stops_probing() {
    let mut prober = Prober::new();
    assert_eq!(prober.probe(SendOutcome::Closed), ProbeAction::Stop);
    assert_eq!(prober.probe(SendOutcome::Full), ProbeAction::Stop);
}

fn raw(ip: usize) -> RawFrame {
    RawFrame { ip, symbol_address: ip, module_base: None, symbol_names: Vec::new() }
}

#[test]
fn capture_slot_runs_one_cycle_at_a_time() {
    let mut slot = CaptureSlot::new();
    assert_eq!(slot.state(), CaptureState::Armed);
    assert!(slot.take().is_none());
    assert!(slot.fire());
    assert!(!slot.fire());
    assert!(slot.record(raw(1)));
    assert!(slot.record(raw(2)));
    assert!(slot.take().is_none());
    slot.finish();
    assert!(!slot.fire());
    let frames = slot.take().unwrap();
    assert_eq!(frames.iter().map(|f| f.ip).collect::<Vec<_>>(), vec![1, 2]);
    assert_eq!(slot.state(), CaptureState::Resolving);
    assert!(!slot.fire());
    assert!(slot.rearm());
    assert!(!slot.rearm());
    assert!(slot.fire());
    slot.finish();
    assert!(slot.take().unwrap().is_empty());
}

#[test]
fn capture_keeps_at_most_the_reserved_frames() {
    let mut slot = CaptureSlot::new();
    assert!(slot.fire());
    let mut more = true;
    let mut calls = 0;
    while more {
        more = slot.record(raw(calls));
        calls += 1;
    }
    assert_eq!(calls, MAX_CAPTURED_FRAMES);
    assert!(!slot.record(raw(999)));
    slot.finish();
    let frames = slot.take().unwrap();
    assert_eq!(frames.len(), MAX_CAPTURED_FRAMES);
    assert_eq!(frames[MAX_CAPTURED_FRAMES - 1].ip, MAX_CAPTURED_FRAMES - 1);
}
