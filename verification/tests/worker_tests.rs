use codex_quota_ball::{
    codex::ClientError,
    quota::{QuotaSnapshot, QuotaWindow},
    usage::UsageSnapshot,
    worker::{
        DashboardRead, DashboardViewState, QuotaViewState, RefreshLoop, WorkerAction, WorkerEvent,
        WorkerInput,
    },
};

fn sample_quota() -> QuotaSnapshot {
    QuotaSnapshot {
        primary: Some(QuotaWindow {
            remaining_percent: 72,
            resets_at: None,
            window_duration_mins: Some(300),
        }),
        secondary: None,
    }
}

#[test]
fn a_failure_keeps_previous_data_and_marks_it_stale() {
    let mut state = QuotaViewState::default();
    let snapshot = sample_quota();
    state.apply(WorkerEvent::Started);
    state.apply(WorkerEvent::Finished(DashboardRead {
        quota: Ok(snapshot.clone()),
        usage: Ok(UsageSnapshot { daily: None }),
    }));
    state.apply(WorkerEvent::Started);
    state.apply(WorkerEvent::Finished(DashboardRead {
        quota: Err("timeout".into()),
        usage: Err("timeout".into()),
    }));
    assert_eq!(state.snapshot, Some(snapshot));
    assert!(state.stale);
    assert_eq!(state.error.as_deref(), Some("timeout"));
    assert!(!state.refreshing);
}

#[test]
fn a_first_failure_is_not_stale() {
    let mut state = QuotaViewState::default();
    state.apply(WorkerEvent::Started);
    assert!(state.refreshing);
    state.apply(WorkerEvent::Finished(DashboardRead {
        quota: Err("missing".into()),
        usage: Err("missing".into()),
    }));
    assert_eq!(state.snapshot, None);
    assert!(!state.stale);
    assert_eq!(state.error.as_deref(), Some("missing"));
    assert!(state.updated_at.is_none());
}

#[test]
fn usage_failure_keeps_usage_stale_but_updates_quota() {
    let mut state = DashboardViewState::default();
    state.apply(WorkerEvent::Started);
    state.apply(WorkerEvent::Finished(DashboardRead {
        quota: Ok(sample_quota()),
        usage: Ok(UsageSnapshot { daily: Some(vec![]) }),
    }));
    state.apply(WorkerEvent::Started);
    state.apply(WorkerEvent::Finished(DashboardRead {
        quota: Ok(sample_quota()),
        usage: Err("usage unavailable".into()),
    }));
    assert!(!state.quota.stale);
    assert!(state.quota.updated_at.is_some());
    assert!(state.usage.stale);
    assert!(state.usage.value.is_some());
    assert_eq!(state.usage.error.as_deref(), Some("usage unavailable"));
}

#[test]
fn quota_failure_does_not_discard_fresh_usage() {
    let mut state = DashboardViewState::default();
    state.apply(WorkerEvent::Started);
    state.apply(WorkerEvent::Finished(DashboardRead {
        quota: Err("quota unavailable".into()),
        usage: Ok(UsageSnapshot { daily: Some(vec![]) }),
    }));
    assert!(state.quota.value.is_none());
    assert!(state.quota.error.is_some());
    assert!(state.usage.value.is_some());
    assert!(!state.usage.stale);
    assert!(!state.refreshing);
}

#[test]
fn refresh_loop_connects_once_and_reconnects_after_a_broken_client() {
    let mut refresh = RefreshLoop::new();
    assert!(!refresh.client_kept());
    assert!(matches!(
        refresh.step(WorkerInput::Woken),
        WorkerAction::Publish(WorkerEvent::Started)
    ));
    assert!(matches!(refresh.step(WorkerInput::Published), WorkerAction::Connect));
    match refresh.step(WorkerInput::ConnectFailed(ClientError::MissingCodex)) {
        WorkerAction::Publish(WorkerEvent::Finished(read)) => {
            assert_eq!(read.quota, Err(ClientError::MissingCodex.message()));
            assert_eq!(read.usage, Err(ClientError::MissingCodex.message()));
        }
        other => panic!("unexpected {other:?}"),
    }
    assert!(matches!(refresh.step(WorkerInput::Published), WorkerAction::Wait));

    assert!(matches!(
        refresh.step(WorkerInput::Woken),
        WorkerAction::Publish(WorkerEvent::Started)
    ));
    assert!(matches!(refresh.step(WorkerInput::Published), WorkerAction::Connect));
    assert!(matches!(refresh.step(WorkerInput::Connected), WorkerAction::Read));
    assert!(refresh.client_kept());
    let read = WorkerInput::Read {
        quota: Ok(sample_quota()),
        usage: Err(ClientError::Timeout),
        transport_failed: false,
    };
    match refresh.step(read) {
        WorkerAction::Publish(WorkerEvent::Finished(read)) => {
            assert_eq!(read.quota, Ok(sample_quota()));
            assert_eq!(read.usage, Err(ClientError::Timeout.message()));
        }
        other => panic!("unexpected {other:?}"),
    }
    assert!(refresh.client_kept());
    assert!(matches!(refresh.step(WorkerInput::Published), WorkerAction::Wait));

    refresh.step(WorkerInput::Woken);
    assert!(matches!(refresh.step(WorkerInput::Published), WorkerAction::Read));
    let broken = WorkerInput::Read {
        quota: Err(ClientError::Process(String::from("stdout closed"))),
        usage: Err(ClientError::Process(String::from("stdout closed"))),
        transport_failed: true,
    };
    refresh.step(broken);
    assert!(!refresh.client_kept());
    refresh.step(WorkerInput::Published);
    refresh.step(WorkerInput::Woken);
    assert!(matches!(refresh.step(WorkerInput::Published), WorkerAction::Connect));

    assert!(matches!(refresh.step(WorkerInput::Disconnected), WorkerAction::Stop));
    assert!(matches!(refresh.step(WorkerInput::Woken), WorkerAction::Stop));
}

#[test]
fn a_signed_out_reply_makes_the_next_round_start_a_fresh_server() {
    let mut refresh = RefreshLoop::new();
    refresh.step(WorkerInput::Woken);
    refresh.step(WorkerInput::Published);
    refresh.step(WorkerInput::Connected);
    let signed_out = WorkerInput::Read {
        quota: Err(ClientError::NotLoggedIn),
        usage: Ok(UsageSnapshot { daily: None }),
        transport_failed: false,
    };
    match refresh.step(signed_out) {
        WorkerAction::Publish(WorkerEvent::Finished(read)) => {
            assert_eq!(read.quota, Err(ClientError::NotLoggedIn.message()));
            assert_eq!(read.usage, Ok(UsageSnapshot { daily: None }));
        }
        other => panic!("unexpected {other:?}"),
    }
    assert!(!refresh.client_kept());
    assert!(matches!(refresh.step(WorkerInput::Published), WorkerAction::Wait));
    refresh.step(WorkerInput::Woken);
    assert!(matches!(refresh.step(WorkerInput::Published), WorkerAction::Connect));
}
