use cc_bar::data::{
    ContextWindow, Cost, FileStatus, Model, SessionData, SessionStore, StatusLineData,
    MAX_HISTORY_SAMPLES, STALE_THRESHOLD_SECS,
};
use std::collections::VecDeque;

fn status(session_id: &str, display_name: &str, used: Option<u32>, cost: f64, duration_ms: u64) -> StatusLineData {
    StatusLineData {
        context_window: ContextWindow {
            used_percentage: used,
            remaining_percentage: used.map(|u| 100 - u),
            context_window_size: 200000,
            total_input_tokens: 100000,
            total_output_tokens: 5000,
        },
        model: Model { id: "opus-4-6".to_string(), display_name: display_name.to_string() },
        session_id: session_id.to_string(),
        cost: Cost { total_cost_usd_bits: cost.to_bits(), total_duration_ms: duration_ms },
    }
}

#[test]
fn test_session_store_update() {
    let mut store = SessionStore::new();

    let status = StatusLineData {
        context_window: ContextWindow {
            used_percentage: Some(50),
            remaining_percentage: Some(50),
            context_window_size: 200000,
            total_input_tokens: 100000,
            total_output_tokens: 5000,
        },
        model: Model { id: "opus-4-6".to_string(), display_name: "Opus".to_string() },
        session_id: "session1".to_string(),
        cost: Cost { total_cost_usd_bits: 0.10f64.to_bits(), total_duration_ms: 100000 },
    };

    store.update_from_status_line(status, "/home/user/project".to_string());
    assert_eq!(store.session_count(), 1);

    let sessions = store.get_all_sessions();
    assert_eq!(sessions[0].session_id, "session1");
    assert_eq!(sessions[0].context_used_percent, 50);
    assert_eq!(sessions[0].peak_usage_percent, 50);
}

#[test]
fn test_usage_history_accumulation() {
    let mut store = SessionStore::new();

    for i in 0..5u32 {
        let status = StatusLineData {
            context_window: ContextWindow {
                used_percentage: Some(i * 20),
                remaining_percentage: Some(100 - i * 20),
                context_window_size: 200000,
                total_input_tokens: 100000,
                total_output_tokens: 5000,
            },
            model: Model { id: "opus-4-6".to_string(), display_name: "Opus".to_string() },
            session_id: "session_hist".to_string(),
            cost: Cost { total_cost_usd_bits: 0.10f64.to_bits(), total_duration_ms: 100000 },
        };
        store.update_from_status_line(status, "/home/user/project".to_string());
    }

    let sessions = store.get_all_sessions();
    let session = &sessions[0];
    assert_eq!(session.usage_history.len(), 5);
    assert_eq!(session.usage_history[0], 0);
    assert_eq!(session.usage_history[4], 80);
}

#[test]
fn test_usage_history_max_samples_bound() {
    let mut store = SessionStore::new();

    for i in 0..(MAX_HISTORY_SAMPLES + 5) {
        let status = StatusLineData {
            context_window: ContextWindow {
                used_percentage: Some(i as u32),
                remaining_percentage: Some(100 - i as u32),
                context_window_size: 200000,
                total_input_tokens: 100000,
                total_output_tokens: 5000,
            },
            model: Model { id: "opus-4-6".to_string(), display_name: "Opus".to_string() },
            session_id: "session_bound".to_string(),
            cost: Cost { total_cost_usd_bits: 0.10f64.to_bits(), total_duration_ms: 100000 },
        };
        store.update_from_status_line(status, "/home/user/project".to_string());
    }

    let sessions = store.get_all_sessions();
    let session = &sessions[0];
    assert_eq!(session.usage_history.len(), MAX_HISTORY_SAMPLES);
    assert_eq!(session.usage_history[0], 5);
    assert_eq!(*session.usage_history.back().unwrap(), (MAX_HISTORY_SAMPLES + 4) as u32);
}

#[test]
fn test_usage_history_via_update_session() {
    let mut store = SessionStore::new();

    let mut history = VecDeque::new();
    history.push_back(10);
    history.push_back(20);

    let session = SessionData {
        session_id: "session_direct".to_string(),
        project_dir: "/tmp".to_string(),
        model_name: "Sonnet".to_string(),
        context_used_percent: 30,
        cost_usd_bits: 0.05f64.to_bits(),
        duration_ms: 50000,
        peak_usage_percent: 30,
        subagent_completed_count: 0,
        last_updated_at: 0,
        usage_history: history,
    };

    store.update_session(session);

    let sessions = store.get_all_sessions();
    let s = &sessions[0];
    assert_eq!(s.usage_history.len(), 3);
    assert_eq!(*s.usage_history.back().unwrap(), 30);
}

#[test]
fn test_peak_usage_tracking() {
    let mut store = SessionStore::new();

    let status1 = StatusLineData {
        context_window: ContextWindow {
            used_percentage: Some(30),
            remaining_percentage: Some(30),
            context_window_size: 200000,
            total_input_tokens: 60000,
            total_output_tokens: 3000,
        },
        model: Model { id: "opus-4-6".to_string(), display_name: "Opus".to_string() },
        session_id: "session1".to_string(),
        cost: Cost { total_cost_usd_bits: 0.05f64.to_bits(), total_duration_ms: 50000 },
    };

    store.update_from_status_line(status1, "/home/user/project".to_string());
    let sessions = store.get_all_sessions();
    assert_eq!(sessions[0].peak_usage_percent, 30);

    let status2 = StatusLineData {
        context_window: ContextWindow {
            used_percentage: Some(75),
            remaining_percentage: Some(25),
            context_window_size: 200000,
            total_input_tokens: 150000,
            total_output_tokens: 5000,
        },
        model: Model { id: "opus-4-6".to_string(), display_name: "Opus".to_string() },
        session_id: "session1".to_string(),
        cost: Cost { total_cost_usd_bits: 0.15f64.to_bits(), total_duration_ms: 100000 },
    };

    store.update_from_status_line(status2, "/home/user/project".to_string());
    let sessions = store.get_all_sessions();
    assert_eq!(sessions[0].peak_usage_percent, 75);
    assert_eq!(sessions[0].context_used_percent, 75);
}

#[test]
fn peak_does_not_drop() {
    let mut store = SessionStore::new();
    store.update_from_status_line_at(status("a", "Opus", Some(80), 0.1, 1000), "p".to_string(), 10);
    store.update_from_status_line_at(status("a", "Opus 4.6", Some(20), 0.2, 2000), "q".to_string(), 20);
    let s = &store.get_all_sessions()[0];
    assert_eq!(s.peak_usage_percent, 80);
    assert_eq!(s.context_used_percent, 20);
    assert_eq!(s.model_name, "Opus 4.6");
    assert_eq!(s.project_dir, "p");
    assert_eq!(s.last_updated_at, 20);
    assert_eq!(f64::from_bits(s.cost_usd_bits), 0.2);
    assert_eq!(s.duration_ms, 2000);
    assert_eq!(s.usage_history, VecDeque::from(vec![80, 20]));
}

#[test]
fn missing_usage_counts_as_zero() {
    let mut store = SessionStore::new();
    store.update_from_status_line_at(status("a", "Haiku", None, 0.0, 0), "p".to_string(), 7);
    let s = &store.get_all_sessions()[0];
    assert_eq!(s.context_used_percent, 0);
    assert_eq!(s.peak_usage_percent, 0);
    assert_eq!(s.subagent_completed_count, 0);
    assert_eq!(s.usage_history, VecDeque::from(vec![0]));
}

#[test]
fn sessions_listed_by_model() {
    let mut store = SessionStore::new();
    store.update_from_status_line_at(status("h", "Haiku 3", Some(1), 0.0, 0), "p".to_string(), 1);
    store.update_from_status_line_at(status("x", "Mystery", Some(2), 0.0, 0), "p".to_string(), 1);
    store.update_from_status_line_at(status("s", "Sonnet", Some(3), 0.0, 0), "p".to_string(), 1);
    store.update_from_status_line_at(status("o", "  Opus 4.6", Some(4), 0.0, 0), "p".to_string(), 1);
    store.update_from_status_line_at(status("s2", "Sonnet 4.5", Some(5), 0.0, 0), "p".to_string(), 1);
    let ids: Vec<String> = store.get_all_sessions().iter().map(|s| s.session_id.clone()).collect();
    assert_eq!(ids, vec!["o", "s", "s2", "h", "x"]);
    assert_eq!(store.session_count(), 5);
}

#[test]
fn remove_session_drops_only_that_one() {
    let mut store = SessionStore::default();
    store.update_from_status_line_at(status("a", "Opus", Some(1), 0.0, 0), "p".to_string(), 1);
    store.update_from_status_line_at(status("b", "Opus", Some(2), 0.0, 0), "p".to_string(), 1);
    store.remove_session("a");
    assert_eq!(store.session_count(), 1);
    assert_eq!(store.session_ids(), vec!["b".to_string()]);
    store.remove_session("zzz");
    store.ids_are_distinct();
    assert_eq!(store.session_count(), 1);
}

#[test]
fn update_session_existing_keeps_identity() {
    let mut store = SessionStore::new();
    store.update_from_status_line_at(status("a", "Opus", Some(40), 0.0, 0), "p".to_string(), 1);
    let supplied = SessionData {
        session_id: "a".to_string(),
        project_dir: "other".to_string(),
        model_name: "Haiku".to_string(),
        context_used_percent: 10,
        cost_usd_bits: 1.5f64.to_bits(),
        duration_ms: 99,
        peak_usage_percent: 0,
        subagent_completed_count: 9,
        last_updated_at: 0,
        usage_history: VecDeque::new(),
    };
    store.update_session_at(supplied, 33);
    let s = &store.get_all_sessions()[0];
    assert_eq!(s.model_name, "Opus");
    assert_eq!(s.project_dir, "p");
    assert_eq!(s.subagent_completed_count, 0);
    assert_eq!(s.context_used_percent, 10);
    assert_eq!(s.peak_usage_percent, 40);
    assert_eq!(s.duration_ms, 99);
    assert_eq!(s.last_updated_at, 33);
    assert_eq!(s.usage_history, VecDeque::from(vec![40, 10]));
}

#[test]
fn update_session_new_keeps_supplied_peak_and_trims() {
    let mut store = SessionStore::new();
    let history: VecDeque<u32> = (0..21).collect();
    let supplied = SessionData {
        session_id: "n".to_string(),
        project_dir: "d".to_string(),
        model_name: "Sonnet".to_string(),
        context_used_percent: 90,
        cost_usd_bits: 0,
        duration_ms: 0,
        peak_usage_percent: 5,
        subagent_completed_count: 2,
        last_updated_at: 0,
        usage_history: history,
    };
    store.update_session_at(supplied, 44);
    let s = &store.get_all_sessions()[0];
    assert_eq!(s.peak_usage_percent, 5);
    assert_eq!(s.last_updated_at, 44);
    assert_eq!(s.usage_history.len(), 21);
    assert_eq!(s.usage_history[0], 1);
    assert_eq!(*s.usage_history.back().unwrap(), 90);
}

#[test]
fn stale_sessions_are_removed() {
    let mut store = SessionStore::new();
    for id in ["a", "b", "c", "d", "e"] {
        store.update_from_status_line_at(status(id, "Opus", Some(1), 0.0, 0), "p".to_string(), 1);
    }
    let ids = store.session_ids();
    assert_eq!(ids.len(), 5);
    let statuses = vec![
        FileStatus::Age(STALE_THRESHOLD_SECS - 1),
        FileStatus::Age(STALE_THRESHOLD_SECS),
        FileStatus::Missing,
        FileStatus::ModifiedInFuture,
        FileStatus::MtimeUnavailable,
    ];
    store.remove_stale_by_mtime(&statuses, STALE_THRESHOLD_SECS);
    assert_eq!(store.session_ids(), vec!["a".to_string(), "d".to_string()]);
}

#[test]
fn stale_threshold_is_two_minutes() {
    assert_eq!(STALE_THRESHOLD_SECS, 120);
    assert_eq!(MAX_HISTORY_SAMPLES, 21);
}

#[test]
fn duplicate_copies_everything() {
    let mut store = SessionStore::new();
    store.update_from_status_line_at(status("a", "Opus", Some(3), 2.5, 7), "p".to_string(), 9);
    let all = store.get_all_sessions();
    let d = all[0].duplicate();
    assert_eq!(d.session_id, "a");
    assert_eq!(d.usage_history, all[0].usage_history);
    assert_eq!(d.cost_usd_bits, 2.5f64.to_bits());
}
