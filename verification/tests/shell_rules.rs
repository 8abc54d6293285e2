use windows_toolbox::home::{
    home_review_favorites, home_review_recent_visits, home_review_sessions, notice_duration,
    record_recent_visit, toggle_favorite, update_recent_status, update_recent_summary, NoticeTone,
    RecentToolVisit, MAX_RECENT_VISITS,
};
use windows_toolbox::model::communication::{CommunicationKind, CommunicationSessionState};
use windows_toolbox::navigation::{favorite_descriptors, normalize_favorite_tools, registered_tool_ids};
use windows_toolbox::presets::{
    preset_display_name, preset_summary, settings_review_presets, settings_timestamp, SafePresetTool,
};
use windows_toolbox::model::error::AppError;
use windows_toolbox::requests::{accept_task_event, record_dispatch, LatestRequests};

fn favorites_are_normalized() {
    let descriptors = registered_tool_ids();
    let mut favorites = vec![
        "process-inspector".to_owned(),
        "missing-tool".to_owned(),
        "file-lock".to_owned(),
        "process-inspector".to_owned(),
    ];

    normalize_favorite_tools(&descriptors, &mut favorites);

    assert_eq!(favorites, ["file-lock", "process-inspector"]);
}

#[test]
fn app_favorite_tools_are_deduplicated_filtered_and_registry_ordered() {
    favorites_are_normalized();
}

#[test]
fn mod_favorite_tools_are_deduplicated_filtered_and_registry_ordered() {
    favorites_are_normalized();
}

fn stale_event_is_refused() {
    let mut latest = LatestRequests::new();
    latest.insert("port-inspector", 2);
    assert!(!accept_task_event(&mut latest, "port-inspector", 1, true));
    assert_eq!(latest.get("port-inspector"), Some(2));
    assert!(accept_task_event(&mut latest, "port-inspector", 2, true));
    assert!(!latest.contains_key("port-inspector"));
}

#[test]
fn app_stale_finished_event_does_not_clear_or_route_latest_request() {
    stale_event_is_refused();
}

#[test]
fn mod_stale_finished_event_does_not_clear_or_route_latest_request() {
    stale_event_is_refused();
}

#[test]
fn port_detail_event_is_tracked_independently_from_port_refresh() {
    let mut latest = LatestRequests::new();
    latest.insert("port-inspector", 1);
    latest.insert("port-inspector-process-details", 2);

    assert!(accept_task_event(&mut latest, "port-inspector", 1, true));
    assert_eq!(latest.get("port-inspector-process-details"), Some(2));
    assert!(accept_task_event(&mut latest, "port-inspector-process-details", 2, true));
    assert!(latest.is_empty());
}

#[test]
fn settings_review_data_matches_the_reference_presets() {
    let presets = settings_review_presets();

    assert_eq!(presets.len(), 3);
    assert_eq!(presets[0].tool, SafePresetTool::Ping);
    assert_eq!(presets[0].updated_at.as_deref(), Some("2025-05-20 14:32:18"));
    assert_eq!(presets[1].tool, SafePresetTool::TcpProbe);
    assert_eq!(presets[2].tool, SafePresetTool::SerialDebug);
    assert_eq!(
        preset_summary(&presets[2]),
        "波特率=115200, 数据位=8, 校验=无, 停止位=1, 流控=无"
    );
}

#[test]
fn progress_events_keep_the_request_until_it_finishes() {
    let mut latest = LatestRequests::new();
    latest.insert("ping", 4);
    assert!(accept_task_event(&mut latest, "ping", 4, false));
    assert_eq!(latest.get("ping"), Some(4));
    latest.insert("ping", 5);
    assert!(!accept_task_event(&mut latest, "ping", 4, true));
    assert!(accept_task_event(&mut latest, "ping", 5, true));
    assert!(latest.is_empty());
    assert!(!accept_task_event(&mut latest, "ping", 5, true));
}

#[test]
fn network_presets_are_summarised_by_family_and_timing() {
    let presets = settings_review_presets();
    assert_eq!(preset_summary(&presets[0]), "IPv4, 超时=1000ms, 间隔=1000ms, 次数=4");
    assert_eq!(preset_display_name(&presets[0]), "快速 Ping");
    assert_eq!(preset_display_name(&presets[2]), "串口 115200 8N1");
}

#[test]
fn settings_timestamp_stops_at_seconds() {
    assert_eq!(settings_timestamp("2025-05-20 14:32:18.123"), "2025-05-20 14:32:18");
    assert_eq!(settings_timestamp("short"), "short");
}

#[test]
fn favorite_descriptors_follow_the_registry() {
    let registry = registered_tool_ids();
    let favorites = vec!["serial-debug".to_owned(), "ping".to_owned(), "ping".to_owned()];
    assert_eq!(favorite_descriptors(&registry, &favorites), ["ping", "serial-debug"]);
    assert_eq!(home_review_favorites(&registry), ["dns-lookup", "ping", "tcp-debug"]);
}

#[test]
fn toggling_a_favorite_adds_or_removes_it() {
    let registry = registered_tool_ids();
    let mut favorites = vec!["ping".to_owned()];
    toggle_favorite(&mut favorites, &registry, "mtr");
    assert_eq!(favorites, ["ping", "mtr"]);
    toggle_favorite(&mut favorites, &registry, "ping");
    assert_eq!(favorites, ["mtr"]);
    toggle_favorite(&mut favorites, &registry, "unknown-tool");
    assert_eq!(favorites, ["mtr"]);
}

fn visit(tool_id: &str) -> RecentToolVisit {
    RecentToolVisit {
        tool_id: tool_id.into(),
        session_summary: None,
        status: None,
        visited_at: "2025-01-01 00:00:00.000".into(),
    }
}

#[test]
fn recent_visits_keep_the_latest_eight_without_repeats() {
    let mut visits = Vec::new();
    for id in ["a", "b", "c", "d", "e", "f", "g", "h", "i"] {
        record_recent_visit(&mut visits, visit(id));
    }
    assert_eq!(visits.len(), MAX_RECENT_VISITS);
    assert_eq!(visits[0].tool_id, "i");
    assert_eq!(visits[7].tool_id, "b");
    record_recent_visit(&mut visits, visit("e"));
    assert_eq!(visits.len(), MAX_RECENT_VISITS);
    assert_eq!(visits[0].tool_id, "e");
    assert_eq!(visits.iter().filter(|v| v.tool_id == "e").count(), 1);
}

#[test]
fn recent_visit_follows_its_session_state() {
    let mut visits = vec![visit("tcp-debug"), visit("ping")];
    update_recent_summary(&mut visits, "tcp-debug", "192.0.2.10:8080".into());
    assert_eq!(visits[0].session_summary.as_deref(), Some("192.0.2.10:8080"));
    assert_eq!(visits[0].status.as_deref(), Some("启动中"));
    update_recent_status(&mut visits, "tcp-debug", CommunicationSessionState::Connected);
    assert_eq!(visits[0].status.as_deref(), Some("已连接"));
    assert_eq!(visits[1].status, None);
    update_recent_status(&mut visits, "udp-debug", CommunicationSessionState::Failed);
    assert_eq!(visits[1].status, None);
}

#[test]
fn review_home_data_is_fixed() {
    let sessions = home_review_sessions();
    assert_eq!(sessions.len(), 2);
    assert_eq!(sessions[0].kind, CommunicationKind::Tcp);
    assert_eq!(sessions[1].summary, "COM3，115200，8N1");
    let visits = home_review_recent_visits();
    assert_eq!(visits.len(), 5);
    assert_eq!(visits[4].tool_id, "tcp-probe");
    assert_eq!(notice_duration(NoticeTone::Success), 4);
    assert_eq!(notice_duration(NoticeTone::Danger), 10);
}

#[test]
fn normalizing_twice_changes_nothing() {
    let registry = registered_tool_ids();
    let mut favorites = vec!["udp-debug".to_owned(), "ping".to_owned(), "udp-debug".to_owned(), "x".to_owned()];
    normalize_favorite_tools(&registry, &mut favorites);
    let once = favorites.clone();
    normalize_favorite_tools(&registry, &mut favorites);
    assert_eq!(favorites, once);
    assert_eq!(once, ["ping", "udp-debug"]);
}

#[test]
fn refused_submission_keeps_the_pending_request() {
    let mut latest = LatestRequests::new();
    assert!(record_dispatch(&mut latest, "ping", &Ok(3)));
    assert_eq!(latest.get("ping"), Some(3));
    let refused: Result<u64, AppError> = Err(AppError::QueueFull("满".into()));
    assert!(record_dispatch(&mut latest, "ping", &refused));
    assert_eq!(latest.get("ping"), Some(3));
    assert!(!record_dispatch(&mut latest, "dns-lookup", &refused));
    assert_eq!(latest.get("dns-lookup"), None);
}
