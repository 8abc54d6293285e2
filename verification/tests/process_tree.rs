use std::collections::HashMap;

use windows_toolbox::model::error::AppError;
use windows_toolbox::model::process::ProcessCommandLine;
use windows_toolbox::process_tree::{
    build_parent_chain, build_process_tree, child_summaries, process_info_from_snapshot, process_summary_from_snapshot, check_terminable_name, check_terminable_pid, is_protected_process,
    require_present, SnapshotProcess, index_by_pid, process_names, confirm_command_line,
};

fn process(pid: u32, parent_pid: u32, name: &str) -> SnapshotProcess {
    SnapshotProcess { pid, parent_pid, name: name.into() }
}

#[test]
fn builds_chain_from_root_to_target() {
    let values = [
        process(1, 0, "root.exe"),
        process(2, 1, "parent.exe"),
        process(3, 2, "child.exe"),
    ];
    let by_pid: HashMap<u32, &SnapshotProcess> = values.iter().map(|item| (item.pid, item)).collect();
    let chain = build_parent_chain(3, &by_pid);

    assert_eq!(chain.iter().map(|item| item.pid).collect::<Vec<_>>(), [1, 2, 3]);
}

#[test]
fn breaks_cycles_in_snapshot() {
    let values = [process(1, 2, "a.exe"), process(2, 1, "b.exe")];
    let by_pid: HashMap<u32, &SnapshotProcess> = values.iter().map(|item| (item.pid, item)).collect();
    assert_eq!(build_parent_chain(1, &by_pid).len(), 2);
}

#[test]
fn builds_orphan_roots_and_stable_name_sorting() {
    let snapshot = build_process_tree(vec![
        process(30, 999, "zeta.exe"),
        process(40, 0, "alpha.exe"),
        process(21, 40, "child.exe"),
    ]);
    assert_eq!(snapshot.roots, [40, 30]);
    assert_eq!(snapshot.nodes[0].name, "alpha.exe");
    assert_eq!(snapshot.nodes[0].children, [21]);
    assert_eq!(snapshot.nodes[2].parent_pid, None);
}

#[test]
fn reports_missing_process_with_requested_pid() {
    let snapshot = vec![process(4, 0, "System"), process(1234, 4, "toolbox.exe")];
    let error = require_present(u32::MAX, &snapshot).expect_err("无效 PID 不应返回命令行");

    assert!(matches!(error, AppError::ProcessExited(u32::MAX)));
}

#[test]
fn chain_of_an_unknown_process_is_empty() {
    let values = [process(1, 0, "root.exe")];
    let by_pid: HashMap<u32, &SnapshotProcess> = values.iter().map(|item| (item.pid, item)).collect();
    assert!(build_parent_chain(7, &by_pid).is_empty());
    let chain = build_parent_chain(1, &by_pid);
    assert_eq!(chain.len(), 1);
    assert_eq!(chain[0].name, "root.exe");
    assert_eq!(chain[0].exe_path, None);
}

#[test]
fn tree_sorts_names_without_regard_to_case_then_by_pid() {
    let snapshot = build_process_tree(vec![
        process(9, 0, "Beta.exe"),
        process(5, 0, "beta.exe"),
        process(7, 0, "alpha.exe"),
        process(11, 9, "x.exe"),
        process(10, 9, "y.exe"),
    ]);
    let pids: Vec<u32> = snapshot.nodes.iter().map(|node| node.pid).collect();
    assert_eq!(pids, [7, 5, 9, 11, 10]);
    assert_eq!(snapshot.roots, [7, 5, 9]);
    assert_eq!(snapshot.nodes[2].children, [10, 11]);
    assert_eq!(snapshot.nodes[3].parent_pid, Some(9));
}

#[test]
fn critical_processes_are_protected() {
    assert!(is_protected_process("LSASS.EXE"));
    assert!(is_protected_process("System"));
    assert!(!is_protected_process("notepad.exe"));
    assert_eq!(
        check_terminable_name("csrss.exe"),
        Err(AppError::InvalidInput("系统关键进程 csrss.exe 不允许结束。".into()))
    );
    assert_eq!(check_terminable_name("notepad.exe"), Ok(()));
    assert_eq!(
        check_terminable_pid(4),
        Err(AppError::InvalidInput("系统保留 PID 不允许结束。".into()))
    );
    assert_eq!(check_terminable_pid(5), Ok(()));
}

#[test]
fn present_process_passes_the_check() {
    let snapshot = vec![process(12, 0, "a.exe")];
    assert_eq!(require_present(12, &snapshot), Ok(()));
}

#[test]
fn process_details_come_from_one_snapshot() {
    let values = vec![
        process(1, 0, "root.exe"),
        process(5, 1, "shell.exe"),
        process(9, 5, "b.exe"),
        process(7, 5, "a.exe"),
    ];
    let by_pid: HashMap<u32, &SnapshotProcess> = values.iter().map(|item| (item.pid, item)).collect();
    let info = process_info_from_snapshot(5, &values, &by_pid, Some(r"C:\shell.exe".into()), None).unwrap();
    assert_eq!(info.parent_pid, Some(1));
    assert_eq!(info.name, "shell.exe");
    assert_eq!(info.parent_chain.iter().map(|p| p.pid).collect::<Vec<_>>(), [1, 5]);
    assert_eq!(info.children.iter().map(|p| p.pid).collect::<Vec<_>>(), [7, 9]);
    assert_eq!(info.exe_path.as_deref(), Some(r"C:\shell.exe"));
    assert_eq!(info.command_line, None);
    let root = process_info_from_snapshot(1, &values, &by_pid, None, None).unwrap();
    assert_eq!(root.parent_pid, None);
    assert_eq!(
        process_info_from_snapshot(3, &values, &by_pid, None, None),
        Err(AppError::ProcessExited(3))
    );
    assert_eq!(child_summaries(9, &values).len(), 0);
    let summary = process_summary_from_snapshot(7, &values, None).unwrap();
    assert_eq!(summary.name, "a.exe");
    assert_eq!(process_summary_from_snapshot(8, &values, None), Err(AppError::ProcessExited(8)));
}

#[test]
fn index_by_pid_keeps_the_later_entry() {
    let values = vec![process(7, 0, "first.exe"), process(8, 7, "other.exe"), process(7, 1, "second.exe")];
    let by_pid = index_by_pid(&values);
    assert_eq!(by_pid.len(), 2);
    assert_eq!(by_pid[&7].name, "second.exe");
    assert_eq!(by_pid[&7].parent_pid, 1);
    assert_eq!(by_pid[&8].name, "other.exe");
    assert!(!by_pid.contains_key(&9));
}

#[test]
fn process_names_map_each_pid_to_its_name() {
    let values = vec![process(4, 0, "System"), process(100, 4, "a.exe"), process(100, 4, "b.exe")];
    let names = process_names(&values);
    assert_eq!(names.len(), 2);
    assert_eq!(names[&4], "System");
    assert_eq!(names[&100], "b.exe");
    assert!(process_names(&Vec::new()).is_empty());
}

#[test]
fn empty_command_line_of_exited_process_reports_exit() {
    let empty = ProcessCommandLine { pid: 42, command_line: None };
    assert_eq!(confirm_command_line(42, empty.clone(), false), Err(AppError::ProcessExited(42)));
    assert_eq!(confirm_command_line(42, empty.clone(), true), Ok(empty));
    let read = ProcessCommandLine { pid: 42, command_line: Some("tool.exe --flag".into()) };
    assert_eq!(confirm_command_line(42, read.clone(), false), Ok(read));
}

#[test]
fn entries_with_the_same_pid_and_name_keep_their_snapshot_order() {
    let snapshot = build_process_tree(vec![
        process(7, 3, "Dup.exe"),
        process(1, 0, "alpha.exe"),
        process(7, 5, "dup.exe"),
    ]);
    let order: Vec<(u32, &str)> = snapshot.nodes.iter().map(|n| (n.pid, n.name.as_str())).collect();
    assert_eq!(order, [(1, "alpha.exe"), (7, "Dup.exe"), (7, "dup.exe")]);
}
