use treeboot_core::config::FileOperationKind;
use treeboot_core::output::{FileOperationSummary, OutputEvent};

fn s(v: &str) -> String {
    v.to_owned()
}

#[test]
fn message_should_format_config_detected() {
    let event = OutputEvent::ConfigDetected { path: s(".treeboot.toml") };
    assert_eq!(event.message(), "treeboot: config detected .treeboot.toml");
}

#[test]
fn message_should_format_file_applied() {
    let event = OutputEvent::FileApplied {
        operation: FileOperationKind::Copy,
        source: s(".env"),
        target: s(".env"),
    };
    assert_eq!(event.message(), "treeboot: copy .env -> .env");
}

#[test]
fn message_should_format_file_would_apply() {
    let event = OutputEvent::FileWouldApply {
        operation: FileOperationKind::Symlink,
        source: s("tool"),
        target: s(".tool"),
    };
    assert_eq!(event.message(), "treeboot: would symlink tool -> .tool");
}

#[test]
fn message_should_format_file_metadata_applied() {
    let event = OutputEvent::FileMetadataApplied {
        source: s("shared/config"),
        target: s(".config"),
    };
    assert_eq!(event.message(), "treeboot: sync metadata shared/config -> .config");
}

#[test]
fn message_should_format_file_metadata_would_apply() {
    let event = OutputEvent::FileMetadataWouldApply {
        source: s("shared/config"),
        target: s(".config"),
    };
    assert_eq!(event.message(), "treeboot: would sync metadata shared/config -> .config");
}

#[test]
fn message_should_format_file_skipped() {
    let event = OutputEvent::FileSkipped {
        operation: FileOperationKind::Copy,
        target: s(".env"),
        reason: s("target exists"),
    };
    assert_eq!(event.message(), "treeboot: skip copy .env; target exists");
}

#[test]
fn message_should_format_file_would_skip() {
    let event = OutputEvent::FileWouldSkip {
        operation: FileOperationKind::Sync,
        target: s("shared"),
        reason: s("missing source"),
    };
    assert_eq!(event.message(), "treeboot: would skip sync shared; missing source");
}

#[test]
fn message_should_omit_file_operation_lifecycle_events() {
    let events = [
        OutputEvent::FileOperationPlanningStarted {
            operation: FileOperationKind::Copy,
            source: s(".env"),
            target: s(".env"),
        },
        OutputEvent::FileOperationPlanningFinished {
            operation: FileOperationKind::Copy,
            source: s(".env"),
            target: s(".env"),
            action_count: 1,
        },
        OutputEvent::FileOperationExecutionStarted {
            operation: FileOperationKind::Copy,
            source: s(".env"),
            target: s(".env"),
            action_count: 1,
        },
        OutputEvent::FileOperationActionAdvanced {
            operation: FileOperationKind::Copy,
            source: s(".env"),
            target: s(".env"),
        },
    ];
    for event in events {
        assert_eq!(event.message(), "");
    }
}

#[test]
fn message_should_format_finished_file_operation_summary() {
    let event = OutputEvent::FileOperationFinished {
        operation: FileOperationKind::Sync,
        source: s("shared"),
        target: s("shared"),
        summary: FileOperationSummary {
            changed: 2,
            deleted: 1,
            expanded: true,
            ..FileOperationSummary::default()
        },
        dry_run: false,
    };
    assert_eq!(event.message(), "treeboot: sync shared -> shared (2 changed, 1 deleted)");
}

#[test]
fn message_should_format_file_deleted() {
    let event = OutputEvent::FileDeleted { path: s(".config/old.toml") };
    assert_eq!(event.message(), "treeboot: delete .config/old.toml");
}

#[test]
fn message_should_format_file_would_delete() {
    let event = OutputEvent::FileWouldDelete { path: s(".config/old.toml") };
    assert_eq!(event.message(), "treeboot: would delete .config/old.toml");
}

#[test]
fn message_should_format_file_warning() {
    let event = OutputEvent::FileWarning {
        path: s("shared/link"),
        reason: s("symlink target does not exist"),
    };
    assert_eq!(event.message(), "treeboot: warning: shared/link symlink target does not exist");
}

#[test]
fn message_should_format_ownership_warning() {
    let event = OutputEvent::OwnershipWarning {
        path: s("shared/config"),
        reason: s("operation not permitted"),
    };
    assert_eq!(
        event.message(),
        "treeboot: warning: could not preserve ownership shared/config: operation not permitted"
    );
}

#[test]
fn message_should_format_single_file_operation_summary_without_counts() {
    let summary = FileOperationSummary { changed: 1, ..FileOperationSummary::default() };
    assert_eq!(
        summary.message(FileOperationKind::Copy, ".env", ".env", false),
        "treeboot: copy .env -> .env"
    );
}

#[test]
fn message_should_format_expanded_file_operation_summary_with_counts() {
    let summary = FileOperationSummary {
        changed: 4,
        deleted: 1,
        expanded: true,
        ..FileOperationSummary::default()
    };
    assert_eq!(
        summary.message(FileOperationKind::Sync, "shared", "shared", false),
        "treeboot: sync shared -> shared (4 changed, 1 deleted)"
    );
}

#[test]
fn message_should_omit_empty_file_operation_summary_counts() {
    let summary = FileOperationSummary { warnings: 1, ..FileOperationSummary::default() };
    assert_eq!(
        summary.message(FileOperationKind::Copy, "shared/link", "shared/link", false),
        "treeboot: copy shared/link -> shared/link"
    );
}

#[test]
fn message_should_format_single_dry_run_skip_summary() {
    let summary = FileOperationSummary {
        skipped: 1,
        skip_reason: Some(s("target exists")),
        ..FileOperationSummary::default()
    };
    assert_eq!(
        summary.message(FileOperationKind::Copy, ".env", ".env", true),
        "treeboot: would skip copy .env; target exists"
    );
}

#[test]
fn message_should_format_root_worktree_detected() {
    assert_eq!(OutputEvent::RootWorktreeDetected.message(), "treeboot: This is not a work tree");
}

#[test]
fn message_should_format_command_started() {
    let event = OutputEvent::CommandStarted { label: s("Install packages: npm install") };
    assert_eq!(event.message(), "treeboot: run Install packages: npm install");
}

#[test]
fn message_should_format_command_allowed_failure() {
    let event = OutputEvent::CommandAllowedFailure {
        label: s("lint"),
        reason: s("failed with exit status: 1"),
    };
    assert_eq!(event.message(), "treeboot: warning: command lint failed with exit status: 1");
}

#[test]
fn summary_message_should_pluralise_dry_run_counts() {
    let summary = FileOperationSummary {
        changed: 1,
        skipped: 3,
        deleted: 2,
        expanded: true,
        ..FileOperationSummary::default()
    };
    assert_eq!(summary.decision_count(), 6);
    assert_eq!(
        summary.message(FileOperationKind::Sync, "a", "b", true),
        "treeboot: would sync a -> b (1 change, 3 skips, 2 deletes)"
    );
}

#[test]
fn summary_message_should_describe_single_metadata_repair() {
    let summary = FileOperationSummary {
        changed: 1,
        metadata_changed: 1,
        expanded: true,
        ..FileOperationSummary::default()
    };
    assert_eq!(
        summary.message(FileOperationKind::Sync, "a", "b", true),
        "treeboot: would sync metadata a -> b"
    );
}

#[test]
fn summary_message_should_default_single_skip_reason() {
    let summary = FileOperationSummary { skipped: 1, ..FileOperationSummary::default() };
    assert_eq!(
        summary.message(FileOperationKind::Copy, "a", "b", false),
        "treeboot: skip copy b; skipped"
    );
}

#[test]
fn message_should_format_remaining_events() {
    assert_eq!(OutputEvent::NoConfigDetected.message(), "treeboot: no config detected");
    assert_eq!(
        OutputEvent::CommandWouldRun { label: s("lint") }.message(),
        "treeboot: would run lint"
    );
    assert_eq!(
        OutputEvent::InitCreated { path: s(".treeboot.toml") }.message(),
        "treeboot: created .treeboot.toml"
    );
}
