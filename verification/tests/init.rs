use treeboot_core::error::Error;
use treeboot_core::init::{init_target, init_target_check, InitKind};

#[test]
fn init_should_refuse_existing_file() {
    let target = init_target("/d", InitKind::Config, &None);

    let error = init_target_check(&target, &Ok(true)).expect_err("existing target should be rejected");

    match error {
        Error::InitTargetExists(path) => assert_eq!(path, "/d/.treeboot.toml"),
        other => panic!("expected InitTargetExists, got {other:?}"),
    }
}

#[test]
fn init_should_refuse_existing_symlink_without_writing_through_it() {
    // The lookup does not follow the link: a symlink at the target counts as
    // existing, whatever it points to.
    let link = init_target("/d", InitKind::Config, &None);

    let error = init_target_check(&link, &Ok(true)).expect_err("existing symlink should be rejected");

    match error {
        Error::InitTargetExists(path) => assert_eq!(path, "/d/.treeboot.toml"),
        other => panic!("expected InitTargetExists, got {other:?}"),
    }
}

#[test]
fn init_target_check_should_accept_a_missing_target_and_report_lookup_failures() {
    assert!(init_target_check("/d/.treeboot.toml", &Ok(false)).is_ok());
    assert!(matches!(
        init_target_check("/d/.treeboot.toml", &Err("permission denied".to_owned())),
        Err(Error::InitIo { .. })
    ));
}
