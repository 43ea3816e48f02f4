use std::collections::HashSet;

use local_shelf::config::Config;
use local_shelf::file_operations::{
    DestinationResolver, FileOperationError, FileOperations, MoveCommand, MoveEvent, MovePhase,
    move_step, resolve_destination_name,
};

#[test]
fn test_get_pages_directory() {
    let config = Config {
        knowledge_base_path: "/test/kb".to_string(),
    };
    let pages_dir = FileOperations::get_pages_directory(&config).unwrap();
    assert_eq!(pages_dir, "/test/kb/pages");
}

#[test]
fn test_resolver_first_probe_is_plain_name() {
    let resolver = DestinationResolver::with_token("article.md", 0xabc);
    assert_eq!(resolver.current_name(), "article.md");
}

#[test]
fn test_resolver_collision_name_shape() {
    let mut resolver = DestinationResolver::with_token("test.md", 0x1f2e);
    resolver.mark_taken().unwrap();
    let name = resolver.current_name();
    assert_eq!(name, "test_1f2e.md");
    resolver.mark_taken().unwrap();
    assert_eq!(resolver.current_name(), "test_1f2e_1.md");
    resolver.mark_taken().unwrap();
    assert_eq!(resolver.current_name(), "test_1f2e_2.md");
}

#[test]
fn test_resolver_current_path_joins_directory() {
    let resolver = DestinationResolver::with_token("a.md", 1);
    assert_eq!(resolver.current_path("/kb/pages"), "/kb/pages/a.md");
}

#[test]
fn test_resolve_destination_path_no_collision() {
    let occupied: Vec<String> = vec![];
    let dest = resolve_destination_name("test.md", 77, &occupied).unwrap();
    assert_eq!(dest, "test.md");
}

#[test]
fn test_resolve_destination_path_with_collision() {
    let occupied = vec!["test.md".to_string()];
    let dest = resolve_destination_name("test.md", 77, &occupied).unwrap();
    assert_ne!(dest, "test.md");
    assert!(dest.contains("test_"));
    assert!(dest.ends_with(".md"));
}

#[test]
fn test_resolve_destination_path_multiple_collisions() {
    let token = 0xfeed;
    let mut occupied = vec!["test.md".to_string()];
    let first_dest = resolve_destination_name("test.md", token, &occupied).unwrap();
    occupied.push(first_dest.clone());
    let second_dest = resolve_destination_name("test.md", token, &occupied).unwrap();

    assert_ne!(first_dest, "test.md");
    assert_ne!(second_dest, "test.md");
    assert_ne!(second_dest, first_dest);
}

#[test]
fn test_resolver_never_repeats_a_name() {
    let mut resolver = DestinationResolver::with_token("note.md", 3);
    let mut seen: HashSet<String> = HashSet::new();
    loop {
        let name = resolver.current_name();
        assert!(seen.insert(name), "a probed name came back a second time");
        if resolver.mark_taken().is_err() {
            break;
        }
    }
    // The plain name, the token candidate, and a thousand numbered ones.
    assert_eq!(seen.len(), 1002);
}

#[test]
fn test_resolution_exhaustion_after_thousand_attempts() {
    let token = 9;
    let mut resolver = DestinationResolver::with_token("x.md", token);
    let mut occupied: Vec<String> = Vec::new();
    loop {
        occupied.push(resolver.current_name());
        if resolver.mark_taken().is_err() {
            break;
        }
    }
    let result = resolve_destination_name("x.md", token, &occupied);
    assert!(matches!(
        result.unwrap_err(),
        FileOperationError::MoveOperationFailed(_)
    ));
}

#[test]
fn test_filename_without_dot_keeps_empty_extension() {
    let mut resolver = DestinationResolver::with_token("README", 0xc0de);
    assert_eq!(resolver.current_name(), "README");
    resolver.mark_taken().unwrap();
    assert_eq!(resolver.current_name(), "README_c0de");
}

#[test]
fn test_move_rename_path() {
    let (phase, cmd) = move_step(MovePhase::Renaming, MoveEvent::RenameSucceeded);
    assert_eq!(phase, MovePhase::Complete);
    assert!(matches!(cmd, MoveCommand::Done));
}

#[test]
fn test_move_copy_verify_delete_path() {
    let (phase, cmd) = move_step(MovePhase::Renaming, MoveEvent::RenameFailed);
    assert_eq!(phase, MovePhase::Copying);
    assert!(matches!(cmd, MoveCommand::CopyToDestination));

    let (phase, cmd) = move_step(phase, MoveEvent::CopySucceeded);
    assert_eq!(phase, MovePhase::Verifying);
    assert!(matches!(cmd, MoveCommand::CompareSizes));

    let (phase, cmd) = move_step(phase, MoveEvent::SizesRead(13, 13));
    assert_eq!(phase, MovePhase::RemovingSource);
    assert!(matches!(cmd, MoveCommand::RemoveSource));

    let (phase, cmd) = move_step(phase, MoveEvent::SourceRemoved);
    assert_eq!(phase, MovePhase::Complete);
    assert!(matches!(cmd, MoveCommand::Done));
}

#[test]
fn test_verify_file_integrity_failure() {
    let source_len = "Short content".len() as u64;
    let dest_len = "Much longer content that should fail integrity check".len() as u64;
    let (phase, cmd) = move_step(MovePhase::Verifying, MoveEvent::SizesRead(source_len, dest_len));
    assert_eq!(phase, MovePhase::Aborted);
    match cmd {
        MoveCommand::RemoveDestinationAndFail(FileOperationError::IntegrityCheckFailed(m)) => {
            assert_eq!(
                m,
                format!(
                    "File size mismatch: source {} bytes, destination {} bytes",
                    source_len, dest_len
                )
            );
        }
        other => panic!("expected an integrity failure, got {:?}", other),
    }
}

#[test]
fn test_move_copy_failure_reports_io_error() {
    let (phase, cmd) = move_step(
        MovePhase::Copying,
        MoveEvent::CopyFailed("disk full".to_string()),
    );
    assert_eq!(phase, MovePhase::Aborted);
    match cmd {
        MoveCommand::Fail(FileOperationError::IoError(m)) => assert_eq!(m, "disk full"),
        other => panic!("expected an IO failure, got {:?}", other),
    }
}

#[test]
fn test_move_source_removal_failure_is_reported_distinctly() {
    let (phase, cmd) = move_step(
        MovePhase::RemovingSource,
        MoveEvent::SourceRemovalFailed("busy".to_string()),
    );
    assert_eq!(phase, MovePhase::Aborted);
    match cmd {
        MoveCommand::Fail(FileOperationError::MoveOperationFailed(m)) => {
            assert_eq!(m, "Failed to remove source file after copy: busy");
        }
        other => panic!("expected a move failure, got {:?}", other),
    }
}

#[test]
fn test_move_unexpected_event_aborts() {
    let (phase, cmd) = move_step(MovePhase::Renaming, MoveEvent::CopySucceeded);
    assert_eq!(phase, MovePhase::Aborted);
    assert!(matches!(
        cmd,
        MoveCommand::Fail(FileOperationError::MoveOperationFailed(_))
    ));
}

#[test]
fn test_move_terminal_phases_absorb() {
    let (phase, cmd) = move_step(MovePhase::Complete, MoveEvent::RenameFailed);
    assert_eq!(phase, MovePhase::Complete);
    assert!(matches!(cmd, MoveCommand::Done));

    let (phase, _cmd) = move_step(MovePhase::Aborted, MoveEvent::RenameSucceeded);
    assert_eq!(phase, MovePhase::Aborted);
}

#[test]
fn test_text_renderings() {
    assert_eq!(local_shelf::text::u64_to_hex(255), "ff");
    assert_eq!(local_shelf::text::u64_to_hex(0), "0");
    assert_eq!(local_shelf::text::u64_to_dec(1000), "1000");
    assert_eq!(local_shelf::text::u64_to_padded2(7), "07");
    assert_eq!(local_shelf::text::u64_to_padded2(12), "12");
    assert_eq!(local_shelf::text::u64_to_padded4(42), "0042");
    assert_eq!(local_shelf::text::u64_to_padded4(2024), "2024");
}

#[test]
fn test_path_helpers() {
    assert_eq!(local_shelf::paths::file_name_of("/a/b/c.md"), "c.md");
    assert_eq!(local_shelf::paths::file_name_of("c.md"), "c.md");
    assert_eq!(local_shelf::paths::file_name_of("/a/b/"), "");
    let (stem, ext) = local_shelf::paths::split_name("archive.tar.gz");
    assert_eq!(stem, "archive.tar");
    assert_eq!(ext, ".gz");
    let (stem, ext) = local_shelf::paths::split_name("README");
    assert_eq!(stem, "README");
    assert_eq!(ext, "");
    assert_eq!(local_shelf::paths::join_path("/kb", "pages"), "/kb/pages");
}
