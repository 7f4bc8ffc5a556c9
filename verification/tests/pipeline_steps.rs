use splix::pipeline::{file_step, tile_step};
use splix::pipeline::{ErrorScope, FileAction, FileEvent, FileState, FileStep, SplitError};
use splix::pipeline::{TileAction, TileEvent, TileState, TileStep};

fn run_tile(events: &[TileEvent]) -> (TileState, Vec<TileAction>) {
    let mut state = TileState::Cropped;
    let mut actions = Vec::new();
    for event in events {
        let step = tile_step(state, *event);
        state = step.state;
        actions.push(step.action);
    }
    (state, actions)
}

fn run_file(events: &[FileEvent]) -> (FileState, Vec<FileAction>) {
    let mut state = FileState::Discovered;
    let mut actions = Vec::new();
    for event in events {
        let step = file_step(state, *event);
        state = step.state;
        actions.push(step.action);
    }
    (state, actions)
}

#[test]
fn tile_onto_free_place_is_written() {
    let (state, actions) = run_tile(&[
        TileEvent::Resolved,
        TileEvent::Probed { exists: false },
        TileEvent::Encoded { ok: true },
    ]);
    assert_eq!(state, TileState::Written);
    assert_eq!(actions, vec![TileAction::Probe, TileAction::Write, TileAction::Rest]);
}

#[test]
fn existing_file_is_removed_before_the_write() {
    let (state, actions) = run_tile(&[
        TileEvent::Resolved,
        TileEvent::Probed { exists: true },
        TileEvent::Removed { ok: true },
        TileEvent::Encoded { ok: true },
    ]);
    assert_eq!(state, TileState::Written);
    assert_eq!(
        actions,
        vec![TileAction::Probe, TileAction::Remove, TileAction::Write, TileAction::Rest]
    );
}

#[test]
fn file_that_cannot_be_removed_costs_the_tile() {
    let (state, actions) = run_tile(&[
        TileEvent::Resolved,
        TileEvent::Probed { exists: true },
        TileEvent::Removed { ok: false },
    ]);
    assert_eq!(state, TileState::Skipped(SplitError::Collision));
    assert_eq!(
        actions,
        vec![TileAction::Probe, TileAction::Remove, TileAction::Fail(SplitError::Collision)]
    );
}

#[test]
fn failed_write_costs_the_tile() {
    let (state, actions) = run_tile(&[
        TileEvent::Resolved,
        TileEvent::Probed { exists: false },
        TileEvent::Encoded { ok: false },
    ]);
    assert_eq!(state, TileState::Skipped(SplitError::Encode));
    assert_eq!(actions[2], TileAction::Fail(SplitError::Encode));
}

#[test]
fn finished_tile_ignores_further_events() {
    let events = [
        TileEvent::Resolved,
        TileEvent::Probed { exists: true },
        TileEvent::Probed { exists: false },
        TileEvent::Removed { ok: true },
        TileEvent::Removed { ok: false },
        TileEvent::Encoded { ok: true },
        TileEvent::Encoded { ok: false },
    ];
    for state in [
        TileState::Written,
        TileState::Skipped(SplitError::Collision),
        TileState::Skipped(SplitError::Encode),
    ] {
        for event in events {
            assert_eq!(tile_step(state, event), TileStep { state, action: TileAction::Rest });
        }
    }
}

#[test]
fn unexpected_tile_event_changes_nothing() {
    assert_eq!(
        tile_step(TileState::Cropped, TileEvent::Encoded { ok: true }),
        TileStep { state: TileState::Cropped, action: TileAction::Rest }
    );
    assert_eq!(
        tile_step(TileState::Named, TileEvent::Removed { ok: true }),
        TileStep { state: TileState::Named, action: TileAction::Rest }
    );
    assert_eq!(
        tile_step(TileState::Writing, TileEvent::Probed { exists: false }),
        TileStep { state: TileState::Writing, action: TileAction::Rest }
    );
}

#[test]
fn decoded_file_goes_through_to_done() {
    let (state, actions) = run_file(&[
        FileEvent::Decoded { ok: true },
        FileEvent::Split,
        FileEvent::DirectoryReady { ok: true },
        FileEvent::TilesSettled,
    ]);
    assert_eq!(state, FileState::Done);
    assert_eq!(
        actions,
        vec![
            FileAction::SplitImage,
            FileAction::CreateDirectory,
            FileAction::ProcessTiles,
            FileAction::Rest
        ]
    );
}

#[test]
fn undecodable_file_is_skipped_in_silence() {
    let (state, actions) = run_file(&[FileEvent::Decoded { ok: false }]);
    assert_eq!(state, FileState::Done);
    assert_eq!(actions, vec![FileAction::Fail(SplitError::Decode)]);
    assert!(!SplitError::Decode.is_reported());
}

#[test]
fn decode_failure_leaves_other_files_alone() {
    let traces: [&[FileEvent]; 3] = [
        &[
            FileEvent::Decoded { ok: true },
            FileEvent::Split,
            FileEvent::DirectoryReady { ok: true },
        ],
        &[FileEvent::Decoded { ok: false }],
        &[
            FileEvent::Decoded { ok: true },
            FileEvent::Split,
            FileEvent::DirectoryReady { ok: true },
        ],
    ];
    let ends: Vec<(FileState, Vec<FileAction>)> = traces.iter().map(|t| run_file(t)).collect();
    assert_eq!(ends[0].0, FileState::Tiling);
    assert_eq!(ends[1].0, FileState::Done);
    assert_eq!(ends[2].0, FileState::Tiling);
    assert_eq!(ends[0].1.last(), Some(&FileAction::ProcessTiles));
    assert_eq!(ends[2].1.last(), Some(&FileAction::ProcessTiles));
}

#[test]
fn missing_directory_costs_all_tiles() {
    let (state, actions) = run_file(&[
        FileEvent::Decoded { ok: true },
        FileEvent::Split,
        FileEvent::DirectoryReady { ok: false },
        FileEvent::TilesSettled,
    ]);
    assert_eq!(state, FileState::Done);
    assert_eq!(
        actions,
        vec![
            FileAction::SplitImage,
            FileAction::CreateDirectory,
            FileAction::Fail(SplitError::Directory),
            FileAction::Rest
        ]
    );
    assert!(!actions.contains(&FileAction::ProcessTiles));
}

#[test]
fn done_file_ignores_further_events() {
    for event in [
        FileEvent::Decoded { ok: true },
        FileEvent::Decoded { ok: false },
        FileEvent::Split,
        FileEvent::DirectoryReady { ok: true },
        FileEvent::DirectoryReady { ok: false },
        FileEvent::TilesSettled,
    ] {
        assert_eq!(
            file_step(FileState::Done, event),
            FileStep { state: FileState::Done, action: FileAction::Rest }
        );
    }
}

#[test]
fn unexpected_file_event_changes_nothing() {
    assert_eq!(
        file_step(FileState::Discovered, FileEvent::TilesSettled),
        FileStep { state: FileState::Discovered, action: FileAction::Rest }
    );
    assert_eq!(
        file_step(FileState::Decoded, FileEvent::DirectoryReady { ok: true }),
        FileStep { state: FileState::Decoded, action: FileAction::Rest }
    );
}

#[test]
fn errors_have_their_scope() {
    assert_eq!(SplitError::Decode.scope(), ErrorScope::File);
    assert_eq!(SplitError::Directory.scope(), ErrorScope::File);
    assert_eq!(SplitError::Collision.scope(), ErrorScope::Tile);
    assert_eq!(SplitError::Encode.scope(), ErrorScope::Tile);
}

#[test]
fn only_decode_errors_are_silent() {
    assert!(!SplitError::Decode.is_reported());
    assert!(SplitError::Directory.is_reported());
    assert!(SplitError::Collision.is_reported());
    assert!(SplitError::Encode.is_reported());
}
