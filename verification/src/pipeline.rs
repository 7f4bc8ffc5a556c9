//! What happens to a source file and to each of its tiles, step by step.
//!
//! Reading, decoding and writing are done by the caller. After each such act
//! the caller reports how it went, and the functions here decide what comes
//! next: `file_step` for a source file, `tile_step` for one tile. A failure
//! ends the file or the tile that it concerns and nothing else: no state of
//! one file or tile enters the decision about another.

use vstd::prelude::*;

verus! {

/// What can go wrong once a request has been accepted.
#[derive(Clone, Copy, Debug, PartialEq, Eq, Structural)]
pub enum SplitError {
    /// A source file could not be read as an image.
    Decode,
    /// The output directory could not be created.
    Directory,
    /// A file that was in a tile's place could not be removed.
    Collision,
    /// A tile could not be encoded or written.
    Encode,
}

/// How much is given up when an error occurs.
#[derive(Clone, Copy, Debug, PartialEq, Eq, Structural)]
pub enum ErrorScope {
    /// The source file and all its tiles.
    File,
    /// A single tile.
    Tile,
}

impl SplitError {
    /// What the error costs: the whole source file, or one tile of it.
    pub open spec fn spec_scope(self) -> ErrorScope {
        match self {
            SplitError::Decode | SplitError::Directory => ErrorScope::File,
            SplitError::Collision | SplitError::Encode => ErrorScope::Tile,
        }
    }

    /// What the error costs: the whole source file, or one tile of it.
    #[verifier::when_used_as_spec(spec_scope)]
    pub fn scope(self) -> (scope: ErrorScope)
        ensures
            scope == self.spec_scope(),
    {
        match self {
            SplitError::Decode | SplitError::Directory => ErrorScope::File,
            SplitError::Collision | SplitError::Encode => ErrorScope::Tile,
        }
    }

    /// Whether the user is told of the error. A file that cannot be decoded is
    /// passed over in silence; every other error is reported.
    pub open spec fn spec_is_reported(self) -> bool {
        self != SplitError::Decode
    }

    /// Whether the user is told of the error. A file that cannot be decoded is
    /// passed over in silence; every other error is reported.
    #[verifier::when_used_as_spec(spec_is_reported)]
    pub fn is_reported(self) -> (reported: bool)
        ensures
            reported == self.spec_is_reported(),
    {
        match self {
            SplitError::Decode => false,
            _ => true,
        }
    }
}

/// How far a tile has come.
#[derive(Clone, Copy, Debug, PartialEq, Eq, Structural)]
pub enum TileState {
    /// The tile's pixels have been cut out.
    Cropped,
    /// The tile's destination is known; whether a file is in its place is not.
    Named,
    /// A file is in the tile's place and is being removed.
    Clearing,
    /// The tile's place is free and the tile is being written.
    Writing,
    /// The tile is on disk.
    Written,
    /// The tile was given up.
    Skipped(SplitError),
}

/// What the caller reports of a tile.
#[derive(Clone, Copy, Debug, PartialEq, Eq, Structural)]
pub enum TileEvent {
    /// The destination has been resolved.
    Resolved,
    /// The destination has been looked up: a file is there, or none is.
    Probed { exists: bool },
    /// The file in the tile's place has been removed, or could not be.
    Removed { ok: bool },
    /// The tile has been written, or could not be.
    Encoded { ok: bool },
}

/// What the caller does next for a tile.
#[derive(Clone, Copy, Debug, PartialEq, Eq, Structural)]
pub enum TileAction {
    /// Look whether a file is in the tile's place.
    Probe,
    /// Remove the file in the tile's place.
    Remove,
    /// Encode the tile and write it.
    Write,
    /// Give the tile up over the error, and tell the user unless the error is
    /// one that is passed over in silence.
    Fail(SplitError),
    /// Nothing: the tile is over, or the event was not the one awaited.
    Rest,
}

/// A state and what to do in it.
#[derive(Clone, Copy, Debug, PartialEq, Eq, Structural)]
pub struct TileStep {
    pub state: TileState,
    pub action: TileAction,
}

/// The step that a tile takes on an event. An event that the state does not
/// await changes nothing.
pub open spec fn tile_transition(state: TileState, event: TileEvent) -> TileStep {
    match (state, event) {
        (TileState::Cropped, TileEvent::Resolved) => TileStep {
            state: TileState::Named,
            action: TileAction::Probe,
        },
        (TileState::Named, TileEvent::Probed { exists: true }) => TileStep {
            state: TileState::Clearing,
            action: TileAction::Remove,
        },
        (TileState::Named, TileEvent::Probed { exists: false }) => TileStep {
            state: TileState::Writing,
            action: TileAction::Write,
        },
        (TileState::Clearing, TileEvent::Removed { ok: true }) => TileStep {
            state: TileState::Writing,
            action: TileAction::Write,
        },
        (TileState::Clearing, TileEvent::Removed { ok: false }) => TileStep {
            state: TileState::Skipped(SplitError::Collision),
            action: TileAction::Fail(SplitError::Collision),
        },
        (TileState::Writing, TileEvent::Encoded { ok: true }) => TileStep {
            state: TileState::Written,
            action: TileAction::Rest,
        },
        (TileState::Writing, TileEvent::Encoded { ok: false }) => TileStep {
            state: TileState::Skipped(SplitError::Encode),
            action: TileAction::Fail(SplitError::Encode),
        },
        _ => TileStep { state, action: TileAction::Rest },
    }
}

/// Decides what happens to a tile after `event`.
pub fn tile_step(state: TileState, event: TileEvent) -> (step: TileStep)
    ensures
        step == tile_transition(state, event),
{
    match (state, event) {
        (TileState::Cropped, TileEvent::Resolved) => TileStep {
            state: TileState::Named,
            action: TileAction::Probe,
        },
        (TileState::Named, TileEvent::Probed { exists }) => {
            if exists {
                TileStep { state: TileState::Clearing, action: TileAction::Remove }
            } else {
                TileStep { state: TileState::Writing, action: TileAction::Write }
            }
        },
        (TileState::Clearing, TileEvent::Removed { ok }) => {
            if ok {
                TileStep { state: TileState::Writing, action: TileAction::Write }
            } else {
                TileStep {
                    state: TileState::Skipped(SplitError::Collision),
                    action: TileAction::Fail(SplitError::Collision),
                }
            }
        },
        (TileState::Writing, TileEvent::Encoded { ok }) => {
            if ok {
                TileStep { state: TileState::Written, action: TileAction::Rest }
            } else {
                TileStep {
                    state: TileState::Skipped(SplitError::Encode),
                    action: TileAction::Fail(SplitError::Encode),
                }
            }
        },
        _ => TileStep { state, action: TileAction::Rest },
    }
}

/// How a tile ends, given how the acts on it go: whether a file is in its
/// place, whether that file can be removed, and whether the tile can be
/// written.
pub open spec fn tile_outcome(exists: bool, removable: bool, writable: bool) -> TileState {
    if exists && !removable {
        TileState::Skipped(SplitError::Collision)
    } else if !writable {
        TileState::Skipped(SplitError::Encode)
    } else {
        TileState::Written
    }
}

/// The state that a tile is in after the events of `events`, from `state` on.
pub open spec fn tile_run(state: TileState, events: Seq<TileEvent>) -> TileState
    decreases events.len(),
{
    if events.len() == 0 {
        state
    } else {
        tile_run(tile_transition(state, events[0]).state, events.skip(1))
    }
}

/// The events that the caller reports of a tile when it does what it is told
/// each time, given how the acts go.
pub open spec fn tile_events(exists: bool, removable: bool, writable: bool) -> Seq<TileEvent> {
    if !exists {
        seq![
            TileEvent::Resolved,
            TileEvent::Probed { exists: false },
            TileEvent::Encoded { ok: writable },
        ]
    } else if !removable {
        seq![
            TileEvent::Resolved,
            TileEvent::Probed { exists: true },
            TileEvent::Removed { ok: false },
        ]
    } else {
        seq![
            TileEvent::Resolved,
            TileEvent::Probed { exists: true },
            TileEvent::Removed { ok: true },
            TileEvent::Encoded { ok: writable },
        ]
    }
}

/// A tile is written exactly when its place is free, or can be freed, and the
/// write succeeds: a file in its place that cannot be removed costs the tile
/// with a collision error, a failed write with an encode error.
pub proof fn lemma_tile_ends_as_expected(exists: bool, removable: bool, writable: bool)
    ensures
        tile_run(TileState::Cropped, tile_events(exists, removable, writable)) == tile_outcome(
            exists,
            removable,
            writable,
        ),
{
    reveal_with_fuel(tile_run, 5);
    let events = tile_events(exists, removable, writable);
    let e1 = events.skip(1);
    let e2 = e1.skip(1);
    let e3 = e2.skip(1);
    assert(e1[0] == events[1]);
    assert(e2[0] == events[2]);
    if events.len() == 4 {
        assert(e3[0] == events[3]);
        assert(e3.skip(1).len() == 0);
    } else {
        assert(e3.len() == 0);
    }
}

/// A write begins only onto a free place: after the destination was found
/// empty, or after the file that was there has been removed.
pub proof fn lemma_write_needs_free_place(state: TileState, event: TileEvent)
    requires
        tile_transition(state, event).action == TileAction::Write,
    ensures
        (state == TileState::Named && event == TileEvent::Probed { exists: false }) || (state
            == TileState::Clearing && event == TileEvent::Removed { ok: true }),
{
}

/// A tile that is written or given up stays so, whatever is reported of it.
pub proof fn lemma_tile_end_is_final(state: TileState, event: TileEvent)
    requires
        state == TileState::Written || state is Skipped,
    ensures
        tile_transition(state, event) == (TileStep { state, action: TileAction::Rest }),
{
}

/// How far a source file has come.
#[derive(Clone, Copy, Debug, PartialEq, Eq, Structural)]
pub enum FileState {
    /// The file has been found.
    Discovered,
    /// The file has been decoded into an image.
    Decoded,
    /// The grid has been planned and the tiles cut out.
    Planned,
    /// The output directory is there and the tiles are being written.
    Tiling,
    /// Nothing more happens to the file.
    Done,
}

/// What the caller reports of a source file.
#[derive(Clone, Copy, Debug, PartialEq, Eq, Structural)]
pub enum FileEvent {
    /// The file has been decoded, or is no image that can be.
    Decoded { ok: bool },
    /// The image has been split into tiles.
    Split,
    /// The output directory exists now, or could not be created.
    DirectoryReady { ok: bool },
    /// Every tile has been written or given up.
    TilesSettled,
}

/// What the caller does next for a source file.
#[derive(Clone, Copy, Debug, PartialEq, Eq, Structural)]
pub enum FileAction {
    /// Plan the grid and cut the tiles out.
    SplitImage,
    /// Create the output directory unless it exists.
    CreateDirectory,
    /// Take every tile through its own steps.
    ProcessTiles,
    /// Give the file up over the error, and tell the user unless the error is
    /// one that is passed over in silence.
    Fail(SplitError),
    /// Nothing: the file is over, or the event was not the one awaited.
    Rest,
}

/// A state and what to do in it.
#[derive(Clone, Copy, Debug, PartialEq, Eq, Structural)]
pub struct FileStep {
    pub state: FileState,
    pub action: FileAction,
}

/// The step that a source file takes on an event. A file that cannot be
/// decoded is given up, and so is a file whose output directory cannot be
/// created: none of its tiles is processed. An event that the state does
/// not await changes nothing.
pub open spec fn file_transition(state: FileState, event: FileEvent) -> FileStep {
    match (state, event) {
        (FileState::Discovered, FileEvent::Decoded { ok: true }) => FileStep {
            state: FileState::Decoded,
            action: FileAction::SplitImage,
        },
        (FileState::Discovered, FileEvent::Decoded { ok: false }) => FileStep {
            state: FileState::Done,
            action: FileAction::Fail(SplitError::Decode),
        },
        (FileState::Decoded, FileEvent::Split) => FileStep {
            state: FileState::Planned,
            action: FileAction::CreateDirectory,
        },
        (FileState::Planned, FileEvent::DirectoryReady { ok: true }) => FileStep {
            state: FileState::Tiling,
            action: FileAction::ProcessTiles,
        },
        (FileState::Planned, FileEvent::DirectoryReady { ok: false }) => FileStep {
            state: FileState::Done,
            action: FileAction::Fail(SplitError::Directory),
        },
        (FileState::Tiling, FileEvent::TilesSettled) => FileStep {
            state: FileState::Done,
            action: FileAction::Rest,
        },
        _ => FileStep { state, action: FileAction::Rest },
    }
}

/// Decides what happens to a source file after `event`.
pub fn file_step(state: FileState, event: FileEvent) -> (step: FileStep)
    ensures
        step == file_transition(state, event),
{
    match (state, event) {
        (FileState::Discovered, FileEvent::Decoded { ok }) => {
            if ok {
                FileStep { state: FileState::Decoded, action: FileAction::SplitImage }
            } else {
                FileStep { state: FileState::Done, action: FileAction::Fail(SplitError::Decode) }
            }
        },
        (FileState::Decoded, FileEvent::Split) => FileStep {
            state: FileState::Planned,
            action: FileAction::CreateDirectory,
        },
        (FileState::Planned, FileEvent::DirectoryReady { ok }) => {
            if ok {
                FileStep { state: FileState::Tiling, action: FileAction::ProcessTiles }
            } else {
                FileStep {
                    state: FileState::Done,
                    action: FileAction::Fail(SplitError::Directory),
                }
            }
        },
        (FileState::Tiling, FileEvent::TilesSettled) => FileStep {
            state: FileState::Done,
            action: FileAction::Rest,
        },
        _ => FileStep { state, action: FileAction::Rest },
    }
}

/// The state that a source file is in after the events of `events`, from
/// `state` on.
pub open spec fn file_run(state: FileState, events: Seq<FileEvent>) -> FileState
    decreases events.len(),
{
    if events.len() == 0 {
        state
    } else {
        file_run(file_transition(state, events[0]).state, events.skip(1))
    }
}

/// Whether the caller is told to process the tiles at some step of `events`,
/// from `state` on.
pub open spec fn tiles_processed(state: FileState, events: Seq<FileEvent>) -> bool
    decreases events.len(),
{
    if events.len() == 0 {
        false
    } else {
        let step = file_transition(state, events[0]);
        step.action == FileAction::ProcessTiles || tiles_processed(step.state, events.skip(1))
    }
}

/// The events that the caller reports of a source file when it does what it
/// is told each time, given whether the file can be decoded and whether the
/// output directory can be had.
pub open spec fn file_events(decodable: bool, directory: bool) -> Seq<FileEvent> {
    if !decodable {
        seq![FileEvent::Decoded { ok: false }]
    } else if !directory {
        seq![
            FileEvent::Decoded { ok: true },
            FileEvent::Split,
            FileEvent::DirectoryReady { ok: false },
        ]
    } else {
        seq![
            FileEvent::Decoded { ok: true },
            FileEvent::Split,
            FileEvent::DirectoryReady { ok: true },
            FileEvent::TilesSettled,
        ]
    }
}

/// Every source file comes to its end on its own events, and its tiles are
/// processed exactly when it can be decoded and the output directory can be
/// had: a file that fails is done, and takes nothing else with it.
pub proof fn lemma_file_ends_as_expected(decodable: bool, directory: bool)
    ensures
        file_run(FileState::Discovered, file_events(decodable, directory)) == FileState::Done,
        tiles_processed(FileState::Discovered, file_events(decodable, directory)) == (decodable
            && directory),
{
    reveal_with_fuel(file_run, 5);
    reveal_with_fuel(tiles_processed, 5);
    let events = file_events(decodable, directory);
    let e1 = events.skip(1);
    if events.len() == 1 {
        assert(e1.len() == 0);
    } else {
        let e2 = e1.skip(1);
        let e3 = e2.skip(1);
        assert(e1[0] == events[1]);
        assert(e2[0] == events[2]);
        if events.len() == 4 {
            assert(e3[0] == events[3]);
            assert(e3.skip(1).len() == 0);
        } else {
            assert(e3.len() == 0);
        }
    }
}

/// Tiles are processed only for a file that was decoded and split and whose
/// output directory is there.
pub proof fn lemma_tiles_need_directory(state: FileState, event: FileEvent)
    requires
        file_transition(state, event).action == FileAction::ProcessTiles,
    ensures
        state == FileState::Planned,
        event == (FileEvent::DirectoryReady { ok: true }),
{
}

/// A file that is done stays done, whatever is reported of it.
pub proof fn lemma_done_is_final(event: FileEvent)
    ensures
        file_transition(FileState::Done, event) == (FileStep {
            state: FileState::Done,
            action: FileAction::Rest,
        }),
{
}

/// Every error costs what its kind says: a file is given up over errors
/// that end the file, a tile over errors that end the tile, and the state
/// after that is final. Of all of them only the failure to decode is passed
/// over in silence.
pub proof fn lemma_failures_match_scope(
    file: FileState,
    file_event: FileEvent,
    tile: TileState,
    tile_event: TileEvent,
)
    ensures
        file_transition(file, file_event).action matches FileAction::Fail(e) ==> {
            &&& e.spec_scope() == ErrorScope::File
            &&& e.spec_is_reported() == (e != SplitError::Decode)
            &&& file_transition(file, file_event).state == FileState::Done
        },
        tile_transition(tile, tile_event).action matches TileAction::Fail(e) ==> {
            &&& e.spec_scope() == ErrorScope::Tile
            &&& e.spec_is_reported()
            &&& tile_transition(tile, tile_event).state == TileState::Skipped(e)
        },
{
}

/// In a batch whose files are each run on their own events, a file that
/// cannot be decoded ends for itself alone: it is done without any tile
/// processed, and every file that can be decoded has its tiles processed all
/// the same.
pub proof fn lemma_decode_failure_spares_the_rest(decodable: Seq<bool>, failed: int, other: int)
    requires
        0 <= failed < decodable.len(),
        0 <= other < decodable.len(),
        !decodable[failed],
        decodable[other],
    ensures
        file_run(FileState::Discovered, file_events(decodable[failed], true)) == FileState::Done,
        !tiles_processed(FileState::Discovered, file_events(decodable[failed], true)),
        file_run(FileState::Discovered, file_events(decodable[other], true)) == FileState::Done,
        tiles_processed(FileState::Discovered, file_events(decodable[other], true)),
{
    lemma_file_ends_as_expected(decodable[failed], true);
    lemma_file_ends_as_expected(decodable[other], true);
}

} // verus!
