//! The course of one streaming transfer, and what a listing gives.
//!
//! A transfer copies a source to a destination in chunks: the source is
//! checked first, both ends are opened, and then each chunk that was read is
//! written in full before the next is read. The caller performs each action
//! and hands back the event that it led to. Nothing is retried, and a
//! destination that was written in part stays as it is.

use vstd::prelude::*;
use vstd::slice::slice_to_vec;
use crate::error::TransferError;
use crate::progress::TransferProgress;
use crate::text::views_of;

verus! {

/// The largest number of bytes that is read at once.
pub const CHUNK_SIZE: usize = 65536;

/// How far a transfer has come.
#[derive(Clone, Copy, Debug, PartialEq, Eq, Structural)]
pub enum TransferStage {
    /// Nothing was done yet.
    Start,
    /// The source is being looked for.
    Checking,
    /// The source and the destination are being opened.
    Opening { progress: TransferProgress },
    /// The next chunk is being read.
    Reading { progress: TransferProgress },
    /// A chunk of `len` bytes is being written.
    Writing { progress: TransferProgress, len: usize },
    /// Everything that the source gave was written.
    Done { progress: TransferProgress },
    /// The transfer has ended early.
    Failed,
}

/// What the caller found when it did what it was asked to.
pub enum TransferEvent {
    /// The transfer begins.
    Begin,
    /// The source exists and holds `size` bytes.
    SourceFound { size: usize },
    /// The source does not exist.
    SourceMissing,
    /// Both ends are open.
    Opened,
    /// The source gave `data`; nothing where it has ended.
    ChunkRead { data: Vec<u8> },
    /// The chunk was written in full.
    ChunkWritten,
    /// Opening, reading or writing failed with `error`.
    Stopped { error: TransferError },
}

/// What the caller is to do next.
pub enum TransferAction {
    /// Find out whether the source exists, and how large it is.
    CheckSource,
    /// Open the source for reading and create the destination.
    Open,
    /// Read at most `max` bytes from the source.
    Read { max: usize },
    /// Write all of `data` to the destination.
    Write { data: Vec<u8> },
    /// Close both ends; the transfer is complete.
    Finish { progress: TransferProgress },
    /// Close both ends and report `error`.
    Fail { error: TransferError },
}

/// The progress after `len` more bytes.
pub open spec fn advanced(progress: TransferProgress, len: usize) -> TransferProgress {
    TransferProgress {
        bytes_transferred: (progress.bytes_transferred + len) as usize,
        total_bytes: progress.total_bytes,
    }
}

/// Whether `r` is what follows `event` at `stage` in a transfer from
/// `source`.
///
/// Nothing follows an event that does not belong to the stage, nor a chunk
/// that would take the count of bytes beyond what a `usize` holds.
pub open spec fn transfer_step_spec(
    source: Seq<char>,
    stage: TransferStage,
    event: TransferEvent,
    r: Option<(TransferStage, TransferAction)>,
) -> bool {
    match (stage, event) {
        (TransferStage::Start, TransferEvent::Begin) => r == Some(
            (TransferStage::Checking, TransferAction::CheckSource),
        ),
        (TransferStage::Checking, TransferEvent::SourceMissing) => {
            &&& r matches Some((next, TransferAction::Fail { error: TransferError::FileNotFound(p) }))
            &&& next == TransferStage::Failed
            &&& p@ == source
        },
        (TransferStage::Checking, TransferEvent::SourceFound { size }) => r == Some(
            (
                TransferStage::Opening {
                    progress: TransferProgress { bytes_transferred: 0, total_bytes: size },
                },
                TransferAction::Open,
            ),
        ),
        (TransferStage::Opening { progress }, TransferEvent::Opened) => r == Some(
            (TransferStage::Reading { progress }, TransferAction::Read { max: CHUNK_SIZE }),
        ),
        (TransferStage::Reading { progress }, TransferEvent::ChunkRead { data }) => if data@.len()
            == 0 {
            r == Some((TransferStage::Done { progress }, TransferAction::Finish { progress }))
        } else if progress.bytes_transferred + data@.len() > usize::MAX {
            r is None
        } else {
            &&& r matches Some((next, TransferAction::Write { data: out }))
            &&& next == (TransferStage::Writing { progress, len: data@.len() as usize })
            &&& out@ == data@
        },
        (TransferStage::Writing { progress, len }, TransferEvent::ChunkWritten) => if progress.bytes_transferred
            + len > usize::MAX {
            r is None
        } else {
            r == Some(
                (
                    TransferStage::Reading { progress: advanced(progress, len) },
                    TransferAction::Read { max: CHUNK_SIZE },
                ),
            )
        },
        (TransferStage::Done { .. }, TransferEvent::Stopped { .. }) => r is None,
        (TransferStage::Failed, TransferEvent::Stopped { .. }) => r is None,
        (_, TransferEvent::Stopped { error }) => r == Some(
            (TransferStage::Failed, TransferAction::Fail { error }),
        ),
        _ => r is None,
    }
}

/// The names of the entries that have one, in order.
pub open spec fn names_of(entries: Seq<Option<String>>) -> Seq<Seq<char>>
    decreases entries.len(),
{
    if entries.len() == 0 {
        Seq::empty()
    } else {
        match entries.last() {
            Some(name) => names_of(entries.drop_last()).push(name@),
            None => names_of(entries.drop_last()),
        }
    }
}

/// What a source gives before its end: the bytes of its chunks, one after
/// the other, up to the first chunk that is empty.
pub open spec fn delivered(chunks: Seq<Vec<u8>>) -> Seq<u8>
    decreases chunks.len(),
{
    if chunks.len() == 0 || chunks[0]@.len() == 0 {
        Seq::empty()
    } else {
        chunks[0]@ + delivered(chunks.skip(1))
    }
}

/// Transfers and listings.
pub struct TransferManager;

impl TransferManager {
    /// What follows `event` at `stage` in a transfer from `source`.
    pub fn step(source: &str, stage: TransferStage, event: TransferEvent) -> (r: Option<
        (TransferStage, TransferAction),
    >)
        ensures
            transfer_step_spec(source@, stage, event, r),
    {
        match (stage, event) {
            (TransferStage::Start, TransferEvent::Begin) => Some(
                (TransferStage::Checking, TransferAction::CheckSource),
            ),
            (TransferStage::Checking, TransferEvent::SourceMissing) => Some(
                (
                    TransferStage::Failed,
                    TransferAction::Fail { error: TransferError::FileNotFound(source.to_owned()) },
                ),
            ),
            (TransferStage::Checking, TransferEvent::SourceFound { size }) => Some(
                (
                    TransferStage::Opening { progress: TransferProgress::new(size) },
                    TransferAction::Open,
                ),
            ),
            (TransferStage::Opening { progress }, TransferEvent::Opened) => Some(
                (TransferStage::Reading { progress }, TransferAction::Read { max: CHUNK_SIZE }),
            ),
            (TransferStage::Reading { progress }, TransferEvent::ChunkRead { data }) => {
                let len = data.len();
                if len == 0 {
                    Some((TransferStage::Done { progress }, TransferAction::Finish { progress }))
                } else if len > usize::MAX - progress.bytes_transferred {
                    None
                } else {
                    Some((TransferStage::Writing { progress, len }, TransferAction::Write { data }))
                }
            },
            (TransferStage::Writing { progress, len }, TransferEvent::ChunkWritten) => {
                if len > usize::MAX - progress.bytes_transferred {
                    None
                } else {
                    let mut progress = progress;
                    progress.update(len);
                    Some(
                        (
                            TransferStage::Reading { progress },
                            TransferAction::Read { max: CHUNK_SIZE },
                        ),
                    )
                }
            },
            (TransferStage::Done { .. }, TransferEvent::Stopped { .. }) => None,
            (TransferStage::Failed, TransferEvent::Stopped { .. }) => None,
            (_, TransferEvent::Stopped { error }) => Some(
                (TransferStage::Failed, TransferAction::Fail { error }),
            ),
            _ => None,
        }
    }

    /// Runs a whole transfer in memory: the source is said to hold `size`
    /// bytes and gives `chunks` one after the other, and what is to be
    /// written is gathered. What was written is what the source gave before
    /// its end, whatever the chunks are, and the progress at the end counts
    /// all of it. Nothing comes of a source that gives more than can be
    /// counted.
    pub fn run_in_memory(source: &str, size: usize, chunks: &Vec<Vec<u8>>) -> (r: Option<
        (Vec<u8>, TransferProgress),
    >)
        ensures
            delivered(chunks@).len() <= usize::MAX ==> (r matches Some((written, progress))
                && written@ == delivered(chunks@) && progress.bytes_transferred == delivered(
                chunks@,
            ).len() && progress.total_bytes == size),
            delivered(chunks@).len() > usize::MAX ==> r is None,
    {
        let mut written: Vec<u8> = Vec::new();
        let begun = Self::step(source, TransferStage::Start, TransferEvent::Begin).unwrap();
        let found = Self::step(source, begun.0, TransferEvent::SourceFound { size }).unwrap();
        let opened = Self::step(source, found.0, TransferEvent::Opened).unwrap();
        let mut stage = opened.0;
        let mut i: usize = 0;
        assert(chunks@.skip(0) =~= chunks@);
        while i < chunks.len() && chunks[i].len() > 0
            invariant
                i <= chunks.len(),
                written@ + delivered(chunks@.skip(i as int)) == delivered(chunks@),
                stage == (TransferStage::Reading {
                    progress: TransferProgress {
                        bytes_transferred: written.len(),
                        total_bytes: size,
                    },
                }),
            decreases chunks.len() - i,
        {
            let ghost rest = chunks@.skip(i as int);
            let ghost before = written@;
            assert(rest[0] == chunks@[i as int]);
            assert(rest.skip(1) =~= chunks@.skip(i as int + 1));
            let data = slice_to_vec(chunks[i].as_slice());
            let (next, action) = match Self::step(source, stage, TransferEvent::ChunkRead { data }) {
                Some(r) => r,
                None => {
                    return None;
                },
            };
            match action {
                TransferAction::Write { data: mut out } => {
                    written.append(&mut out);
                },
                _ => {},
            }
            assert(written@ =~= before + chunks@[i as int]@);
            assert(before + delivered(rest) =~= written@ + delivered(rest.skip(1)));
            let wrote = Self::step(source, next, TransferEvent::ChunkWritten).unwrap();
            stage = wrote.0;
            i += 1;
        }
        assert(delivered(chunks@.skip(i as int)) =~= Seq::<u8>::empty());
        assert(written@ + Seq::<u8>::empty() =~= written@);
        assert(written@.len() == written.len());
        let last = Self::step(source, stage, TransferEvent::ChunkRead { data: Vec::new() }).unwrap();
        match last.1 {
            TransferAction::Finish { progress } => Some((written, progress)),
            _ => None,
        }
    }

    /// What a listing of `dir` gives: where the directory could not be read
    /// (`listing` is `None`) it counts as not found; otherwise the names of
    /// the entries that have one, in the order of the enumeration.
    pub fn list_files(dir: &str, listing: Option<Vec<Option<String>>>) -> (r: Result<
        Vec<String>,
        TransferError,
    >)
        ensures
            match listing {
                None => r matches Err(TransferError::FileNotFound(p)) && p@ == dir@,
                Some(entries) => r matches Ok(names) && views_of(names@) == names_of(entries@),
            },
    {
        match listing {
            None => Err(TransferError::FileNotFound(dir.to_owned())),
            Some(entries) => {
                let mut names: Vec<String> = Vec::new();
                let mut i: usize = 0;
                assert(entries@.take(0) =~= Seq::<Option<String>>::empty());
                assert(views_of(names@) =~= Seq::<Seq<char>>::empty());
                while i < entries.len()
                    invariant
                        i <= entries.len(),
                        views_of(names@) == names_of(entries@.take(i as int)),
                    decreases entries.len() - i,
                {
                    let ghost before = views_of(names@);
                    assert(entries@.take(i as int + 1).drop_last() =~= entries@.take(i as int));
                    assert(entries@.take(i as int + 1).last() == entries@[i as int]);
                    match &entries[i] {
                        Some(name) => {
                            names.push(name.clone());
                            assert(views_of(names@) =~= before.push(name@));
                        },
                        None => {},
                    }
                    i += 1;
                }
                assert(entries@.take(i as int) =~= entries@);
                Ok(names)
            },
        }
    }
}

/// The bytes counted so far at a stage; nothing before the source was found
/// and after a failure.
pub open spec fn counted(stage: TransferStage) -> int {
    match stage {
        TransferStage::Opening { progress } => progress.bytes_transferred as int,
        TransferStage::Reading { progress } => progress.bytes_transferred as int,
        TransferStage::Writing { progress, .. } => progress.bytes_transferred as int,
        TransferStage::Done { progress } => progress.bytes_transferred as int,
        _ => 0,
    }
}

/// The count of bytes never goes back while a transfer runs, and the size
/// that was found at the start stays.
pub proof fn lemma_progress_is_monotonic(
    source: Seq<char>,
    stage: TransferStage,
    event: TransferEvent,
    next: TransferStage,
    action: TransferAction,
)
    requires
        transfer_step_spec(source, stage, event, Some((next, action))),
        !(next is Failed),
    ensures
        counted(stage) <= counted(next),
        stage matches TransferStage::Reading { progress } ==> (next matches TransferStage::Writing {
            progress: p,
            ..
        } && p == progress) || next == (TransferStage::Done { progress }),
        stage matches TransferStage::Writing { progress, len } ==> next == (TransferStage::Reading {
            progress: advanced(progress, len),
        }) && counted(next) == counted(stage) + len,
{
}

/// A source that is missing ends the transfer before anything is opened.
pub proof fn lemma_missing_source_opens_nothing(
    source: Seq<char>,
    r: Option<(TransferStage, TransferAction)>,
)
    requires
        transfer_step_spec(source, TransferStage::Checking, TransferEvent::SourceMissing, r),
    ensures
        r matches Some((next, action)) && next is Failed && (action matches TransferAction::Fail {
            error: TransferError::FileNotFound(p),
        } && p@ == source),
{
}

/// Both ends are opened only after the source was found, and a chunk is
/// written only after it was read: what is to be written is what was read.
pub proof fn lemma_written_is_what_was_read(
    source: Seq<char>,
    stage: TransferStage,
    event: TransferEvent,
    next: TransferStage,
    action: TransferAction,
)
    requires
        transfer_step_spec(source, stage, event, Some((next, action))),
    ensures
        action is Open ==> stage is Checking && event is SourceFound,
        action matches TransferAction::Write { data } ==> stage is Reading && (
        event matches TransferEvent::ChunkRead { data: read } && read@ == data@ && data@.len() > 0),
        action matches TransferAction::Read { max } ==> max == CHUNK_SIZE,
{
}

} // verus!
