//! The page-by-page programming workflow.
//!
//! The transport reads the input stream in chunks of up to one page and
//! feeds each chunk length to the loader state machine, which decides
//! whether to program the next page, to stop, or to reject the stream.
//! A stream is accepted exactly when it is a whole number of pages and
//! fits the device: a trailing partial chunk or a page beyond the
//! device's capacity rejects it, and no partial or padded page is ever
//! written.

use vstd::prelude::*;

use crate::error::FlashError;
use crate::flash::{PAGE_COUNT, PAGE_SIZE};

verus! {

/// The phases of a programming run, in their required order: read and
/// report the device identification, then one program-enable window in
/// which the whole device is erased and the pages are written, then the
/// return to the idle direction.
#[derive(Clone, Copy, PartialEq, Eq, Structural, Debug)]
pub enum Phase {
    Identify,
    EnableProgram,
    EraseAll,
    ProgramPages,
    DisableProgram,
    Complete,
}

/// The phase a run starts in.
pub fn start_phase() -> (p: Phase)
    ensures
        p is Identify,
{
    Phase::Identify
}

/// The phase that follows `p` when `p`'s work succeeded.  Every failure
/// is fatal to the run, so there are no other transitions.
pub fn next_phase(p: &Phase) -> (n: Phase)
    ensures
        *p is Identify ==> n is EnableProgram,
        *p is EnableProgram ==> n is EraseAll,
        *p is EraseAll ==> n is ProgramPages,
        *p is ProgramPages ==> n is DisableProgram,
        *p is DisableProgram ==> n is Complete,
        *p is Complete ==> n is Complete,
{
    match p {
        Phase::Identify => Phase::EnableProgram,
        Phase::EnableProgram => Phase::EraseAll,
        Phase::EraseAll => Phase::ProgramPages,
        Phase::ProgramPages => Phase::DisableProgram,
        Phase::DisableProgram => Phase::Complete,
        Phase::Complete => Phase::Complete,
    }
}

/// The state of the page loop: the index of the next page to program,
/// which is also how many pages have been programmed.
pub struct Loader {
    pub next_page: u16,
}

/// What the loader decides after seeing one chunk of the input stream.
#[derive(Debug, PartialEq, Eq, Structural)]
pub enum ChunkAction {
    /// Program the chunk's bytes into this page.
    Program { page: u16 },
    /// The stream ended on a page boundary; the run is complete.
    Finished { pages: u16 },
    /// The stream does not fit the page grid or the device.
    TooLarge,
}

/// Starts the page loop at page 0.
pub fn loader_start() -> (ld: Loader)
    ensures
        ld.next_page == 0,
{
    Loader { next_page: 0 }
}

/// Decides what to do with one chunk of `len` bytes read from the input
/// stream.  A full page goes to the next page index while capacity
/// remains; a read of zero bytes ends the stream cleanly; anything else —
/// a partial trailing chunk, or a full page past the device's last page —
/// rejects the stream.  No partial or padded page is ever programmed.
pub fn loader_chunk(ld: &mut Loader, len: usize) -> (a: ChunkAction)
    requires
        old(ld).next_page <= PAGE_COUNT,
    ensures
        final(ld).next_page <= PAGE_COUNT,
        len == PAGE_SIZE && old(ld).next_page < PAGE_COUNT ==> a == (ChunkAction::Program {
            page: old(ld).next_page,
        }) && final(ld).next_page == old(ld).next_page + 1,
        len == PAGE_SIZE && old(ld).next_page == PAGE_COUNT ==> a is TooLarge && *final(ld)
            == *old(ld),
        len == 0 ==> a == (ChunkAction::Finished { pages: old(ld).next_page }) && *final(ld)
            == *old(ld),
        len != 0 && len != PAGE_SIZE ==> a is TooLarge && *final(ld) == *old(ld),
{
    if len == 0 {
        ChunkAction::Finished { pages: ld.next_page }
    } else if len == PAGE_SIZE {
        if ld.next_page < PAGE_COUNT {
            let page = ld.next_page;
            ld.next_page = ld.next_page + 1;
            ChunkAction::Program { page }
        } else {
            ChunkAction::TooLarge
        }
    } else {
        ChunkAction::TooLarge
    }
}

proof fn lemma_page_mod(m: int, t: int)
    by (nonlinear_arith)
    requires
        m >= 0,
        0 <= t < 264,
    ensures
        (264 * m + t) % 264 == t,
{
}

/// Splits the whole input stream into the pages to program, by driving
/// the loader over its chunks.  Succeeds exactly when the stream is a
/// whole number of pages that fits the device; entry `i` of the result is
/// then the contents of page `i`.  Otherwise nothing is to be written and
/// the stream is rejected as oversize.
pub fn plan_pages(input: &[u8]) -> (r: Result<Vec<Vec<u8>>, FlashError>)
    ensures
        r is Ok <==> (input@.len() as int) % (PAGE_SIZE as int) == 0 && input@.len() <= PAGE_COUNT
            * (PAGE_SIZE as int),
        r is Ok ==> r->Ok_0@.len() * (PAGE_SIZE as int) == input@.len() && forall|i: int|
            0 <= i < r->Ok_0@.len() ==> (#[trigger] r->Ok_0@[i]@) == input@.subrange(
                (PAGE_SIZE as int) * i,
                (PAGE_SIZE as int) * i + (PAGE_SIZE as int),
            ),
        r is Err ==> r->Err_0 is Oversize,
{
    let len = input.len();
    let mut ld = loader_start();
    let mut pages: Vec<Vec<u8>> = Vec::new();
    let mut off: usize = 0;
    while off + PAGE_SIZE <= len
        invariant
            len == input@.len(),
            off <= len,
            off == 264 * pages@.len(),
            ld.next_page == pages@.len(),
            pages@.len() <= PAGE_COUNT,
            forall|i: int|
                0 <= i < pages@.len() ==> (#[trigger] pages@[i]@) == input@.subrange(
                    264 * i,
                    264 * i + 264,
                ),
        decreases len - off,
    {
        let act = loader_chunk(&mut ld, PAGE_SIZE);
        match act {
            ChunkAction::Program { page: _ } => {
                let mut chunk: Vec<u8> = Vec::new();
                let mut k: usize = 0;
                while k < PAGE_SIZE
                    invariant
                        k <= PAGE_SIZE,
                        chunk@.len() == k,
                        off + PAGE_SIZE <= len,
                        len == input@.len(),
                        forall|j: int| 0 <= j < k ==> #[trigger] chunk@[j] == input@[off + j],
                    decreases PAGE_SIZE - k,
                {
                    chunk.push(input[off + k]);
                    k = k + 1;
                }
                proof {
                    assert(chunk@ =~= input@.subrange(off as int, off as int + 264));
                }
                pages.push(chunk);
                off = off + PAGE_SIZE;
            },
            _ => {
                // A full page beyond the device's last page: the stream
                // exceeds the device's capacity.
                proof {
                    assert(input@.len() > PAGE_COUNT * (PAGE_SIZE as int));
                }
                return Err(FlashError::Oversize);
            },
        }
    }
    let tail_len = len - off;
    let act = loader_chunk(&mut ld, tail_len);
    match act {
        ChunkAction::Finished { pages: _ } => {
            proof {
                lemma_page_mod(pages@.len() as int, 0);
            }
            Ok(pages)
        },
        _ => {
            proof {
                lemma_page_mod(pages@.len() as int, tail_len as int);
            }
            Err(FlashError::Oversize)
        },
    }
}

} // verus!
