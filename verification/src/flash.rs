//! The flash command engine: JEDEC identification, buffer load and commit,
//! sector erase and status polling, for a 264-byte-page serial NOR flash.
//!
//! Each command is a script of transport operations built from the SPI
//! bit-banger, plus a verified decision function for every value the
//! transport reads back.  The transport executes a script in order and
//! aborts on the first write error; values it sampled are handed back to
//! the decode and poll functions here.

use vstd::prelude::*;

use crate::error::FlashError;
use crate::pins::{lemma_selection_exclusive, DeviceSelect};
use crate::spi::{
    is_in_script, is_out_script, lemma_in_script_cs_exclusive, lemma_in_script_sample_count,
    lemma_out_script_cs_exclusive, lemma_out_script_never_samples, lemma_sample_count_add,
    op_cs_exclusive, op_writes_byte, sample_count, spi_in_script, spi_out_script, BusOp,
};

verus! {

/// Read the JEDEC identification; the device answers four bytes.
pub const OP_READ_ID: u8 = 0x9F;

/// Load the device's internal page buffer with the bytes that follow.
pub const OP_BUFFER_LOAD: u8 = 0x84;

/// Commit the internal buffer to the addressed page; the operation starts
/// only on the deselect edge after the command.
pub const OP_BUFFER_COMMIT: u8 = 0x88;

/// Erase one sector; the address field selects the sector.
pub const OP_SECTOR_ERASE: u8 = 0x7C;

/// Read the status register; bit 7 set means the device is ready.
pub const OP_READ_STATUS: u8 = 0xD7;

/// The device's page size in bytes.
pub const PAGE_SIZE: usize = 264;

/// The device's capacity in pages.
pub const PAGE_COUNT: u16 = 8192;

/// High address byte of a page commit: bits 7–9 of the 10-bit page index.
pub open spec fn spec_page_hi(page: u16) -> u8 {
    (((page & 0x3FF) >> 7) & 0x07) as u8
}

/// Low address byte of a page commit: bits 0–6 of the 10-bit page index,
/// shifted left by one.
pub open spec fn spec_page_lo(page: u16) -> u8 {
    (((page & 0x3FF) << 1) & 0xFE) as u8
}

/// Builds the commit command `[0x88, addr_hi, addr_lo, 0]` that moves the
/// internal buffer into `page`.
pub fn commit_command(page: u16) -> (cmd: Vec<u8>)
    ensures
        cmd@ == seq![OP_BUFFER_COMMIT, spec_page_hi(page), spec_page_lo(page), 0u8],
{
    let masked = page & 0x3FF;
    let hi = ((masked >> 7) & 0x07) as u8;
    let lo = ((masked << 1) & 0xFE) as u8;
    let mut cmd: Vec<u8> = Vec::new();
    cmd.push(OP_BUFFER_COMMIT);
    cmd.push(hi);
    cmd.push(lo);
    cmd.push(0);
    proof {
        assert(cmd@ =~= seq![OP_BUFFER_COMMIT, spec_page_hi(page), spec_page_lo(page), 0u8]);
    }
    cmd
}

/// The identifier encoded by a 4-byte identification response, read as a
/// little-endian 32-bit value.
pub open spec fn spec_id_value(resp: Seq<u8>) -> u32
    recommends
        resp.len() == 4,
{
    (resp[0] + resp[1] * 0x100 + resp[2] * 0x10000 + resp[3] * 0x1000000) as u32
}

/// Reinterprets the 4-byte identification response as a little-endian
/// 32-bit identifier.
pub fn read_id_value(resp: &[u8]) -> (id: u32)
    requires
        resp@.len() == 4,
    ensures
        id == spec_id_value(resp@),
{
    (resp[0] as u32) + (resp[1] as u32) * 0x100 + (resp[2] as u32) * 0x10000 + (resp[3] as u32)
        * 0x1000000
}

/// Whether a status byte reports the device ready (bit 7 set).
pub open spec fn spec_ready(status: u8) -> bool {
    status & 0x80 != 0
}

/// Tests the ready bit of a status-register byte.
pub fn status_ready(status: u8) -> (r: bool)
    ensures
        r == spec_ready(status),
{
    status & 0x80 != 0
}

/// The 18 erase commands that cover the whole device: the first sector's
/// two halves, then the 16 remaining sectors with the sector index shifted
/// into the high address byte.
pub open spec fn spec_erase_command(i: int) -> Seq<u8>
    recommends
        0 <= i < 18,
{
    if i == 0 {
        seq![OP_SECTOR_ERASE, 0u8, 0u8, 0u8]
    } else if i == 1 {
        seq![OP_SECTOR_ERASE, 0u8, 0x10u8, 0u8]
    } else {
        seq![OP_SECTOR_ERASE, (2 * (i - 2)) as u8, 0u8, 0u8]
    }
}

/// Builds the erase commands that cover the whole device, in the order
/// they must be issued.
pub fn erase_commands() -> (cmds: Vec<Vec<u8>>)
    ensures
        cmds@.len() == 18,
        forall|i: int| 0 <= i < 18 ==> #[trigger] cmds@[i]@ == spec_erase_command(i),
{
    let mut cmds: Vec<Vec<u8>> = Vec::new();
    let mut first: Vec<u8> = Vec::new();
    first.push(OP_SECTOR_ERASE);
    first.push(0);
    first.push(0);
    first.push(0);
    proof {
        assert(first@ =~= spec_erase_command(0));
    }
    cmds.push(first);
    let mut second: Vec<u8> = Vec::new();
    second.push(OP_SECTOR_ERASE);
    second.push(0);
    second.push(0x10);
    second.push(0);
    proof {
        assert(second@ =~= spec_erase_command(1));
    }
    cmds.push(second);
    let mut s: usize = 0;
    while s < 16
        invariant
            s <= 16,
            cmds@.len() == 2 + s,
            forall|i: int| 0 <= i < 2 + s ==> #[trigger] cmds@[i]@ == spec_erase_command(i),
        decreases 16 - s,
    {
        let mut cmd: Vec<u8> = Vec::new();
        cmd.push(OP_SECTOR_ERASE);
        cmd.push((s * 2) as u8);
        cmd.push(0);
        cmd.push(0);
        proof {
            assert(cmd@ =~= spec_erase_command(2 + s));
        }
        cmds.push(cmd);
        s = s + 1;
    }
    cmds
}

/// `ops` is the identification command: one waveform for the read-ID
/// opcode, the input script for the 4-byte response (the selection stays
/// asserted between the write phase and the read phase), and a final
/// deselect.
pub open spec fn is_read_id_script(ops: Seq<BusOp>) -> bool {
    &&& ops.len() == 99
    &&& is_out_script(ops.subrange(0, 1), seq![OP_READ_ID], DeviceSelect::Flash.spec_byte())
    &&& is_in_script(ops.subrange(1, 98), 4, DeviceSelect::Flash.spec_byte())
    &&& op_writes_byte(ops[98], DeviceSelect::Idle.spec_byte())
}

/// Builds the identification command script.  The transport runs it,
/// collects the 32 pin samples of the response, and decodes the identifier
/// with `spi_in_decode` and `read_id_value`; on an error it must still
/// attempt the final deselect before reporting the failure.
pub fn read_id_script() -> (ops: Vec<BusOp>)
    ensures
        is_read_id_script(ops@),
{
    let mut cmd: Vec<u8> = Vec::new();
    cmd.push(OP_READ_ID);
    let mut ops = spi_out_script(cmd.as_slice(), DeviceSelect::Flash);
    let ghost head = ops@;
    let mut tail = spi_in_script(4, DeviceSelect::Flash);
    let ghost mid = tail@;
    ops.append(&mut tail);
    let idle = DeviceSelect::Idle.byte();
    let mut term: Vec<u8> = Vec::new();
    term.push(idle);
    ops.push(BusOp::Write(term));
    proof {
        assert(cmd@ =~= seq![OP_READ_ID]);
        assert(ops@.subrange(0, 1) =~= head);
        assert(ops@.subrange(1, 98) =~= mid);
        assert(ops@[98]->Write_0@ =~= seq![DeviceSelect::Idle.spec_byte()]);
    }
    ops
}

/// `ops` is the page-write command for `data` and `page`: the buffer-load
/// opcode and the 264 data bytes streamed while the flash stays selected, a
/// deselect that closes the load phase, the commit command, and the
/// deselect edge on which the page program actually starts.  Polling
/// follows separately.
pub open spec fn is_write_page_script(ops: Seq<BusOp>, data: Seq<u8>, page: u16) -> bool {
    &&& ops.len() == 274
    &&& is_out_script(
        ops.subrange(0, 4),
        seq![OP_BUFFER_LOAD, 0u8, 0u8, 0u8],
        DeviceSelect::Flash.spec_byte(),
    )
    &&& is_out_script(ops.subrange(4, 268), data, DeviceSelect::Flash.spec_byte())
    &&& op_writes_byte(ops[268], DeviceSelect::Idle.spec_byte())
    &&& is_out_script(
        ops.subrange(269, 273),
        seq![OP_BUFFER_COMMIT, spec_page_hi(page), spec_page_lo(page), 0u8],
        DeviceSelect::Flash.spec_byte(),
    )
    &&& op_writes_byte(ops[273], DeviceSelect::Idle.spec_byte())
}

/// Builds the page-write command script for one full page.
pub fn write_page_script(data: &[u8], page: u16) -> (ops: Vec<BusOp>)
    requires
        data@.len() == PAGE_SIZE,
    ensures
        is_write_page_script(ops@, data@, page),
{
    let mut load: Vec<u8> = Vec::new();
    load.push(OP_BUFFER_LOAD);
    load.push(0);
    load.push(0);
    load.push(0);
    let mut ops = spi_out_script(load.as_slice(), DeviceSelect::Flash);
    let ghost part_load = ops@;
    let mut body = spi_out_script(data, DeviceSelect::Flash);
    let ghost part_body = body@;
    ops.append(&mut body);
    let idle = DeviceSelect::Idle.byte();
    let mut close_load: Vec<u8> = Vec::new();
    close_load.push(idle);
    ops.push(BusOp::Write(close_load));
    let commit = commit_command(page);
    let mut part_commit_v = spi_out_script(commit.as_slice(), DeviceSelect::Flash);
    let ghost part_commit = part_commit_v@;
    ops.append(&mut part_commit_v);
    let mut start_program: Vec<u8> = Vec::new();
    start_program.push(idle);
    ops.push(BusOp::Write(start_program));
    proof {
        assert(load@ =~= seq![OP_BUFFER_LOAD, 0u8, 0u8, 0u8]);
        assert(ops@.subrange(0, 4) =~= part_load);
        assert(ops@.subrange(4, 268) =~= part_body);
        assert(ops@[268]->Write_0@ =~= seq![DeviceSelect::Idle.spec_byte()]);
        assert(ops@.subrange(269, 273) =~= part_commit);
        assert(ops@[273]->Write_0@ =~= seq![DeviceSelect::Idle.spec_byte()]);
    }
    ops
}

/// Exactly two operations of a page-write script deselect the bus — the
/// one that closes the buffer-load phase and the one whose deselect edge
/// starts the page program — and every other operation is a whole 17-entry
/// waveform write, so no further deselect can hide among them.
pub proof fn lemma_write_page_deselects_twice(ops: Seq<BusOp>, data: Seq<u8>, page: u16)
    requires
        is_write_page_script(ops, data, page),
    ensures
        op_writes_byte(ops[268], DeviceSelect::Idle.spec_byte()),
        op_writes_byte(ops[273], DeviceSelect::Idle.spec_byte()),
        forall|j: int|
            0 <= j < 274 && j != 268 && j != 273 ==> (#[trigger] ops[j]) is Write
                && ops[j]->Write_0@.len() == 17,
{
    assert forall|j: int|
        0 <= j < 274 && j != 268 && j != 273 implies (#[trigger] ops[j]) is Write
        && ops[j]->Write_0@.len() == 17 by {
        if j < 4 {
            assert(ops.subrange(0, 4)[j] == ops[j]);
        } else if j < 268 {
            assert(ops.subrange(4, 268)[j - 4] == ops[j]);
        } else {
            assert(ops.subrange(269, 273)[j - 269] == ops[j]);
        }
    }
}

/// An identification command collects exactly the 32 pin samples that
/// decode into its 4-byte response.
pub proof fn lemma_read_id_sample_count(ops: Seq<BusOp>)
    requires
        is_read_id_script(ops),
    ensures
        sample_count(ops) == 32,
{
    let head = ops.subrange(0, 1);
    let mid = ops.subrange(1, 98);
    let tail = ops.subrange(98, 99);
    assert(ops =~= head + mid + tail);
    lemma_sample_count_add(head + mid, tail);
    lemma_sample_count_add(head, mid);
    lemma_out_script_never_samples(head, seq![OP_READ_ID], DeviceSelect::Flash.spec_byte());
    lemma_in_script_sample_count(mid, 4, DeviceSelect::Flash.spec_byte());
    assert(sample_count(tail) == 0) by {
        assert(tail.drop_last().len() == 0);
        assert(sample_count(tail.drop_last()) == 0);
        assert(tail.last() == ops[98]);
        assert(!(ops[98] is Sample));
    }
}

/// A poll iteration collects exactly the 8 pin samples that decode into
/// the one status byte.
pub proof fn lemma_poll_iteration_sample_count(ops: Seq<BusOp>)
    requires
        is_poll_iteration_script(ops),
    ensures
        sample_count(ops) == 8,
{
    let head = ops.subrange(0, 1);
    let mid = ops.subrange(1, 26);
    let tail = ops.subrange(26, 27);
    assert(ops =~= head + mid + tail);
    lemma_sample_count_add(head + mid, tail);
    lemma_sample_count_add(head, mid);
    lemma_out_script_never_samples(head, seq![OP_READ_STATUS], DeviceSelect::Flash.spec_byte());
    lemma_in_script_sample_count(mid, 1, DeviceSelect::Flash.spec_byte());
    assert(sample_count(tail) == 0) by {
        assert(tail.drop_last().len() == 0);
        assert(sample_count(tail.drop_last()) == 0);
        assert(tail.last() == ops[26]);
        assert(!(ops[26] is Sample));
    }
}

/// Mutual exclusion over a whole page write: every byte the script puts
/// on the wire — the command and data waveforms as much as the two
/// deselects — keeps the chip-selects mutually exclusive.
pub proof fn lemma_write_page_cs_exclusive(ops: Seq<BusOp>, data: Seq<u8>, page: u16)
    requires
        is_write_page_script(ops, data, page),
    ensures
        forall|k: int| 0 <= k < ops.len() ==> op_cs_exclusive(#[trigger] ops[k]),
{
    lemma_out_script_cs_exclusive(
        ops.subrange(0, 4),
        seq![OP_BUFFER_LOAD, 0u8, 0u8, 0u8],
        DeviceSelect::Flash,
    );
    lemma_out_script_cs_exclusive(ops.subrange(4, 268), data, DeviceSelect::Flash);
    lemma_out_script_cs_exclusive(
        ops.subrange(269, 273),
        seq![OP_BUFFER_COMMIT, spec_page_hi(page), spec_page_lo(page), 0u8],
        DeviceSelect::Flash,
    );
    lemma_selection_exclusive(DeviceSelect::Idle);
    assert forall|k: int| 0 <= k < ops.len() implies op_cs_exclusive(#[trigger] ops[k]) by {
        if k < 4 {
            assert(ops.subrange(0, 4)[k] == ops[k]);
        } else if k < 268 {
            assert(ops.subrange(4, 268)[k - 4] == ops[k]);
        } else if k == 268 || k == 273 {
            assert(ops[k]->Write_0@ == seq![DeviceSelect::Idle.spec_byte()]);
        } else {
            assert(ops.subrange(269, 273)[k - 269] == ops[k]);
        }
    }
}

/// Mutual exclusion over a whole identification command, write phase and
/// read phase alike.
pub proof fn lemma_read_id_cs_exclusive(ops: Seq<BusOp>)
    requires
        is_read_id_script(ops),
    ensures
        forall|k: int| 0 <= k < ops.len() ==> op_cs_exclusive(#[trigger] ops[k]),
{
    lemma_out_script_cs_exclusive(ops.subrange(0, 1), seq![OP_READ_ID], DeviceSelect::Flash);
    lemma_in_script_cs_exclusive(ops.subrange(1, 98), 4, DeviceSelect::Flash);
    lemma_selection_exclusive(DeviceSelect::Idle);
    assert forall|k: int| 0 <= k < ops.len() implies op_cs_exclusive(#[trigger] ops[k]) by {
        if k < 1 {
            assert(ops.subrange(0, 1)[k] == ops[k]);
        } else if k < 98 {
            assert(ops.subrange(1, 98)[k - 1] == ops[k]);
        } else {
            assert(ops[k]->Write_0@ == seq![DeviceSelect::Idle.spec_byte()]);
        }
    }
}

/// `ops` is one erase command: the four command bytes as waveforms, then
/// the deselect on whose edge the erase starts.  Polling follows
/// separately.
pub open spec fn is_erase_script(ops: Seq<BusOp>, cmd: Seq<u8>) -> bool {
    &&& ops.len() == 5
    &&& is_out_script(ops.subrange(0, 4), cmd, DeviceSelect::Flash.spec_byte())
    &&& op_writes_byte(ops[4], DeviceSelect::Idle.spec_byte())
}

/// Builds the script for one 4-byte erase command.
pub fn erase_script(cmd: &[u8]) -> (ops: Vec<BusOp>)
    requires
        cmd@.len() == 4,
    ensures
        is_erase_script(ops@, cmd@),
{
    let mut ops = spi_out_script(cmd, DeviceSelect::Flash);
    let ghost head = ops@;
    let idle = DeviceSelect::Idle.byte();
    let mut term: Vec<u8> = Vec::new();
    term.push(idle);
    ops.push(BusOp::Write(term));
    proof {
        assert(ops@.subrange(0, 4) =~= head);
        assert(ops@[4]->Write_0@ =~= seq![DeviceSelect::Idle.spec_byte()]);
    }
    ops
}

/// `ops` is one poll iteration: the status-read opcode, the input script
/// for the single status byte, and a deselect.
pub open spec fn is_poll_iteration_script(ops: Seq<BusOp>) -> bool {
    &&& ops.len() == 27
    &&& is_out_script(ops.subrange(0, 1), seq![OP_READ_STATUS], DeviceSelect::Flash.spec_byte())
    &&& is_in_script(ops.subrange(1, 26), 1, DeviceSelect::Flash.spec_byte())
    &&& op_writes_byte(ops[26], DeviceSelect::Idle.spec_byte())
}

/// Builds the script of one status-poll iteration.  The transport runs it,
/// assembles the status byte from the eight samples, and feeds it to
/// `poll_record`.
pub fn poll_iteration_script() -> (ops: Vec<BusOp>)
    ensures
        is_poll_iteration_script(ops@),
{
    let mut cmd: Vec<u8> = Vec::new();
    cmd.push(OP_READ_STATUS);
    let mut ops = spi_out_script(cmd.as_slice(), DeviceSelect::Flash);
    let ghost head = ops@;
    let mut tail = spi_in_script(1, DeviceSelect::Flash);
    let ghost mid = tail@;
    ops.append(&mut tail);
    let idle = DeviceSelect::Idle.byte();
    let mut term: Vec<u8> = Vec::new();
    term.push(idle);
    ops.push(BusOp::Write(term));
    proof {
        assert(cmd@ =~= seq![OP_READ_STATUS]);
        assert(ops@.subrange(0, 1) =~= head);
        assert(ops@.subrange(1, 26) =~= mid);
        assert(ops@[26]->Write_0@ =~= seq![DeviceSelect::Idle.spec_byte()]);
    }
    ops
}

/// The poll loop's state: how many status-read iterations are still
/// allowed before the command is declared timed out.
pub struct PollState {
    pub remaining: u32,
}

/// Starts a status poll with the given iteration budget.
pub fn poll_start(timeout: u32) -> (s: PollState)
    ensures
        s.remaining == timeout,
{
    PollState { remaining: timeout }
}

/// Whether the poll may still issue an iteration; once this is false the
/// poll has exhausted its budget and the command timed out.
pub fn poll_pending(s: &PollState) -> (r: bool)
    ensures
        r == (s.remaining > 0),
{
    s.remaining > 0
}

/// Accounts one completed poll iteration that observed `status`.  Returns
/// whether the device reported ready; otherwise one unit of budget is
/// spent.
pub fn poll_record(s: &mut PollState, status: u8) -> (done: bool)
    requires
        old(s).remaining > 0,
    ensures
        done == spec_ready(status),
        final(s).remaining == old(s).remaining - 1,
{
    s.remaining = s.remaining - 1;
    status_ready(status)
}

/// Runs the poll decision over the sequence of status bytes the iterations
/// would observe: success exactly when one of the first `timeout` statuses
/// has the ready bit set, and a `Timeout` failure otherwise — a busy-poll
/// that never sees the ready bit within its budget must time out.
pub fn flash_poll_replay(statuses: &[u8], timeout: u32) -> (r: Result<u32, FlashError>)
    requires
        statuses@.len() >= timeout,
    ensures
        r is Ok <==> exists|i: int| 0 <= i < timeout && spec_ready(statuses@[i]),
        r is Ok ==> 0 <= r->Ok_0 < timeout && spec_ready(statuses@[r->Ok_0 as int]),
        r is Err ==> r->Err_0 is Timeout,
{
    let mut st = poll_start(timeout);
    let mut i: u32 = 0;
    while st.remaining > 0
        invariant
            statuses@.len() >= timeout,
            i + st.remaining == timeout,
            forall|j: int| 0 <= j < i ==> !spec_ready(statuses@[j]),
        decreases st.remaining,
    {
        let status = statuses[i as usize];
        let done = poll_record(&mut st, status);
        if done {
            return Ok(i);
        }
        i = i + 1;
    }
    Err(FlashError::Timeout)
}

} // verus!
