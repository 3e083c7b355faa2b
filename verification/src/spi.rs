//! The SPI bit-banger.
//!
//! Output path: each data byte becomes a 17-entry waveform of control bytes
//! (two half-cycles per bit, most-significant bit first, plus one trailing
//! entry that returns the clock to idle while holding the selection), sent
//! to the adapter as one write.
//!
//! Input path: each data byte is read by eight rounds of sample-then-pulse
//! (mode-0 SPI: the data is sampled before the rising edge that advances the
//! slave), followed by one idle write that terminates the transaction.
//!
//! The transport performs the actual I/O.  This module produces the exact
//! operation scripts the transport must run, and decodes the pin samples the
//! transport collected.

use vstd::prelude::*;

use crate::pins::{cs_exclusive, DeviceSelect, PIN_CSN0, PIN_CSN1, PIN_MISO, PIN_MOSI, PIN_SCLK};

verus! {

/// Whether bit `i` of `b` is set.
pub open spec fn spec_bit(b: u8, i: u8) -> bool {
    (b >> i) & 1 == 1
}

/// The data-out level of bit pair `k` (0-based, most-significant bit first)
/// when encoding `b`: the data-out pin bit where `b` has a 1, otherwise 0.
pub open spec fn data_level(b: u8, k: int) -> u8
    recommends
        0 <= k < 8,
{
    if spec_bit(b, (7 - k) as u8) {
        PIN_MOSI
    } else {
        0u8
    }
}

/// Entry `j` of the 17-entry waveform that sends `b` under selection byte
/// `sel`: position `2k` holds the bit level with the clock low, position
/// `2k + 1` the same level with the clock high, and position 16 only the
/// selection with the clock low.
pub open spec fn word_entry(b: u8, sel: u8, j: int) -> u8
    recommends
        0 <= j < 17,
{
    if j == 16 {
        sel
    } else if j % 2 == 0 {
        data_level(b, j / 2) | sel
    } else {
        data_level(b, j / 2) | PIN_SCLK | sel
    }
}

/// The full 17-entry waveform for one data byte.
pub open spec fn word_seq(b: u8, sel: u8) -> Seq<u8> {
    Seq::new(17, |j: int| word_entry(b, sel, j))
}

/// Encodes one data byte into its 17-entry waveform under the given
/// selection.
pub fn encode_spi_word(data: u8, sel: DeviceSelect) -> (w: Vec<u8>)
    ensures
        w@ == word_seq(data, sel.spec_byte()),
{
    let sel_b = sel.byte();
    let mut w: Vec<u8> = Vec::new();
    let mut i: usize = 0;
    while i < 8
        invariant
            i <= 8,
            sel_b == sel.spec_byte(),
            w@.len() == 2 * i,
            forall|j: int| 0 <= j < 2 * i ==> w@[j] == word_entry(data, sel.spec_byte(), j),
        decreases 8 - i,
    {
        let sh: u8 = (7 - i) as u8;
        let level: u8 = if (data >> sh) & 1 == 1 {
            PIN_MOSI
        } else {
            0u8
        };
        w.push(level | sel_b);
        w.push(level | PIN_SCLK | sel_b);
        proof {
            assert(level == data_level(data, i as int));
            assert(w@[2 * i as int] == word_entry(data, sel.spec_byte(), 2 * i as int));
            assert(w@[2 * i as int + 1] == word_entry(data, sel.spec_byte(), 2 * i as int + 1));
        }
        i = i + 1;
    }
    w.push(sel_b);
    proof {
        assert(w@ =~= word_seq(data, sel.spec_byte()));
    }
    w
}

/// One operation of the transport: write a buffer of control bytes in a
/// single call, or sample the current input pin levels.
#[derive(Debug, PartialEq, Eq)]
pub enum BusOp {
    Write(Vec<u8>),
    Sample,
}

/// `op` writes exactly `bytes` in one transport call.
pub open spec fn op_writes(op: BusOp, bytes: Seq<u8>) -> bool {
    op is Write && op->Write_0@ == bytes
}

/// `op` writes the single control byte `b`.
pub open spec fn op_writes_byte(op: BusOp, b: u8) -> bool {
    op is Write && op->Write_0@ == seq![b]
}

/// `ops` is the output script for `bytes` under selection byte `sel`: one
/// whole-waveform write per data byte, in order, and nothing else.  The
/// script does not deselect afterwards: the caller owns the chip-select
/// lifetime, because some commands keep the selection asserted across a
/// write phase and a following read phase.
pub open spec fn is_out_script(ops: Seq<BusOp>, bytes: Seq<u8>, sel: u8) -> bool {
    &&& ops.len() == bytes.len()
    &&& forall|k: int|
        0 <= k < bytes.len() ==> op_writes(#[trigger] ops[k], word_seq(bytes[k], sel))
}

/// Builds the output script for `bytes`: one 17-byte waveform write per
/// input byte.  On any transport error mid-script the transport must abort
/// at once; bytes already on the wire are not rolled back.
pub fn spi_out_script(bytes: &[u8], sel: DeviceSelect) -> (ops: Vec<BusOp>)
    ensures
        is_out_script(ops@, bytes@, sel.spec_byte()),
{
    let mut ops: Vec<BusOp> = Vec::new();
    let mut k: usize = 0;
    while k < bytes.len()
        invariant
            k <= bytes@.len(),
            ops@.len() == k,
            forall|j: int|
                0 <= j < k ==> op_writes(#[trigger] ops@[j], word_seq(bytes@[j], sel.spec_byte())),
        decreases bytes@.len() - k,
    {
        let w = encode_spi_word(bytes[k], sel);
        ops.push(BusOp::Write(w));
        k = k + 1;
    }
    ops
}

/// Shape of operation `j` within the repeated part of an input script:
/// sample first, then clock high, then clock low.  The data is thus sampled
/// before the clock pulse that advances the slave past it.
pub open spec fn in_op_ok(ops: Seq<BusOp>, j: int, sel: u8) -> bool {
    if j % 3 == 0 {
        ops[j] is Sample
    } else if j % 3 == 1 {
        op_writes_byte(ops[j], sel | PIN_SCLK)
    } else {
        op_writes_byte(ops[j], sel)
    }
}

/// `ops` is the input script that reads `count` bytes under selection byte
/// `sel`: eight sample-pulse rounds per byte (24 operations each), then one
/// single-byte idle write that terminates the transaction unconditionally.
pub open spec fn is_in_script(ops: Seq<BusOp>, count: nat, sel: u8) -> bool {
    &&& ops.len() == 24 * count + 1
    &&& forall|j: int| 0 <= j < 24 * count ==> #[trigger] in_op_ok(ops, j, sel)
    &&& op_writes_byte(ops[24 * count as int], DeviceSelect::Idle.spec_byte())
}

proof fn lemma_triple_mod(m: int)
    by (nonlinear_arith)
    requires
        m >= 0,
    ensures
        (3 * m) % 3 == 0,
        (3 * m + 1) % 3 == 1,
        (3 * m + 2) % 3 == 2,
{
}

/// Builds the input script for reading `count` bytes.  The clock must be
/// low on entry (mode-0 SPI).
pub fn spi_in_script(count: usize, sel: DeviceSelect) -> (ops: Vec<BusOp>)
    ensures
        is_in_script(ops@, count as nat, sel.spec_byte()),
{
    let sel_b = sel.byte();
    let clk_hi = sel_b | PIN_SCLK;
    let mut ops: Vec<BusOp> = Vec::new();
    let mut i: usize = 0;
    while i < count
        invariant
            i <= count,
            sel_b == sel.spec_byte(),
            clk_hi == sel.spec_byte() | PIN_SCLK,
            ops@.len() == 24 * i,
            forall|j: int| 0 <= j < 24 * i ==> #[trigger] in_op_ok(ops@, j, sel.spec_byte()),
        decreases count - i,
    {
        let mut k: usize = 0;
        while k < 8
            invariant
                k <= 8,
                sel_b == sel.spec_byte(),
                clk_hi == sel.spec_byte() | PIN_SCLK,
                ops@.len() == 24 * i + 3 * k,
                forall|j: int|
                    0 <= j < 24 * i + 3 * k ==> #[trigger] in_op_ok(ops@, j, sel.spec_byte()),
            decreases 8 - k,
        {
            let ghost m: int = 8 * i + k;
            let ghost prev = ops@;
            ops.push(BusOp::Sample);
            let mut hi: Vec<u8> = Vec::new();
            hi.push(clk_hi);
            ops.push(BusOp::Write(hi));
            let mut lo: Vec<u8> = Vec::new();
            lo.push(sel_b);
            ops.push(BusOp::Write(lo));
            proof {
                lemma_triple_mod(m);
                assert(24 * i + 3 * k == 3 * m);
                assert(ops@[3 * m + 1]->Write_0@ =~= seq![sel.spec_byte() | PIN_SCLK]);
                assert(ops@[3 * m + 2]->Write_0@ =~= seq![sel.spec_byte()]);
                assert forall|j: int|
                    0 <= j < 3 * m + 3 implies #[trigger] in_op_ok(
                    ops@,
                    j,
                    sel.spec_byte(),
                ) by {
                    if j < 3 * m {
                        assert(in_op_ok(prev, j, sel.spec_byte()));
                        assert(ops@[j] == prev[j]);
                    }
                }
            }
            k = k + 1;
        }
        i = i + 1;
    }
    let idle = DeviceSelect::Idle.byte();
    let mut term: Vec<u8> = Vec::new();
    term.push(idle);
    let ghost prev = ops@;
    ops.push(BusOp::Write(term));
    proof {
        assert(ops@[24 * count as int]->Write_0@ =~= seq![DeviceSelect::Idle.spec_byte()]);
        assert forall|j: int|
            0 <= j < 24 * count implies #[trigger] in_op_ok(ops@, j, sel.spec_byte()) by {
            assert(in_op_ok(prev, j, sel.spec_byte()));
            assert(ops@[j] == prev[j]);
        }
    }
    ops
}

proof fn lemma_or_keeps_low_bits(x: u8, sb: u8)
    by (bit_vector)
    requires
        x & 0x03 == 0,
    ensures
        (x | sb) & 0x03 == sb & 0x03,
{
}

/// The selection bytes never carry the data-out or clock bits.
proof fn lemma_selection_byte_clean(sel: DeviceSelect)
    ensures
        sel.spec_byte() & PIN_MOSI == 0,
        sel.spec_byte() & PIN_SCLK == 0,
{
    assert(0x01u8 & 0x10 == 0 && 0x02u8 & 0x10 == 0 && (0x01u8 | 0x02u8) & 0x10 == 0
        && 0x01u8 & 0x04 == 0 && 0x02u8 & 0x04 == 0 && (0x01u8 | 0x02u8) & 0x04 == 0)
        by (bit_vector);
}

/// The waveform drives the data-out pin exactly in the bit pairs where the
/// source byte has a 1, most-significant bit first; in both half-cycles of
/// a pair the data level is the same, and only the odd half-cycle raises
/// the clock.
pub proof fn lemma_word_mosi_matches_bits(data: u8, sel: DeviceSelect)
    ensures
        forall|k: int|
            0 <= k < 8 ==> ((#[trigger] word_seq(data, sel.spec_byte())[2 * k] & PIN_MOSI != 0)
                <==> spec_bit(data, (7 - k) as u8)),
        forall|k: int|
            0 <= k < 8 ==> ((#[trigger] word_seq(data, sel.spec_byte())[2 * k + 1] & PIN_MOSI
                != 0) <==> spec_bit(data, (7 - k) as u8)),
{
    let sb = sel.spec_byte();
    lemma_selection_byte_clean(sel);
    assert forall|k: int| 0 <= k < 8 implies ((#[trigger] word_seq(data, sb)[2 * k] & PIN_MOSI
        != 0) <==> spec_bit(data, (7 - k) as u8)) by {
        lemma_mosi_visible(sb, data_level(data, k));
    }
    assert forall|k: int| 0 <= k < 8 implies ((#[trigger] word_seq(data, sb)[2 * k + 1]
        & PIN_MOSI != 0) <==> spec_bit(data, (7 - k) as u8)) by {
        assert((2 * k + 1) / 2 == k);
        lemma_mosi_visible_clocked(sb, data_level(data, k));
    }
}

proof fn lemma_mosi_visible(sb: u8, level: u8)
    by (bit_vector)
    requires
        sb & 0x10 == 0,
        level == 0x10 || level == 0,
    ensures
        ((level | sb) & 0x10 != 0) <==> level == 0x10,
{
}

proof fn lemma_mosi_visible_clocked(sb: u8, level: u8)
    by (bit_vector)
    requires
        sb & 0x10 == 0,
        level == 0x10 || level == 0,
    ensures
        ((level | 0x04 | sb) & 0x10 != 0) <==> level == 0x10,
{
}

/// Every entry of a waveform leaves the chip-select lines exactly as the
/// selection set them: whatever the data byte, the waveform addresses the
/// selected device and no other, for its whole duration.
pub proof fn lemma_word_preserves_selection(data: u8, sel: DeviceSelect)
    ensures
        forall|j: int|
            0 <= j < 17 ==> (#[trigger] word_seq(data, sel.spec_byte())[j] & (PIN_CSN0
                | PIN_CSN1)) == sel.spec_byte() & (PIN_CSN0 | PIN_CSN1),
{
    let sb = sel.spec_byte();
    assert(PIN_CSN0 | PIN_CSN1 == 0x03u8) by (bit_vector);
    assert forall|j: int| 0 <= j < 17 implies (#[trigger] word_seq(data, sb)[j] & (PIN_CSN0
        | PIN_CSN1)) == sb & (PIN_CSN0 | PIN_CSN1) by {
        if j == 16 {
            assert(sb & 0x03 == sb & 0x03);
        } else {
            let level = data_level(data, j / 2);
            assert(level & 0x03 == 0 && (level | PIN_SCLK) & 0x03 == 0) by (bit_vector)
                requires
                    level == 0x10 || level == 0,
            ;
            if j % 2 == 0 {
                lemma_or_keeps_low_bits(level, sb);
            } else {
                lemma_or_keeps_low_bits(level | PIN_SCLK, sb);
            }
        }
    }
}

/// Whether the data-in line is high in a sampled pin byte.
pub open spec fn spec_sample_high(pins: u8) -> bool {
    pins & PIN_MISO != 0
}

/// The byte assembled from eight pin samples, most-significant bit first:
/// sample `j` contributes bit `7 - j` when its data-in line was high.
pub open spec fn spec_assembled(s: Seq<u8>) -> u8
    recommends
        s.len() == 8,
{
    (if spec_sample_high(s[0]) { 0x80u8 } else { 0u8 })
    | (if spec_sample_high(s[1]) { 0x40u8 } else { 0u8 })
    | (if spec_sample_high(s[2]) { 0x20u8 } else { 0u8 })
    | (if spec_sample_high(s[3]) { 0x10u8 } else { 0u8 })
    | (if spec_sample_high(s[4]) { 0x08u8 } else { 0u8 })
    | (if spec_sample_high(s[5]) { 0x04u8 } else { 0u8 })
    | (if spec_sample_high(s[6]) { 0x02u8 } else { 0u8 })
    | (if spec_sample_high(s[7]) { 0x01u8 } else { 0u8 })
}

/// Assembles one data byte from the eight pin samples starting at `start`.
pub fn assemble_byte_at(samples: &[u8], start: usize) -> (b: u8)
    requires
        start + 8 <= samples@.len(),
    ensures
        b == spec_assembled(samples@.subrange(start as int, start as int + 8)),
{
    let b7: u8 = if samples[start] & PIN_MISO != 0 { 0x80 } else { 0 };
    let b6: u8 = if samples[start + 1] & PIN_MISO != 0 { 0x40 } else { 0 };
    let b5: u8 = if samples[start + 2] & PIN_MISO != 0 { 0x20 } else { 0 };
    let b4: u8 = if samples[start + 3] & PIN_MISO != 0 { 0x10 } else { 0 };
    let b3: u8 = if samples[start + 4] & PIN_MISO != 0 { 0x08 } else { 0 };
    let b2: u8 = if samples[start + 5] & PIN_MISO != 0 { 0x04 } else { 0 };
    let b1: u8 = if samples[start + 6] & PIN_MISO != 0 { 0x02 } else { 0 };
    let b0: u8 = if samples[start + 7] & PIN_MISO != 0 { 0x01 } else { 0 };
    b7 | b6 | b5 | b4 | b3 | b2 | b1 | b0
}

/// Decodes the pin samples an input script collected: every eight samples
/// become one data byte.
pub fn spi_in_decode(samples: &[u8]) -> (out: Vec<u8>)
    requires
        samples@.len() % 8 == 0,
    ensures
        out@.len() * 8 == samples@.len(),
        forall|i: int|
            0 <= i < out@.len() ==> out@[i] == spec_assembled(
                samples@.subrange(8 * i, 8 * i + 8),
            ),
{
    let len = samples.len();
    let n = len / 8;
    proof {
        assert(samples@.len() == 8 * n);
    }
    let mut out: Vec<u8> = Vec::new();
    let mut i: usize = 0;
    while i < n
        invariant
            i <= n,
            samples@.len() == 8 * n,
            8 * n <= usize::MAX,
            out@.len() == i,
            forall|j: int|
                0 <= j < i ==> out@[j] == spec_assembled(samples@.subrange(8 * j, 8 * j + 8)),
        decreases n - i,
    {
        let b = assemble_byte_at(samples, 8 * i);
        out.push(b);
        i = i + 1;
    }
    out
}

/// How many operations of `ops` sample the input pins — how many bytes
/// the transport hands back after running `ops`.
pub open spec fn sample_count(ops: Seq<BusOp>) -> nat
    decreases ops.len(),
{
    if ops.len() == 0 {
        0
    } else {
        sample_count(ops.drop_last()) + (if ops.last() is Sample {
            1nat
        } else {
            0nat
        })
    }
}

/// Sample counts add up over concatenation.
pub proof fn lemma_sample_count_add(a: Seq<BusOp>, b: Seq<BusOp>)
    ensures
        sample_count(a + b) == sample_count(a) + sample_count(b),
    decreases b.len(),
{
    if b.len() == 0 {
        assert(a + b =~= a);
    } else {
        lemma_sample_count_add(a, b.drop_last());
        assert((a + b).drop_last() =~= a + b.drop_last());
        assert((a + b).last() == b.last());
    }
}

/// An output script never samples: it returns no data.
pub proof fn lemma_out_script_never_samples(ops: Seq<BusOp>, bytes: Seq<u8>, sel: u8)
    requires
        is_out_script(ops, bytes, sel),
    ensures
        sample_count(ops) == 0,
    decreases ops.len(),
{
    if ops.len() > 0 {
        assert(is_out_script(ops.drop_last(), bytes.drop_last(), sel)) by {
            assert forall|k: int|
                0 <= k < bytes.len() - 1 implies op_writes(
                #[trigger] ops.drop_last()[k],
                word_seq(bytes.drop_last()[k], sel),
            ) by {
                assert(ops.drop_last()[k] == ops[k]);
            }
        }
        lemma_out_script_never_samples(ops.drop_last(), bytes.drop_last(), sel);
        assert(op_writes(ops[ops.len() - 1], word_seq(bytes[bytes.len() - 1], sel)));
    }
}

proof fn lemma_div3_step(m: int)
    by (nonlinear_arith)
    requires
        m >= 0,
    ensures
        m % 3 == 0 ==> (m + 3) / 3 == (m + 2) / 3 + 1,
        m % 3 != 0 ==> (m + 3) / 3 == (m + 2) / 3,
{
}

proof fn lemma_in_script_prefix_samples(ops: Seq<BusOp>, count: nat, sel: u8, n: int)
    requires
        is_in_script(ops, count, sel),
        0 <= n <= 24 * count,
    ensures
        sample_count(ops.take(n)) == (n + 2) / 3,
    decreases n,
{
    if n == 0 {
        assert(ops.take(0).len() == 0);
    } else {
        lemma_in_script_prefix_samples(ops, count, sel, n - 1);
        assert(ops.take(n).drop_last() =~= ops.take(n - 1));
        assert(ops.take(n).last() == ops[n - 1]);
        assert(in_op_ok(ops, n - 1, sel));
        lemma_div3_step(n - 1);
    }
}

/// An input script for `count` bytes collects exactly the `8 * count`
/// samples its decoder needs.
pub proof fn lemma_in_script_sample_count(ops: Seq<BusOp>, count: nat, sel: u8)
    requires
        is_in_script(ops, count, sel),
    ensures
        sample_count(ops) == 8 * count,
{
    lemma_in_script_prefix_samples(ops, count, sel, 24 * count as int);
    assert(ops.drop_last() =~= ops.take(24 * count as int));
    assert(ops.last() == ops[24 * count as int]);
    assert((24 * (count as int) + 2) / 3 == 8 * count) by (nonlinear_arith);
}

/// Every byte `op` writes keeps the chip-selects mutually exclusive.
pub open spec fn op_cs_exclusive(op: BusOp) -> bool {
    op is Write ==> forall|i: int|
        0 <= i < op->Write_0@.len() ==> cs_exclusive(#[trigger] op->Write_0@[i])
}

proof fn lemma_and_three_splits(x: u8, y: u8)
    by (bit_vector)
    requires
        x & 0x03 == y & 0x03,
    ensures
        x & 0x01 == y & 0x01,
        x & 0x02 == y & 0x02,
{
}

/// Every waveform entry keeps the chip-selects mutually exclusive, since
/// the waveform preserves the selection's chip-select bits and no
/// selection asserts both.
pub proof fn lemma_word_cs_exclusive(data: u8, sel: DeviceSelect)
    ensures
        forall|j: int| 0 <= j < 17 ==> cs_exclusive(#[trigger] word_seq(data, sel.spec_byte())[j]),
{
    let sb = sel.spec_byte();
    lemma_word_preserves_selection(data, sel);
    crate::pins::lemma_selection_exclusive(sel);
    assert(PIN_CSN0 | PIN_CSN1 == 0x03u8) by (bit_vector);
    assert forall|j: int| 0 <= j < 17 implies cs_exclusive(#[trigger] word_seq(data, sb)[j]) by {
        let b = word_seq(data, sb)[j];
        assert(b & 0x03 == sb & 0x03);
        lemma_and_three_splits(b, sb);
    }
}

/// Mutual exclusion on the wire, output path: every byte of every write
/// that an output script issues keeps the chip-selects mutually
/// exclusive, whatever the data and the selection.
pub proof fn lemma_out_script_cs_exclusive(ops: Seq<BusOp>, bytes: Seq<u8>, sel: DeviceSelect)
    requires
        is_out_script(ops, bytes, sel.spec_byte()),
    ensures
        forall|k: int| 0 <= k < ops.len() ==> op_cs_exclusive(#[trigger] ops[k]),
{
    assert forall|k: int| 0 <= k < ops.len() implies op_cs_exclusive(#[trigger] ops[k]) by {
        assert(op_writes(ops[k], word_seq(bytes[k], sel.spec_byte())));
        lemma_word_cs_exclusive(bytes[k], sel);
    }
}

/// Mutual exclusion on the wire, input path: every byte of every write
/// that an input script issues — the clock pulses and the terminating
/// deselect — keeps the chip-selects mutually exclusive.
pub proof fn lemma_in_script_cs_exclusive(ops: Seq<BusOp>, count: nat, sel: DeviceSelect)
    requires
        is_in_script(ops, count, sel.spec_byte()),
    ensures
        forall|k: int| 0 <= k < ops.len() ==> op_cs_exclusive(#[trigger] ops[k]),
{
    let sb = sel.spec_byte();
    crate::pins::lemma_selection_exclusive(sel);
    crate::pins::lemma_selection_exclusive(DeviceSelect::Idle);
    assert(PIN_CSN0 | PIN_CSN1 == 0x03u8) by (bit_vector);
    assert(PIN_SCLK & 0x03 == 0) by (bit_vector);
    lemma_or_keeps_low_bits(PIN_SCLK, sb);
    assert((sb | PIN_SCLK) & 0x03 == (PIN_SCLK | sb) & 0x03) by (bit_vector);
    lemma_and_three_splits(sb | PIN_SCLK, sb);
    assert forall|k: int| 0 <= k < ops.len() implies op_cs_exclusive(#[trigger] ops[k]) by {
        if k < 24 * count {
            assert(in_op_ok(ops, k, sb));
        }
    }
}

/// The pin sample a loopback would yield for bit pair `j` of waveform `w`:
/// data-in reads high exactly when the waveform drives data-out high.
pub open spec fn loopback_sample(w: Seq<u8>, j: int) -> u8 {
    if w[2 * j] & PIN_MOSI != 0 {
        PIN_MISO
    } else {
        0u8
    }
}

/// The eight pin samples a loopback of waveform `w` would yield.
pub open spec fn loopback_samples(w: Seq<u8>) -> Seq<u8> {
    Seq::new(8, |j: int| loopback_sample(w, j))
}

/// Loopback round trip: decoding the samples that `spi_out`'s own waveform
/// presents on the data-in line reconstructs the encoded byte exactly, for
/// every byte and every selection.
pub proof fn lemma_spi_round_trip(data: u8, sel: DeviceSelect)
    ensures
        spec_assembled(loopback_samples(word_seq(data, sel.spec_byte()))) == data,
{
    let sb = sel.spec_byte();
    let w = word_seq(data, sb);
    let s = loopback_samples(w);
    lemma_word_mosi_matches_bits(data, sel);
    assert(0x08u8 & 0x08 != 0 && 0u8 & 0x08 == 0) by (bit_vector);
    assert forall|j: int| 0 <= j < 8 implies (spec_sample_high(#[trigger] s[j]) <==> spec_bit(
        data,
        (7 - j) as u8,
    )) by {
        assert(s[j] == loopback_sample(w, j));
        assert((w[2 * j] & PIN_MOSI != 0) <==> spec_bit(data, (7 - j) as u8));
    }
    assert(spec_sample_high(s[0]) <==> spec_bit(data, 7));
    assert(spec_sample_high(s[1]) <==> spec_bit(data, 6));
    assert(spec_sample_high(s[2]) <==> spec_bit(data, 5));
    assert(spec_sample_high(s[3]) <==> spec_bit(data, 4));
    assert(spec_sample_high(s[4]) <==> spec_bit(data, 3));
    assert(spec_sample_high(s[5]) <==> spec_bit(data, 2));
    assert(spec_sample_high(s[6]) <==> spec_bit(data, 1));
    assert(spec_sample_high(s[7]) <==> spec_bit(data, 0));
    assert((if spec_bit(data, 7) { 0x80u8 } else { 0u8 })
        | (if spec_bit(data, 6) { 0x40u8 } else { 0u8 })
        | (if spec_bit(data, 5) { 0x20u8 } else { 0u8 })
        | (if spec_bit(data, 4) { 0x10u8 } else { 0u8 })
        | (if spec_bit(data, 3) { 0x08u8 } else { 0u8 })
        | (if spec_bit(data, 2) { 0x04u8 } else { 0u8 })
        | (if spec_bit(data, 1) { 0x02u8 } else { 0u8 })
        | (if spec_bit(data, 0) { 0x01u8 } else { 0u8 }) == data) by (bit_vector);
}

} // verus!
