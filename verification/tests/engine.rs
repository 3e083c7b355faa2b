//! Tests of the pin model, the SPI bit-banger and the flash command
//! engine, run against concrete values.

use safe_ftdi::flash::{
    commit_command, erase_commands, erase_script, flash_poll_replay, poll_iteration_script,
    poll_pending, poll_record, poll_start, read_id_script, read_id_value, status_ready,
    write_page_script,
};
use safe_ftdi::pins::{direction_byte, DeviceSelect};
use safe_ftdi::spi::{encode_spi_word, spi_in_decode, spi_in_script, spi_out_script, BusOp};

const CSN0: u8 = 0x01;
const CSN1: u8 = 0x02;
const SCLK: u8 = 0x04;
const MISO: u8 = 0x08;
const MOSI: u8 = 0x10;
const IDLE: u8 = CSN0 | CSN1;

#[test]
fn selection_bytes_are_exclusive() {
    let fpga = DeviceSelect::Fpga.byte();
    let flash = DeviceSelect::Flash.byte();
    let idle = DeviceSelect::Idle.byte();
    assert_eq!(fpga, 0x01);
    assert_eq!(flash, 0x02);
    assert_eq!(idle, 0x03);
    // Chip-selects are active low: never both low, whichever two
    // selections are written one after the other.
    for b in [fpga, flash, idle] {
        let flash_asserted = b & CSN0 == 0;
        let fpga_asserted = b & CSN1 == 0;
        assert!(!(flash_asserted && fpga_asserted));
    }
}

#[test]
fn direction_bytes() {
    assert_eq!(direction_byte(false), 0x17);
    assert_eq!(direction_byte(true), 0x37);
}

#[test]
fn encode_all_zero_byte_never_drives_data_out() {
    let w = encode_spi_word(0x00, DeviceSelect::Flash);
    assert_eq!(w.len(), 17);
    for (j, b) in w.iter().enumerate() {
        assert_eq!(b & MOSI, 0, "entry {} drives data-out", j);
    }
    for k in 0..8 {
        assert_eq!(w[2 * k], CSN1);
        assert_eq!(w[2 * k + 1], CSN1 | SCLK);
    }
    assert_eq!(w[16], CSN1);
}

#[test]
fn encode_msb_only_drives_first_pair_only() {
    // 0b1000_0000: most-significant bit first, so only the first bit pair
    // carries the data-out pin.
    let w = encode_spi_word(0x80, DeviceSelect::Flash);
    assert_eq!(w[0], MOSI | CSN1);
    assert_eq!(w[1], MOSI | SCLK | CSN1);
    for k in 1..8 {
        assert_eq!(w[2 * k] & MOSI, 0);
        assert_eq!(w[2 * k + 1] & MOSI, 0);
    }
    assert_eq!(w[16], CSN1);
}

#[test]
fn encode_extremes_drive_data_out_exactly_on_one_bits() {
    for data in [0x80u8, 0x81, 0x90, 0xA5, 0xC3, 0xFE, 0xFF, 0x00] {
        let w = encode_spi_word(data, DeviceSelect::Flash);
        assert_eq!(w.len(), 17);
        for k in 0..8 {
            let bit = (data >> (7 - k)) & 1 == 1;
            assert_eq!(w[2 * k] & MOSI != 0, bit);
            assert_eq!(w[2 * k + 1] & MOSI != 0, bit);
            // Clock low on the setup half-cycle, high on the sampling one.
            assert_eq!(w[2 * k] & SCLK, 0);
            assert_ne!(w[2 * k + 1] & SCLK, 0);
        }
        assert_eq!(w[16] & SCLK, 0);
    }
}

#[test]
fn loopback_round_trip_reconstructs_bytes() {
    for data in [0x00u8, 0x01, 0x80, 0xA5, 0x5A, 0xF0, 0x0F, 0xFF] {
        let w = encode_spi_word(data, DeviceSelect::Flash);
        // Wire data-out back to data-in: the sample for bit pair k sees
        // the level the waveform was driving during that pair.
        let mut samples = Vec::new();
        for k in 0..8 {
            samples.push(if w[2 * k] & MOSI != 0 { MISO } else { 0 });
        }
        let decoded = spi_in_decode(&samples);
        assert_eq!(decoded.len(), 1);
        assert_eq!(decoded[0], data);
    }
}

#[test]
fn decode_samples() {
    assert_eq!(spi_in_decode(&[0; 8]), vec![0x00]);
    assert_eq!(spi_in_decode(&[MISO; 8]), vec![0xFF]);
    // 0xA5 = 0b1010_0101, most-significant bit sampled first.
    let samples = [MISO, 0, MISO, 0, 0, MISO, 0, MISO];
    assert_eq!(spi_in_decode(&samples), vec![0xA5]);
    // Any set data-in line counts, whatever other pins read back.
    let noisy = [0xFF, 0x07, 0xFF, 0x07, 0x07, 0xFF, 0x07, 0xFF];
    assert_eq!(spi_in_decode(&noisy), vec![0xA5]);
}

#[test]
fn out_script_writes_one_word_per_byte() {
    let ops = spi_out_script(&[0x9F, 0x00], DeviceSelect::Flash);
    assert_eq!(ops.len(), 2);
    match &ops[0] {
        BusOp::Write(w) => assert_eq!(*w, encode_spi_word(0x9F, DeviceSelect::Flash)),
        BusOp::Sample => panic!("expected a write"),
    }
    match &ops[1] {
        BusOp::Write(w) => assert_eq!(*w, encode_spi_word(0x00, DeviceSelect::Flash)),
        BusOp::Sample => panic!("expected a write"),
    }
}

#[test]
fn in_script_samples_before_each_pulse_and_deselects() {
    let ops = spi_in_script(1, DeviceSelect::Flash);
    assert_eq!(ops.len(), 25);
    for k in 0..8 {
        assert!(matches!(ops[3 * k], BusOp::Sample));
        assert_eq!(ops[3 * k + 1], BusOp::Write(vec![CSN1 | SCLK]));
        assert_eq!(ops[3 * k + 2], BusOp::Write(vec![CSN1]));
    }
    assert_eq!(ops[24], BusOp::Write(vec![IDLE]));
}

#[test]
fn read_id_yields_little_endian_identifier() {
    let id = read_id_value(&[0x1F, 0x25, 0x00, 0x00]);
    assert_eq!(id, 0x0000251F);
    assert_eq!(read_id_value(&[0x00, 0x00, 0x00, 0x01]), 0x01000000);
}

#[test]
fn read_id_script_shape() {
    let ops = read_id_script();
    assert_eq!(ops.len(), 99);
    match &ops[0] {
        BusOp::Write(w) => assert_eq!(*w, encode_spi_word(0x9F, DeviceSelect::Flash)),
        BusOp::Sample => panic!("expected a write"),
    }
    let sample_count = ops
        .iter()
        .filter(|op| matches!(op, BusOp::Sample))
        .count();
    assert_eq!(sample_count, 32);
    assert_eq!(ops[98], BusOp::Write(vec![IDLE]));
}

#[test]
fn commit_command_splits_page_address() {
    assert_eq!(commit_command(0), vec![0x88, 0x00, 0x00, 0x00]);
    assert_eq!(commit_command(1), vec![0x88, 0x00, 0x02, 0x00]);
    // page 300 = 0b1_0010_1100: bits 7-9 give 2, bits 0-6 shifted give 0x58.
    assert_eq!(commit_command(300), vec![0x88, 0x02, 0x58, 0x00]);
    assert_eq!(commit_command(1023), vec![0x88, 0x07, 0xFE, 0x00]);
}

#[test]
fn write_page_deselects_exactly_twice_in_order() {
    let data = [0xABu8; 264];
    let ops = write_page_script(&data, 5);
    assert_eq!(ops.len(), 274);
    // Replay against a recorder: collect each write, classifying it.
    let mut idle_positions = Vec::new();
    for (j, op) in ops.iter().enumerate() {
        match op {
            BusOp::Write(w) => {
                if w.len() == 1 {
                    assert_eq!(*w, vec![IDLE]);
                    idle_positions.push(j);
                } else {
                    assert_eq!(w.len(), 17);
                }
            }
            BusOp::Sample => panic!("a page write never samples"),
        }
    }
    // Exactly two deselects: one closing the buffer load, one starting
    // the program, both before any polling would begin.
    assert_eq!(idle_positions, vec![268, 273]);
    // The words before the first deselect stream the load command and the
    // page; the words after it are the commit command.
    match &ops[0] {
        BusOp::Write(w) => assert_eq!(*w, encode_spi_word(0x84, DeviceSelect::Flash)),
        BusOp::Sample => unreachable!(),
    }
    match &ops[4] {
        BusOp::Write(w) => assert_eq!(*w, encode_spi_word(0xAB, DeviceSelect::Flash)),
        BusOp::Sample => unreachable!(),
    }
    match &ops[269] {
        BusOp::Write(w) => assert_eq!(*w, encode_spi_word(0x88, DeviceSelect::Flash)),
        BusOp::Sample => unreachable!(),
    }
}

#[test]
fn erase_commands_cover_all_sectors() {
    let cmds = erase_commands();
    assert_eq!(cmds.len(), 18);
    assert_eq!(cmds[0], vec![0x7C, 0x00, 0x00, 0x00]);
    assert_eq!(cmds[1], vec![0x7C, 0x00, 0x10, 0x00]);
    for (i, cmd) in cmds.iter().enumerate().skip(2) {
        assert_eq!(*cmd, vec![0x7C, ((i - 2) as u8) << 1, 0x00, 0x00]);
    }
}

#[test]
fn erase_script_shape() {
    let cmds = erase_commands();
    let ops = erase_script(&cmds[0]);
    assert_eq!(ops.len(), 5);
    match &ops[0] {
        BusOp::Write(w) => assert_eq!(*w, encode_spi_word(0x7C, DeviceSelect::Flash)),
        BusOp::Sample => panic!("expected a write"),
    }
    assert_eq!(ops[4], BusOp::Write(vec![IDLE]));
}

#[test]
fn poll_iteration_script_shape() {
    let ops = poll_iteration_script();
    assert_eq!(ops.len(), 27);
    match &ops[0] {
        BusOp::Write(w) => assert_eq!(*w, encode_spi_word(0xD7, DeviceSelect::Flash)),
        BusOp::Sample => panic!("expected a write"),
    }
    let sample_count = ops
        .iter()
        .filter(|op| matches!(op, BusOp::Sample))
        .count();
    assert_eq!(sample_count, 8);
    assert_eq!(ops[26], BusOp::Write(vec![IDLE]));
}

#[test]
fn status_ready_is_bit_seven() {
    assert!(status_ready(0x80));
    assert!(status_ready(0xFF));
    assert!(!status_ready(0x7F));
    assert!(!status_ready(0x00));
}

#[test]
fn poll_with_never_ready_status_times_out() {
    // Three iterations, bit 7 never set: Timeout, not success.
    let r = flash_poll_replay(&[0x00, 0x00, 0x00], 3);
    assert!(matches!(r, Err(safe_ftdi::error::FlashError::Timeout)));
}

#[test]
fn poll_stops_at_first_ready_status() {
    let r = flash_poll_replay(&[0x00, 0x7F, 0x80], 3);
    assert_eq!(r.ok(), Some(2));
    let r = flash_poll_replay(&[0x80, 0x00, 0x00], 3);
    assert_eq!(r.ok(), Some(0));
}

#[test]
fn poll_machine_spends_its_budget() {
    let mut st = poll_start(3);
    let mut iterations: u32 = 0;
    while poll_pending(&st) {
        let done = poll_record(&mut st, 0x00);
        assert!(!done);
        iterations += 1;
    }
    assert_eq!(iterations, 3);
    let mut st = poll_start(2);
    assert!(poll_pending(&st));
    assert!(poll_record(&mut st, 0x80));
}
