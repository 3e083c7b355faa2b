//! Tests of the programming workflow, the device descriptions and the
//! error types.

use safe_ftdi::error::{FlashError, LibFtdiError};
use safe_ftdi::ftdi::{Device, Interface};
use safe_ftdi::workflow::{
    loader_chunk, loader_start, next_phase, plan_pages, start_phase, ChunkAction, Phase,
};

#[test]
fn whole_pages_program_in_order_with_no_padding() {
    // A stream of exactly five pages programs pages 0-4 and nothing else.
    let mut input = Vec::new();
    for i in 0..264 * 5 {
        input.push((i % 251) as u8);
    }
    let pages = plan_pages(&input).ok().unwrap();
    assert_eq!(pages.len(), 5);
    for (i, page) in pages.iter().enumerate() {
        assert_eq!(page.len(), 264);
        assert_eq!(&page[..], &input[264 * i..264 * (i + 1)]);
    }
}

#[test]
fn trailing_partial_chunk_is_oversize() {
    // Five pages and ten leftover bytes do not fit the page grid.
    let input = vec![0x5Au8; 264 * 5 + 10];
    assert!(matches!(plan_pages(&input), Err(FlashError::Oversize)));
}

#[test]
fn empty_stream_programs_nothing() {
    let pages = plan_pages(&[]).ok().unwrap();
    assert_eq!(pages.len(), 0);
}

#[test]
fn loader_machine_runs_the_page_loop() {
    let mut ld = loader_start();
    for page in 0..5u16 {
        let act = loader_chunk(&mut ld, 264);
        assert_eq!(act, ChunkAction::Program { page });
    }
    // The stream ends exactly on a page boundary: finished, no padded page.
    let act = loader_chunk(&mut ld, 0);
    assert_eq!(act, ChunkAction::Finished { pages: 5 });
}

#[test]
fn loader_rejects_partial_chunk() {
    let mut ld = loader_start();
    for _ in 0..5 {
        loader_chunk(&mut ld, 264);
    }
    assert_eq!(loader_chunk(&mut ld, 10), ChunkAction::TooLarge);
}

#[test]
fn loader_rejects_page_past_capacity() {
    let mut ld = loader_start();
    for page in 0..8192u16 {
        assert_eq!(loader_chunk(&mut ld, 264), ChunkAction::Program { page });
    }
    assert_eq!(loader_chunk(&mut ld, 264), ChunkAction::TooLarge);
    // But a clean end at full capacity is fine.
    assert_eq!(loader_chunk(&mut ld, 0), ChunkAction::Finished { pages: 8192 });
}

#[test]
fn phases_run_in_order() {
    let p = start_phase();
    assert_eq!(p, Phase::Identify);
    let p = next_phase(&p);
    assert_eq!(p, Phase::EnableProgram);
    let p = next_phase(&p);
    assert_eq!(p, Phase::EraseAll);
    let p = next_phase(&p);
    assert_eq!(p, Phase::ProgramPages);
    let p = next_phase(&p);
    assert_eq!(p, Phase::DisableProgram);
    let p = next_phase(&p);
    assert_eq!(p, Phase::Complete);
    assert_eq!(next_phase(&p), Phase::Complete);
}

#[test]
fn device_from_vid_pid_describes_the_adapter() {
    let d = Device::from_vid_pid(Interface::Any, 0x0403, 0x6001);
    assert_eq!(d.interface, Interface::Any);
    assert_eq!(d.vendor_id, 0x0403);
    assert_eq!(d.product_id, 0x6001);
    assert!(d.description.is_none());
    assert!(d.serial.is_none());
    assert_eq!(d.index, 0);
}

#[test]
fn device_from_description_serial_keeps_strings() {
    let d = Device::from_description_serial(
        Interface::A,
        0x0403,
        0x6001,
        Some(String::from("Mercury")),
        Some(String::from("FT123456")),
    );
    assert_eq!(d.interface, Interface::A);
    assert_eq!(d.description.as_deref(), Some("Mercury"));
    assert_eq!(d.serial.as_deref(), Some("FT123456"));
}

#[test]
fn libftdi_error_keeps_its_message() {
    let e = LibFtdiError::new("usb bulk write failed");
    assert_eq!(e.message(), "usb bulk write failed");
}
