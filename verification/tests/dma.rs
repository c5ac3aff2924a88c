use psx_core::dma::Bitmap;
use psx_core::dma::BlockMode;
use psx_core::dma::Channel;
use psx_core::dma::Chop;
use psx_core::dma::Clut;
use psx_core::dma::Direction;
use psx_core::dma::Gp1;
use psx_core::dma::Ot;
use psx_core::dma::Stage;
use psx_core::dma::Step;
use psx_core::dma::SyncMode;
use psx_core::dma::TexPage;
use psx_core::dma::Tim;

fn tim_with_palette() -> Tim {
    Tim {
        bitmap: Bitmap { addr: 0x8010_0000, words: 0x4000 },
        clut_bitmap: Some(Bitmap { addr: 0x8014_0000, words: 0x100 }),
        texpage: TexPage(0x0280),
        clut: Some(Clut(0x7AB0)),
    }
}

fn tim_without_palette() -> Tim {
    Tim {
        bitmap: Bitmap { addr: 0x8010_0000, words: 0x4000 },
        clut_bitmap: None,
        texpage: TexPage(0x0280),
        clut: None,
    }
}

#[test]
fn tim_upload_with_palette_runs_two_stages_in_order() {
    let mut ch = Channel::new();
    let tim = tim_with_palette();
    let t = ch.load_tim(&tim);
    assert_eq!(t.result, (TexPage(0x0280), Some(Clut(0x7AB0))));
    // stage one: the pixel data
    assert_eq!(ch.stage_count(), 1);
    assert_eq!(ch.stage_at(0), Stage { base: 0x8010_0000, block: BlockMode::Count(0x4000) });
    assert!(ch.is_started());
    // hardware completion starts stage two: the palette
    assert_eq!(ch.stage_complete(), None);
    assert_eq!(ch.stage_count(), 2);
    assert_eq!(ch.stage_at(1), Stage { base: 0x8014_0000, block: BlockMode::Count(0x100) });
    assert!(ch.is_started());
    // the second completion finalizes the result; no further stage runs
    assert_eq!(ch.stage_complete(), Some((TexPage(0x0280), Some(Clut(0x7AB0)))));
    assert_eq!(ch.stage_count(), 2);
    assert!(!ch.is_started());
}

#[test]
fn tim_upload_without_palette_runs_one_stage_same_shape() {
    let mut ch = Channel::new();
    let tim = tim_without_palette();
    let t = ch.load_tim(&tim);
    assert_eq!(t.result, (TexPage(0x0280), None));
    assert_eq!(ch.stage_count(), 1);
    assert!(ch.is_started());
    // the single completion already finalizes a structurally identical result
    assert_eq!(ch.stage_complete(), Some((TexPage(0x0280), None)));
    assert_eq!(ch.stage_count(), 1);
    assert!(!ch.is_started());
}

#[test]
fn prepare_ot_routes_the_gpu_and_selects_linked_list_mode() {
    let mut ch = Channel::new();
    let mut gp1 = Gp1::new();
    ch.prepare_ot(&mut gp1);
    assert_eq!(gp1.dma_dir, 2);
    let ot: Ot<8> = Ot { addr: 0x8010_0000 };
    let t = ch.send(&ot);
    assert_eq!(t.result.addr, 0x8010_0000);
    assert_eq!(ch.stage_count(), 1);
    // the walk starts at the table's final entry
    assert_eq!(ch.stage_at(0), Stage { base: 0x8010_0000 + 4 * 7, block: BlockMode::LinkedList });
    assert!(ch.is_started());
    assert_eq!(ch.stage_complete(), None);
    assert!(!ch.is_started());
}

#[test]
fn send_offset_starts_at_the_named_entry() {
    let mut ch = Channel::new();
    let mut gp1 = Gp1::new();
    ch.prepare_ot(&mut gp1);
    let ot: Ot<8> = Ot { addr: 0x8010_0000 };
    ch.send_offset(&ot, 3);
    assert_eq!(ch.stage_at(0), Stage { base: 0x8010_0000 + 12, block: BlockMode::LinkedList });
}

#[test]
fn ot_entry_addresses_step_by_words() {
    let ot: Ot<16> = Ot { addr: 0x8010_0000 };
    assert_eq!(ot.len(), 15);
    assert_eq!(ot.entry(0), 0x8010_0000);
    assert_eq!(ot.entry(15), 0x8010_003C);
}

#[test]
fn start_carries_the_result_and_records_the_payload() {
    let mut ch = Channel::new();
    ch.configure(Direction::FromMemory, Step::Forward, SyncMode::Request, Some(Chop {
        dma_window: 4,
        cpu_window: 8,
    }));
    let t = ch.start(Stage { base: 0x8020_0000, block: BlockMode::Count(64) }, 42u32);
    assert_eq!(t.result, 42);
    assert_eq!(ch.stage_at(0), Stage { base: 0x8020_0000, block: BlockMode::Count(64) });
    assert!(ch.is_started());
    // a plain transfer has no continuation: completion just idles the channel
    assert_eq!(ch.stage_complete(), None);
    assert!(!ch.is_started());
}
