use psx_core::thread::Regs;
use psx_core::thread::ThreadError;
use psx_core::thread::ThreadRegistry;
use psx_core::thread::HANDLE_BASE;

fn main_regs() -> Regs {
    Regs { pc: 0x8001_0000, sp: 0x801F_FF00, gp: 0x8006_0000 }
}

#[test]
fn open_then_switch_lands_at_the_entry_state() {
    let mut reg = ThreadRegistry::new(4, main_regs());
    let h = reg.open(0x8003_0000, 0x801F_8000, 0x8006_0000).unwrap();
    assert_eq!(h.0, HANDLE_BASE + 1);
    let loaded = reg.switch_to(h, main_regs()).unwrap();
    assert_eq!(loaded, Regs { pc: 0x8003_0000, sp: 0x801F_8000, gp: 0x8006_0000 });
}

#[test]
fn switch_round_trip_preserves_the_callers_state() {
    let mut reg = ThreadRegistry::new(4, main_regs());
    let main_h = reg.current_handle();
    let hb = reg.open(0x8003_0000, 0x801F_8000, 0).unwrap();
    // A yields to B, saving the state it will want back
    let regs_a = Regs { pc: 0x8001_0444, sp: 0x801F_FE00, gp: 0x8006_0000 };
    let loaded_b = reg.switch_to(hb, regs_a).unwrap();
    assert_eq!(loaded_b.pc, 0x8003_0000);
    // B yields back to A: A resumes exactly where it left off
    let regs_b = Regs { pc: 0x8003_0100, sp: 0x801F_7000, gp: 0 };
    let resumed = reg.switch_to(main_h, regs_b).unwrap();
    assert_eq!(resumed, regs_a);
    // and B's own state was snapshotted the same way
    let back = reg.switch_to(hb, resumed).unwrap();
    assert_eq!(back, regs_b);
}

#[test]
fn close_then_switch_is_an_invalid_handle_error() {
    let mut reg = ThreadRegistry::new(4, main_regs());
    let h = reg.open(0x8003_0000, 0x801F_8000, 0).unwrap();
    assert_eq!(reg.close(h), Ok(()));
    assert_eq!(reg.switch_to(h, main_regs()), Err(ThreadError::InvalidHandle));
}

#[test]
fn opening_beyond_the_pool_is_an_error_not_a_handle() {
    let mut reg = ThreadRegistry::new(2, main_regs());
    let first = reg.open(0x8003_0000, 0x801F_8000, 0);
    assert!(first.is_ok());
    let second = reg.open(0x8004_0000, 0x801F_4000, 0);
    assert_eq!(second, Err(ThreadError::NoFreeSlot));
}

#[test]
fn closing_frees_the_slot_for_reuse() {
    let mut reg = ThreadRegistry::new(2, main_regs());
    let h = reg.open(0x8003_0000, 0x801F_8000, 0).unwrap();
    reg.close(h).unwrap();
    let h2 = reg.open(0x8004_0000, 0x801F_4000, 0).unwrap();
    assert_eq!(h2.0, h.0);
}

#[test]
fn self_switch_is_a_no_op() {
    let mut reg = ThreadRegistry::new(4, main_regs());
    let main_h = reg.current_handle();
    let saved = Regs { pc: 0x8001_0888, sp: 0x801F_FD00, gp: 1 };
    assert_eq!(reg.switch_to(main_h, saved), Ok(saved));
}

#[test]
fn unknown_handles_are_rejected() {
    let mut reg = ThreadRegistry::new(4, main_regs());
    let bogus = psx_core::thread::ThreadHandle(HANDLE_BASE + 99);
    assert_eq!(reg.switch_to(bogus, main_regs()), Err(ThreadError::InvalidHandle));
    let low = psx_core::thread::ThreadHandle(17);
    assert_eq!(reg.switch_to(low, main_regs()), Err(ThreadError::InvalidHandle));
}

#[test]
fn the_main_context_cannot_be_closed() {
    let mut reg = ThreadRegistry::new(4, main_regs());
    let main_h = reg.current_handle();
    assert_eq!(reg.close(main_h), Err(ThreadError::MainContext));
}

#[test]
fn a_returning_entry_function_falls_back_to_main() {
    let mut reg = ThreadRegistry::new(4, main_regs());
    let h = reg.open(0x8003_0000, 0x801F_8000, 0).unwrap();
    let regs_a = Regs { pc: 0x8001_0444, sp: 0x801F_FE00, gp: 2 };
    reg.switch_to(h, regs_a).unwrap();
    // the entry function returns without yielding: back to main
    let resumed = reg.exit_current().unwrap();
    assert_eq!(resumed, regs_a);
    // the context that returned is gone
    assert_eq!(reg.switch_to(h, resumed), Err(ThreadError::InvalidHandle));
}

#[test]
fn exit_from_main_is_an_error() {
    let mut reg = ThreadRegistry::new(4, main_regs());
    assert_eq!(reg.exit_current(), Err(ThreadError::MainContext));
}
