use psx_core::bios::Kernel;
use psx_core::bios::CALL_FAILED;
use psx_core::thread::Regs;

fn main_regs() -> Regs {
    Regs { pc: 0x8001_0000, sp: 0x801F_FF00, gp: 0x8006_0000 }
}

fn new_kernel() -> Kernel {
    Kernel::new(4, main_regs(), vec![0x1995_1204, 0, 0x0042])
}

#[test]
fn heap_calls_through_gate_a() {
    let mut k = new_kernel();
    let r = k.gate_a(0x39, 0x1000, 0x2000, 0, 0);
    assert_eq!(r, 0);
    let p = k.gate_a(0x33, 0x40, 0, 0, 0);
    assert_ne!(p, 0);
    assert!(0x1000 <= p && p < 0x3000);
    let q = k.gate_a(0x33, 0x40, 0, 0, 0);
    assert_eq!(q, p + 0x40);
}

#[test]
fn malloc_without_heap_is_null() {
    let mut k = new_kernel();
    assert_eq!(k.gate_a(0x33, 0x40, 0, 0, 0), 0);
}

#[test]
fn malloc_exhaustion_is_null() {
    let mut k = new_kernel();
    k.gate_a(0x39, 0x1000, 0x20, 0, 0);
    assert_eq!(k.gate_a(0x33, 0x10, 0, 0, 0), 0x1000);
    assert_eq!(k.gate_a(0x33, 0x11, 0, 0, 0), 0);
    assert_eq!(k.gate_a(0x33, 0x10, 0, 0, 0), 0x1010);
}

#[test]
fn heap_region_is_clamped_at_the_address_space_end() {
    let mut k = new_kernel();
    // only 0xFF bytes fit between the base and the top of the address space
    k.gate_a(0x39, 0xFFFF_FF00, 0x2000, 0, 0);
    assert_eq!(k.gate_a(0x33, 0x100, 0, 0, 0), 0);
    assert_eq!(k.gate_a(0x33, 0x80, 0, 0, 0), 0xFFFF_FF00);
}

#[test]
fn free_is_a_no_op() {
    let mut k = new_kernel();
    k.gate_a(0x39, 0x1000, 0x2000, 0, 0);
    let p = k.gate_a(0x33, 0x40, 0, 0, 0);
    assert_eq!(k.gate_a(0x34, p, 0, 0, 0), 0);
    assert_eq!(k.gate_a(0x33, 0x40, 0, 0, 0), p + 0x40);
}

#[test]
fn srand_then_rand_is_deterministic() {
    let mut k = new_kernel();
    assert_eq!(k.gate_a(0x30, 1, 0, 0, 0), 0);
    // seed becomes 1 * 0x41C64E6D + 0x3039 = 0x41C67EA6; bits 16..30 come out
    assert_eq!(k.gate_a(0x2F, 0, 0, 0, 0), 0x41C6);
    let mut k2 = new_kernel();
    k2.gate_a(0x30, 1, 0, 0, 0);
    assert_eq!(k2.gate_a(0x2F, 0, 0, 0, 0), 0x41C6);
}

#[test]
fn rand_output_is_15_bits() {
    let mut k = new_kernel();
    k.gate_a(0x30, 0xDEAD_BEEF, 0, 0, 0);
    for _ in 0..100 {
        assert!(k.gate_a(0x2F, 0, 0, 0, 0) <= 0x7FFF);
    }
}

#[test]
fn printf_records_the_request() {
    let mut k = new_kernel();
    let r = k.gate_a(0x3F, 0x8002_0000, 7, 8, 9);
    assert_eq!(r, 0);
    assert_eq!(k.printed.len(), 1);
    assert_eq!(k.printed[0].fmt, 0x8002_0000);
    assert_eq!(k.printed[0].arg0, 7);
    assert_eq!(k.printed[0].arg1, 8);
    assert_eq!(k.printed[0].arg2, 9);
}

#[test]
fn get_system_info_reads_the_table() {
    let mut k = new_kernel();
    assert_eq!(k.gate_a(0xB4, 0, 0, 0, 0), 0x1995_1204);
    assert_eq!(k.gate_a(0xB4, 2, 0, 0, 0), 0x0042);
    assert_eq!(k.gate_a(0xB4, 99, 0, 0, 0), 0);
}

#[test]
fn std_out_putchar_returns_zero() {
    let mut k = new_kernel();
    assert_eq!(k.gate_b(0x3D, 0x41, 0, 0, 0), 0);
}

#[test]
fn unmapped_call_returns_sentinel() {
    let mut k = new_kernel();
    assert_eq!(k.dispatch(0xA0, 0xFF, 0, 0, 0, 0), 0xFFFF_FFFF);
}

#[test]
fn unmapped_call_has_no_side_effect() {
    let mut k = new_kernel();
    k.gate_a(0x39, 0x1000, 0x2000, 0, 0);
    k.gate_a(0x30, 5, 0, 0, 0);
    let before_rng_out = {
        let mut probe = new_kernel();
        probe.gate_a(0x30, 5, 0, 0, 0);
        probe.gate_a(0x2F, 0, 0, 0, 0)
    };
    assert_eq!(k.dispatch(0xA0, 0xFF, 1, 2, 3, 4), CALL_FAILED);
    assert_eq!(k.dispatch(0xB0, 0x77, 1, 2, 3, 4), CALL_FAILED);
    assert_eq!(k.gate_c(0x0A, 1, 2, 3, 4), CALL_FAILED);
    // the heap and the generator are exactly as an untouched kernel's
    assert_eq!(k.gate_a(0x33, 0x40, 0, 0, 0), 0x1000);
    assert_eq!(k.gate_a(0x2F, 0, 0, 0, 0), before_rng_out);
    assert_eq!(k.printed.len(), 0);
}

#[test]
fn thread_calls_through_gate_b() {
    let mut k = new_kernel();
    let h = k.gate_b(0x0E, 0x8003_0000, 0x801F_8000, 0x8006_0000, 0);
    assert_eq!(h, 0xFF00_0001);
    // switching transfers control: the cpu now sits at the entry state
    assert_eq!(k.gate_b(0x10, h, 0, 0, 0), 1);
    assert_eq!(k.cpu.pc, 0x8003_0000);
    assert_eq!(k.cpu.sp, 0x801F_8000);
    assert_eq!(k.cpu.gp, 0x8006_0000);
    // closing an unknown handle reports failure
    assert_eq!(k.gate_b(0x0F, 0xFF00_0099, 0, 0, 0), CALL_FAILED);
    // closing the running context is permitted; its handle dies with it
    assert_eq!(k.gate_b(0x0F, h, 0, 0, 0), 1);
    assert_eq!(k.gate_b(0x10, h, 0, 0, 0), CALL_FAILED);
    // control falls back to the main context
    assert_eq!(k.gate_b(0x10, 0xFF00_0000, 0, 0, 0), 1);
    assert_eq!(k.cpu.pc, 0x8001_0000);
}
