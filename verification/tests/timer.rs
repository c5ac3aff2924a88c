use psx_core::timer::CNT;
use psx_core::timer::CNT_ADDRESS;
use psx_core::timer::MODE;
use psx_core::timer::MODE_ADDRESS;
use psx_core::timer::TGT;
use psx_core::timer::TGT_ADDRESS;

#[test]
fn timer1_register_addresses() {
    assert_eq!(MODE.address(), 0x1F80_1114);
    assert_eq!(CNT.address(), 0x1F80_1110);
    assert_eq!(TGT.address(), 0x1F80_1118);
    assert_eq!(MODE_ADDRESS, 0x1F80_1114);
    assert_eq!(CNT_ADDRESS, 0x1F80_1110);
    assert_eq!(TGT_ADDRESS, 0x1F80_1118);
}
