//! A hardware-abstraction and BIOS-compatibility layer for a fixed-function
//! game console CPU, together with the build-time Huffman encoder that
//! ships beside it.
//!
//! The runtime core has three parts: the BIOS call dispatcher ([`bios`]),
//! which decodes a `(class, number)` selector and routes it to the
//! matching operation through three fixed call gates; the cooperative
//! thread registry ([`thread`]), which saves and restores execution
//! contexts without preemption or OS support; and the DMA transfer engine
//! ([`dma`]), a state machine over one hardware channel's registers that
//! supports continuation-chained multi-stage transfers. [`timer`] names
//! the console's timer 1 register addresses, and [`huffman`] is the
//! standalone batch encoder used at build time.

pub mod bios;
pub mod dma;
pub mod huffman;
pub mod thread;
pub mod timer;
