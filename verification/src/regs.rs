//! Register words and the operations that the driver asks to be carried out on them.

use vstd::prelude::*;
use crate::types::EndpointType;

verus! {

// Buffer control word, buffer 0.
pub const BUF_LENGTH: u32 = 0x3ff;
pub const BUF_AVAILABLE: u32 = 0x400;
pub const BUF_RESET: u32 = 0x1000;
pub const BUF_PID: u32 = 0x2000;
pub const BUF_LAST: u32 = 0x4000;
pub const BUF_FULL: u32 = 0x8000;

// Endpoint control word.
pub const EP_BUFFER_ADDRESS: u32 = 0xffff;
pub const EP_TYPE: u32 = 0x0c00_0000;
pub const EP_INTERRUPT_PER_BUFF: u32 = 0x2000_0000;
pub const EP_ENABLE: u32 = 0x8000_0000;

// Endpoint address words.
pub const ADDR_INTEP_DIR: u32 = 0x0200_0000;
pub const ADDR_INTEP_PREAMBLE: u32 = 0x0400_0000;

// SIE_CTRL.
pub const SIE_START_TRANS: u32 = 0x1;
pub const SIE_SEND_SETUP: u32 = 0x2;
pub const SIE_SEND_DATA: u32 = 0x4;
pub const SIE_RECEIVE_DATA: u32 = 0x8;
pub const SIE_STOP_TRANS: u32 = 0x10;
pub const SIE_PREAMBLE_EN: u32 = 0x40;
pub const SIE_SOF_SYNC: u32 = 0x100;
pub const SIE_SOF_EN: u32 = 0x200;
pub const SIE_KEEP_ALIVE_EN: u32 = 0x400;
pub const SIE_RESET_BUS: u32 = 0x2000;
pub const SIE_PULLDOWN_EN: u32 = 0x8000;

// SIE_STATUS.
pub const STATUS_SPEED: u32 = 0x300;
pub const STATUS_RESUME: u32 = 0x800;
pub const STATUS_TRANS_COMPLETE: u32 = 0x0004_0000;
pub const STATUS_CRC_ERROR: u32 = 0x0100_0000;
pub const STATUS_BIT_STUFF_ERROR: u32 = 0x0200_0000;
pub const STATUS_RX_OVERFLOW: u32 = 0x0400_0000;
pub const STATUS_RX_TIMEOUT: u32 = 0x0800_0000;
pub const STATUS_STALL_REC: u32 = 0x2000_0000;
pub const STATUS_DATA_SEQ_ERROR: u32 = 0x8000_0000;

/// The outcomes of a transaction that SIE_STATUS latches.
pub const STATUS_OUTCOMES: u32 = 0x2c04_0000;

// INTE and INTS.
pub const INT_HOST_CONN_DIS: u32 = 0x1;
pub const INT_HOST_RESUME: u32 = 0x2;
pub const INT_HOST_SOF: u32 = 0x4;
pub const INT_TRANS_COMPLETE: u32 = 0x8;
pub const INT_BUFF_STATUS: u32 = 0x10;
pub const INT_ERROR_DATA_SEQ: u32 = 0x20;
pub const INT_ERROR_RX_TIMEOUT: u32 = 0x40;
pub const INT_ERROR_RX_OVERFLOW: u32 = 0x80;
pub const INT_ERROR_BIT_STUFF: u32 = 0x100;
pub const INT_ERROR_CRC: u32 = 0x200;
pub const INT_STALL: u32 = 0x400;
pub const INT_EPX_STOPPED_ON_NAK: u32 = 0x0080_0000;

// NAK_POLL.
pub const NAK_STOP_EPX_ON_NAK: u32 = 0x0400_0000;
pub const NAK_EPX_STOPPED_ON_NAK: u32 = 0x0800_0000;

// MAIN_CTRL, USB_MUXING, USB_PWR.
pub const MAIN_CONTROLLER_EN: u32 = 0x1;
pub const MAIN_HOST_NDEVICE: u32 = 0x2;
pub const MAIN_PHY_ISO: u32 = 0x4;
pub const MUX_TO_PHY: u32 = 0x1;
pub const MUX_SOFTCON: u32 = 0x8;
pub const PWR_VBUS_DETECT: u32 = 0x4;
pub const PWR_VBUS_DETECT_OVERRIDE_EN: u32 = 0x8;

/// A register of the controller, or a control word in its RAM.
#[derive(Clone, Copy, PartialEq, Eq, Structural, Debug)]
pub enum Reg {
    /// Peripheral resets.
    Resets,
    /// Peripherals whose reset has been released.
    ResetDone,
    UsbMuxing,
    UsbPwr,
    MainCtrl,
    SieCtrl,
    SieStatus,
    Inte,
    IntEpCtrl,
    BuffStatus,
    NakPoll,
    SofRd,
    /// Device address and endpoint of EPX.
    AddrEndp,
    /// Device address and endpoint of a polled endpoint, counted from zero.
    AddrEndpX(usize),
    /// Control word of a polled endpoint, counted from zero.
    EpInControl(usize),
    /// Control word of EPX.
    EpxControl,
    /// Buffer control word; EPX is index zero.
    EpInBufferControl(usize),
    SetupPacketLow,
    SetupPacketHigh,
}

/// A task that waits for the controller.
#[derive(Clone, Copy, PartialEq, Eq, Structural, Debug)]
pub enum Waker {
    /// Whoever waits for attach and detach.
    Bus,
    /// The pipe on a polled endpoint.
    EpIn(usize),
    /// The pipe in an EPX slot.
    Epx(usize),
}

/// One step of work outside the driver's own state.
#[derive(Clone, Copy, PartialEq, Eq, Structural, Debug)]
pub enum Op {
    /// Store the word.
    Write(Reg, u32),
    /// Load the word, clear the bits of the first mask, set those of the second, store it.
    Modify(Reg, u32, u32),
    /// Clear the bits of the mask through the register's atomic-clear alias.
    Clear(Reg, u32),
    /// Load the word for the effect of loading it.
    Read(Reg),
    /// Spin until no bit of the mask is set.
    WaitClear(Reg, u32),
    /// Spin until a bit of the mask is set.
    WaitSet(Reg, u32),
    /// Let this many system clock cycles pass.
    Delay(u32),
    /// Zero this many words from the start of the RAM.
    ZeroDpram(usize),
    /// Copy bytes `from..from + len` of the caller's data to this RAM address.
    CopyOut { addr: u16, from: usize, len: usize },
    /// Copy `len` bytes from this RAM address to the caller's buffer, at offset `at`.
    CopyIn { addr: u16, at: usize, len: usize },
    /// Wake a task.
    Wake(Waker),
    /// Forget a pending controller interrupt.
    UnpendIrq,
    /// Let controller interrupts through.
    EnableIrq,
}

/// Whether any bit of `mask` is set in `word`.
pub open spec fn flag(word: u32, mask: u32) -> bool {
    word & mask != 0
}

/// The word that `Modify` stores over `word`.
pub open spec fn modified(word: u32, clear: u32, set: u32) -> u32 {
    (word & !clear) | set
}

/// Register contents after one step.
pub open spec fn step(regs: Map<Reg, u32>, op: Op) -> Map<Reg, u32> {
    match op {
        Op::Write(reg, word) => regs.insert(reg, word),
        Op::Modify(reg, clear, set) => regs.insert(reg, modified(regs[reg], clear, set)),
        Op::Clear(reg, mask) => regs.insert(reg, regs[reg] & !mask),
        _ => regs,
    }
}

/// Register contents after a list of steps.
pub open spec fn run(regs: Map<Reg, u32>, ops: Seq<Op>) -> Map<Reg, u32>
    decreases ops.len(),
{
    if ops.len() == 0 {
        regs
    } else {
        step(run(regs, ops.drop_last()), ops.last())
    }
}

/// Running a longer list runs its last step last.
pub proof fn lemma_run_push(regs: Map<Reg, u32>, ops: Seq<Op>, op: Op)
    ensures
        run(regs, ops.push(op)) == step(run(regs, ops), op),
{
    assert(ops.push(op).drop_last() =~= ops);
}

/// Running one list behind another.
pub proof fn lemma_run_concat(regs: Map<Reg, u32>, a: Seq<Op>, b: Seq<Op>)
    ensures
        run(regs, a + b) == run(run(regs, a), b),
    decreases b.len(),
{
    if b.len() == 0 {
        assert(a + b =~= a);
    } else {
        assert((a + b).drop_last() =~= a + b.drop_last());
        lemma_run_concat(regs, a, b.drop_last());
    }
}

/// Running lists of up to three steps.
pub proof fn lemma_run_short(regs: Map<Reg, u32>, a: Op, b: Op, c: Op)
    ensures
        run(regs, seq![a]) == step(regs, a),
        run(regs, seq![a, b]) == step(step(regs, a), b),
        run(regs, seq![a, b, c]) == step(step(step(regs, a), b), c),
{
    let none = Seq::<Op>::empty();
    assert(run(regs, none) == regs);
    lemma_run_push(regs, none, a);
    lemma_run_push(regs, none.push(a), b);
    lemma_run_push(regs, none.push(a).push(b), c);
    assert(seq![a] =~= none.push(a));
    assert(seq![a, b] =~= none.push(a).push(b));
    assert(seq![a, b, c] =~= none.push(a).push(b).push(c));
}

/// Test bits of a register word.
pub fn has_flag(word: u32, mask: u32) -> (r: bool)
    ensures
        r == flag(word, mask),
{
    word & mask != 0
}

/// The word that a `Modify` step stores over `word`.
pub fn modify_word(word: u32, clear: u32, set: u32) -> (r: u32)
    ensures
        r == modified(word, clear, set),
{
    (word & !clear) | set
}

/// A mask, or nothing.
pub open spec fn mask_if(on: bool, mask: u32) -> u32 {
    if on {
        mask
    } else {
        0
    }
}

/// A mask, or nothing.
pub fn mask_when(on: bool, mask: u32) -> (r: u32)
    ensures
        r == mask_if(on, mask),
{
    if on {
        mask
    } else {
        0
    }
}

/// A buffer control word that resets the buffer selector and hands over buffer 0. The length
/// field keeps the low ten bits of `length`.
pub open spec fn spec_buffer_word(last: bool, pid: bool, full: bool, length: u16) -> u32 {
    (length as u32 & BUF_LENGTH) | BUF_AVAILABLE | BUF_RESET | mask_if(pid, BUF_PID) | mask_if(
        last,
        BUF_LAST,
    ) | mask_if(full, BUF_FULL)
}

/// Compose a buffer control word that hands over buffer 0.
pub fn buffer_word(last: bool, pid: bool, full: bool, length: u16) -> (word: u32)
    ensures
        word == spec_buffer_word(last, pid, full, length),
{
    (length as u32 & BUF_LENGTH) | BUF_AVAILABLE | BUF_RESET | mask_when(pid, BUF_PID) | mask_when(
        last,
        BUF_LAST,
    ) | mask_when(full, BUF_FULL)
}

/// The length that a buffer control word reports.
pub open spec fn spec_buffer_length(word: u32) -> usize {
    (word & BUF_LENGTH) as usize
}

/// The length that a buffer control word reports.
pub fn buffer_length(word: u32) -> (len: usize)
    ensures
        len == spec_buffer_length(word),
{
    (word & BUF_LENGTH) as usize
}

/// Every field of a composed buffer control word reads back.
pub proof fn buffer_word_reads_back(last: bool, pid: bool, full: bool, length: u16)
    ensures
        spec_buffer_length(spec_buffer_word(last, pid, full, length)) == length % 1024,
        flag(spec_buffer_word(last, pid, full, length), BUF_AVAILABLE),
        flag(spec_buffer_word(last, pid, full, length), BUF_RESET),
        flag(spec_buffer_word(last, pid, full, length), BUF_PID) == pid,
        flag(spec_buffer_word(last, pid, full, length), BUF_LAST) == last,
        flag(spec_buffer_word(last, pid, full, length), BUF_FULL) == full,
        spec_buffer_word(last, pid, full, length) < 0x1_0000,
{
    let p = mask_if(pid, BUF_PID);
    let l = mask_if(last, BUF_LAST);
    let f = mask_if(full, BUF_FULL);
    let w = spec_buffer_word(last, pid, full, length);
    let n = length as u32;
    assert(w & 0x3ff == n % 1024 && w & 0x400 != 0 && w & 0x1000 != 0 && (w & 0x2000 != 0) == (p
        != 0) && (w & 0x4000 != 0) == (l != 0) && (w & 0x8000 != 0) == (f != 0) && w < 0x1_0000)
        by (bit_vector)
        requires
            w == (n & 0x3ff) | 0x400 | 0x1000 | p | l | f,
            p == 0 || p == 0x2000,
            l == 0 || l == 0x4000,
            f == 0 || f == 0x8000,
    ;
}

/// The two-bit transfer type, in its place in an endpoint control word.
pub open spec fn spec_type_bits(ep_type: EndpointType) -> u32 {
    match ep_type {
        EndpointType::Control => 0,
        EndpointType::Isochronous => 0x0400_0000,
        EndpointType::Bulk => 0x0800_0000,
        EndpointType::Interrupt => 0x0c00_0000,
    }
}

/// The two-bit transfer type, in its place in an endpoint control word.
pub fn type_bits(ep_type: EndpointType) -> (bits: u32)
    ensures
        bits == spec_type_bits(ep_type),
{
    match ep_type {
        EndpointType::Control => 0,
        EndpointType::Isochronous => 0x0400_0000,
        EndpointType::Bulk => 0x0800_0000,
        EndpointType::Interrupt => 0x0c00_0000,
    }
}

/// The control word of a polled interrupt endpoint. The poll interval in frames is stored less
/// one, and a zero interval counts as one.
pub open spec fn spec_interrupt_ep_word(addr: u16, interval: u8) -> u32 {
    let frames = if interval == 0 {
        1u8
    } else {
        interval
    };
    EP_ENABLE | EP_INTERRUPT_PER_BUFF | spec_type_bits(EndpointType::Interrupt) | (((frames - 1)
        as u32) << 16) | addr as u32
}

/// Compose the control word of a polled interrupt endpoint.
pub fn interrupt_ep_word(addr: u16, interval: u8) -> (word: u32)
    ensures
        word == spec_interrupt_ep_word(addr, interval),
{
    let frames: u8 = if interval == 0 {
        1
    } else {
        interval
    };
    EP_ENABLE | EP_INTERRUPT_PER_BUFF | type_bits(EndpointType::Interrupt) | (((frames - 1) as u32)
        << 16) | addr as u32
}

/// Every field of a polled endpoint's control word reads back.
pub proof fn interrupt_ep_word_reads_back(addr: u16, interval: u8)
    ensures
        spec_interrupt_ep_word(addr, interval) & EP_BUFFER_ADDRESS == addr,
        (spec_interrupt_ep_word(addr, interval) >> 16) & 0x3ff == if interval == 0 {
            0
        } else {
            interval - 1
        },
        spec_interrupt_ep_word(addr, interval) & EP_TYPE == spec_type_bits(EndpointType::Interrupt),
        flag(spec_interrupt_ep_word(addr, interval), EP_INTERRUPT_PER_BUFF),
        flag(spec_interrupt_ep_word(addr, interval), EP_ENABLE),
{
    let i = if interval == 0 {
        0u32
    } else {
        (interval - 1) as u32
    };
    let a = addr as u32;
    let w = spec_interrupt_ep_word(addr, interval);
    assert(w & 0xffff == a && (w >> 16) & 0x3ff == i && w & 0x0c00_0000 == 0x0c00_0000 && w
        & 0x2000_0000 != 0 && w & 0x8000_0000 != 0) by (bit_vector)
        requires
            w == 0x8000_0000u32 | 0x2000_0000u32 | 0x0c00_0000u32 | (i << 16) | a,
            i < 256,
            a < 0x1_0000,
    ;
}

/// The address word of an endpoint: seven bits of device address and four of endpoint number.
pub open spec fn spec_addr_word(dev_addr: u8, ep_addr: u8) -> u32 {
    (dev_addr as u32 & 0x7f) | ((ep_addr as u32 & 0xf) << 16)
}

/// Compose the address word of an endpoint.
pub fn addr_word(dev_addr: u8, ep_addr: u8) -> (word: u32)
    ensures
        word == spec_addr_word(dev_addr, ep_addr),
{
    (dev_addr as u32 & 0x7f) | ((ep_addr as u32 & 0xf) << 16)
}

/// The address word of a polled endpoint, with its direction and preamble bits.
pub open spec fn spec_addr_word_x(dev_addr: u8, ep_addr: u8, is_out: bool, pre: bool) -> u32 {
    spec_addr_word(dev_addr, ep_addr) | mask_if(is_out, ADDR_INTEP_DIR) | mask_if(
        pre,
        ADDR_INTEP_PREAMBLE,
    )
}

/// Compose the address word of a polled endpoint.
pub fn addr_word_x(dev_addr: u8, ep_addr: u8, is_out: bool, pre: bool) -> (word: u32)
    ensures
        word == spec_addr_word_x(dev_addr, ep_addr, is_out, pre),
{
    addr_word(dev_addr, ep_addr) | mask_when(is_out, ADDR_INTEP_DIR) | mask_when(
        pre,
        ADDR_INTEP_PREAMBLE,
    )
}

/// Every field of an address word reads back.
pub proof fn addr_word_reads_back(dev_addr: u8, ep_addr: u8, is_out: bool, pre: bool)
    ensures
        spec_addr_word(dev_addr, ep_addr) & 0x7f == dev_addr % 128,
        (spec_addr_word(dev_addr, ep_addr) >> 16) & 0xf == ep_addr % 16,
        spec_addr_word_x(dev_addr, ep_addr, is_out, pre) & 0x7f == dev_addr % 128,
        (spec_addr_word_x(dev_addr, ep_addr, is_out, pre) >> 16) & 0xf == ep_addr % 16,
        flag(spec_addr_word_x(dev_addr, ep_addr, is_out, pre), ADDR_INTEP_DIR) == is_out,
        flag(spec_addr_word_x(dev_addr, ep_addr, is_out, pre), ADDR_INTEP_PREAMBLE) == pre,
{
    let d = dev_addr as u32;
    let e = ep_addr as u32;
    let o = mask_if(is_out, ADDR_INTEP_DIR);
    let p = mask_if(pre, ADDR_INTEP_PREAMBLE);
    let w = spec_addr_word(dev_addr, ep_addr);
    let x = spec_addr_word_x(dev_addr, ep_addr, is_out, pre);
    assert(w & 0x7f == d % 128 && (w >> 16) & 0xf == e % 16 && x & 0x7f == d % 128 && (x >> 16)
        & 0xf == e % 16 && (x & 0x0200_0000 != 0) == (o != 0) && (x & 0x0400_0000 != 0) == (p != 0))
        by (bit_vector)
        requires
            w == (d & 0x7f) | ((e & 0xf) << 16),
            x == w | o | p,
            o == 0 || o == 0x0200_0000,
            p == 0 || p == 0x0400_0000,
            d < 256,
            e < 256,
    ;
}

/// The little-endian word of four bytes.
pub open spec fn le_word(b0: u8, b1: u8, b2: u8, b3: u8) -> int {
    b0 + 0x100 * b1 + 0x1_0000 * b2 + 0x100_0000 * b3
}

/// Pack four bytes into a word, first byte lowest.
pub fn pack_bytes(b0: u8, b1: u8, b2: u8, b3: u8) -> (word: u32)
    ensures
        word == le_word(b0, b1, b2, b3),
{
    b0 as u32 + 0x100 * (b1 as u32) + 0x1_0000 * (b2 as u32) + 0x100_0000 * (b3 as u32)
}

/// The interrupt endpoint bit of INT_EP_CTRL.
pub open spec fn spec_int_ep_bit(index: usize) -> u32 {
    1u32 << index
}

/// The interrupt endpoint bit of INT_EP_CTRL.
pub fn int_ep_bit(index: usize) -> (mask: u32)
    requires
        index < 16,
    ensures
        mask == spec_int_ep_bit(index),
{
    1u32 << index
}

/// Both buffer status bits of an endpoint.
pub open spec fn spec_buff_status_bits(index: usize) -> u32 {
    0b11u32 << (index * 2)
}

/// Both buffer status bits of an endpoint.
pub fn buff_status_bits(index: usize) -> (mask: u32)
    requires
        index < 16,
    ensures
        mask == spec_buff_status_bits(index),
{
    0b11u32 << (index * 2)
}

/// The buffer status bits of different endpoints do not meet, and neither do their interrupt
/// endpoint bits.
pub proof fn endpoint_bits_are_disjoint(a: usize, b: usize)
    requires
        a < 16,
        b < 16,
        a != b,
    ensures
        spec_buff_status_bits(a) & spec_buff_status_bits(b) == 0,
        spec_int_ep_bit(a) & spec_int_ep_bit(b) == 0,
{
    let x = a as u32;
    let y = b as u32;
    let s = (2 * a) as u32;
    let t = (2 * b) as u32;
    assert((3u32 << s) & (3u32 << t) == 0 && (1u32 << x) & (1u32 << y) == 0) by (bit_vector)
        requires
            x < 16,
            y < 16,
            x != y,
            s == 2 * x,
            t == 2 * y,
    ;
}

} // verus!
