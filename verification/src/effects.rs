//! What the driver's steps do to the controller, field by field.
//!
//! Each law runs a list of steps on arbitrary register contents and says what every field holds
//! afterwards, and that nothing else has changed.

use vstd::prelude::*;
use crate::bits::set16;
use crate::channel::{activate_ops, hand_over_ops, Channel, InterruptTransferGuard};
use crate::regs::{
    addr_word_reads_back, buffer_word_reads_back, flag, interrupt_ep_word_reads_back,
    lemma_run_concat, lemma_run_short, mask_if, modified, run, spec_buff_status_bits,
    spec_buffer_word, spec_int_ep_bit, spec_interrupt_ep_word, spec_type_bits, Op, Reg,
    ADDR_INTEP_DIR, ADDR_INTEP_PREAMBLE, BUF_AVAILABLE, BUF_FULL, BUF_LAST, BUF_PID, BUF_RESET,
    EP_BUFFER_ADDRESS, EP_ENABLE, EP_INTERRUPT_PER_BUFF, EP_TYPE, INT_EPX_STOPPED_ON_NAK,
    INT_ERROR_BIT_STUFF, INT_ERROR_CRC, INT_ERROR_DATA_SEQ, INT_ERROR_RX_OVERFLOW,
    INT_ERROR_RX_TIMEOUT, INT_HOST_SOF, INT_STALL, INT_TRANS_COMPLETE, NAK_EPX_STOPPED_ON_NAK,
    NAK_STOP_EPX_ON_NAK,
    SIE_PREAMBLE_EN, SIE_RECEIVE_DATA, SIE_SEND_DATA, SIE_SEND_SETUP, SIE_SOF_SYNC,
    SIE_START_TRANS, SIE_STOP_TRANS, STATUS_OUTCOMES, STATUS_RX_OVERFLOW, STATUS_RX_TIMEOUT,
    STATUS_STALL_REC, STATUS_TRANS_COMPLETE,
};
use crate::epx::{arm_yield_ops, disarm_yield_ops, EpxState};
use crate::epx_transaction::{EpxTransaction, Request};
use crate::irq::{nak_stop_next, nak_stop_ops, IrqNext};
use crate::layout::EPX_MAX_PIPES;
use crate::transaction::{stop_ops, void_ops, EpxTransactionGuard, EPX_BUFF_STATUS};
use crate::transfer::EpxRead;
use crate::types::{Chip, EndpointType, PipeDirection};

verus! {

/// The controller's code for a transfer type.
pub open spec fn type_code(ep_type: EndpointType) -> u32 {
    match ep_type {
        EndpointType::Control => 0,
        EndpointType::Isochronous => 1,
        EndpointType::Bulk => 2,
        EndpointType::Interrupt => 3,
    }
}

/// Nothing changed but `a` and `b`.
pub open spec fn only(before: Map<Reg, u32>, after: Map<Reg, u32>, a: Reg, b: Reg) -> bool {
    forall|r: Reg| r != a && r != b ==> #[trigger] after[r] == before[r]
}

/// The bits of a register outside `mask` are as before.
pub open spec fn keeps(before: Map<Reg, u32>, after: Map<Reg, u32>, reg: Reg, mask: u32) -> bool {
    after[reg] & !mask == before[reg] & !mask
}

/// A buffer control word hands buffer 0 to the controller: with this toggle, filled or to be
/// filled, and with this length in its ten-bit field.
pub open spec fn hands_over(word: u32, pid: bool, full: bool, len: int) -> bool {
    &&& flag(word, BUF_AVAILABLE)
    &&& flag(word, BUF_RESET)
    &&& flag(word, BUF_PID) == pid
    &&& flag(word, BUF_FULL) == full
    &&& word & 0x3ff == len % 1024
}

/// A register after `Modify`, for a mask that lies inside the cleared bits, inside the set bits,
/// or outside both.
proof fn lemma_modified(word: u32, clear: u32, set: u32, mask: u32)
    by (bit_vector)
    ensures
        mask & set == mask ==> ((word & !clear) | set) & mask == mask,
        mask & clear == mask && mask & set == 0 ==> ((word & !clear) | set) & mask == 0,
        mask & clear == 0 && mask & set == 0 ==> ((word & !clear) | set) & mask == word & mask,
        ((word & !clear) | set) & !(clear | set) == word & !(clear | set),
{
}

/// EPX is configured for exactly the pipe that claimed it: its own buffer, its type, its device
/// and endpoint, and a preamble if the pipe needs one.
pub proof fn epx_is_configured_for_the_pipe(c: Channel, regs: Map<Reg, u32>)
    requires
        c.wf(),
    ensures
        ({
            let after = run(regs, c.configure_epx_ops());
            &&& after[Reg::EpxControl] & EP_BUFFER_ADDRESS == c.buf.addr
            &&& (after[Reg::EpxControl] >> 26) & 3 == type_code(c.ep_type)
            &&& flag(after[Reg::EpxControl], EP_ENABLE)
            &&& flag(after[Reg::EpxControl], EP_INTERRUPT_PER_BUFF)
            &&& keeps(regs, after, Reg::EpxControl, 0xac00_ffff)
            &&& after[Reg::AddrEndp] & 0x7f == c.dev_addr % 128
            &&& (after[Reg::AddrEndp] >> 16) & 0xf == c.ep_addr
            &&& flag(after[Reg::SieCtrl], SIE_PREAMBLE_EN) == c.pre
            &&& keeps(regs, after, Reg::SieCtrl, SIE_PREAMBLE_EN)
            &&& forall|r: Reg|
                r != Reg::EpxControl && r != Reg::AddrEndp && r != Reg::SieCtrl
                    ==> #[trigger] after[r] == regs[r]
        }),
{
    let ops = c.configure_epx_ops();
    lemma_run_short(regs, ops[0], ops[1], ops[2]);
    assert(ops =~= seq![ops[0], ops[1], ops[2]]);
    addr_word_reads_back(c.dev_addr, c.ep_addr, false, false);
    let w = regs[Reg::EpxControl];
    let a = c.buf.addr as u32;
    let code = type_code(c.ep_type);
    let t = spec_type_bits(c.ep_type);
    assert(t == code << 26) by {
        assert(0u32 << 26 == 0 && 1u32 << 26 == 0x0400_0000 && 2u32 << 26 == 0x0800_0000 && 3u32
            << 26 == 0x0c00_0000) by (bit_vector);
    }
    let x = modified(
        w,
        EP_BUFFER_ADDRESS | EP_TYPE,
        EP_ENABLE | EP_INTERRUPT_PER_BUFF | a | t,
    );
    assert(x & 0xffff == a && (x >> 26) & 3 == code && x & 0x8000_0000 != 0 && x & 0x2000_0000 != 0
        && x & !0xac00_ffffu32 == w & !0xac00_ffffu32) by (bit_vector)
        requires
            x == (w & !(0xffffu32 | 0x0c00_0000u32)) | (0x8000_0000u32 | 0x2000_0000u32 | a | t),
            a < 0x1_0000,
            code < 4,
            t == code << 26,
    ;
    let s = regs[Reg::SieCtrl];
    lemma_modified(s, SIE_PREAMBLE_EN, mask_if(c.pre, SIE_PREAMBLE_EN), SIE_PREAMBLE_EN);
    assert(0x40u32 & 0x40 == 0x40 && 0x40u32 & 0 == 0 && 0x40u32 | 0x40 == 0x40 && 0x40u32 | 0
        == 0x40) by (bit_vector);
}

/// Whatever a pipe copies out or in, it copies at the address that the controller was given.
pub proof fn copies_meet_the_controller(
    c: Channel,
    regs: Map<Reg, u32>,
    from: usize,
    total: usize,
    pid: bool,
    read: EpxRead,
    buffer: u32,
)
    requires
        c.wf(),
    ensures
        ({
            let addr = run(regs, c.configure_epx_ops())[Reg::EpxControl] & EP_BUFFER_ADDRESS;
            &&& forall|k: int|
                0 <= k < c.data_out_ops(from, total, pid).len() ==> (
                #[trigger] c.data_out_ops(from, total, pid)[k] matches Op::CopyOut { addr: at, .. }
                    ==> at == addr)
            &&& forall|k: int|
                0 <= k < read.packet_ops(c, buffer).len() ==> (
                #[trigger] read.packet_ops(c, buffer)[k] matches Op::CopyIn { addr: at, .. } ==> at
                    == addr)
        }),
{
    epx_is_configured_for_the_pipe(c, regs);
}

proof fn lemma_hand_over(reg: Reg, last: bool, pid: bool, full: bool, length: u16, regs: Map<Reg, u32>)
    ensures
        ({
            let word = spec_buffer_word(last, pid, full, length);
            &&& run(regs, hand_over_ops(reg, word)) == regs.insert(reg, word)
            &&& hands_over(word, pid, full, length as int)
            &&& flag(word, BUF_LAST) == last
        }),
{
    buffer_word_reads_back(last, pid, full, length);
    crate::laws::buffer_is_handed_over_last(
        reg,
        spec_buffer_word(last, pid, full, length),
        regs,
    );
}

/// A data packet from the device is armed with the toggle that was asked for, unless the pipe is
/// isochronous, with an empty buffer, and as a receive.
pub proof fn data_in_is_armed_as_asked(c: Channel, len: u16, pid: bool, regs: Map<Reg, u32>)
    requires
        c.ep_type != EndpointType::Interrupt,
    ensures
        ({
            let after = run(regs, c.data_in_ops(len, pid));
            let word = after[Reg::EpInBufferControl(0)];
            &&& hands_over(word, pid && c.ep_type != EndpointType::Isochronous, false, len as int)
            &&& flag(word, BUF_LAST)
            &&& flag(after[Reg::SieCtrl], SIE_RECEIVE_DATA)
            &&& !flag(after[Reg::SieCtrl], SIE_SEND_DATA)
            &&& !flag(after[Reg::SieCtrl], SIE_SEND_SETUP)
            &&& keeps(regs, after, Reg::SieCtrl, 0xe)
            &&& only(regs, after, Reg::EpInBufferControl(0), Reg::SieCtrl)
        }),
{
    let reg = Reg::EpInBufferControl(0);
    let toggle = c.packet_pid(pid);
    let hand_over = hand_over_ops(reg, spec_buffer_word(true, toggle, false, len));
    let select = seq![Op::Modify(Reg::SieCtrl, SIE_SEND_DATA | SIE_SEND_SETUP, SIE_RECEIVE_DATA)];
    lemma_hand_over(reg, true, toggle, false, len, regs);
    lemma_run_concat(regs, hand_over, select);
    lemma_run_short(run(regs, hand_over), select[0], select[0], select[0]);
    let s = regs[Reg::SieCtrl];
    assert(((s & !(0x4u32 | 0x2u32)) | 0x8u32) & 0x8 != 0 && ((s & !(0x4u32 | 0x2u32)) | 0x8u32)
        & 0x4 == 0 && ((s & !(0x4u32 | 0x2u32)) | 0x8u32) & 0x2 == 0 && ((s & !(0x4u32 | 0x2u32))
        | 0x8u32) & !0xeu32 == s & !0xeu32) by (bit_vector);
}

/// A data packet to the device is armed with the toggle that was asked for, unless the pipe is
/// isochronous, filled with the next bytes of the caller's data before it is handed over, and as a
/// send. It carries all that is left, at most a full packet.
pub proof fn data_out_is_armed_as_asked(
    c: Channel,
    from: usize,
    total: usize,
    pid: bool,
    regs: Map<Reg, u32>,
)
    requires
        c.ep_type != EndpointType::Interrupt,
        from <= total,
    ensures
        ({
            let ops = c.data_out_ops(from, total, pid);
            let after = run(regs, ops);
            let word = after[Reg::EpInBufferControl(0)];
            let len = if total - from < c.max_packet_size {
                total - from
            } else {
                c.max_packet_size as int
            };
            &&& ops[0] == Op::CopyOut { addr: c.buf.addr, from, len: len as usize }
            &&& forall|k: int| 0 < k < ops.len() ==> !(#[trigger] ops[k] is CopyOut)
            &&& hands_over(word, pid && c.ep_type != EndpointType::Isochronous, true, len)
            &&& flag(word, BUF_LAST)
            &&& flag(after[Reg::SieCtrl], SIE_SEND_DATA)
            &&& !flag(after[Reg::SieCtrl], SIE_RECEIVE_DATA)
            &&& !flag(after[Reg::SieCtrl], SIE_SEND_SETUP)
            &&& keeps(regs, after, Reg::SieCtrl, 0xe)
            &&& only(regs, after, Reg::EpInBufferControl(0), Reg::SieCtrl)
        }),
{
    let reg = Reg::EpInBufferControl(0);
    let toggle = c.packet_pid(pid);
    let chunk = c.packet_len(total - from);
    let copy = seq![Op::CopyOut { addr: c.buf.addr, from, len: chunk as usize }];
    let hand_over = hand_over_ops(reg, spec_buffer_word(true, toggle, true, chunk as u16));
    let select = seq![Op::Modify(Reg::SieCtrl, SIE_SEND_SETUP | SIE_RECEIVE_DATA, SIE_SEND_DATA)];
    lemma_run_short(regs, copy[0], copy[0], copy[0]);
    lemma_run_concat(regs, copy, hand_over);
    lemma_hand_over(reg, true, toggle, true, chunk as u16, regs);
    lemma_run_concat(regs, copy + hand_over, select);
    lemma_run_short(run(regs, copy + hand_over), select[0], select[0], select[0]);
    let s = regs[Reg::SieCtrl];
    assert(((s & !(0x2u32 | 0x8u32)) | 0x4u32) & 0x4 != 0 && ((s & !(0x2u32 | 0x8u32)) | 0x4u32)
        & 0x8 == 0 && ((s & !(0x2u32 | 0x8u32)) | 0x4u32) & 0x2 == 0 && ((s & !(0x2u32 | 0x8u32))
        | 0x4u32) & !0xeu32 == s & !0xeu32) by (bit_vector);
}

/// A setup packet reaches the controller byte by byte, first byte lowest, and as a setup.
pub proof fn setup_is_armed_as_asked(setup: Seq<u8>, regs: Map<Reg, u32>)
    requires
        setup.len() == 8,
    ensures
        ({
            let after = run(regs, Channel::setup_ops(setup));
            &&& after[Reg::SetupPacketLow] == setup[0] + 0x100 * setup[1] + 0x1_0000 * setup[2]
                + 0x100_0000 * setup[3]
            &&& after[Reg::SetupPacketHigh] == setup[4] + 0x100 * setup[5] + 0x1_0000 * setup[6]
                + 0x100_0000 * setup[7]
            &&& flag(after[Reg::SieCtrl], SIE_SEND_SETUP)
            &&& !flag(after[Reg::SieCtrl], SIE_SEND_DATA)
            &&& !flag(after[Reg::SieCtrl], SIE_RECEIVE_DATA)
            &&& keeps(regs, after, Reg::SieCtrl, 0xe)
            &&& forall|r: Reg|
                r != Reg::SetupPacketLow && r != Reg::SetupPacketHigh && r != Reg::SieCtrl
                    ==> #[trigger] after[r] == regs[r]
        }),
{
    let ops = Channel::setup_ops(setup);
    lemma_run_short(regs, ops[0], ops[1], ops[2]);
    assert(ops =~= seq![ops[0], ops[1], ops[2]]);
    let s = regs[Reg::SieCtrl];
    assert(((s & !(0x4u32 | 0x8u32)) | 0x2u32) & 0x2 != 0 && ((s & !(0x4u32 | 0x8u32)) | 0x2u32)
        & 0x4 == 0 && ((s & !(0x4u32 | 0x8u32)) | 0x2u32) & 0x8 == 0 && ((s & !(0x4u32 | 0x8u32))
        | 0x2u32) & !0xeu32 == s & !0xeu32) by (bit_vector);
}

/// Starting a transaction lets everything through that can end it but the receive timeout, and
/// sets the start bit last, behind a delay.
pub proof fn transaction_is_started_last(regs: Map<Reg, u32>)
    ensures
        ({
            let ops = Channel::start_transaction_ops();
            let after = run(regs, ops);
            &&& flag(after[Reg::Inte], INT_TRANS_COMPLETE)
            &&& flag(after[Reg::Inte], INT_STALL)
            &&& flag(after[Reg::Inte], INT_ERROR_RX_OVERFLOW)
            &&& flag(after[Reg::Inte], INT_ERROR_CRC)
            &&& flag(after[Reg::Inte], INT_ERROR_BIT_STUFF)
            &&& flag(after[Reg::Inte], INT_ERROR_DATA_SEQ)
            &&& !flag(after[Reg::Inte], INT_ERROR_RX_TIMEOUT)
            &&& keeps(regs, after, Reg::Inte, 0x7e8)
            &&& flag(after[Reg::SieCtrl], SIE_START_TRANS)
            &&& keeps(regs, after, Reg::SieCtrl, SIE_START_TRANS)
            &&& only(regs, after, Reg::Inte, Reg::SieCtrl)
            &&& ops.last() == Op::Modify(Reg::SieCtrl, 0, SIE_START_TRANS)
            &&& ops[ops.len() - 2] is Delay
        }),
{
    let ops = Channel::start_transaction_ops();
    lemma_run_short(regs, ops[0], ops[1], ops[2]);
    assert(ops =~= seq![ops[0], ops[1], ops[2]]);
    let w = regs[Reg::Inte];
    let x = run(regs, ops)[Reg::Inte];
    let s = regs[Reg::SieCtrl];
    assert(x & 0x8 != 0 && x & 0x400 != 0 && x & 0x80 != 0 && x & 0x200 != 0 && x & 0x100 != 0 && x
        & 0x20 != 0 && x & 0x40 == 0 && x & !0x7e8u32 == w & !0x7e8u32) by (bit_vector)
        requires
            x == (w & !0x40u32) | (0x8u32 | 0x400u32 | 0x80u32 | 0x200u32 | 0x100u32 | 0x20u32),
    ;
    assert(((s & !0u32) | 0x1u32) & 0x1 != 0 && ((s & !0u32) | 0x1u32) & !0x1u32 == s & !0x1u32)
        by (bit_vector);
}

/// A dedicated endpoint is configured for exactly its pipe: its buffer, type and interval, and in
/// the address word its device, endpoint, direction and preamble. The direction bit is clear
/// exactly for a pipe that only carries IN.
pub proof fn dedicated_endpoint_is_configured_for_the_pipe(c: Channel, regs: Map<Reg, u32>)
    requires
        c.wf(),
        c.ep_type == EndpointType::Interrupt,
    ensures
        ({
            let after = run(regs, c.configure_interrupt_ops());
            let ctrl = after[Reg::EpInControl((c.index - 1) as usize)];
            let addr = after[Reg::AddrEndpX((c.index - 1) as usize)];
            &&& ctrl & EP_BUFFER_ADDRESS == c.buf.addr
            &&& (ctrl >> 26) & 3 == type_code(EndpointType::Interrupt)
            &&& (ctrl >> 16) & 0x3ff == if c.interval == 0 {
                0
            } else {
                c.interval - 1
            }
            &&& flag(ctrl, EP_ENABLE)
            &&& flag(ctrl, EP_INTERRUPT_PER_BUFF)
            &&& addr & 0x7f == c.dev_addr % 128
            &&& (addr >> 16) & 0xf == c.ep_addr
            &&& flag(addr, ADDR_INTEP_DIR) == (c.dir != PipeDirection::In)
            &&& flag(addr, ADDR_INTEP_PREAMBLE) == c.pre
            &&& flag(after[Reg::SieCtrl], SIE_SOF_SYNC)
            &&& keeps(regs, after, Reg::SieCtrl, SIE_SOF_SYNC)
            &&& forall|r: Reg|
                r != Reg::EpInControl((c.index - 1) as usize) && r != Reg::AddrEndpX(
                    (c.index - 1) as usize,
                ) && r != Reg::SieCtrl ==> #[trigger] after[r] == regs[r]
        }),
{
    let ops = c.configure_interrupt_ops();
    lemma_run_short(regs, ops[0], ops[1], ops[2]);
    assert(ops =~= seq![ops[0], ops[1], ops[2]]);
    interrupt_ep_word_reads_back(c.buf.addr, c.interval);
    addr_word_reads_back(c.dev_addr, c.ep_addr, c.dir.is_out(), c.pre);
    let w = spec_interrupt_ep_word(c.buf.addr, c.interval);
    assert((w >> 26) & 3 == 3) by (bit_vector)
        requires
            w & 0x0c00_0000 == 0x0c00_0000,
    ;
    let s = regs[Reg::SieCtrl];
    assert(((s & !0u32) | 0x100u32) & 0x100 != 0 && ((s & !0u32) | 0x100u32) & !0x100u32 == s
        & !0x100u32) by (bit_vector);
}

proof fn lemma_activate(index: usize, regs: Map<Reg, u32>)
    requires
        index < 16,
    ensures
        ({
            let after = run(regs, activate_ops(index));
            &&& flag(after[Reg::IntEpCtrl], 1u32 << (index as u32))
            &&& keeps(regs, after, Reg::IntEpCtrl, 1u32 << (index as u32))
            &&& only(regs, after, Reg::IntEpCtrl, Reg::IntEpCtrl)
        }),
{
    let ops = activate_ops(index);
    lemma_run_short(regs, ops[0], ops[1], ops[1]);
    assert(ops =~= seq![ops[0], ops[1]]);
    let w = regs[Reg::IntEpCtrl];
    let i = index as u32;
    let m = 1u32 << i;
    assert(m != 0 && ((w & !0u32) | m) & m == m && ((w & !0u32) | m) & !m == w & !m)
        by (bit_vector)
        requires
            m == 1u32 << i,
            i < 16,
    ;
}

/// A dedicated endpoint is armed to receive with the pipe's toggle, an empty buffer and room for a
/// full packet, and is polled from then on.
pub proof fn dedicated_endpoint_is_armed_to_receive(c: Channel, regs: Map<Reg, u32>)
    requires
        c.wf(),
        c.ep_type == EndpointType::Interrupt,
    ensures
        ({
            let after = run(regs, c.reload_ops());
            let word = after[Reg::EpInBufferControl(c.index)];
            &&& hands_over(word, c.pid, false, c.max_packet_size as int)
            &&& flag(word, BUF_LAST)
            &&& flag(after[Reg::IntEpCtrl], 1u32 << (c.index as u32))
            &&& keeps(regs, after, Reg::IntEpCtrl, 1u32 << (c.index as u32))
            &&& only(regs, after, Reg::EpInBufferControl(c.index), Reg::IntEpCtrl)
        }),
{
    let reg = Reg::EpInBufferControl(c.index);
    let hand_over = hand_over_ops(reg, spec_buffer_word(true, c.pid, false, c.max_packet_size));
    lemma_hand_over(reg, true, c.pid, false, c.max_packet_size, regs);
    lemma_run_concat(regs, hand_over, activate_ops(c.index));
    lemma_activate(c.index, run(regs, hand_over));
}

/// A packet on a dedicated endpoint is sent with the pipe's toggle, filled with the next bytes of
/// the caller's data before it is handed over; it carries all that is left, at most a full packet,
/// is marked last if nothing is left behind it, and the endpoint is polled from then on.
pub proof fn dedicated_endpoint_sends_as_asked(
    c: Channel,
    from: usize,
    total: usize,
    regs: Map<Reg, u32>,
)
    requires
        c.wf(),
        c.ep_type == EndpointType::Interrupt,
        from <= total,
    ensures
        ({
            let ops = c.interrupt_send_ops(from, total);
            let after = run(regs, ops);
            let word = after[Reg::EpInBufferControl(c.index)];
            let len = if total - from < c.max_packet_size {
                total - from
            } else {
                c.max_packet_size as int
            };
            &&& ops[0] == Op::CopyOut { addr: c.buf.addr, from, len: len as usize }
            &&& forall|k: int| 0 < k < ops.len() ==> !(#[trigger] ops[k] is CopyOut)
            &&& hands_over(word, c.pid, true, len)
            &&& flag(word, BUF_LAST) == (total - from <= c.max_packet_size)
            &&& flag(after[Reg::IntEpCtrl], 1u32 << (c.index as u32))
            &&& keeps(regs, after, Reg::IntEpCtrl, 1u32 << (c.index as u32))
            &&& only(regs, after, Reg::EpInBufferControl(c.index), Reg::IntEpCtrl)
        }),
{
    let reg = Reg::EpInBufferControl(c.index);
    let chunk = c.packet_len(total - from);
    let last = from + chunk == total;
    let copy = seq![Op::CopyOut { addr: c.buf.addr, from, len: chunk as usize }];
    let hand_over = hand_over_ops(reg, spec_buffer_word(last, c.pid, true, chunk as u16));
    lemma_run_short(regs, copy[0], copy[0], copy[0]);
    lemma_run_concat(regs, copy, hand_over);
    lemma_hand_over(reg, last, c.pid, true, chunk as u16, regs);
    lemma_run_concat(regs, copy + hand_over, activate_ops(c.index));
    lemma_activate(c.index, run(regs, copy + hand_over));
}

/// Clearing bits clears those and no others.
proof fn lemma_cleared(word: u32, mask: u32)
    by (bit_vector)
    ensures
        (word & !mask) & mask == 0,
        ((word & !mask) | 0) & mask == 0,
        ((word & !mask) | 0) & !mask == word & !mask,
        (word & !mask) & !mask == word & !mask,
{
}

/// A look at a dedicated buffer forgets its signal and nothing else; if a timeout was charged to
/// the endpoint, it is also no longer polled and its buffer is the processor's, empty.
pub proof fn look_at_a_dedicated_buffer(c: Channel, timed_out: bool, regs: Map<Reg, u32>)
    requires
        c.wf(),
        c.ep_type == EndpointType::Interrupt,
    ensures
        ({
            let after = run(regs, c.poll_interrupt_ops(timed_out));
            let bits = 3u32 << ((2 * c.index) as u32);
            &&& !flag(after[Reg::BuffStatus], bits)
            &&& keeps(regs, after, Reg::BuffStatus, bits)
            &&& !timed_out ==> only(regs, after, Reg::BuffStatus, Reg::BuffStatus)
            &&& timed_out ==> {
                &&& !flag(after[Reg::IntEpCtrl], 1u32 << (c.index as u32))
                &&& keeps(regs, after, Reg::IntEpCtrl, 1u32 << (c.index as u32))
                &&& !flag(after[Reg::EpInBufferControl(c.index)], BUF_AVAILABLE)
                &&& !flag(after[Reg::EpInBufferControl(c.index)], BUF_FULL)
                &&& forall|r: Reg|
                    r != Reg::BuffStatus && r != Reg::IntEpCtrl && r != Reg::EpInBufferControl(
                        c.index,
                    ) ==> #[trigger] after[r] == regs[r]
            }
        }),
{
    let ops = c.poll_interrupt_ops(timed_out);
    let bits = spec_buff_status_bits(c.index);
    lemma_cleared(regs[Reg::BuffStatus], bits);
    if timed_out {
        lemma_run_short(regs, ops[0], ops[1], ops[2]);
        assert(ops =~= seq![ops[0], ops[1], ops[2]]);
        lemma_cleared(regs[Reg::IntEpCtrl], spec_int_ep_bit(c.index));
        lemma_taken_back(regs[Reg::EpInBufferControl(c.index)]);
    } else {
        lemma_run_short(regs, ops[0], ops[0], ops[0]);
        assert(ops =~= seq![ops[0]]);
    }
}

proof fn lemma_taken_back(word: u32)
    by (bit_vector)
    ensures
        ((word & !(0x400u32 | 0x8000u32)) | 0) & 0x400 == 0,
        ((word & !(0x400u32 | 0x8000u32)) | 0) & 0x8000 == 0,
{
}

/// A dropped interrupt pipe is no longer polled, has no endpoint or buffer configured, and leaves
/// no signal behind.
pub proof fn dropped_endpoint_is_out_of_service(c: Channel, regs: Map<Reg, u32>)
    requires
        c.wf(),
        c.ep_type == EndpointType::Interrupt,
    ensures
        ({
            let after = run(regs, c.retire_ops());
            let bits = 3u32 << ((2 * c.index) as u32);
            &&& !flag(after[Reg::IntEpCtrl], 1u32 << (c.index as u32))
            &&& keeps(regs, after, Reg::IntEpCtrl, 1u32 << (c.index as u32))
            &&& after[Reg::EpInControl((c.index - 1) as usize)] == 0
            &&& after[Reg::EpInBufferControl(c.index)] == 0
            &&& !flag(after[Reg::BuffStatus], bits)
            &&& keeps(regs, after, Reg::BuffStatus, bits)
            &&& forall|r: Reg|
                r != Reg::IntEpCtrl && r != Reg::EpInControl((c.index - 1) as usize) && r
                    != Reg::EpInBufferControl(c.index) && r != Reg::BuffStatus
                    ==> #[trigger] after[r] == regs[r]
        }),
{
    let ops = c.retire_ops();
    let head = seq![ops[0], ops[1], ops[2]];
    let tail = seq![ops[3]];
    assert(ops =~= head + tail);
    lemma_run_concat(regs, head, tail);
    lemma_run_short(regs, ops[0], ops[1], ops[2]);
    lemma_run_short(run(regs, head), ops[3], ops[3], ops[3]);
    lemma_cleared(regs[Reg::IntEpCtrl], spec_int_ep_bit(c.index));
    lemma_cleared(regs[Reg::BuffStatus], spec_buff_status_bits(c.index));
}

/// A yield is asked for in the way of the chip: RP235x is to stop EPX at the next NAK and say so;
/// on RP2040 the retry delay is stretched to 300 at both speeds, and frames are announced. Taking it back
/// restores the delay of 16 and undoes the rest.
pub proof fn yield_is_asked_for(chip: Chip, regs: Map<Reg, u32>)
    ensures
        ({
            let asked = run(regs, arm_yield_ops(chip));
            let taken_back = run(regs, disarm_yield_ops(chip));
            &&& only(regs, asked, Reg::NakPoll, Reg::Inte)
            &&& only(regs, taken_back, Reg::NakPoll, Reg::Inte)
            &&& match chip {
                Chip::Rp235x => {
                    &&& flag(asked[Reg::NakPoll], NAK_STOP_EPX_ON_NAK)
                    &&& keeps(regs, asked, Reg::NakPoll, NAK_STOP_EPX_ON_NAK)
                    &&& flag(asked[Reg::Inte], INT_EPX_STOPPED_ON_NAK)
                    &&& keeps(regs, asked, Reg::Inte, INT_EPX_STOPPED_ON_NAK)
                    &&& !flag(taken_back[Reg::NakPoll], NAK_STOP_EPX_ON_NAK)
                    &&& keeps(regs, taken_back, Reg::NakPoll, NAK_STOP_EPX_ON_NAK)
                    &&& !flag(taken_back[Reg::Inte], INT_EPX_STOPPED_ON_NAK)
                    &&& keeps(regs, taken_back, Reg::Inte, INT_EPX_STOPPED_ON_NAK)
                },
                Chip::Rp2040 => {
                    &&& asked[Reg::NakPoll] == 300 + 0x1_0000 * 300
                    &&& flag(asked[Reg::Inte], INT_HOST_SOF)
                    &&& keeps(regs, asked, Reg::Inte, INT_HOST_SOF)
                    &&& taken_back[Reg::NakPoll] == 16 + 0x1_0000 * 16
                    &&& !flag(taken_back[Reg::Inte], INT_HOST_SOF)
                    &&& keeps(regs, taken_back, Reg::Inte, INT_HOST_SOF)
                },
            }
        }),
{
    let arm = arm_yield_ops(chip);
    let disarm = disarm_yield_ops(chip);
    lemma_run_short(regs, arm[0], arm[1], arm[1]);
    lemma_run_short(regs, disarm[0], disarm[1], disarm[1]);
    assert(arm =~= seq![arm[0], arm[1]]);
    assert(disarm =~= seq![disarm[0], disarm[1]]);
    let nak = regs[Reg::NakPoll];
    let inte = regs[Reg::Inte];
    lemma_cleared(nak, NAK_STOP_EPX_ON_NAK);
    lemma_cleared(inte, INT_EPX_STOPPED_ON_NAK);
    lemma_cleared(inte, INT_HOST_SOF);
    lemma_set(nak, NAK_STOP_EPX_ON_NAK);
    lemma_set(inte, INT_EPX_STOPPED_ON_NAK);
    lemma_set(inte, INT_HOST_SOF);
}

/// Setting bits sets those and no others.
proof fn lemma_set(word: u32, mask: u32)
    by (bit_vector)
    ensures
        ((word & !0u32) | mask) & mask == mask,
        ((word & !0u32) | mask) & !mask == word & !mask,
{
}

proof fn lemma_outcome_bits(word: u32)
    by (bit_vector)
    ensures
        (word & !0x2c04_0000u32) & 0x0004_0000 == 0,
        (word & !0x2c04_0000u32) & 0x2000_0000 == 0,
        (word & !0x2c04_0000u32) & 0x0800_0000 == 0,
        (word & !0x2c04_0000u32) & 0x0400_0000 == 0,
{
}

/// Letting EPX go disables its endpoint, takes its buffer back and the yield request with it. If a
/// transaction was still running, it is stopped before anything else, and nothing that it latched
/// is left for the next owner; otherwise the status registers are not touched.
pub proof fn release_cleans_up(
    guard: EpxTransactionGuard,
    epx: EpxState,
    chip: Chip,
    regs: Map<Reg, u32>,
)
    ensures
        ({
            let ops = guard.release_ops(epx, chip);
            let after = run(regs, ops);
            let quiet = run(regs, disarm_yield_ops(chip));
            &&& !flag(after[Reg::EpxControl], EP_ENABLE)
            &&& !flag(after[Reg::EpxControl], EP_INTERRUPT_PER_BUFF)
            &&& keeps(regs, after, Reg::EpxControl, 0xa000_0000)
            &&& !flag(after[Reg::EpInBufferControl(0)], BUF_AVAILABLE)
            &&& keeps(regs, after, Reg::EpInBufferControl(0), BUF_AVAILABLE)
            &&& after[Reg::NakPoll] == quiet[Reg::NakPoll]
            &&& after[Reg::Inte] == quiet[Reg::Inte]
            &&& guard.transaction_active ==> {
                &&& ops[0] == Op::Modify(Reg::SieCtrl, 0, SIE_STOP_TRANS)
                &&& ops[1] == Op::WaitClear(Reg::SieCtrl, SIE_STOP_TRANS)
                &&& !flag(after[Reg::SieStatus], STATUS_TRANS_COMPLETE)
                &&& !flag(after[Reg::SieStatus], STATUS_STALL_REC)
                &&& !flag(after[Reg::SieStatus], STATUS_RX_TIMEOUT)
                &&& !flag(after[Reg::SieStatus], STATUS_RX_OVERFLOW)
                &&& keeps(regs, after, Reg::SieStatus, 0x2c04_0000)
                &&& !flag(after[Reg::BuffStatus], 0b11)
                &&& keeps(regs, after, Reg::BuffStatus, 0b11)
            }
            &&& !guard.transaction_active ==> {
                &&& after[Reg::SieCtrl] == regs[Reg::SieCtrl]
                &&& after[Reg::SieStatus] == regs[Reg::SieStatus]
                &&& after[Reg::BuffStatus] == regs[Reg::BuffStatus]
            }
            &&& forall|r: Reg|
                r != Reg::EpxControl && r != Reg::EpInBufferControl(0) && r != Reg::NakPoll && r
                    != Reg::Inte && r != Reg::SieCtrl && r != Reg::SieStatus && r != Reg::BuffStatus
                    ==> #[trigger] after[r] == regs[r]
        }),
{
    let stop = if guard.transaction_active {
        stop_ops() + void_ops()
    } else {
        Seq::<Op>::empty()
    };
    let disarm = disarm_yield_ops(chip);
    let wakes = epx.wake_all_ops();
    let last = seq![
        Op::Modify(Reg::EpxControl, EP_INTERRUPT_PER_BUFF | EP_ENABLE, 0),
        Op::Modify(Reg::EpInBufferControl(0), BUF_AVAILABLE, 0),
    ];
    let stopped = run(regs, stop);
    let disarmed = run(stopped, disarm);
    lemma_run_concat(regs, stop, disarm);
    lemma_run_concat(regs, stop + disarm, wakes);
    lemma_run_concat(regs, stop + disarm + wakes, last);
    crate::laws::lemma_wakes_keep_registers(
        disarmed,
        set16(epx.allocated_slots),
        EPX_MAX_PIPES as int,
    );
    lemma_run_short(disarmed, last[0], last[1], last[1]);
    if guard.transaction_active {
        let a = stop_ops();
        let b = void_ops();
        lemma_run_concat(regs, a, b);
        lemma_run_short(regs, a[0], a[1], a[1]);
        lemma_run_short(run(regs, a), b[0], b[1], b[1]);
        assert(a =~= seq![a[0], a[1]]);
        assert(b =~= seq![b[0], b[1]]);
        lemma_cleared(regs[Reg::SieStatus], STATUS_OUTCOMES);
        lemma_outcome_bits(regs[Reg::SieStatus]);
        lemma_cleared(regs[Reg::BuffStatus], 0b11);
    }
    lemma_run_short(stopped, disarm[0], disarm[1], disarm[1]);
    lemma_run_short(regs, disarm[0], disarm[1], disarm[1]);
    assert(disarm =~= seq![disarm[0], disarm[1]]);
    lemma_cleared(regs[Reg::EpInBufferControl(0)], BUF_AVAILABLE);
    let e = regs[Reg::EpxControl];
    assert(((e & !(0x2000_0000u32 | 0x8000_0000u32)) | 0) & 0x8000_0000 == 0 && ((e & !(
    0x2000_0000u32 | 0x8000_0000u32)) | 0) & 0x2000_0000 == 0 && ((e & !(0x2000_0000u32
        | 0x8000_0000u32)) | 0) & !0xa000_0000u32 == e & !0xa000_0000u32) by (bit_vector);
}

/// A started transaction has EPX configured for its pipe, its request armed and the start bit set,
/// in that order: nothing of another pipe is left in the registers that the controller goes by.
pub proof fn started_transaction_is_the_pipes_own(
    c: Channel,
    epx: EpxState,
    request: Request,
    buffer: u32,
    regs: Map<Reg, u32>,
)
    requires
        c.wf(),
        c.ep_type != EndpointType::Interrupt,
        request.fits(c),
        c.may_run(epx),
        !flag(buffer, BUF_AVAILABLE),
    ensures
        ({
            let after = run(regs, EpxTransaction::settle_ops(c, epx, request, buffer));
            let word = after[Reg::EpInBufferControl(0)];
            let toggle = |pid: bool| pid && c.ep_type != EndpointType::Isochronous;
            &&& after[Reg::EpxControl] & EP_BUFFER_ADDRESS == c.buf.addr
            &&& (after[Reg::EpxControl] >> 26) & 3 == type_code(c.ep_type)
            &&& after[Reg::AddrEndp] & 0x7f == c.dev_addr % 128
            &&& (after[Reg::AddrEndp] >> 16) & 0xf == c.ep_addr
            &&& flag(after[Reg::SieCtrl], SIE_START_TRANS)
            &&& flag(after[Reg::SieCtrl], SIE_SEND_SETUP) == (request is Setup)
            &&& flag(after[Reg::SieCtrl], SIE_RECEIVE_DATA) == (request is DataIn)
            &&& flag(after[Reg::SieCtrl], SIE_SEND_DATA) == (request is DataOut)
            &&& flag(after[Reg::SieCtrl], SIE_PREAMBLE_EN) == c.pre
            &&& match request {
                Request::Setup(setup) => {
                    &&& after[Reg::SetupPacketLow] == setup[0] + 0x100 * setup[1] + 0x1_0000
                        * setup[2] + 0x100_0000 * setup[3]
                    &&& after[Reg::SetupPacketHigh] == setup[4] + 0x100 * setup[5] + 0x1_0000
                        * setup[6] + 0x100_0000 * setup[7]
                },
                Request::DataIn { len, pid } => hands_over(word, toggle(pid), false, len as int),
                Request::DataOut { from, total, pid } => hands_over(
                    word,
                    toggle(pid),
                    true,
                    if total - from < c.max_packet_size {
                        total - from
                    } else {
                        c.max_packet_size as int
                    },
                ),
            }
        }),
{
    let clear = seq![Op::Clear(Reg::BuffStatus, EPX_BUFF_STATUS)];
    let configure = c.configure_epx_ops();
    let arm = request.ops(c);
    let start = Channel::start_transaction_ops();
    let r1 = run(regs, clear);
    let r2 = run(r1, configure);
    let r3 = run(r2, arm);
    let r4 = run(r3, start);
    lemma_run_short(regs, clear[0], clear[0], clear[0]);
    lemma_run_concat(regs, clear, configure);
    lemma_run_concat(regs, clear + configure, arm);
    lemma_run_concat(regs, clear + configure + arm, start);
    epx_is_configured_for_the_pipe(c, r1);
    transaction_is_started_last(r3);
    match request {
        Request::Setup(setup) => {
            setup_is_armed_as_asked(setup@, r2);
        },
        Request::DataIn { len, pid } => {
            data_in_is_armed_as_asked(c, len, pid, r2);
        },
        Request::DataOut { from, total, pid } => {
            data_out_is_armed_as_asked(c, from, total, pid, r2);
        },
    }
    lemma_kept_bits(r2[Reg::SieCtrl], r3[Reg::SieCtrl], r4[Reg::SieCtrl]);
}

proof fn lemma_kept_bits(a: u32, b: u32, c: u32)
    by (bit_vector)
    requires
        b & !0xeu32 == a & !0xeu32,
        c & !0x1u32 == b & !0x1u32,
    ensures
        c & 0x40 == a & 0x40,
        c & 0x2 == b & 0x2,
        c & 0x4 == b & 0x4,
        c & 0x8 == b & 0x8,
{
}

/// A pipe that is not started writes to no register but to forget the signal of EPX, and to none
/// at all if it may not run.
pub proof fn waiting_pipe_leaves_epx_alone(
    c: Channel,
    epx: EpxState,
    request: Request,
    buffer: u32,
    regs: Map<Reg, u32>,
)
    requires
        !c.may_run(epx) || flag(buffer, BUF_AVAILABLE),
    ensures
        ({
            let after = run(regs, EpxTransaction::settle_ops(c, epx, request, buffer));
            &&& !c.may_run(epx) ==> after == regs
            &&& only(regs, after, Reg::BuffStatus, Reg::BuffStatus)
            &&& keeps(regs, after, Reg::BuffStatus, 0b11)
        }),
{
    let ops = EpxTransaction::settle_ops(c, epx, request, buffer);
    lemma_cleared(regs[Reg::BuffStatus], 0b11);
    if c.may_run(epx) {
        lemma_run_short(regs, ops[0], ops[0], ops[0]);
        assert(ops =~= seq![ops[0]]);
    }
}

/// A transaction that timed out leaves nothing latched for the next owner, and its buffer is the
/// processor's if it was a data packet. One that had completed as a setup loses only that bit.
pub proof fn timed_out_transaction_leaves_nothing(
    epx: EpxState,
    setup: bool,
    sie_status: u32,
    buffer: u32,
    sie_ctrl: u32,
    regs: Map<Reg, u32>,
)
    ensures
        ({
            let done = Channel::completed_in_time(setup, sie_status, buffer, sie_ctrl);
            let after = run(
                regs,
                Channel::timed_out_ops(epx, setup, sie_status, buffer, sie_ctrl),
            );
            &&& !done ==> {
                &&& !flag(after[Reg::SieStatus], STATUS_TRANS_COMPLETE)
                &&& !flag(after[Reg::SieStatus], STATUS_STALL_REC)
                &&& !flag(after[Reg::SieStatus], STATUS_RX_TIMEOUT)
                &&& !flag(after[Reg::SieStatus], STATUS_RX_OVERFLOW)
                &&& keeps(regs, after, Reg::SieStatus, 0x2c04_0000)
                &&& !flag(after[Reg::BuffStatus], 0b11)
                &&& keeps(regs, after, Reg::BuffStatus, 0b11)
                &&& !setup ==> !flag(after[Reg::EpInBufferControl(0)], BUF_AVAILABLE)
            }
            &&& done && setup ==> after == regs.insert(
                Reg::SieStatus,
                regs[Reg::SieStatus] & !STATUS_TRANS_COMPLETE,
            )
            &&& done && !setup ==> after == regs
        }),
{
    let done = Channel::completed_in_time(setup, sie_status, buffer, sie_ctrl);
    let ops = Channel::timed_out_ops(epx, setup, sie_status, buffer, sie_ctrl);
    let void = void_ops();
    lemma_cleared(regs[Reg::SieStatus], STATUS_OUTCOMES);
    lemma_outcome_bits(regs[Reg::SieStatus]);
    lemma_cleared(regs[Reg::BuffStatus], 0b11);
    lemma_cleared(regs[Reg::EpInBufferControl(0)], BUF_AVAILABLE);
    assert(void =~= seq![void[0], void[1]]);
    if setup {
        if done {
            lemma_run_short(regs, ops[0], ops[0], ops[0]);
            assert(ops =~= seq![ops[0]]);
        } else {
            lemma_run_short(regs, void[0], void[1], void[1]);
        }
    } else if done {
        let wake = epx.wake_current_ops();
        if wake.len() > 0 {
            lemma_run_short(regs, wake[0], wake[0], wake[0]);
            assert(wake =~= seq![wake[0]]);
        }
    } else {
        let revoke = seq![Op::Modify(Reg::EpInBufferControl(0), BUF_AVAILABLE, 0)];
        let wakes = epx.wake_all_ops();
        lemma_run_concat(regs, revoke + wakes, void);
        lemma_run_concat(regs, revoke, wakes);
        lemma_run_short(regs, revoke[0], revoke[0], revoke[0]);
        crate::laws::lemma_wakes_keep_registers(
            run(regs, revoke),
            set16(epx.allocated_slots),
            EPX_MAX_PIPES as int,
        );
        lemma_run_short(run(regs, revoke), void[0], void[1], void[1]);
    }
}

/// Dropping the guard of a transfer that was under way stops the polling of its endpoint, then
/// takes its buffer back, empty, and forgets its signal. The guard of a finished transfer does
/// nothing.
pub proof fn cancelled_endpoint_is_stopped(guard: InterruptTransferGuard, regs: Map<Reg, u32>)
    requires
        guard.wf(),
    ensures
        ({
            let stopped = run(regs, guard.stop_polling_ops());
            let after = run(stopped, guard.take_back_ops());
            let bits = 3u32 << ((2 * guard.index) as u32);
            &&& guard.active ==> {
                &&& !flag(stopped[Reg::IntEpCtrl], 1u32 << (guard.index as u32))
                &&& keeps(regs, stopped, Reg::IntEpCtrl, 1u32 << (guard.index as u32))
                &&& only(regs, stopped, Reg::IntEpCtrl, Reg::IntEpCtrl)
                &&& !flag(after[Reg::EpInBufferControl(guard.index)], BUF_AVAILABLE)
                &&& !flag(after[Reg::EpInBufferControl(guard.index)], BUF_FULL)
                &&& !flag(after[Reg::BuffStatus], bits)
                &&& keeps(stopped, after, Reg::BuffStatus, bits)
                &&& only(stopped, after, Reg::EpInBufferControl(guard.index), Reg::BuffStatus)
            }
            &&& !guard.active ==> after == regs
        }),
{
    let stop = guard.stop_polling_ops();
    let take = guard.take_back_ops();
    if guard.active {
        lemma_run_short(regs, stop[0], stop[0], stop[0]);
        assert(stop =~= seq![stop[0]]);
        let stopped = run(regs, stop);
        lemma_run_short(stopped, take[0], take[1], take[1]);
        assert(take =~= seq![take[0], take[1]]);
        lemma_cleared(regs[Reg::IntEpCtrl], spec_int_ep_bit(guard.index));
        lemma_cleared(regs[Reg::BuffStatus], spec_buff_status_bits(guard.index));
        lemma_taken_back(regs[Reg::EpInBufferControl(guard.index)]);
    }
}

/// A received packet is copied from where the controller put it, as long as the buffer control
/// word says, before the buffer is armed again; and it is armed with the other toggle.
pub proof fn collected_packet_is_the_received_one(
    c: Channel,
    buffer: u32,
    before: Map<Reg, u32>,
    regs: Map<Reg, u32>,
)
    requires
        c.wf(),
        c.ep_type == EndpointType::Interrupt,
    ensures
        ({
            let ops = c.collect_ops(buffer);
            let configured = run(before, c.configure_interrupt_ops())[Reg::EpInControl(
                (c.index - 1) as usize,
            )];
            let after = run(regs, ops);
            &&& ops[0] matches Op::CopyIn { addr, at, len } && addr == configured
                & EP_BUFFER_ADDRESS && at == 0 && len == buffer & 0x3ff
            &&& forall|k: int| 0 < k < ops.len() ==> !(#[trigger] ops[k] is CopyIn)
            &&& hands_over(
                after[Reg::EpInBufferControl(c.index)],
                !c.pid,
                false,
                c.max_packet_size as int,
            )
            &&& flag(after[Reg::IntEpCtrl], 1u32 << (c.index as u32))
        }),
{
    let d = c.toggled();
    let copy = seq![c.collect_ops(buffer)[0]];
    dedicated_endpoint_is_configured_for_the_pipe(c, before);
    lemma_run_concat(regs, copy, d.reload_ops());
    lemma_run_short(regs, copy[0], copy[0], copy[0]);
    dedicated_endpoint_is_armed_to_receive(d, regs);
    assert(c.collect_ops(buffer) =~= copy + d.reload_ops());
}

/// A read arms its endpoint only when nobody could lose by it: not over a packet that has arrived,
/// and not while the controller owns the buffer.
pub proof fn waiting_packet_is_not_discarded(c: Channel, buffer: u32, regs: Map<Reg, u32>)
    requires
        c.wf(),
        c.ep_type == EndpointType::Interrupt,
    ensures
        ({
            let after = run(regs, c.arm_if_idle_ops(buffer));
            let word = after[Reg::EpInBufferControl(c.index)];
            &&& flag(buffer, BUF_FULL) || flag(buffer, BUF_AVAILABLE) ==> after == regs
            &&& !flag(buffer, BUF_FULL) && !flag(buffer, BUF_AVAILABLE) ==> hands_over(
                word,
                c.pid,
                false,
                c.max_packet_size as int,
            )
        }),
{
    dedicated_endpoint_is_armed_to_receive(c, regs);
}

/// A stop at a NAK is acknowledged, the yield request is taken back, and it is the holder of EPX
/// that is handed on from.
pub proof fn nak_stop_is_acknowledged(epx: EpxState, regs: Map<Reg, u32>)
    ensures
        nak_stop_next(epx) == IrqNext::SampleEpx(epx.current_channel),
        ({
            let ops = nak_stop_ops(Chip::Rp235x);
            let after = run(regs, ops);
            &&& ops[0] == Op::Modify(Reg::NakPoll, 0, NAK_EPX_STOPPED_ON_NAK)
            &&& !flag(after[Reg::NakPoll], NAK_STOP_EPX_ON_NAK)
            &&& !flag(after[Reg::Inte], INT_EPX_STOPPED_ON_NAK)
            &&& keeps(regs, after, Reg::Inte, INT_EPX_STOPPED_ON_NAK)
            &&& only(regs, after, Reg::NakPoll, Reg::Inte)
        }),
{
    let ack = seq![Op::Modify(Reg::NakPoll, 0, NAK_EPX_STOPPED_ON_NAK)];
    lemma_run_concat(regs, ack, disarm_yield_ops(Chip::Rp235x));
    lemma_run_short(regs, ack[0], ack[0], ack[0]);
    yield_is_asked_for(Chip::Rp235x, run(regs, ack));
}

} // verus!
