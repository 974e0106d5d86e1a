//! Transfers: how requests of any length become packets.

use vstd::prelude::*;
use crate::channel::Channel;
use crate::epx_transaction::Request;
use crate::regs::{buffer_length, le_word, spec_buffer_length, Op};
use crate::types::{EndpointType, PipeError};

verus! {

/// A read over EPX, until the caller's buffer fills or the device sends a short packet.
#[derive(Clone, Copy, PartialEq, Eq, Structural, Debug)]
pub struct EpxRead {
    /// Length of the caller's buffer.
    pub len: usize,
    /// Bytes received.
    pub count: usize,
}

/// What follows a received packet.
#[derive(Clone, Copy, PartialEq, Eq, Debug)]
pub enum ReadStep {
    /// Ask for another packet.
    More,
    /// Tell the caller.
    Done(Result<usize, PipeError>),
}

impl EpxRead {
    /// No more was received than fits.
    pub open spec fn wf(self) -> bool {
        self.count <= self.len
    }

    /// A read into a buffer of `len` bytes.
    pub fn new(len: usize) -> (r: EpxRead)
        ensures
            r.wf(),
            r == (EpxRead { len, count: 0 }),
    {
        EpxRead { len, count: 0 }
    }

    /// The next packet to ask for.
    pub open spec fn spec_request(&self, channel: &Channel) -> Request {
        Request::DataIn {
            len: channel.packet_len(self.len - self.count) as u16,
            pid: channel.pid,
        }
    }

    /// The next packet to ask for: as much as is missing, at most a full packet.
    #[verifier::when_used_as_spec(spec_request)]
    pub fn request(&self, channel: &Channel) -> (request: Request)
        requires
            self.wf(),
        ensures
            request == self.request(channel),
            request.fits(*channel),
    {
        let missing: usize = self.len - self.count;
        let len: u16 = if missing <= channel.max_packet_size as usize {
            missing as u16
        } else {
            channel.max_packet_size
        };
        Request::DataIn { len, pid: channel.pid }
    }

    /// The read after a packet.
    pub open spec fn after_packet(self, buffer: u32) -> EpxRead {
        let count = self.count + spec_buffer_length(buffer);
        if count > self.len {
            self
        } else {
            EpxRead { count: count as usize, ..self }
        }
    }

    /// What follows a packet: a packet that does not fit is refused, and the last one is that
    /// which fills the buffer or is short.
    pub open spec fn step_after(self, mps: u16, buffer: u32) -> ReadStep {
        let rx_len = spec_buffer_length(buffer);
        let count = self.count + rx_len;
        if count > self.len {
            ReadStep::Done(Err(PipeError::BufferOverflow))
        } else if count == self.len || rx_len < mps {
            ReadStep::Done(Ok(count as usize))
        } else {
            ReadStep::More
        }
    }

    /// The steps that append a packet to the caller's buffer, if it fits.
    pub open spec fn packet_ops(self, channel: Channel, buffer: u32) -> Seq<Op> {
        let rx_len = spec_buffer_length(buffer);
        if self.count + rx_len > self.len {
            Seq::empty()
        } else {
            seq![Op::CopyIn { addr: channel.buf.addr, at: self.count, len: rx_len }]
        }
    }

    /// Account for a packet that was received, given the buffer control word: advance the
    /// toggle, and append the packet to the caller's buffer if it fits.
    pub fn on_packet(&mut self, channel: &mut Channel, buffer: u32) -> (r: (ReadStep, Vec<Op>))
        requires
            old(self).wf(),
        ensures
            final(self).wf(),
            *final(channel) == old(channel).toggled(),
            *final(self) == old(self).after_packet(buffer),
            r.0 == old(self).step_after(old(channel).max_packet_size, buffer),
            r.1@ == old(self).packet_ops(*old(channel), buffer),
    {
        channel.advance_pid();
        let rx_len: usize = buffer_length(buffer);
        if rx_len > self.len - self.count {
            return (ReadStep::Done(Err(PipeError::BufferOverflow)), Vec::new());
        }
        let ops: Vec<Op> = vec![Op::CopyIn { addr: channel.buf.addr, at: self.count, len: rx_len }];
        self.count = self.count + rx_len;
        if self.count == self.len || rx_len < channel.max_packet_size as usize {
            (ReadStep::Done(Ok(self.count)), ops)
        } else {
            (ReadStep::More, ops)
        }
    }
}

impl EpxRead {
    /// Account for the end of a transaction: a packet, given the buffer control word, or the error
    /// that ends the read. After an error nothing more is asked for, and neither the toggle nor
    /// the caller's buffer changes.
    pub fn on_result(
        &mut self,
        channel: &mut Channel,
        result: Result<(), PipeError>,
        buffer: u32,
    ) -> (r: (ReadStep, Vec<Op>))
        requires
            old(self).wf(),
        ensures
            final(self).wf(),
            match result {
                Err(e) => {
                    &&& r.0 == ReadStep::Done(Err::<usize, PipeError>(e))
                    &&& r.1@ == Seq::<Op>::empty()
                    &&& *final(self) == *old(self)
                    &&& *final(channel) == *old(channel)
                },
                Ok(()) => {
                    &&& r.0 == old(self).step_after(old(channel).max_packet_size, buffer)
                    &&& r.1@ == old(self).packet_ops(*old(channel), buffer)
                    &&& *final(self) == old(self).after_packet(buffer)
                    &&& *final(channel) == old(channel).toggled()
                },
            },
    {
        match result {
            Err(e) => (ReadStep::Done(Err(e)), Vec::new()),
            Ok(()) => self.on_packet(channel, buffer),
        }
    }
}

/// A read writes no byte behind the end of the caller's buffer, and reports no more than fits.
pub proof fn read_stays_in_the_buffer(r: EpxRead, channel: Channel, buffer: u32)
    requires
        r.wf(),
    ensures
        r.after_packet(buffer).wf(),
        r.after_packet(buffer).len == r.len,
        forall|k: int|
            0 <= k < r.packet_ops(channel, buffer).len() ==> (
            #[trigger] r.packet_ops(channel, buffer)[k] matches Op::CopyIn { addr: _, at, len }
                && at + len <= r.len),
        r.step_after(channel.max_packet_size, buffer) matches ReadStep::Done(Ok(n)) ==> n
            <= r.len,
{
}

/// Whether a read asks for more after each of these packets, in turn.
pub open spec fn reads_on(r: EpxRead, mps: int, packets: Seq<int>) -> bool
    decreases packets.len(),
{
    packets.len() == 0 || {
        let count = r.count + packets.first();
        &&& packets.first() >= mps
        &&& count < r.len
        &&& reads_on(EpxRead { count: count as usize, ..r }, mps, packets.drop_first())
    }
}

/// A read that goes on has received nothing but full packets, and they do not fill the buffer
/// yet. So it ends, with at most one packet more than fit in whole.
pub proof fn read_ends(r: EpxRead, mps: int, packets: Seq<int>)
    requires
        r.wf(),
        0 < mps,
        reads_on(r, mps, packets),
    ensures
        packets.len() > 0 ==> r.count + packets.len() * mps < r.len,
    decreases packets.len(),
{
    if packets.len() > 0 {
        let next = EpxRead { count: (r.count + packets.first()) as usize, ..r };
        read_ends(next, mps, packets.drop_first());
        let n = packets.len() as int;
        assert(n * mps == (n - 1) * mps + mps) by (nonlinear_arith);
        assert(packets.drop_first().len() == n - 1);
        assert(0 * mps == 0);
    }
}

/// Where a write stands.
#[derive(Clone, Copy, PartialEq, Eq, Structural, Debug)]
pub enum WritePhase {
    /// Packets of data are left. An empty write sends one empty packet.
    Data,
    /// The empty packet behind a full last packet is left.
    Zlp,
    Done,
}

/// A write, packet by packet, over EPX or on a dedicated endpoint.
#[derive(Clone, Copy, PartialEq, Eq, Structural, Debug)]
pub struct PacketWriter {
    /// Length of the caller's data.
    pub total: usize,
    /// Send an empty packet behind a last packet of full size.
    pub ensure_transaction_end: bool,
    /// Bytes sent.
    pub count: usize,
    pub phase: WritePhase,
}

impl PacketWriter {
    /// In the data phase something is left to send, or the write is empty; after it nothing is.
    pub open spec fn wf(self) -> bool {
        match self.phase {
            WritePhase::Data => self.count < self.total || self.count == 0 && self.total == 0,
            _ => self.count == self.total,
        }
    }

    /// The packets left to send on a pipe with packets of up to `mps` bytes.
    pub open spec fn packets_left(self, mps: int) -> int {
        let left = self.total - self.count;
        match self.phase {
            WritePhase::Data => if left == 0 {
                1
            } else {
                (left + mps - 1) / mps + if self.ensure_transaction_end && left % mps == 0 {
                    1int
                } else {
                    0
                }
            },
            WritePhase::Zlp => 1,
            WritePhase::Done => 0,
        }
    }

    /// A write of `total` bytes.
    pub fn new(total: usize, ensure_transaction_end: bool) -> (w: PacketWriter)
        ensures
            w.wf(),
            w == (PacketWriter {
                total,
                ensure_transaction_end,
                count: 0,
                phase: WritePhase::Data,
            }),
    {
        PacketWriter { total, ensure_transaction_end, count: 0, phase: WritePhase::Data }
    }

    /// The next packet to send over EPX.
    pub open spec fn spec_request(&self, channel: &Channel) -> Request {
        Request::DataOut { from: self.count, total: self.total, pid: channel.pid }
    }

    /// The next packet to send over EPX.
    #[verifier::when_used_as_spec(spec_request)]
    pub fn request(&self, channel: &Channel) -> (request: Request)
        requires
            self.wf(),
            self.count < self.total ==> channel.max_packet_size > 0,
        ensures
            request == self.request(channel),
            request.fits(*channel),
    {
        Request::DataOut { from: self.count, total: self.total, pid: channel.pid }
    }

    /// Load the next packet into a dedicated endpoint and arm it.
    pub fn send_interrupt(&self, channel: &Channel) -> (ops: Vec<Op>)
        requires
            self.wf(),
            channel.wf(),
            channel.is_interrupt(),
            channel.dir.is_out(),
        ensures
            ops@ == channel.interrupt_send_ops(self.count, self.total),
    {
        channel.interrupt_send(self.count, self.total).1
    }

    /// The writer after its next packet was sent.
    pub open spec fn after_packet(self, mps: int) -> PacketWriter {
        let left = self.total - self.count;
        match self.phase {
            WritePhase::Data => if left > mps {
                PacketWriter { count: (self.count + mps) as usize, ..self }
            } else if left == mps && self.ensure_transaction_end {
                PacketWriter { count: self.total, phase: WritePhase::Zlp, ..self }
            } else {
                PacketWriter { count: self.total, phase: WritePhase::Done, ..self }
            },
            _ => PacketWriter { phase: WritePhase::Done, ..self },
        }
    }

    /// Account for a packet that was sent: advance the toggle and move on. Returns whether the
    /// write is done.
    pub fn on_sent(&mut self, channel: &mut Channel) -> (done: bool)
        requires
            old(self).wf(),
            old(self).count < old(self).total ==> old(channel).max_packet_size > 0,
        ensures
            final(self).wf(),
            *final(channel) == old(channel).toggled(),
            *final(self) == old(self).after_packet(old(channel).max_packet_size as int),
            done == (final(self).phase == WritePhase::Done),
    {
        channel.advance_pid();
        let mps: usize = channel.max_packet_size as usize;
        match self.phase {
            WritePhase::Data => {
                let packet: usize = if self.total - self.count <= mps {
                    self.total - self.count
                } else {
                    mps
                };
                self.count = self.count + packet;
                if self.count == self.total {
                    if packet == mps && self.ensure_transaction_end {
                        self.phase = WritePhase::Zlp;
                        false
                    } else {
                        self.phase = WritePhase::Done;
                        true
                    }
                } else {
                    false
                }
            },
            _ => {
                self.phase = WritePhase::Done;
                true
            },
        }
    }
}

impl PacketWriter {
    /// Account for the end of a transaction: a packet that was sent, or the error that ends the
    /// write. Returns the result of the write once it is over. After an error nothing more is
    /// sent, and the toggle does not change.
    pub fn on_result(&mut self, channel: &mut Channel, result: Result<(), PipeError>) -> (r: Option<
        Result<(), PipeError>,
    >)
        requires
            old(self).wf(),
            old(self).count < old(self).total ==> old(channel).max_packet_size > 0,
        ensures
            final(self).wf(),
            match result {
                Err(e) => {
                    &&& r == Some(Err::<(), PipeError>(e))
                    &&& *final(self) == *old(self)
                    &&& *final(channel) == *old(channel)
                },
                Ok(()) => {
                    &&& r == if final(self).phase == WritePhase::Done {
                        Some(Ok::<(), PipeError>(()))
                    } else {
                        None
                    }
                    &&& *final(self) == old(self).after_packet(old(channel).max_packet_size as int)
                    &&& *final(channel) == old(channel).toggled()
                },
            },
    {
        match result {
            Err(e) => Some(Err(e)),
            Ok(()) => if self.on_sent(channel) {
                Some(Ok(()))
            } else {
                None
            },
        }
    }
}

/// Every packet leaves exactly one fewer to send, and a write is done when none is left. With
/// `packets_left` of a new writer, this gives the number of packets of a write: one per started
/// packet size, at least one, and one more behind a full last packet where that was asked for.
pub proof fn write_takes_packets_left(w: PacketWriter, mps: int)
    requires
        w.wf(),
        0 < mps,
        w.phase != WritePhase::Done,
    ensures
        w.after_packet(mps).packets_left(mps) == w.packets_left(mps) - 1,
        w.packets_left(mps) >= 1,
        w.packets_left(mps) == 1 <==> w.after_packet(mps).phase == WritePhase::Done,
{
    let left = w.total - w.count;
    if w.phase == WritePhase::Data {
        assert(left > 0 ==> (left + mps - 1) / mps >= 1) by (nonlinear_arith)
            requires
                0 < mps,
        ;
        if left > mps {
            assert((left - mps + mps - 1) / mps == (left + mps - 1) / mps - 1) by (nonlinear_arith)
                requires
                    0 < mps < left,
            ;
            assert((left - mps) % mps == left % mps) by {
                vstd::arithmetic::div_mod::lemma_mod_sub_multiples_vanish(left, mps);
            }
            assert((left - mps + mps - 1) / mps >= 1) by (nonlinear_arith)
                requires
                    0 < mps < left,
            ;
        } else if left > 0 {
            assert((left + mps - 1) / mps == 1) by (nonlinear_arith)
                requires
                    0 < left <= mps,
            ;
            assert(left % mps == 0 <==> left == mps) by (nonlinear_arith)
                requires
                    0 < left <= mps,
            ;
        }
    }
}

/// The packets of a write follow each other without gap or overlap, none is larger than the
/// packet size, and when the write is done they have covered the data.
pub proof fn packets_cover_the_data(w: PacketWriter, mps: int)
    requires
        w.wf(),
        0 < mps,
        w.phase != WritePhase::Done,
    ensures
        w.count <= w.after_packet(mps).count <= w.count + mps,
        w.after_packet(mps).wf(),
        w.after_packet(mps).phase != WritePhase::Data ==> w.after_packet(mps).count == w.total,
        w.after_packet(mps).total == w.total,
{
}

/// What the packets of a write carry, one behind the other.
pub open spec fn payloads(w: PacketWriter, mps: int, data: Seq<u8>) -> Seq<u8>
    decreases w.packets_left(mps),
    when w.wf() && 0 < mps
    via payloads_decreases
{
    if w.phase == WritePhase::Done {
        Seq::empty()
    } else {
        let next = w.after_packet(mps);
        data.subrange(w.count as int, next.count as int) + payloads(next, mps, data)
    }
}

#[via_fn]
proof fn payloads_decreases(w: PacketWriter, mps: int, data: Seq<u8>) {
    if w.phase != WritePhase::Done {
        write_takes_packets_left(w, mps);
    }
}

/// The packets of a write carry exactly the caller's data.
pub proof fn write_sends_the_data(w: PacketWriter, mps: int, data: Seq<u8>)
    requires
        w.wf(),
        0 < mps,
        data.len() == w.total,
    ensures
        payloads(w, mps, data) == data.skip(w.count as int),
    decreases w.packets_left(mps),
{
    if w.phase != WritePhase::Done {
        write_takes_packets_left(w, mps);
        packets_cover_the_data(w, mps);
        write_sends_the_data(w.after_packet(mps), mps, data);
    }
    assert(payloads(w, mps, data) =~= data.skip(w.count as int));
}

/// The length of the data stage that a setup packet announces.
pub open spec fn spec_setup_length(setup: Seq<u8>) -> int {
    le_word(setup[6], setup[7], 0, 0)
}

/// The length of the data stage that a setup packet announces.
pub fn setup_length(setup: &[u8; 8]) -> (len: usize)
    ensures
        len == spec_setup_length(setup@),
{
    setup[6] as usize + 0x100 * (setup[7] as usize)
}

/// Where a control transfer stands.
#[derive(Clone, Copy, PartialEq, Eq, Structural, Debug)]
pub enum ControlStage {
    Setup,
    Data,
    Status,
    Done,
}

/// A control transfer: a setup stage, a data stage if the setup packet announces data, and a
/// status stage in the other direction.
#[derive(Clone, Copy, PartialEq, Eq, Debug)]
pub struct ControlTransfer {
    pub setup: [u8; 8],
    /// Whether the data stage goes to the device.
    pub out: bool,
    pub stage: ControlStage,
    /// Bytes that the data stage moved.
    pub moved: usize,
}

impl ControlTransfer {
    /// No more was moved than the setup packet announces.
    pub open spec fn wf(self) -> bool {
        self.moved <= spec_setup_length(self.setup@)
    }

    /// The pipe once a transfer with this setup packet has begun.
    pub open spec fn pipe_begun(channel: Channel, setup: Seq<u8>) -> Channel {
        channel.with_budget(spec_setup_length(setup) != 0)
    }

    /// Begin a control transfer with a buffer of `capacity` bytes. A data stage that does not
    /// fit is refused.
    pub fn begin(channel: &mut Channel, setup: &[u8; 8], capacity: usize, out: bool) -> (r: Result<
        ControlTransfer,
        PipeError,
    >)
        ensures
            r is Err <==> spec_setup_length(setup@) > capacity,
            r matches Err(e) ==> e == PipeError::BufferOverflow && *final(channel) == *old(channel),
            r matches Ok(t) ==> {
                &&& t.wf()
                &&& t == (ControlTransfer {
                    setup: *setup,
                    out,
                    stage: ControlStage::Setup,
                    moved: 0,
                })
                &&& *final(channel) == Self::pipe_begun(*old(channel), setup@)
            },
    {
        let length: usize = setup_length(setup);
        if length > capacity {
            return Err(PipeError::BufferOverflow);
        }
        channel.start_control_timeout(length != 0);
        Ok(ControlTransfer { setup: *setup, out, stage: ControlStage::Setup, moved: 0 })
    }

    /// The transaction of the setup or status stage.
    pub open spec fn spec_request(&self) -> Request {
        if self.stage == ControlStage::Setup {
            Request::Setup(self.setup)
        } else if self.out {
            Request::DataIn { len: 0, pid: true }
        } else {
            Request::DataOut { from: 0, total: 0, pid: true }
        }
    }

    /// The transaction of the setup or status stage. The status stage goes against the data and
    /// always carries DATA1.
    pub fn request(&self, channel: &Channel) -> (request: Request)
        requires
            channel.ep_type == EndpointType::Control,
            self.stage == ControlStage::Setup || self.stage == ControlStage::Status,
        ensures
            request.fits(*channel),
            request == self.spec_request(),
    {
        match self.stage {
            ControlStage::Setup => Request::Setup(self.setup),
            _ => if self.out {
                Request::DataIn { len: 0, pid: true }
            } else {
                Request::DataOut { from: 0, total: 0, pid: true }
            },
        }
    }

    /// The data stage of a transfer from the device: a read of the announced length, whatever
    /// more the caller's buffer could hold.
    pub open spec fn spec_data_read(&self) -> EpxRead {
        EpxRead { len: spec_setup_length(self.setup@) as usize, count: 0 }
    }

    /// The data stage of a transfer from the device.
    #[verifier::when_used_as_spec(spec_data_read)]
    pub fn data_read(&self) -> (r: EpxRead)
        requires
            self.stage == ControlStage::Data,
            !self.out,
        ensures
            r == self.data_read(),
            r.wf(),
    {
        EpxRead::new(setup_length(&self.setup))
    }

    /// The data stage of a transfer to the device: a write of the announced length, with no empty
    /// packet behind it.
    pub open spec fn spec_data_write(&self) -> PacketWriter {
        PacketWriter {
            total: spec_setup_length(self.setup@) as usize,
            ensure_transaction_end: false,
            count: 0,
            phase: WritePhase::Data,
        }
    }

    /// The data stage of a transfer to the device.
    #[verifier::when_used_as_spec(spec_data_write)]
    pub fn data_write(&self) -> (w: PacketWriter)
        requires
            self.stage == ControlStage::Data,
            self.out,
        ensures
            w == self.data_write(),
            w.wf(),
    {
        PacketWriter::new(setup_length(&self.setup), false)
    }

    /// The transfer after a stage.
    pub open spec fn after_stage(self, result: Result<usize, PipeError>) -> ControlTransfer {
        match (result, self.stage) {
            (Ok(_), ControlStage::Setup) => ControlTransfer {
                stage: if spec_setup_length(self.setup@) > 0 {
                    ControlStage::Data
                } else {
                    ControlStage::Status
                },
                ..self
            },
            (Ok(n), ControlStage::Data) => ControlTransfer {
                stage: ControlStage::Status,
                moved: n,
                ..self
            },
            _ => ControlTransfer { stage: ControlStage::Done, ..self },
        }
    }

    /// What the caller is told after a stage: an error at once, the count after the last stage.
    pub open spec fn result_after_stage(self, result: Result<usize, PipeError>) -> Option<
        Result<usize, PipeError>,
    > {
        match (result, self.stage) {
            (Err(e), _) => Some(Err(e)),
            (Ok(_), ControlStage::Setup) => None,
            (Ok(_), ControlStage::Data) => None,
            (Ok(_), _) => Some(Ok(self.moved)),
        }
    }

    /// The pipe after a stage.
    pub open spec fn pipe_after_stage(
        self,
        channel: Channel,
        result: Result<usize, PipeError>,
    ) -> Channel {
        match (result, self.stage) {
            (Err(_), _) => Channel { control_timeout_us: None, ..channel },
            (Ok(_), ControlStage::Setup) => Channel { pid: true, ..channel },
            (Ok(_), ControlStage::Data) => channel,
            (Ok(_), _) => Channel { pid: false, control_timeout_us: None, ..channel },
        }
    }

    /// Account for the end of a stage: bytes moved, or the error that ends the transfer. Returns
    /// the result of the transfer once it is over. The data stage starts with DATA1, and the
    /// pipe is left at DATA0.
    pub fn on_stage(&mut self, channel: &mut Channel, result: Result<usize, PipeError>) -> (r:
        Option<Result<usize, PipeError>>)
        requires
            old(self).wf(),
            old(self).stage != ControlStage::Done,
            old(self).stage == ControlStage::Data ==> (result matches Ok(n) ==> n
                <= spec_setup_length(old(self).setup@)),
        ensures
            final(self).wf(),
            *final(self) == old(self).after_stage(result),
            r matches Some(Ok(n)) ==> n <= spec_setup_length(old(self).setup@),
            r == old(self).result_after_stage(result),
            *final(channel) == old(self).pipe_after_stage(*old(channel), result),
    {
        match result {
            Err(e) => {
                channel.control_timeout_us = None;
                self.stage = ControlStage::Done;
                Some(Err(e))
            },
            Ok(n) => match self.stage {
                ControlStage::Setup => {
                    channel.pid = true;
                    self.stage = if setup_length(&self.setup) > 0 {
                        ControlStage::Data
                    } else {
                        ControlStage::Status
                    };
                    None
                },
                ControlStage::Data => {
                    self.moved = n;
                    self.stage = ControlStage::Status;
                    None
                },
                _ => {
                    channel.pid = false;
                    channel.control_timeout_us = None;
                    self.stage = ControlStage::Done;
                    Some(Ok(self.moved))
                },
            },
        }
    }
}

/// A control transfer runs a setup stage, a data stage exactly if the setup packet announces
/// data, and a status stage, in that order; an error ends it at any stage. It reports what the
/// data stage moved.
pub proof fn control_stages(t: ControlTransfer, n: usize, e: PipeError)
    requires
        t.stage == ControlStage::Setup,
        t.wf(),
        n <= spec_setup_length(t.setup@),
    ensures
        ({
            let second = t.after_stage(Ok(0));
            let last = if spec_setup_length(t.setup@) > 0 {
                second.after_stage(Ok(n))
            } else {
                second
            };
            &&& spec_setup_length(t.setup@) > 0 ==> second.stage == ControlStage::Data
                && last.moved == n
            &&& spec_setup_length(t.setup@) == 0 ==> last.moved == t.moved
            &&& last.stage == ControlStage::Status
            &&& last.moved <= spec_setup_length(t.setup@)
            &&& last.after_stage(Ok(0)).stage == ControlStage::Done
            &&& t.after_stage(Err(e)).stage == ControlStage::Done
            &&& second.after_stage(Err(e)).stage == ControlStage::Done
            &&& last.after_stage(Err(e)).stage == ControlStage::Done
        }),
{
}

/// The data stage of a transfer from the device leaves the caller's buffer alone behind the
/// announced length, and reports at most that many bytes. `r` is the read at any point of the
/// stage.
pub proof fn control_read_keeps_the_rest(
    t: ControlTransfer,
    r: EpxRead,
    channel: Channel,
    buffer: u32,
)
    requires
        r.wf(),
        r.len == t.data_read().len,
    ensures
        r.after_packet(buffer).wf(),
        r.after_packet(buffer).len == t.data_read().len,
        forall|k: int|
            0 <= k < r.packet_ops(channel, buffer).len() ==> (
            #[trigger] r.packet_ops(channel, buffer)[k] matches Op::CopyIn { addr: _, at, len }
                && at + len <= spec_setup_length(t.setup@)),
        r.step_after(channel.max_packet_size, buffer) matches ReadStep::Done(Ok(n)) ==> n
            <= spec_setup_length(t.setup@),
{
    read_stays_in_the_buffer(r, channel, buffer);
}

/// The data stage of a transfer to the device sends exactly the announced length of the caller's
/// data, in as few packets as hold it.
pub proof fn control_write_sends_the_announced_data(t: ControlTransfer, mps: int, data: Seq<u8>)
    requires
        0 < mps,
        0 < spec_setup_length(t.setup@) <= data.len(),
    ensures
        ({
            let w = spec_setup_length(t.setup@);
            &&& payloads(t.data_write(), mps, data.take(w)) == data.take(w)
            &&& t.data_write().packets_left(mps) == (w + mps - 1) / mps
        }),
{
    let w = spec_setup_length(t.setup@);
    write_sends_the_data(t.data_write(), mps, data.take(w));
    assert(data.take(w).skip(0) =~= data.take(w));
}

} // verus!
