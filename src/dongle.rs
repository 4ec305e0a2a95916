use vstd::prelude::*;
use crate::frame::{FrameError, frame_bytes, command_of, be16, be64, le32, payload_of, remaining_len};
use crate::messages::{
    AckResponse, BootConfirmRequest, BootConfirmResponse, BootRequest, BootResponse,
    BroadcastResponse, HandshakeRequest, HandshakeResponse, LockRequest, LockResponse,
    SamplesRequest, SamplesResponse, ScheduleRequest, ScheduleResponse, UnlockRequest,
    UpdateTimeAckResponse, UpdateTimeRequest, UpdateTimeResponse, samples_bytes,
    samples_payload_len, lemma_samples_bytes_len,
};

verus! {

/// How long commissioning listens for a device, in milliseconds.
pub const COMMISSION_TIMEOUT_MS: u64 = 30_000;

/// Command id of a broadcast frame.
pub const BROADCAST_COMMAND: u16 = 0xa013;

/// Why a session operation failed. Either leaves the session unusable.
#[derive(Debug, Clone, Copy, PartialEq, Eq, Structural)]
pub enum DongleError {
    /// A frame from the dongle failed the named check.
    MessageFailure(FrameError),
    /// The transport failed, timed out, or answered out of turn.
    SerialConnectionError,
}

/// A commissioned device.
#[derive(Debug, Clone, Copy, PartialEq, Eq, Structural)]
pub struct DongleId {
    pub device: u64,
    pub network: u16,
}

#[derive(Debug, Clone, Copy, PartialEq, Eq, Structural)]
pub enum CommissionStatus {
    Commissioned(DongleId),
    NotCommissioned,
    /// No device announced itself before the deadline.
    Unknown,
}

#[derive(Debug, Clone, Copy, PartialEq, Eq, Structural)]
pub enum SwitchState {
    AlwaysOn,
    AlwaysOff,
}

/// What the session waits for.
#[derive(Debug, Clone, Copy, PartialEq, Eq, Structural)]
pub enum Phase {
    /// No operation in flight.
    Ready,
    /// A failure made the session unusable.
    Broken,
    /// The transport was closed.
    Closed,
    Boot,
    BootConfirm,
    Handshake,
    SamplesAck,
    SamplesHeader,
    SamplesBody,
    Schedule,
    Unlock,
    Lock,
    /// Commissioning: the unlock answer.
    CommissionUnlock,
    /// Commissioning: the clock reading that starts the deadline.
    CommissionStart,
    /// Commissioning: the clock reading before the next frame.
    CommissionCheck { deadline: u64 },
    /// Commissioning: the header of the next frame.
    CommissionHeader { deadline: u64 },
    /// Commissioning: the rest of that frame.
    CommissionBody { deadline: u64 },
    /// Commissioning: the wall-clock time for the found device.
    CommissionTime { id: DongleId },
    UpdateTimeAck { id: DongleId },
    UpdateTimeConfirm { id: DongleId },
    /// Commissioning: the lock answer.
    CommissionLock { id: DongleId },
}

/// What an operation gives back.
#[derive(Debug, Clone, PartialEq, Eq)]
pub enum Reply {
    Opened,
    Network(HandshakeResponse),
    Samples(Vec<u16>),
    Switched(ScheduleResponse),
    Locked(LockResponse),
    Commission(CommissionStatus),
    Closed,
}

/// What the session asks of whoever drives the transport.
#[derive(Debug, PartialEq, Eq)]
pub enum Action {
    /// Send the frame, then read exactly this many bytes and hand them back.
    Transmit(Vec<u8>, usize),
    /// Read exactly this many bytes and hand them back.
    Receive(usize),
    /// Hand back a monotonic clock reading in milliseconds.
    ReadClock,
    /// Hand back the wall-clock time in seconds since the Unix epoch, if known.
    ReadTime,
    /// Close the transport.
    Close,
    /// The operation is over.
    Done(Result<Reply, DongleError>),
}

/// What happened on the transport side.
#[derive(Debug, Clone, PartialEq, Eq)]
pub enum Event {
    Received(Vec<u8>),
    Clock(u64),
    Time(Option<u64>),
    Failed,
}

/// The 56-byte schedule that keeps a socket in `state`.
pub open spec fn schedule_bytes(state: SwitchState) -> Seq<u8> {
    Seq::new(
        56,
        |i: int|
            match state {
                SwitchState::AlwaysOn => if i == 5 { 0xa5u8 } else { 0xffu8 },
                SwitchState::AlwaysOff => if i == 5 { 0x25u8 } else { 0x7fu8 },
            },
    )
}

/// Builds the schedule that keeps a socket in `state`.
pub fn schedule_for(state: SwitchState) -> (r: [u8; 56])
    ensures
        r@ == schedule_bytes(state),
{
    let mut r = match state {
        SwitchState::AlwaysOn => [0xffu8; 56],
        SwitchState::AlwaysOff => [0x7fu8; 56],
    };
    match state {
        SwitchState::AlwaysOn => { r[5] = 0xa5; },
        SwitchState::AlwaysOff => { r[5] = 0x25; },
    }
    assert(r@ =~= schedule_bytes(state));
    r
}

/// `a` sends `frame` and then reads `n` bytes.
pub open spec fn sends(a: Action, frame: Seq<u8>, n: int) -> bool {
    a is Transmit && a->Transmit_0@ == frame && a->Transmit_1 == n
}

/// The session is broken and the operation ends with `e`.
pub open spec fn fails(d2: Dongle, a: Action, e: DongleError) -> bool {
    d2.phase == Phase::Broken && a == Action::Done(Err(e))
}

/// The operation is over with `reply`, and the session is ready again.
pub open spec fn finishes(d2: Dongle, a: Action, reply: Reply) -> bool {
    d2.phase == Phase::Ready && a == Action::Done(Ok(reply))
}

/// On a frame that passed its checks (`status`), `ok` holds; on one that
/// failed, the operation fails with the check's error; on any other event it
/// fails on the transport.
pub open spec fn on_frame(e: Event, status: Result<(), FrameError>, ok: bool, d2: Dongle, a: Action) -> bool {
    match e {
        Event::Received(_) => match status {
            Ok(_) => ok,
            Err(x) => fails(d2, a, DongleError::MessageFailure(x)),
        },
        _ => fails(d2, a, DongleError::SerialConnectionError),
    }
}

/// The bytes an event carries, if it carries any.
pub open spec fn bytes_of(e: Event) -> Seq<u8> {
    match e {
        Event::Received(b) => b@,
        _ => seq![],
    }
}

/// The deadline that a clock reading of `now` starts.
pub open spec fn deadline_from(now: u64) -> u64 {
    if now + COMMISSION_TIMEOUT_MS <= u64::MAX {
        (now + COMMISSION_TIMEOUT_MS) as u64
    } else {
        u64::MAX
    }
}

/// `id` is the device that the broadcast frame `f` announces.
pub open spec fn announces(f: Seq<u8>, id: DongleId) -> bool {
    be16(id.network) == f.subrange(4, 6) && be64(id.device) == f.subrange(6, 14)
}

/// `v` holds the samples of the samples frame `f`, in order.
pub open spec fn samples_in(f: Seq<u8>, v: Seq<u16>) -> bool {
    v.len() == f[14] && samples_bytes(v) == f.subrange(18, 18 + 2 * f[14])
}

/// The session's step on event `e`: from `d` to `d2`, asking `a`.
pub open spec fn transition(d: Dongle, e: Event, d2: Dongle, a: Action) -> bool {
    let b = bytes_of(e);
    match d.phase {
        Phase::Ready | Phase::Broken | Phase::Closed => d2.phase == d.phase && a
            == Action::Done(Err(DongleError::SerialConnectionError)),
        Phase::Boot => on_frame(
            e,
            BootResponse::status(b),
            d2.phase == Phase::BootConfirm && sends(a, BootConfirmRequest {}.wire(), 6),
            d2,
            a,
        ),
        Phase::BootConfirm => on_frame(
            e,
            BootConfirmResponse::status(b),
            finishes(d2, a, Reply::Opened),
            d2,
            a,
        ),
        Phase::Handshake => on_frame(
            e,
            HandshakeResponse::status(b),
            finishes(d2, a, Reply::Network(HandshakeResponse {})),
            d2,
            a,
        ),
        Phase::SamplesAck => on_frame(
            e,
            AckResponse::status(b),
            d2.phase == Phase::SamplesHeader && a == Action::Receive(4),
            d2,
            a,
        ),
        Phase::SamplesHeader | Phase::CommissionHeader { .. } => match e {
            Event::Received(h) => if h@.len() >= 4 {
                &&& d2.phase == match d.phase {
                    Phase::CommissionHeader { deadline } => Phase::CommissionBody { deadline },
                    _ => Phase::SamplesBody,
                }
                &&& d2.header@ == h@
                &&& a == Action::Receive((h@[3] + 1) as usize)
            } else {
                fails(d2, a, DongleError::MessageFailure(FrameError::Truncated))
            },
            _ => fails(d2, a, DongleError::SerialConnectionError),
        },
        Phase::SamplesBody => {
            let f = d.header@ + b;
            on_frame(
                e,
                SamplesResponse::status(f),
                d2.phase == Phase::Ready && a is Done && a->Done_0 is Ok && a->Done_0->Ok_0 is Samples
                    && samples_in(f, a->Done_0->Ok_0->Samples_0@),
                d2,
                a,
            )
        },
        Phase::Schedule => on_frame(
            e,
            ScheduleResponse::status(b),
            finishes(d2, a, Reply::Switched(ScheduleResponse {})),
            d2,
            a,
        ),
        Phase::Unlock | Phase::Lock => on_frame(
            e,
            LockResponse::status(b),
            finishes(d2, a, Reply::Locked(LockResponse {})),
            d2,
            a,
        ),
        Phase::CommissionUnlock => on_frame(
            e,
            LockResponse::status(b),
            d2.phase == Phase::CommissionStart && a == Action::ReadClock,
            d2,
            a,
        ),
        Phase::CommissionStart => match e {
            Event::Clock(now) => d2.phase == (Phase::CommissionHeader { deadline: deadline_from(now) })
                && a == Action::Receive(4),
            _ => fails(d2, a, DongleError::SerialConnectionError),
        },
        Phase::CommissionCheck { deadline } => match e {
            Event::Clock(now) => if now > deadline {
                finishes(d2, a, Reply::Commission(CommissionStatus::Unknown))
            } else {
                d2.phase == (Phase::CommissionHeader { deadline }) && a == Action::Receive(4)
            },
            _ => fails(d2, a, DongleError::SerialConnectionError),
        },
        Phase::CommissionBody { deadline } => {
            let f = d.header@ + b;
            match e {
                Event::Received(_) => if command_of(f) != BROADCAST_COMMAND {
                    d2.phase == (Phase::CommissionCheck { deadline }) && a == Action::ReadClock
                } else {
                    match BroadcastResponse::status(f) {
                        Ok(_) => d2.phase is CommissionTime && announces(f, d2.phase->CommissionTime_id)
                            && a == Action::ReadTime,
                        Err(x) => fails(d2, a, DongleError::MessageFailure(x)),
                    }
                },
                _ => fails(d2, a, DongleError::SerialConnectionError),
            }
        },
        Phase::CommissionTime { id } => match e {
            Event::Time(Some(secs)) => d2.phase == (Phase::UpdateTimeAck { id }) && sends(
                a,
                UpdateTimeRequest { network_id: id.network, time: (secs % 0x1_0000_0000) as u32 }.wire(),
                6,
            ),
            Event::Time(None) => d2.phase == (Phase::CommissionLock { id }) && sends(
                a,
                LockRequest {}.wire(),
                6,
            ),
            _ => fails(d2, a, DongleError::SerialConnectionError),
        },
        Phase::UpdateTimeAck { id } => on_frame(
            e,
            UpdateTimeAckResponse::status(b),
            d2.phase == (Phase::UpdateTimeConfirm { id }) && a == Action::Receive(8),
            d2,
            a,
        ),
        Phase::UpdateTimeConfirm { id } => on_frame(
            e,
            UpdateTimeResponse::status(b),
            d2.phase == (Phase::CommissionLock { id }) && sends(a, LockRequest {}.wire(), 6),
            d2,
            a,
        ),
        Phase::CommissionLock { id } => on_frame(
            e,
            LockResponse::status(b),
            finishes(d2, a, Reply::Commission(CommissionStatus::Commissioned(id))),
            d2,
            a,
        ),
    }
}

/// A session with the dongle, driven by events from the transport.
///
/// Each operation returns the first action; the driver performs each action,
/// hands the outcome back to `handle`, and stops at `Action::Done`.
pub struct Dongle {
    pub phase: Phase,
    /// The header of the frame being read in two parts.
    pub header: Vec<u8>,
}

/// Commissioning is waiting for the unlock answer or listening for a device.
pub open spec fn listening(p: Phase) -> bool {
    p is CommissionUnlock || p is CommissionStart || p is CommissionCheck || p is CommissionHeader
        || p is CommissionBody
}

/// The deadline of a listening phase that has one.
pub open spec fn deadline_of(p: Phase) -> u64 {
    match p {
        Phase::CommissionCheck { deadline } => deadline,
        Phase::CommissionHeader { deadline } => deadline,
        Phase::CommissionBody { deadline } => deadline,
        _ => 0,
    }
}

/// Event `e` completes a frame with the broadcast command id.
pub open spec fn completes_broadcast(d: Dongle, e: Event) -> bool {
    d.phase is CommissionBody && e is Received && command_of(d.header@ + bytes_of(e)) == BROADCAST_COMMAND
}

/// While no broadcast frame arrives, commissioning sends nothing after its one
/// unlock request: each step either goes on listening, with the deadline it
/// started, asking only to read bytes or a clock, or ends the operation. It
/// ends with `Unknown` exactly when a clock reading passes the deadline, and
/// the network is then left unlocked, as no lock request was sent.
pub proof fn lemma_commission_timeout(d: Dongle, e: Event, d2: Dongle, a: Action)
    requires
        d.wf(),
        listening(d.phase),
        transition(d, e, d2, a),
        !completes_broadcast(d, e),
    ensures
        !(a is Transmit),
        a is Done || listening(d2.phase),
        !(a is Done) && !(d.phase is CommissionUnlock) && !(d.phase is CommissionStart) ==> deadline_of(d2.phase)
            == deadline_of(d.phase),
        d.phase is CommissionStart && e is Clock ==> d2.phase == (Phase::CommissionHeader {
            deadline: deadline_from(e->Clock_0),
        }),
        (a == Action::Done(Ok(Reply::Commission(CommissionStatus::Unknown)))) <==> (d.phase is CommissionCheck
            && e is Clock && e->Clock_0 > deadline_of(d.phase)),
        a is Done ==> a == Action::Done(Ok(Reply::Commission(CommissionStatus::Unknown)))
            || a->Done_0 is Err,
{
}

impl Dongle {
    /// A frame read in two parts has its whole header.
    pub open spec fn wf(&self) -> bool {
        (self.phase is SamplesBody || self.phase is CommissionBody) ==> self.header@.len() >= 4
    }

    /// Starts a session on a freshly opened transport: boot, then boot
    /// confirmation.
    pub fn open() -> (r: (Dongle, Action))
        ensures
            r.0.phase == Phase::Boot,
            r.0.wf(),
            sends(r.1, BootRequest {}.wire(), 27),
    {
        let mut dongle = Dongle { phase: Phase::Ready, header: Vec::new() };
        let first = dongle.boot();
        (dongle, first)
    }

    /// Sends the boot request; its answer is 27 bytes long.
    fn boot(&mut self) -> (r: Action)
        ensures
            final(self).phase == Phase::Boot,
            final(self).header == old(self).header,
            sends(r, BootRequest {}.wire(), 27),
    {
        self.phase = Phase::Boot;
        Action::Transmit(BootRequest {}.encode(), 27)
    }

    /// Sends the boot confirmation request; its answer is 6 bytes long.
    fn boot_confirm(&mut self) -> (r: Action)
        ensures
            final(self).phase == Phase::BootConfirm,
            sends(r, BootConfirmRequest {}.wire(), 6),
    {
        self.phase = Phase::BootConfirm;
        Action::Transmit(BootConfirmRequest {}.encode(), 6)
    }

    /// Selects the network that later commands address.
    pub fn select_network(&mut self, network_id: u16) -> (r: Action)
        requires
            old(self).phase == Phase::Ready,
        ensures
            final(self).phase == Phase::Handshake,
            sends(r, HandshakeRequest { network_id }.wire(), 6),
    {
        self.phase = Phase::Handshake;
        Action::Transmit(HandshakeRequest { network_id }.encode(), 6)
    }

    /// Asks for the power samples of a socket.
    pub fn request_samples(&mut self, network_id: u16, channel_id: u16) -> (r: Action)
        requires
            old(self).phase == Phase::Ready,
        ensures
            final(self).phase == Phase::SamplesAck,
            sends(r, SamplesRequest { network_id, channel_id }.wire(), 6),
    {
        self.phase = Phase::SamplesAck;
        Action::Transmit(SamplesRequest { network_id, channel_id }.encode(), 6)
    }

    /// Keeps a socket on or off by programming its schedule.
    pub fn switch(&mut self, network_id: u16, channel_id: u8, state: SwitchState) -> (r: Action)
        requires
            old(self).phase == Phase::Ready,
        ensures
            final(self).phase == Phase::Schedule,
            sends(r, frame_bytes(0x4023, be16(network_id) + seq![channel_id] + schedule_bytes(state)), 6),
    {
        let schedule = schedule_for(state);
        let request = ScheduleRequest { network_id, channel_id, schedule };
        self.phase = Phase::Schedule;
        Action::Transmit(request.encode(), 6)
    }

    /// Opens the network to new devices.
    pub fn unlock_network(&mut self) -> (r: Action)
        requires
            old(self).phase == Phase::Ready,
        ensures
            final(self).phase == Phase::Unlock,
            sends(r, UnlockRequest {}.wire(), 6),
    {
        self.phase = Phase::Unlock;
        Action::Transmit(UnlockRequest {}.encode(), 6)
    }

    /// Closes the network to new devices.
    pub fn lock_network(&mut self) -> (r: Action)
        requires
            old(self).phase == Phase::Ready,
        ensures
            final(self).phase == Phase::Lock,
            sends(r, LockRequest {}.wire(), 6),
    {
        self.phase = Phase::Lock;
        Action::Transmit(LockRequest {}.encode(), 6)
    }

    /// Listens for a new device: unlocks the network, waits for a broadcast
    /// until the deadline, sets the device's clock, and locks the network.
    pub fn commission(&mut self) -> (r: Action)
        requires
            old(self).phase == Phase::Ready,
        ensures
            final(self).phase == Phase::CommissionUnlock,
            sends(r, UnlockRequest {}.wire(), 6),
    {
        self.phase = Phase::CommissionUnlock;
        Action::Transmit(UnlockRequest {}.encode(), 6)
    }

    /// Ends the session; closing twice asks the transport only once.
    pub fn drop(&mut self) -> (r: Action)
        ensures
            final(self).phase == Phase::Closed,
            old(self).phase != Phase::Closed ==> r == Action::Close,
            old(self).phase == Phase::Closed ==> r == Action::Done(Ok(Reply::Closed)),
    {
        if self.phase == Phase::Closed {
            Action::Done(Ok(Reply::Closed))
        } else {
            self.phase = Phase::Closed;
            Action::Close
        }
    }

    fn fail(&mut self, e: DongleError) -> (r: Action)
        ensures
            fails(*final(self), r, e),
    {
        self.phase = Phase::Broken;
        Action::Done(Err(e))
    }

    fn finish(&mut self, reply: Reply) -> (r: Action)
        ensures
            finishes(*final(self), r, reply),
    {
        self.phase = Phase::Ready;
        Action::Done(Ok(reply))
    }

    /// Reads a header and asks for the rest of its frame.
    fn take_header(&mut self, h: Vec<u8>, next: Phase) -> (r: Action)
        ensures
            h@.len() >= 4 ==> final(self).phase == next && final(self).header@ == h@ && r
                == Action::Receive((h@[3] + 1) as usize),
            h@.len() < 4 ==> fails(*final(self), r, DongleError::MessageFailure(FrameError::Truncated)),
    {
        if h.len() < 4 {
            return self.fail(DongleError::MessageFailure(FrameError::Truncated));
        }
        let n = remaining_len(h.as_slice());
        self.header = h;
        self.phase = next;
        Action::Receive(n)
    }

    /// The header read before, followed by `body`.
    fn joined(&self, body: &Vec<u8>) -> (r: Vec<u8>)
        ensures
            r@ == self.header@ + body@,
    {
        let mut f = self.header.clone();
        let mut i: usize = 0;
        while i < body.len()
            invariant
                i <= body@.len(),
                f@ == self.header@ + body@.subrange(0, i as int),
            decreases body@.len() - i,
        {
            f.push(body[i]);
            assert(self.header@ + body@.subrange(0, i + 1) =~= (self.header@ + body@.subrange(0, i as int)).push(body@[i as int]));
            i = i + 1;
        }
        assert(body@.subrange(0, body@.len() as int) =~= body@);
        f
    }

    /// Advances the operation in flight by one event from the transport.
    /// An event while no operation is in flight is refused and changes nothing.
    pub fn handle(&mut self, event: Event) -> (r: Action)
        requires
            old(self).wf(),
        ensures
            transition(*old(self), event, *final(self), r),
            final(self).wf(),
    {
        match self.phase {
            Phase::Ready | Phase::Broken | Phase::Closed => {
                Action::Done(Err(DongleError::SerialConnectionError))
            },
            Phase::Boot | Phase::BootConfirm | Phase::Handshake | Phase::Schedule | Phase::Unlock
            | Phase::Lock => self.handle_reply(event),
            Phase::SamplesAck | Phase::SamplesHeader | Phase::SamplesBody => self.handle_samples(event),
            Phase::CommissionUnlock | Phase::CommissionStart | Phase::CommissionCheck { .. }
            | Phase::CommissionHeader { .. } | Phase::CommissionBody { .. } => self.handle_listen(event),
            Phase::CommissionTime { .. } | Phase::UpdateTimeAck { .. } | Phase::UpdateTimeConfirm { .. }
            | Phase::CommissionLock { .. } => self.handle_found(event),
        }
    }

    /// Boot, boot confirmation, and single-answer exchanges.
    fn handle_reply(&mut self, event: Event) -> (r: Action)
        requires
            old(self).wf(),
            old(self).phase is Boot || old(self).phase is BootConfirm || old(self).phase is Handshake
                || old(self).phase is Schedule || old(self).phase is Unlock || old(self).phase is Lock,
        ensures
            transition(*old(self), event, *final(self), r),
            final(self).wf(),
    {
        match self.phase {
            Phase::Boot => match event {
                Event::Received(b) => match BootResponse::decode(b.as_slice()) {
                    Ok(_) => self.boot_confirm(),
                    Err(x) => self.fail(DongleError::MessageFailure(x)),
                },
                _ => self.fail(DongleError::SerialConnectionError),
            },
            Phase::BootConfirm => match event {
                Event::Received(b) => match BootConfirmResponse::decode(b.as_slice()) {
                    Ok(_) => self.finish(Reply::Opened),
                    Err(x) => self.fail(DongleError::MessageFailure(x)),
                },
                _ => self.fail(DongleError::SerialConnectionError),
            },
            Phase::Handshake => match event {
                Event::Received(b) => match HandshakeResponse::decode(b.as_slice()) {
                    Ok(m) => self.finish(Reply::Network(m)),
                    Err(x) => self.fail(DongleError::MessageFailure(x)),
                },
                _ => self.fail(DongleError::SerialConnectionError),
            },
            Phase::Schedule => match event {
                Event::Received(b) => match ScheduleResponse::decode(b.as_slice()) {
                    Ok(m) => self.finish(Reply::Switched(m)),
                    Err(x) => self.fail(DongleError::MessageFailure(x)),
                },
                _ => self.fail(DongleError::SerialConnectionError),
            },
            Phase::Unlock | Phase::Lock => match event {
                Event::Received(b) => match LockResponse::decode(b.as_slice()) {
                    Ok(m) => self.finish(Reply::Locked(m)),
                    Err(x) => self.fail(DongleError::MessageFailure(x)),
                },
                _ => self.fail(DongleError::SerialConnectionError),
            },
            _ => Action::Done(Err(DongleError::SerialConnectionError)),
        }
    }

    /// The samples exchange.
    fn handle_samples(&mut self, event: Event) -> (r: Action)
        requires
            old(self).wf(),
            old(self).phase is SamplesAck || old(self).phase is SamplesHeader || old(self).phase is SamplesBody,
        ensures
            transition(*old(self), event, *final(self), r),
            final(self).wf(),
    {
        match self.phase {
            Phase::SamplesAck => match event {
                Event::Received(b) => match AckResponse::decode(b.as_slice()) {
                    Ok(_) => {
                        self.phase = Phase::SamplesHeader;
                        Action::Receive(4)
                    },
                    Err(x) => self.fail(DongleError::MessageFailure(x)),
                },
                _ => self.fail(DongleError::SerialConnectionError),
            },
            Phase::SamplesHeader => match event {
                Event::Received(h) => self.take_header(h, Phase::SamplesBody),
                _ => self.fail(DongleError::SerialConnectionError),
            },
            Phase::SamplesBody => match event {
                Event::Received(body) => {
                    let f = self.joined(&body);
                    match SamplesResponse::decode(f.as_slice()) {
                        Ok(m) => {
                            proof {
                                let n = samples_payload_len(f@);
                                lemma_samples_bytes_len(m.samples@);
                                let pre = be16(m.network_id) + be16(m.channel_id) + be16(m.data) + le32(m.time)
                                    + seq![m.sample_count] + m.stored_sample_count@;
                                assert(pre.len() == 14);
                                assert(m.payload() == pre + samples_bytes(m.samples@));
                                assert(m.payload().len() == n);
                                assert(m.payload().subrange(14, n) =~= samples_bytes(m.samples@));
                                assert(payload_of(f@, n).subrange(14, n) =~= f@.subrange(18, 18 + 2 * f@[14]));
                            }
                            self.finish(Reply::Samples(m.samples))
                        },
                        Err(x) => self.fail(DongleError::MessageFailure(x)),
                    }
                },
                _ => self.fail(DongleError::SerialConnectionError),
            },
            _ => Action::Done(Err(DongleError::SerialConnectionError)),
        }
    }

    /// Commissioning until a device is found.
    fn handle_listen(&mut self, event: Event) -> (r: Action)
        requires
            old(self).wf(),
            old(self).phase is CommissionUnlock || old(self).phase is CommissionStart || old(self).phase is CommissionCheck
                || old(self).phase is CommissionHeader || old(self).phase is CommissionBody,
        ensures
            transition(*old(self), event, *final(self), r),
            final(self).wf(),
    {
        match self.phase {
            Phase::CommissionUnlock => match event {
                Event::Received(b) => match LockResponse::decode(b.as_slice()) {
                    Ok(_) => {
                        self.phase = Phase::CommissionStart;
                        Action::ReadClock
                    },
                    Err(x) => self.fail(DongleError::MessageFailure(x)),
                },
                _ => self.fail(DongleError::SerialConnectionError),
            },
            Phase::CommissionStart => match event {
                Event::Clock(now) => {
                    let deadline = now.saturating_add(COMMISSION_TIMEOUT_MS);
                    self.phase = Phase::CommissionHeader { deadline };
                    Action::Receive(4)
                },
                _ => self.fail(DongleError::SerialConnectionError),
            },
            Phase::CommissionCheck { deadline } => match event {
                Event::Clock(now) => {
                    if now > deadline {
                        self.finish(Reply::Commission(CommissionStatus::Unknown))
                    } else {
                        self.phase = Phase::CommissionHeader { deadline };
                        Action::Receive(4)
                    }
                },
                _ => self.fail(DongleError::SerialConnectionError),
            },
            Phase::CommissionHeader { deadline } => match event {
                Event::Received(h) => self.take_header(h, Phase::CommissionBody { deadline }),
                _ => self.fail(DongleError::SerialConnectionError),
            },
            Phase::CommissionBody { deadline } => match event {
                Event::Received(body) => {
                    let f = self.joined(&body);
                    let command: u16 = f[1] as u16 * 256 + f[2] as u16;
                    if command != BROADCAST_COMMAND {
                        self.phase = Phase::CommissionCheck { deadline };
                        Action::ReadClock
                    } else {
                        match BroadcastResponse::decode(f.as_slice()) {
                            Ok(m) => {
                                proof {
                                    assert(m.payload().subrange(0, 2) =~= be16(m.network_id));
                                    assert(m.payload().subrange(2, 10) =~= be64(m.device_id));
                                    assert(payload_of(f@, 11).subrange(0, 2) =~= f@.subrange(4, 6));
                                    assert(payload_of(f@, 11).subrange(2, 10) =~= f@.subrange(6, 14));
                                }
                                let id = DongleId { device: m.device_id, network: m.network_id };
                                self.phase = Phase::CommissionTime { id };
                                Action::ReadTime
                            },
                            Err(x) => self.fail(DongleError::MessageFailure(x)),
                        }
                    }
                },
                _ => self.fail(DongleError::SerialConnectionError),
            },
            _ => Action::Done(Err(DongleError::SerialConnectionError)),
        }
    }

    /// Commissioning once a device is found.
    fn handle_found(&mut self, event: Event) -> (r: Action)
        requires
            old(self).wf(),
            old(self).phase is CommissionTime || old(self).phase is UpdateTimeAck || old(self).phase is UpdateTimeConfirm
                || old(self).phase is CommissionLock,
        ensures
            transition(*old(self), event, *final(self), r),
            final(self).wf(),
    {
        match self.phase {
            Phase::CommissionTime { id } => match event {
                Event::Time(Some(secs)) => {
                    self.update_time(id, secs)
                },
                Event::Time(None) => {
                    self.phase = Phase::CommissionLock { id };
                    Action::Transmit(LockRequest {}.encode(), 6)
                },
                _ => self.fail(DongleError::SerialConnectionError),
            },
            Phase::UpdateTimeAck { id } => match event {
                Event::Received(b) => match UpdateTimeAckResponse::decode(b.as_slice()) {
                    Ok(_) => {
                        self.phase = Phase::UpdateTimeConfirm { id };
                        Action::Receive(8)
                    },
                    Err(x) => self.fail(DongleError::MessageFailure(x)),
                },
                _ => self.fail(DongleError::SerialConnectionError),
            },
            Phase::UpdateTimeConfirm { id } => match event {
                Event::Received(b) => match UpdateTimeResponse::decode(b.as_slice()) {
                    Ok(_) => {
                        self.phase = Phase::CommissionLock { id };
                        Action::Transmit(LockRequest {}.encode(), 6)
                    },
                    Err(x) => self.fail(DongleError::MessageFailure(x)),
                },
                _ => self.fail(DongleError::SerialConnectionError),
            },
            Phase::CommissionLock { id } => match event {
                Event::Received(b) => match LockResponse::decode(b.as_slice()) {
                    Ok(_) => self.finish(Reply::Commission(CommissionStatus::Commissioned(id))),
                    Err(x) => self.fail(DongleError::MessageFailure(x)),
                },
                _ => self.fail(DongleError::SerialConnectionError),
            },

            _ => Action::Done(Err(DongleError::SerialConnectionError)),
        }
    }

    /// Sends the found device's network the wall-clock time, cut to the 32 bits
    /// that the protocol carries.
    fn update_time(&mut self, id: DongleId, secs: u64) -> (r: Action)
        ensures
            final(self).phase == (Phase::UpdateTimeAck { id }),
            sends(
                r,
                UpdateTimeRequest { network_id: id.network, time: (secs % 0x1_0000_0000) as u32 }.wire(),
                6,
            ),
    {
        let request = UpdateTimeRequest { network_id: id.network, time: (secs % 0x1_0000_0000) as u32 };
        self.phase = Phase::UpdateTimeAck { id };
        Action::Transmit(request.encode(), 6)
    }
}

} // verus!
