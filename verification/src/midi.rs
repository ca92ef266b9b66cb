//! USB-MIDI 1.0 packetization: a raw serial MIDI byte stream (the kind a DIN or
//! TRS MIDI-IN delivers over a 31250-baud UART) becomes 32-bit USB-MIDI Event
//! Packets, the unit a USB-MIDI bulk IN endpoint carries to the host.
//!
//! Bytes go one at a time to [`UsbMidiEncoder::push`]; each yields at most one
//! packet. The encoder handles running status, System Real-Time bytes that
//! arrive inside another message, System Common, and SysEx chunking.
//!
//! The behaviour is stated over [`Wire`], the abstract state of the byte stream,
//! and [`wire_step`], what one byte does to it.
use vstd::prelude::*;

verus! {

/// A 32-bit USB-MIDI Event Packet: `[(cable << 4) | CIN, status, data1, data2]`.
pub type EventPacket = [u8; 4];

/// Where a serial MIDI stream stands between two bytes.
#[verifier::ext_equal]
pub enum Wire {
    /// No status to attach a data byte to.
    Idle,
    /// `status` is active and `data` has arrived for the message under way.
    Message { status: u8, data: Seq<u8> },
    /// Inside a SysEx message, with `chunk` not sent yet.
    SysEx { chunk: Seq<u8> },
}

/// Data bytes that follow `status`: one for Program Change, Channel Pressure,
/// MTC Quarter Frame and Song Select, two otherwise.
pub open spec fn data_len(status: u8) -> nat {
    if 0xC0 <= status < 0xE0 || status == 0xF1 || status == 0xF3 {
        1
    } else {
        2
    }
}

/// Statuses that open a message with data bytes: channel voice, and the three
/// System Common statuses that carry data.
pub open spec fn opens_message(b: u8) -> bool {
    0x80 <= b < 0xF0 || b == 0xF1 || b == 0xF2 || b == 0xF3
}

/// A packet's bytes: header, then up to three payload bytes, padded with zeros.
pub open spec fn packet(cable: nat, cin: nat, payload: Seq<u8>) -> Seq<u8> {
    seq![
        (cable * 16 + cin) as u8,
        if payload.len() > 0 { payload[0] } else { 0u8 },
        if payload.len() > 1 { payload[1] } else { 0u8 },
        if payload.len() > 2 { payload[2] } else { 0u8 },
    ]
}

/// Code Index Number of a complete message that `status` opened.
pub open spec fn message_cin(status: u8) -> nat {
    if status == 0xF2 {
        3
    } else if status >= 0xF0 {
        2
    } else {
        (status / 16) as nat
    }
}

/// A status byte arriving outside SysEx.
pub open spec fn status_step(cable: nat, w: Wire, b: u8) -> (Wire, Option<Seq<u8>>) {
    if b == 0xF0 {
        (Wire::SysEx { chunk: seq![0xF0u8] }, None)
    } else if b == 0xF7 {
        (w, None)
    } else if b == 0xF6 {
        (Wire::Idle, Some(packet(cable, 5, seq![0xF6u8])))
    } else if opens_message(b) {
        (Wire::Message { status: b, data: Seq::empty() }, None)
    } else {
        (Wire::Idle, None)
    }
}

/// A data byte for the message that `status` opened.
pub open spec fn data_step(cable: nat, status: u8, data: Seq<u8>, b: u8) -> (
    Wire,
    Option<Seq<u8>>,
) {
    let all = data.push(b);
    if all.len() < data_len(status) {
        (Wire::Message { status, data: all }, None)
    } else {
        (
            if status >= 0xF0 {
                Wire::Idle
            } else {
                Wire::Message { status, data: Seq::empty() }
            },
            Some(packet(cable, message_cin(status), seq![status] + all)),
        )
    }
}

/// A SysEx data byte, or the End-of-Exclusive byte.
pub open spec fn sysex_step(cable: nat, chunk: Seq<u8>, b: u8) -> (Wire, Option<Seq<u8>>) {
    let all = chunk.push(b);
    if b == 0xF7 {
        (Wire::Idle, Some(packet(cable, 4 + all.len(), all)))
    } else if all.len() == 3 {
        (Wire::SysEx { chunk: Seq::empty() }, Some(packet(cable, 4, all)))
    } else {
        (Wire::SysEx { chunk: all }, None)
    }
}

/// What one byte does to the stream, and the packet it completes.
pub open spec fn wire_step(cable: nat, w: Wire, b: u8) -> (Wire, Option<Seq<u8>>) {
    if b >= 0xF8 {
        (w, Some(packet(cable, 15, seq![b])))
    } else {
        match w {
            Wire::SysEx { chunk } => if b >= 0x80 && b != 0xF7 {
                status_step(cable, Wire::Idle, b)
            } else {
                sysex_step(cable, chunk, b)
            },
            Wire::Message { status, data } => if b >= 0x80 {
                status_step(cable, w, b)
            } else {
                data_step(cable, status, data, b)
            },
            Wire::Idle => if b >= 0x80 {
                status_step(cable, w, b)
            } else {
                (w, None)
            },
        }
    }
}

/// The states a stream can be in: a message is shorter than its status asks
/// for, and a SysEx chunk is not full.
pub open spec fn wire_valid(w: Wire) -> bool {
    match w {
        Wire::Idle => true,
        Wire::Message { status, data } => opens_message(status) && data.len() < data_len(status),
        Wire::SysEx { chunk } => chunk.len() < 3,
    }
}

/// State of the stream after `bytes`.
pub open spec fn wire_after(cable: nat, w: Wire, bytes: Seq<u8>) -> Wire
    decreases bytes.len(),
{
    if bytes.len() == 0 {
        w
    } else {
        wire_step(cable, wire_after(cable, w, bytes.drop_last()), bytes.last()).0
    }
}

/// The packets that `bytes` completes, in order.
pub open spec fn packets_of(cable: nat, w: Wire, bytes: Seq<u8>) -> Seq<Seq<u8>>
    decreases bytes.len(),
{
    if bytes.len() == 0 {
        Seq::empty()
    } else {
        let before = packets_of(cable, w, bytes.drop_last());
        match wire_step(cable, wire_after(cable, w, bytes.drop_last()), bytes.last()).1 {
            Some(p) => before.push(p),
            None => before,
        }
    }
}

/// The view of an optional packet as a sequence of bytes.
pub open spec fn packet_view(p: Option<EventPacket>) -> Option<Seq<u8>> {
    match p {
        Some(a) => Some(a@),
        None => None,
    }
}

/// Serial-MIDI to USB-MIDI event-packet encoder for one virtual cable.
#[derive(Debug, Clone)]
pub struct UsbMidiEncoder {
    cable: u8,
    /// Active channel-voice or system-common status; 0 = none.
    status: u8,
    data: [u8; 2],
    /// Data bytes collected for the current message.
    count: u8,
    /// Data bytes the current message needs.
    expected: u8,
    sysex: bool,
    /// Current SysEx chunk.
    sx: [u8; 3],
    /// Bytes in the current SysEx chunk.
    sxn: u8,
}

/// Data bytes a channel-voice status carries: 1 for Program Change (`0xC`) and
/// Channel Pressure (`0xD`), 2 for everything else.
pub fn channel_data_len(status: u8) -> (n: u8)
    ensures
        n == if 0xC0 <= status < 0xE0 {
            1int
        } else {
            2int
        },
{
    match status / 16 {
        0xC | 0xD => 1,
        _ => 2,
    }
}

impl UsbMidiEncoder {
    /// The cable number that every packet carries.
    pub closed spec fn cable(&self) -> nat {
        self.cable as nat
    }

    /// Where the stream stands.
    pub closed spec fn wire(&self) -> Wire {
        if self.sysex {
            Wire::SysEx { chunk: self.sx@.take(self.sxn as int) }
        } else if self.status != 0 {
            Wire::Message { status: self.status, data: self.data@.take(self.count as int) }
        } else {
            Wire::Idle
        }
    }

    /// Validity of an encoder.
    pub closed spec fn wf(&self) -> bool {
        &&& self.cable < 16
        &&& self.sysex ==> {
            &&& self.status == 0
            &&& self.sxn < 3
            &&& forall|i: int| self.sxn <= i < 3 ==> self.sx@[i] == 0
        }
        &&& self.status != 0 ==> {
            &&& opens_message(self.status)
            &&& self.expected == data_len(self.status)
            &&& self.count < self.expected
        }
    }

    /// New encoder tagging every packet with `cable` (the USB-MIDI cable number,
    /// 0..=15: one virtual port per cable).
    #[must_use]
    pub fn new(cable: u8) -> (e: Self)
        ensures
            e.wf(),
            e.cable() == cable % 16,
            e.wire() == Wire::Idle,
    {
        UsbMidiEncoder {
            cable: cable % 16,
            status: 0,
            data: [0, 0],
            count: 0,
            expected: 0,
            sysex: false,
            sx: [0, 0, 0],
            sxn: 0,
        }
    }

    /// Header byte of a packet with Code Index Number `cin`.
    fn hdr(&self, cin: u8) -> (h: u8)
        requires
            self.cable() < 16,
            cin < 16,
        ensures
            h == self.cable() * 16 + cin,
    {
        self.cable * 16 + cin
    }

    /// Feed one serial MIDI byte. Returns a complete event packet if this byte
    /// finished a message (or is a real-time byte), else `None`.
    pub fn push(&mut self, b: u8) -> (p: Option<EventPacket>)
        requires
            old(self).wf(),
        ensures
            final(self).wf(),
            final(self).cable() == old(self).cable(),
            final(self).wire() == wire_step(old(self).cable(), old(self).wire(), b).0,
            packet_view(p) == wire_step(old(self).cable(), old(self).wire(), b).1,
    {
        if b >= 0xF8 {
            let r = [self.hdr(0x0F), b, 0, 0];
            assert(r@ =~= packet(self.cable(), 15, seq![b]));
            return Some(r);
        }
        if self.sysex {
            return self.push_sysex(b);
        }
        if b >= 0x80 {
            self.push_status(b)
        } else {
            self.push_data(b)
        }
    }

    fn push_status(&mut self, b: u8) -> (p: Option<EventPacket>)
        requires
            old(self).wf(),
            0x80 <= b < 0xF8,
            !(old(self).wire() is SysEx),
        ensures
            final(self).wf(),
            final(self).cable() == old(self).cable(),
            final(self).wire() == status_step(old(self).cable(), old(self).wire(), b).0,
            packet_view(p) == status_step(old(self).cable(), old(self).wire(), b).1,
    {
        match b {
            0xF0 => {
                self.status = 0;
                self.sysex = true;
                self.sx = [0xF0, 0, 0];
                self.sxn = 1;
                assert(self.sx@.take(1) =~= seq![0xF0u8]);
                None
            },
            0xF7 => None,
            0xF1 | 0xF3 => {
                self.status = b;
                self.expected = 1;
                self.count = 0;
                assert(self.data@.take(0) =~= Seq::empty());
                None
            },
            0xF2 => {
                self.status = b;
                self.expected = 2;
                self.count = 0;
                assert(self.data@.take(0) =~= Seq::empty());
                None
            },
            0xF6 => {
                self.status = 0;
                let r = [self.hdr(0x05), 0xF6, 0, 0];
                assert(r@ =~= packet(self.cable(), 5, seq![0xF6u8]));
                Some(r)
            },
            0xF4 | 0xF5 => {
                self.status = 0;
                None
            },
            _ => {
                self.status = b;
                self.expected = channel_data_len(b);
                self.count = 0;
                assert(self.data@.take(0) =~= Seq::empty());
                None
            },
        }
    }

    fn push_data(&mut self, b: u8) -> (p: Option<EventPacket>)
        requires
            old(self).wf(),
            b < 0x80,
            !(old(self).wire() is SysEx),
        ensures
            final(self).wf(),
            final(self).cable() == old(self).cable(),
            final(self).wire() == wire_step(old(self).cable(), old(self).wire(), b).0,
            packet_view(p) == wire_step(old(self).cable(), old(self).wire(), b).1,
    {
        if self.status == 0 {
            return None;
        }
        let ghost before = self.data@.take(self.count as int);
        self.data[self.count as usize] = b;
        self.count = self.count + 1;
        assert(self.data@.take(self.count as int) =~= before.push(b));
        if self.count < self.expected {
            return None;
        }
        self.count = 0;
        assert(self.data@.take(0) =~= Seq::empty());

        let status = self.status;
        let d1 = self.data[0];
        let d2 = if self.expected == 2 {
            self.data[1]
        } else {
            0
        };
        let cin: u8 = if status >= 0xF0 {
            self.status = 0;
            match status {
                0xF2 => 0x03,
                _ => 0x02,
            }
        } else {
            status / 16
        };
        let r = [self.hdr(cin), status, d1, d2];
        assert(r@ =~= packet(self.cable(), message_cin(status), seq![status] + before.push(b)));
        Some(r)
    }

    fn push_sysex(&mut self, b: u8) -> (p: Option<EventPacket>)
        requires
            old(self).wf(),
            b < 0xF8,
            old(self).wire() is SysEx,
        ensures
            final(self).wf(),
            final(self).cable() == old(self).cable(),
            final(self).wire() == wire_step(old(self).cable(), old(self).wire(), b).0,
            packet_view(p) == wire_step(old(self).cable(), old(self).wire(), b).1,
    {
        // A status byte inside SysEx implicitly ends it (some devices omit the
        // F7): drop the partial chunk and process the byte afresh.
        if b >= 0x80 && b != 0xF7 {
            self.sysex = false;
            self.sxn = 0;
            return self.push_status(b);
        }
        let ghost before = self.sx@.take(self.sxn as int);
        self.sx[self.sxn as usize] = b;
        self.sxn = self.sxn + 1;
        assert(self.sx@.take(self.sxn as int) =~= before.push(b));

        if b == 0xF7 {
            // The Code Index Number tells the bytes in the final chunk.
            let cin: u8 = match self.sxn {
                1 => 0x05,
                2 => 0x06,
                _ => 0x07,
            };
            let r = [self.hdr(cin), self.sx[0], self.sx[1], self.sx[2]];
            assert(r@ =~= packet(self.cable(), 4 + before.push(b).len(), before.push(b)));
            self.reset_sysex();
            return Some(r);
        }
        if self.sxn == 3 {
            let r = [self.hdr(0x04), self.sx[0], self.sx[1], self.sx[2]];
            assert(r@ =~= packet(self.cable(), 4, before.push(b)));
            self.sx = [0, 0, 0];
            self.sxn = 0;
            assert(self.sx@.take(0) =~= Seq::empty());
            return Some(r);
        }
        None
    }

    fn reset_sysex(&mut self)
        requires
            old(self).status == 0,
            old(self).cable < 16,
        ensures
            final(self).wf(),
            final(self).cable() == old(self).cable(),
            final(self).wire() == Wire::Idle,
    {
        self.sysex = false;
        self.sx = [0, 0, 0];
        self.sxn = 0;
    }
}

// ---------------------------------------------------------------------------
// Laws of the stream
// ---------------------------------------------------------------------------

/// The Code Index Number in a packet's header.
pub open spec fn cin_of(p: Seq<u8>) -> nat {
    (p[0] % 16) as nat
}

/// System Real-Time bytes.
pub open spec fn is_realtime(b: u8) -> bool {
    b >= 0xF8
}

/// A stream state stays valid under every byte.
pub proof fn law_states_stay_valid(cable: nat, w: Wire, b: u8)
    requires
        wire_valid(w),
    ensures
        wire_valid(wire_step(cable, w, b).0),
{
}

/// Every state of a well-formed encoder is a valid stream state.
pub proof fn law_encoder_state_is_valid(e: UsbMidiEncoder)
    requires
        e.wf(),
    ensures
        wire_valid(e.wire()),
        e.cable() < 16,
{
}

/// Every packet has four bytes and carries the cable number in the high nibble
/// of its header; its Code Index Number is 15 exactly when the byte that
/// completed it is a System Real-Time byte.
pub proof fn law_packet_shape(cable: nat, w: Wire, b: u8)
    requires
        cable < 16,
        wire_valid(w),
    ensures
        wire_step(cable, w, b).1 matches Some(p) ==> {
            &&& p.len() == 4
            &&& p[0] / 16 == cable
            &&& (cin_of(p) == 15 <==> is_realtime(b))
        },
{
}

/// A System Real-Time byte leaves the stream as it is and is sent at once.
pub proof fn law_realtime_is_sent_at_once(cable: nat, w: Wire, b: u8)
    requires
        is_realtime(b),
    ensures
        wire_step(cable, w, b) == (w, Some(packet(cable, 15, seq![b]))),
{
}

/// States reached over a stream are valid.
pub proof fn law_streams_stay_valid(cable: nat, w: Wire, bytes: Seq<u8>)
    requires
        wire_valid(w),
    ensures
        wire_valid(wire_after(cable, w, bytes)),
    decreases bytes.len(),
{
    if bytes.len() > 0 {
        law_streams_stay_valid(cable, w, bytes.drop_last());
    }
}

/// Feeding one stream after another is feeding their concatenation.
pub proof fn law_streams_compose(cable: nat, w: Wire, a: Seq<u8>, b: Seq<u8>)
    ensures
        wire_after(cable, w, a + b) == wire_after(cable, wire_after(cable, w, a), b),
        packets_of(cable, w, a + b) == packets_of(cable, w, a) + packets_of(
            cable,
            wire_after(cable, w, a),
            b,
        ),
    decreases b.len(),
{
    if b.len() == 0 {
        assert(a + b =~= a);
    } else {
        law_streams_compose(cable, w, a, b.drop_last());
        assert((a + b).drop_last() =~= a + b.drop_last());
    }
}

/// System Real-Time bytes interleaved anywhere disturb nothing: without them the
/// stream ends in the same state and completes the same other packets.
pub proof fn law_realtime_is_transparent(cable: nat, w: Wire, bytes: Seq<u8>)
    requires
        cable < 16,
        wire_valid(w),
    ensures
        wire_after(cable, w, bytes.filter(|b: u8| !is_realtime(b))) == wire_after(cable, w, bytes),
        packets_of(cable, w, bytes.filter(|b: u8| !is_realtime(b))) == packets_of(
            cable,
            w,
            bytes,
        ).filter(|p: Seq<u8>| cin_of(p) != 15),
    decreases bytes.len(),
{
    reveal(Seq::filter);
    if bytes.len() > 0 {
        let rest = bytes.drop_last();
        let b = bytes.last();
        let keep = |b: u8| !is_realtime(b);
        let keep_packet = |p: Seq<u8>| cin_of(p) != 15;
        law_realtime_is_transparent(cable, w, rest);
        law_streams_stay_valid(cable, w, rest);
        law_packet_shape(cable, wire_after(cable, w, rest), b);
        let ps = packets_of(cable, w, rest);
        match wire_step(cable, wire_after(cable, w, rest), b).1 {
            Some(p) => {
                assert(ps.push(p).drop_last() =~= ps);
            },
            None => {},
        }
        if keep(b) {
            assert(bytes.filter(keep) == rest.filter(keep).push(b));
            assert(rest.filter(keep).push(b).drop_last() =~= rest.filter(keep));
        }
    }
}

/// Running status: with a channel-voice status active, each further group of
/// data bytes completes a packet under that status, and the status stays.
pub proof fn law_running_status(cable: nat, status: u8, group: Seq<u8>)
    requires
        0x80 <= status < 0xF0,
        group.len() == data_len(status),
        forall|i: int| 0 <= i < group.len() ==> group[i] < 0x80,
    ensures
        wire_after(cable, Wire::Message { status, data: Seq::empty() }, group)
            == (Wire::Message { status, data: Seq::empty() }),
        packets_of(cable, Wire::Message { status, data: Seq::empty() }, group) == seq![
            packet(cable, (status / 16) as nat, seq![status] + group),
        ],
{
    reveal_with_fuel(wire_after, 3);
    reveal_with_fuel(packets_of, 3);
    let start = Wire::Message { status, data: Seq::empty() };
    let first = group.take(1);
    assert(first.drop_last() =~= Seq::empty());
    if group.len() == 1 {
        assert(first =~= group);
        assert(Seq::empty().push(group[0]) =~= group);
    } else {
        assert(group.drop_last() =~= first);
        assert(Seq::empty().push(group[0]).push(group[1]) =~= group);
    }
}

/// A System Common message ends running status: a data byte after it is dropped.
pub proof fn law_system_common_ends_running_status(cable: nat, w: Wire, status: u8, group: Seq<u8>, b: u8)
    requires
        status == 0xF1 || status == 0xF2 || status == 0xF3,
        group.len() == data_len(status),
        forall|i: int| 0 <= i < group.len() ==> group[i] < 0x80,
        b < 0x80,
    ensures
        wire_after(cable, w, seq![status] + group) == Wire::Idle,
        wire_step(cable, wire_after(cable, w, seq![status] + group), b) == (Wire::Idle, None::<Seq<u8>>),
{
    reveal_with_fuel(wire_after, 4);
    let s = seq![status] + group;
    if group.len() == 1 {
        assert(s.drop_last() =~= seq![status]);
    } else {
        assert(s.drop_last() =~= seq![status, group[0]]);
        assert(s.drop_last().drop_last() =~= seq![status]);
    }
    assert(seq![status].drop_last() =~= Seq::empty());
}

/// The MIDI bytes a SysEx packet carries, by its Code Index Number.
pub open spec fn sysex_payload(p: Seq<u8>) -> Seq<u8> {
    if cin_of(p) == 5 {
        p.subrange(1, 2)
    } else if cin_of(p) == 6 {
        p.subrange(1, 3)
    } else {
        p.subrange(1, 4)
    }
}

/// The bytes a run of SysEx packets carries, end to end.
pub open spec fn sysex_bytes(ps: Seq<Seq<u8>>) -> Seq<u8>
    decreases ps.len(),
{
    if ps.len() == 0 {
        Seq::empty()
    } else {
        sysex_bytes(ps.drop_last()) + sysex_payload(ps.last())
    }
}

proof fn lemma_open_sysex(cable: nat, w: Wire, data: Seq<u8>)
    requires
        cable < 16,
        forall|i: int| 0 <= i < data.len() ==> data[i] < 0x80,
    ensures
        ({
            let s = seq![0xF0u8] + data;
            let end = wire_after(cable, w, s);
            &&& end is SysEx
            &&& end->chunk.len() < 3
            &&& sysex_bytes(packets_of(cable, w, s)) + end->chunk == s
        }),
    decreases data.len(),
{
    let s = seq![0xF0u8] + data;
    if data.len() == 0 {
        assert(s =~= seq![0xF0u8]);
        assert(s.drop_last() =~= Seq::empty());
        reveal_with_fuel(wire_after, 2);
        reveal_with_fuel(packets_of, 2);
        assert(sysex_bytes(packets_of(cable, w, s)) + wire_after(cable, w, s)->chunk =~= s);
    } else {
        let d = data.drop_last();
        let t = seq![0xF0u8] + d;
        lemma_open_sysex(cable, w, d);
        assert(s.drop_last() =~= t);
        let chunk = wire_after(cable, w, t)->chunk;
        let b = data.last();
        let ps = packets_of(cable, w, t);
        if chunk.len() == 2 {
            let p = packet(cable, 4, chunk.push(b));
            assert(packets_of(cable, w, s) == ps.push(p));
            assert(ps.push(p).drop_last() =~= ps);
            assert(sysex_payload(p) =~= chunk.push(b));
            assert(wire_after(cable, w, s)->chunk =~= Seq::empty());
            assert(sysex_bytes(packets_of(cable, w, s)) =~= (sysex_bytes(ps) + chunk).push(b));
        } else {
            assert(packets_of(cable, w, s) == ps);
            assert(wire_after(cable, w, s)->chunk == chunk.push(b));
            assert(sysex_bytes(ps) + chunk.push(b) =~= (sysex_bytes(ps) + chunk).push(b));
        }
        assert(t.push(b) =~= s);
        assert(sysex_bytes(packets_of(cable, w, s)) + wire_after(cable, w, s)->chunk =~= t.push(b));
    }
}

/// A SysEx message is carried whole: whatever came before it, the packets it
/// completes carry exactly its bytes, from `F0` to `F7`, and the stream is idle
/// after it.
pub proof fn law_sysex_is_carried_whole(cable: nat, w: Wire, data: Seq<u8>)
    requires
        cable < 16,
        forall|i: int| 0 <= i < data.len() ==> data[i] < 0x80,
    ensures
        ({
            let s = seq![0xF0u8] + data + seq![0xF7u8];
            &&& sysex_bytes(packets_of(cable, w, s)) == s
            &&& wire_after(cable, w, s) == Wire::Idle
        }),
{
    let t = seq![0xF0u8] + data;
    let s = t + seq![0xF7u8];
    lemma_open_sysex(cable, w, data);
    assert(s.drop_last() =~= t);
    let chunk = wire_after(cable, w, t)->chunk;
    let all = chunk.push(0xF7u8);
    let p = packet(cable, 4 + all.len(), all);
    let ps = packets_of(cable, w, t);
    assert(packets_of(cable, w, s) == ps.push(p));
    assert(ps.push(p).drop_last() =~= ps);
    assert(sysex_payload(p) =~= all);
    assert(sysex_bytes(packets_of(cable, w, s)) =~= s);
}

/// The first `3 * n` bytes of a SysEx message as packets of three.
pub open spec fn sysex_threes(cable: nat, s: Seq<u8>, n: nat) -> Seq<Seq<u8>> {
    Seq::new(n, |j: int| packet(cable, 4, s.subrange(3 * j, 3 * j + 3)))
}

proof fn lemma_open_sysex_is_cut(cable: nat, w: Wire, data: Seq<u8>)
    requires
        forall|i: int| 0 <= i < data.len() ==> data[i] < 0x80,
    ensures
        ({
            let s = seq![0xF0u8] + data;
            let n = s.len() / 3;
            &&& packets_of(cable, w, s) == sysex_threes(cable, s, n)
            &&& wire_after(cable, w, s) == (Wire::SysEx { chunk: s.skip(3 * n as int) })
        }),
    decreases data.len(),
{
    let s = seq![0xF0u8] + data;
    let n = s.len() / 3;
    if data.len() == 0 {
        assert(s =~= seq![0xF0u8]);
        assert(s.drop_last() =~= Seq::empty());
        reveal_with_fuel(wire_after, 2);
        reveal_with_fuel(packets_of, 2);
        assert(s.skip(0) =~= s);
        assert(packets_of(cable, w, s) =~= sysex_threes(cable, s, n));
    } else {
        let d = data.drop_last();
        let t = seq![0xF0u8] + d;
        let m = t.len() / 3;
        lemma_open_sysex_is_cut(cable, w, d);
        assert(s.drop_last() =~= t);
        let chunk = t.skip(3 * m as int);
        assert forall|j: int| 0 <= j < m implies #[trigger] sysex_threes(cable, t, m)[j]
            == sysex_threes(cable, s, n)[j] by {
            assert(t.subrange(3 * j, 3 * j + 3) =~= s.subrange(3 * j, 3 * j + 3));
        }
        if chunk.len() == 2 {
            assert(n == m + 1);
            assert(chunk.push(data.last()) =~= s.subrange(3 * m as int, 3 * m as int + 3));
            assert(s.skip(3 * n as int) =~= Seq::empty());
        } else {
            assert(n == m);
            assert(chunk.push(data.last()) =~= s.skip(3 * n as int));
        }
        assert(packets_of(cable, w, s) =~= sysex_threes(cable, s, n));
    }
}

/// How a SysEx message is cut: `k` bytes from `F0` to `F7` give `ceil(k / 3)`
/// packets. All but the last hold the next three bytes under code 4; the last
/// holds the one, two or three bytes that are left, under code 5, 6 or 7.
pub proof fn law_sysex_is_cut_into_threes(cable: nat, w: Wire, data: Seq<u8>)
    requires
        forall|i: int| 0 <= i < data.len() ==> data[i] < 0x80,
    ensures
        ({
            let s = seq![0xF0u8] + data + seq![0xF7u8];
            let k = s.len() as int;
            let n = (k + 2) / 3;
            let left = k - 3 * (n - 1);
            let ps = packets_of(cable, w, s);
            &&& ps.len() == n
            &&& 1 <= left <= 3
            &&& forall|j: int|
                0 <= j < n - 1 ==> #[trigger] ps[j] == packet(
                    cable,
                    4,
                    s.subrange(3 * j, 3 * j + 3),
                )
            &&& ps[n - 1] == packet(cable, (4 + left) as nat, s.skip(3 * (n - 1)))
        }),
{
    let t = seq![0xF0u8] + data;
    let s = t + seq![0xF7u8];
    let m = t.len() / 3;
    lemma_open_sysex_is_cut(cable, w, data);
    assert(s.drop_last() =~= t);
    assert((s.len() + 2) / 3 == m + 1);
    let all = t.skip(3 * m as int).push(0xF7u8);
    assert(all =~= s.skip(3 * m as int));
    let ps = packets_of(cable, w, s);
    assert(ps == sysex_threes(cable, t, m).push(packet(cable, 4 + all.len(), all)));
    assert forall|j: int| 0 <= j < m implies #[trigger] ps[j] == packet(
        cable,
        4,
        s.subrange(3 * j, 3 * j + 3),
    ) by {
        assert(t.subrange(3 * j, 3 * j + 3) =~= s.subrange(3 * j, 3 * j + 3));
    }
}

/// A channel message comes out whole, under its own status: from wherever the
/// stream stands, a channel-voice status and its data bytes give one packet with
/// just these bytes, and the stream runs on under that status.
pub proof fn law_channel_message_keeps_its_bytes(cable: nat, w: Wire, s: u8, g: Seq<u8>)
    requires
        cable < 16,
        0x80 <= s < 0xF0,
        g.len() == if 0xC0 <= s < 0xE0 { 1int } else { 2int },
        forall|i: int| 0 <= i < g.len() ==> g[i] < 0x80,
    ensures
        packets_of(cable, w, seq![s] + g).len() == 1,
        packets_of(cable, w, seq![s] + g)[0] == seq![
            (cable * 16 + s / 16) as u8,
            s,
            g[0],
            if g.len() == 2 { g[1] } else { 0u8 },
        ],
        wire_after(cable, w, seq![s] + g) == (Wire::Message { status: s, data: Seq::empty() }),
{
    reveal_with_fuel(wire_after, 4);
    reveal_with_fuel(packets_of, 4);
    let all = seq![s] + g;
    assert(seq![s].drop_last() =~= Seq::empty());
    if g.len() == 1 {
        assert(all.drop_last() =~= seq![s]);
        assert(Seq::empty().push(g[0]) =~= g);
    } else {
        assert(all.drop_last() =~= seq![s, g[0]]);
        assert(seq![s, g[0]].drop_last() =~= seq![s]);
        assert(Seq::empty().push(g[0]).push(g[1]) =~= g);
    }
    assert(packets_of(cable, w, all)[0] =~= seq![
        (cable * 16 + s / 16) as u8,
        s,
        g[0],
        if g.len() == 2 { g[1] } else { 0u8 },
    ]);
}

/// What a byte alone decides, wherever the stream stands: a real-time byte goes
/// out at once and changes nothing, a Tune Request goes out and ends running
/// status, the two undefined statuses end it in silence, and a status that
/// carries data starts afresh with no data. A data byte without a status and an
/// End-of-Exclusive outside SysEx leave no trace.
pub proof fn law_status_bytes_by_value(cable: nat, w: Wire, b: u8)
    requires
        cable < 16,
    ensures
        b >= 0xF8 ==> wire_step(cable, w, b) == (
            w,
            Some(seq![(cable * 16 + 15) as u8, b, 0u8, 0u8]),
        ),
        b == 0xF6 ==> wire_step(cable, w, b) == (
            Wire::Idle,
            Some(seq![(cable * 16 + 5) as u8, 0xF6u8, 0u8, 0u8]),
        ),
        b == 0xF4 || b == 0xF5 ==> wire_step(cable, w, b) == (Wire::Idle, None::<Seq<u8>>),
        b == 0xF0 ==> wire_step(cable, w, b) == (
            (Wire::SysEx { chunk: seq![0xF0u8] }),
            None::<Seq<u8>>,
        ),
        0x80 <= b < 0xF4 && b != 0xF0 ==> wire_step(cable, w, b) == (
            (Wire::Message { status: b, data: Seq::empty() }),
            None::<Seq<u8>>,
        ),
        b == 0xF7 && !(w is SysEx) ==> wire_step(cable, w, b) == (w, None::<Seq<u8>>),
        b < 0x80 && w is Idle ==> wire_step(cable, w, b) == (w, None::<Seq<u8>>),
{
    if b >= 0xF8 {
        assert(packet(cable, 15, seq![b]) =~= seq![(cable * 16 + 15) as u8, b, 0u8, 0u8]);
    }
    assert(packet(cable, 5, seq![0xF6u8]) =~= seq![(cable * 16 + 5) as u8, 0xF6u8, 0u8, 0u8]);
}

/// A System Common message comes out whole under its own status, a Song Position
/// as three bytes and a Quarter Frame or a Song Select as two, and no status
/// stays active behind it.
pub proof fn law_system_common_keeps_its_bytes(cable: nat, w: Wire, s: u8, d: u8, e: u8)
    requires
        cable < 16,
        d < 0x80,
        e < 0x80,
    ensures
        s == 0xF1 || s == 0xF3 ==> {
            &&& packets_of(cable, w, seq![s, d]) == seq![
                seq![(cable * 16 + 2) as u8, s, d, 0u8],
            ]
            &&& wire_after(cable, w, seq![s, d]) == Wire::Idle
        },
        s == 0xF2 ==> {
            &&& packets_of(cable, w, seq![s, d, e]) == seq![
                seq![(cable * 16 + 3) as u8, 0xF2u8, d, e],
            ]
            &&& wire_after(cable, w, seq![s, d, e]) == Wire::Idle
        },
{
    reveal_with_fuel(wire_after, 4);
    reveal_with_fuel(packets_of, 4);
    assert(seq![s].drop_last() =~= Seq::empty());
    assert(seq![s, d].drop_last() =~= seq![s]);
    assert(seq![s, d, e].drop_last() =~= seq![s, d]);
    if s == 0xF1 || s == 0xF3 {
        assert(packet(cable, 2, seq![s] + Seq::empty().push(d)) =~= seq![
            (cable * 16 + 2) as u8,
            s,
            d,
            0u8,
        ]);
        assert(packets_of(cable, w, seq![s, d]) =~= seq![
            seq![(cable * 16 + 2) as u8, s, d, 0u8],
        ]);
    }
    if s == 0xF2 {
        assert(packet(cable, 3, seq![s] + Seq::empty().push(d).push(e)) =~= seq![
            (cable * 16 + 3) as u8,
            0xF2u8,
            d,
            e,
        ]);
        assert(packets_of(cable, w, seq![s, d, e]) =~= seq![
            seq![(cable * 16 + 3) as u8, 0xF2u8, d, e],
        ]);
    }
}

/// Inside SysEx, bytes are held until there are three of them, and a packet
/// then carries those three. End-of-Exclusive sends what is held with itself
/// behind it, and the packet's header says how many bytes that makes.
pub proof fn law_sysex_byte_by_byte(cable: nat, chunk: Seq<u8>, b: u8)
    requires
        cable < 16,
        chunk.len() < 3,
        b < 0x80 || b == 0xF7,
    ensures
        ({
            let r = wire_step(cable, (Wire::SysEx { chunk }), b);
            &&& b < 0x80 && chunk.len() < 2 ==> r == (
                (Wire::SysEx { chunk: chunk.push(b) }),
                None::<Seq<u8>>,
            )
            &&& b < 0x80 && chunk.len() == 2 ==> r == (
                (Wire::SysEx { chunk: Seq::empty() }),
                Some(seq![(cable * 16 + 4) as u8, chunk[0], chunk[1], b]),
            )
            &&& b == 0xF7 ==> r.0 == Wire::Idle
            &&& b == 0xF7 && chunk.len() == 0 ==> r.1 == Some(
                seq![(cable * 16 + 5) as u8, 0xF7u8, 0u8, 0u8],
            )
            &&& b == 0xF7 && chunk.len() == 1 ==> r.1 == Some(
                seq![(cable * 16 + 6) as u8, chunk[0], 0xF7u8, 0u8],
            )
            &&& b == 0xF7 && chunk.len() == 2 ==> r.1 == Some(
                seq![(cable * 16 + 7) as u8, chunk[0], chunk[1], 0xF7u8],
            )
        }),
{
    let all = chunk.push(b);
    let cin = if b == 0xF7 { 4 + all.len() } else { 4 };
    assert(packet(cable, cin, all) =~= seq![
        (cable * 16 + cin) as u8,
        if all.len() > 0 { all[0] } else { 0u8 },
        if all.len() > 1 { all[1] } else { 0u8 },
        if all.len() > 2 { all[2] } else { 0u8 },
    ]);
    if b == 0xF7 {
        assert(packet(cable, cin, all)[0] == (cable * 16 + cin) as u8);
        if chunk.len() == 0 {
            assert(packet(cable, cin, all) =~= seq![(cable * 16 + 5) as u8, 0xF7u8, 0u8, 0u8]);
        } else if chunk.len() == 1 {
            assert(packet(cable, cin, all) =~= seq![
                (cable * 16 + 6) as u8,
                chunk[0],
                0xF7u8,
                0u8,
            ]);
        } else {
            assert(packet(cable, cin, all) =~= seq![
                (cable * 16 + 7) as u8,
                chunk[0],
                chunk[1],
                0xF7u8,
            ]);
        }
    } else if chunk.len() == 2 {
        assert(packet(cable, cin, all) =~= seq![(cable * 16 + 4) as u8, chunk[0], chunk[1], b]);
    }
}

} // verus!
