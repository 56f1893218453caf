//! The decisions of an LLDP agent: which received frames to log, when to
//! announce itself, and the frame it announces with. Sending, receiving and
//! the clock belong to the caller, which hands each received frame and the
//! time to `LLDPAgent::step` and carries out what it returns.
use vstd::prelude::*;
use vstd::utf8::*;
use crate::codec::{push_all, utf8_len};
use crate::error::LldpError;
use crate::lldpdu::{encode_all, parse_from, render_lldpdu, Lldpdu};
use crate::tlv::chassisid_tlv::{ChassisIdSubType, ChassisIdTLV, ChassisIdValue};
use crate::tlv::ident::{IdValue, MAX_ID_TEXT};
use crate::tlv::portid_tlv::{PortIdSubtype, PortIdTLV, PortIdValue};
use crate::tlv::ttl_tlv::TtlTLV;
use crate::tlv::{Tlv, TlvView};

verus! {

/// Length of an Ethernet header: destination, source, ethertype.
pub const ETHERNET_HEADER_LEN: usize = 14;

/// The ethertype of LLDP frames.
pub const LLDP_ETHERTYPE: u16 = 0x88CC;

/// The time to live the agent announces, in seconds.
pub const ANNOUNCE_TTL: u16 = 60;

/// A sink for one line of text per accepted data unit.
pub trait Logger {
    fn log(&mut self, msg: &str);
}

/// Whether `d` is one of the LLDP multicast addresses 01:80:C2:00:00:00,
/// 01:80:C2:00:00:03 and 01:80:C2:00:00:0E.
pub open spec fn is_lldp_destination(d: Seq<u8>) -> bool {
    &&& d.len() == 6
    &&& d[0] == 0x01 && d[1] == 0x80 && d[2] == 0xC2 && d[3] == 0x00 && d[4] == 0x00
    &&& d[5] == 0x00 || d[5] == 0x03 || d[5] == 0x0E
}

/// Whether an agent whose address is `mac` looks into `frame`: an Ethernet
/// frame to an LLDP multicast address with the LLDP ethertype, not sent by
/// the agent itself.
pub open spec fn frame_accepted(mac: Seq<u8>, frame: Seq<u8>) -> bool {
    &&& frame.len() >= ETHERNET_HEADER_LEN
    &&& is_lldp_destination(frame.subrange(0, 6))
    &&& frame.subrange(6, 12) != mac
    &&& frame[12] == 0x88 && frame[13] == 0xCC
}

/// The data unit the agent announces: its MAC address as chassis, its
/// interface name as port, and a time to live of 60 seconds.
pub open spec fn announce_lldpdu(mac: Seq<u8>, name: Seq<char>) -> Seq<TlvView> {
    seq![
        TlvView::ChassisId { subtype: ChassisIdSubType::MacAddress, value: IdValue::Mac(mac) },
        TlvView::PortId { subtype: PortIdSubtype::InterfaceName, value: IdValue::Text(name) },
        TlvView::Ttl { seconds: ANNOUNCE_TTL },
    ]
}

/// The frame the agent announces with: to 01:80:C2:00:00:0E, from `mac`,
/// with the LLDP ethertype and then the announced data unit.
pub open spec fn announce_frame(mac: Seq<u8>, name: Seq<char>) -> Seq<u8> {
    seq![0x01u8, 0x80, 0xC2, 0x00, 0x00, 0x0E] + mac + seq![0x88u8, 0xCC] + encode_all(
        announce_lldpdu(mac, name),
    )
}

/// What the agent makes of one received frame.
#[derive(Debug, Clone)]
pub enum FrameVerdict {
    /// Not an LLDP frame for this agent.
    Ignored,
    /// A valid data unit, in its text form: the line to log.
    Accepted(String),
    /// An LLDP frame whose data unit does not decode; it is dropped.
    Malformed(LldpError),
}

/// What the caller is to do after one received frame.
#[derive(Debug, Clone)]
pub struct AgentStep {
    pub verdict: FrameVerdict,
    /// A frame to send, when an announcement is due.
    pub announce: Option<Vec<u8>>,
    /// Whether to stop the loop.
    pub stop: bool,
}

/// The agent's identity and announcement timer. Times are milliseconds on a
/// monotonic clock.
#[derive(Debug, Clone)]
pub struct LLDPAgent {
    pub mac_address: [u8; 6],
    pub interface_name: String,
    pub interval_ms: u64,
    pub last_announce_ms: u64,
}

impl LLDPAgent {
    /// The interface name fits a Port ID record.
    pub open spec fn wf(&self) -> bool {
        encode_utf8(self.interface_name@).len() <= MAX_ID_TEXT
    }

    /// Whether an announcement is due at `now_ms`: more than the interval has
    /// passed since the last one.
    pub open spec fn spec_announce_due(&self, now_ms: u64) -> bool {
        now_ms >= self.last_announce_ms && now_ms - self.last_announce_ms > self.interval_ms
    }

    /// An agent for the interface `interface_name` whose address is
    /// `mac_address`, announcing every `interval_ms` milliseconds, its timer
    /// starting at 0. Fails with `InvalidEncoding` when the name is longer
    /// than a Port ID record can carry (255 UTF-8 bytes).
    pub fn new(mac_address: [u8; 6], interface_name: String, interval_ms: u64) -> (r: Result<
        LLDPAgent,
        LldpError,
    >)
        ensures
            encode_utf8(interface_name@).len() > MAX_ID_TEXT ==> r == Err::<LLDPAgent, LldpError>(
                LldpError::InvalidEncoding,
            ),
            encode_utf8(interface_name@).len() <= MAX_ID_TEXT ==> (r matches Ok(a) && a.wf()
                && a.mac_address == mac_address && a.interface_name == interface_name
                && a.interval_ms == interval_ms && a.last_announce_ms == 0),
    {
        if utf8_len(&interface_name) > MAX_ID_TEXT {
            return Err(LldpError::InvalidEncoding);
        }
        Ok(LLDPAgent { mac_address, interface_name, interval_ms, last_announce_ms: 0 })
    }

    /// The frame that announces the agent.
    #[verifier::spinoff_prover]
    pub fn announce(&self) -> (r: Vec<u8>)
        requires
            self.wf(),
        ensures
            r@ == announce_frame(self.mac_address@, self.interface_name@),
    {
        let ghost views = announce_lldpdu(self.mac_address@, self.interface_name@);
        let chassis = ChassisIdTLV {
            subtype: ChassisIdSubType::MacAddress,
            value: ChassisIdValue::Mac(vstd::slice::slice_to_vec(self.mac_address.as_slice())),
        };
        let port = PortIdTLV {
            subtype: PortIdSubtype::InterfaceName,
            value: PortIdValue::Other(self.interface_name.clone()),
        };
        let ttl = TtlTLV::new(ANNOUNCE_TTL);
        let mut l = match Lldpdu::new(Vec::new()) {
            Ok(l) => l,
            Err(_) => {
                assert(false);
                return Vec::new();
            },
        };
        proof {
            l.lemma_valid();
            assert(views.subrange(0, 1).drop_last() =~= Seq::<TlvView>::empty());
            assert(views.subrange(0, 2).drop_last() =~= views.subrange(0, 1));
            assert(views.subrange(0, 3).drop_last() =~= views.subrange(0, 2));
        }
        if l.append(Tlv::ChassisId(chassis)).is_err() {
            assert(false);
            return Vec::new();
        }
        assert(l@ =~= views.subrange(0, 1));
        if l.append(Tlv::PortId(port)).is_err() {
            assert(false);
            return Vec::new();
        }
        assert(l@ =~= views.subrange(0, 2));
        if l.append(Tlv::Ttl(ttl)).is_err() {
            assert(false);
            return Vec::new();
        }
        assert(l@ =~= views);
        let mut frame: Vec<u8> = vec![0x01, 0x80, 0xC2, 0x00, 0x00, 0x0E];
        push_all(&mut frame, self.mac_address.as_slice());
        frame.push(0x88);
        frame.push(0xCC);
        let body = l.bytes();
        push_all(&mut frame, body.as_slice());
        assert(frame@ =~= announce_frame(self.mac_address@, self.interface_name@));
        frame
    }

    /// Whether `frame` passes the address and ethertype filter.
    pub fn accepts(&self, frame: &[u8]) -> (r: bool)
        ensures
            r == frame_accepted(self.mac_address@, frame@),
    {
        if frame.len() < ETHERNET_HEADER_LEN {
            return false;
        }
        let to_lldp = frame[0] == 0x01 && frame[1] == 0x80 && frame[2] == 0xC2 && frame[3] == 0x00
            && frame[4] == 0x00 && (frame[5] == 0x00 || frame[5] == 0x03 || frame[5] == 0x0E);
        assert(frame@.subrange(0, 6)[5] == frame@[5]);
        if !to_lldp {
            return false;
        }
        let mut own = true;
        let mut i: usize = 0;
        while i < 6
            invariant
                i <= 6,
                frame@.len() >= ETHERNET_HEADER_LEN,
                own == (forall|j: int| 0 <= j < i ==> frame@[6 + j] == self.mac_address@[j]),
            decreases 6 - i,
        {
            if frame[6 + i] != self.mac_address[i] {
                own = false;
            }
            i = i + 1;
        }
        if own {
            assert(frame@.subrange(6, 12) =~= self.mac_address@);
            return false;
        }
        let ghost j = choose|j: int| 0 <= j < 6 && frame@[6 + j] != self.mac_address@[j];
        assert(frame@.subrange(6, 12)[j] != self.mac_address@[j]);
        frame[12] == 0x88 && frame[13] == 0xCC
    }

    /// What the agent makes of `frame`: ignored unless it passes the filter;
    /// otherwise the text form of the data unit it carries, or the error
    /// that decoding the data unit raised.
    pub fn classify(&self, frame: &[u8]) -> (r: FrameVerdict)
        ensures
            !frame_accepted(self.mac_address@, frame@) ==> r is Ignored,
            frame_accepted(self.mac_address@, frame@) ==> match parse_from(
                Seq::empty(),
                frame@.subrange(ETHERNET_HEADER_LEN as int, frame@.len() as int),
            ) {
                Ok(s) => r matches FrameVerdict::Accepted(line) && line@ == render_lldpdu(s),
                Err(e) => r == FrameVerdict::Malformed(e),
            },
    {
        if !self.accepts(frame) {
            return FrameVerdict::Ignored;
        }
        let payload = vstd::slice::slice_subrange(frame, ETHERNET_HEADER_LEN, frame.len());
        match Lldpdu::from_bytes(payload) {
            Ok(l) => FrameVerdict::Accepted(l.render()),
            Err(e) => FrameVerdict::Malformed(e),
        }
    }

    /// Whether an announcement is due at `now_ms`.
    pub fn announce_due(&self, now_ms: u64) -> (r: bool)
        ensures
            r == self.spec_announce_due(now_ms),
    {
        now_ms >= self.last_announce_ms && now_ms - self.last_announce_ms > self.interval_ms
    }

    /// One turn of the agent's loop, after `frame` was received at `now_ms`.
    /// The frame is classified; with `stop_after_first`, an accepted frame
    /// ends the loop. Otherwise, when an announcement is due, the announce
    /// frame is handed back and the timer restarts at `now_ms`.
    #[verifier::spinoff_prover]
    pub fn step(&mut self, frame: &[u8], now_ms: u64, stop_after_first: bool) -> (r: AgentStep)
        requires
            old(self).wf(),
        ensures
            final(self).wf(),
            final(self).mac_address == old(self).mac_address,
            final(self).interface_name == old(self).interface_name,
            final(self).interval_ms == old(self).interval_ms,
            !frame_accepted(old(self).mac_address@, frame@) ==> r.verdict is Ignored,
            frame_accepted(old(self).mac_address@, frame@) ==> match parse_from(
                Seq::empty(),
                frame@.subrange(ETHERNET_HEADER_LEN as int, frame@.len() as int),
            ) {
                Ok(s) => r.verdict matches FrameVerdict::Accepted(line) && line@ == render_lldpdu(
                    s,
                ),
                Err(e) => r.verdict == FrameVerdict::Malformed(e),
            },
            r.stop == (stop_after_first && r.verdict is Accepted),
            r.stop ==> r.announce is None && final(self).last_announce_ms
                == old(self).last_announce_ms,
            !r.stop && old(self).spec_announce_due(now_ms) ==> (r.announce matches Some(f) && f@
                == announce_frame(old(self).mac_address@, old(self).interface_name@)
                && final(self).last_announce_ms == now_ms),
            !r.stop && !old(self).spec_announce_due(now_ms) ==> r.announce is None
                && final(self).last_announce_ms == old(self).last_announce_ms,
    {
        let verdict = self.classify(frame);
        let stop = stop_after_first && matches!(verdict, FrameVerdict::Accepted(_));
        if stop {
            return AgentStep { verdict, announce: None, stop: true };
        }
        if self.announce_due(now_ms) {
            let f = self.announce();
            self.last_announce_ms = now_ms;
            AgentStep { verdict, announce: Some(f), stop: false }
        } else {
            AgentStep { verdict, announce: None, stop: false }
        }
    }
}

} // verus!
