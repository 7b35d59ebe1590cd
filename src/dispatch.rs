//! The fixed-capacity table of command handlers, and answering one inbound packet.
use vstd::prelude::*;
use crate::bus::{self, Bus};
use crate::capture_to_target::CTPacket;
use crate::error::{CmdError, PktError};
use crate::packet::{self, MAX_DATA_LENGTH};
use crate::primitives::{self, array_resize};
use crate::target_to_capture::TCPacket;

verus! {

/// The command that asks for the protocol version (`v`).
pub const CMD_VERSION: u8 = 0x76;

/// The command that asks for the registered commands (`w`).
pub const CMD_LIST: u8 = 0x77;

/// The command of a result reply (`r`).
pub const CMD_RESULT: u8 = 0x72;

/// The command of a status reply (`e`).
pub const CMD_STATUS: u8 = 0x65;

/// The byte written to the bus when a registration is refused (`a`).
pub const REGISTRY_FULL_BYTE: u8 = 0x61;

/// The protocol version reported to the host.
pub const PROTOCOL_VERSION: u8 = 2;

/// What a handler replies: command, data length and data.
pub type CmdResponse = (u8, u8, [u8; 192]);

/// What a handler returns: nothing to reply, a reply, or an error.
pub type CmdOutcome = Result<Option<CmdResponse>, CmdError>;

/// The packet carries `cmd` and exactly `payload`, zero-padded.
pub open spec fn is_reply(t: TCPacket, cmd: u8, payload: Seq<u8>) -> bool {
    &&& t.cmd == cmd
    &&& t.dlen == payload.len()
    &&& t.data@ == payload + primitives::filled(192 - payload.len(), 0)
}

/// The packet is the status reply carrying `code`.
pub open spec fn is_status(t: TCPacket, code: u8) -> bool {
    is_reply(t, CMD_STATUS, seq![code])
}

/// The packet is the reply a handler asked for.
pub open spec fn is_response(t: TCPacket, resp: CmdResponse) -> bool {
    t.cmd == resp.0 && t.dlen == resp.1 && t.data == resp.2
}

/// The handler may return `res` when called with the packet's sub-command, data
/// length and whole payload buffer.
pub open spec fn handler_gives<F: Fn(u8, u8, &[u8]) -> CmdOutcome>(
    handler: F,
    p: CTPacket,
    res: CmdOutcome,
) -> bool {
    exists|s: &[u8]| s@ == p.data@ && call_ensures(handler, (p.sub_cmd, p.dlen, s), res)
}

/// Every reply the handler may return is no longer than a packet allows.
pub open spec fn handler_fits<F: Fn(u8, u8, &[u8]) -> CmdOutcome>(handler: F) -> bool {
    &&& forall|a: u8, b: u8, s: &[u8]| call_requires(handler, (a, b, s))
    &&& forall|a: u8, b: u8, s: &[u8], res: CmdOutcome|
        #[trigger] call_ensures(handler, (a, b, s), res) ==> (res matches Ok(Some(t)) ==> t.1
            <= MAX_DATA_LENGTH)
}

/// `out` is what the slots from index `i` on answer to the packet: each slot
/// whose command matches is called in turn; a reply is passed on, an error is
/// reported and ends the answer; after the last slot comes the OK status.
pub open spec fn dispatch_from<F: Fn(u8, u8, &[u8]) -> CmdOutcome>(
    slots: Seq<(u8, F)>,
    i: int,
    p: CTPacket,
    out: Seq<TCPacket>,
) -> bool
    decreases slots.len() - i,
{
    if i >= slots.len() {
        out.len() == 1 && is_status(out[0], CmdError::OK.spec_byte())
    } else if slots[i].0 != p.cmd {
        dispatch_from(slots, i + 1, p, out)
    } else {
        exists|res: CmdOutcome|
            #![trigger handler_gives(slots[i].1, p, res)]
            handler_gives(slots[i].1, p, res) && match res {
                Err(e) => out.len() == 1 && is_status(out[0], e.spec_byte()),
                Ok(None) => dispatch_from(slots, i + 1, p, out),
                Ok(Some(t)) => out.len() >= 1 && is_response(out[0], t) && dispatch_from(
                    slots,
                    i + 1,
                    p,
                    out.drop_first(),
                ),
            }
    }
}

/// The frames of a sequence of packets, one after the other.
pub open spec fn frames_of(out: Seq<TCPacket>) -> Seq<u8>
    decreases out.len(),
{
    if out.len() == 0 {
        Seq::empty()
    } else {
        frames_of(out.drop_last()) + packet::frame_of(out.last().body())
    }
}

/// The status reply carrying `code`.
fn status_reply(code: u8) -> (t: TCPacket)
    ensures
        is_status(t, code),
        t.dlen <= MAX_DATA_LENGTH,
{
    let data = array_resize([code], 0);
    proof {
        assert(seq![code] + primitives::filled(191, 0) =~= data@);
    }
    TCPacket { cmd: CMD_STATUS, dlen: 1, data }
}

proof fn lemma_no_match<F: Fn(u8, u8, &[u8]) -> CmdOutcome>(
    slots: Seq<(u8, F)>,
    i: int,
    p: CTPacket,
    out: Seq<TCPacket>,
)
    requires
        0 <= i <= slots.len(),
        forall|j: int| 0 <= j < slots.len() ==> #[trigger] slots[j].0 != p.cmd,
        dispatch_from(slots, i, p, out),
    ensures
        out.len() == 1,
        is_status(out[0], CmdError::OK.spec_byte()),
    decreases slots.len() - i,
{
    if i < slots.len() {
        assert(slots[i].0 != p.cmd);
        lemma_no_match(slots, i + 1, p, out);
    }
}

/// Container for SimpleSerial command handlers, at most `MAX_CMDS - 1` of them.
pub struct SimpleSerial<const MAX_CMDS: usize, F> {
    cmds: Vec<(u8, F)>,
}

impl<const MAX_CMDS: usize, F: Fn(u8, u8, &[u8]) -> CmdOutcome> SimpleSerial<MAX_CMDS, F> {
    /// The registered (command, handler) pairs, in registration order.
    pub closed spec fn slots(&self) -> Seq<(u8, F)> {
        self.cmds@
    }

    /// The registered command bytes, in registration order.
    pub open spec fn cmd_bytes(&self) -> Seq<u8> {
        self.slots().map_values(|s: (u8, F)| s.0)
    }

    /// Once a handler is registered at least one slot stays free, the listing of
    /// the commands fits one packet, and every handler can be called and replies
    /// within the packet size.
    pub open spec fn wf(&self) -> bool {
        &&& self.slots().len() == 0 || self.slots().len() < MAX_CMDS
        &&& MAX_CMDS <= MAX_DATA_LENGTH + 1
        &&& forall|i: int| 0 <= i < self.slots().len() ==> handler_fits(#[trigger] self.slots()[i].1)
    }

    /// `out` is the answer to the packet: the version, or the listing of the
    /// registered commands, or what the matching handlers give; each time ended by
    /// a status reply.
    pub open spec fn answers(&self, p: CTPacket, out: Seq<TCPacket>) -> bool {
        if p.cmd == CMD_VERSION {
            out.len() == 2 && is_reply(out[0], CMD_RESULT, seq![PROTOCOL_VERSION]) && is_status(
                out[1],
                CmdError::OK.spec_byte(),
            )
        } else if p.cmd == CMD_LIST {
            out.len() == 2 && is_reply(out[0], CMD_RESULT, self.cmd_bytes()) && is_status(
                out[1],
                CmdError::OK.spec_byte(),
            )
        } else {
            dispatch_from(self.slots(), 0, p, out)
        }
    }

    /// A container without handlers, leaving the platform alone.
    pub fn new_no_init() -> (r: Self)
        requires
            MAX_CMDS <= MAX_DATA_LENGTH + 1,
        ensures
            r.wf(),
            r.slots() == Seq::<(u8, F)>::empty(),
    {
        SimpleSerial { cmds: Vec::with_capacity(MAX_CMDS) }
    }

    /// Register a handler for a command. Refused, with one diagnostic byte written
    /// to the bus and nothing else changed, when fewer than two slots are free.
    pub fn push<B: Bus>(&mut self, bus: &mut B, cmd: u8, handler: F) -> (r: Result<(), ()>)
        requires
            old(self).wf(),
            handler_fits(handler),
        ensures
            final(self).wf(),
            r is Ok <==> old(self).slots().len() + 2 <= MAX_CMDS,
            r is Ok ==> final(self).slots() == old(self).slots().push((cmd, handler)),
            r is Ok ==> final(bus).sent() == old(bus).sent(),
            r is Err ==> *final(self) == *old(self),
            r is Err ==> final(bus).sent() == old(bus).sent().push(REGISTRY_FULL_BYTE),
            final(bus).received() == old(bus).received(),
    {
        let cur_size = self.cmds.len();
        if MAX_CMDS - cur_size <= 1 {
            bus.putch(REGISTRY_FULL_BYTE);
            return Err(());
        }
        self.cmds.push((cmd, handler));
        proof {
            assert forall|i: int| 0 <= i < self.slots().len() implies handler_fits(
                #[trigger] self.slots()[i].1,
            ) by {
                if i < old(self).slots().len() {
                    assert(self.slots()[i] == old(self).slots()[i]);
                }
            }
        }
        Ok(())
    }

    /// The replies to one packet, in the order they go out.
    pub fn handle(&self, packet: &CTPacket) -> (r: Vec<TCPacket>)
        requires
            self.wf(),
        ensures
            self.answers(*packet, r@),
            forall|i: int| 0 <= i < r@.len() ==> (#[trigger] r@[i]).dlen <= MAX_DATA_LENGTH,
    {
        let mut replies: Vec<TCPacket> = Vec::new();
        if packet.cmd == CMD_VERSION {
            let data = array_resize([PROTOCOL_VERSION], 0);
            replies.push(TCPacket { cmd: CMD_RESULT, dlen: 1, data });
            proof {
                assert(seq![PROTOCOL_VERSION] + primitives::filled(191, 0) =~= data@);
            }
        } else if packet.cmd == CMD_LIST {
            let n = self.cmds.len();
            let mut cmd_chars: [u8; 192] = [0u8; 192];
            let mut i: usize = 0;
            while i < n
                invariant
                    self.wf(),
                    n == self.slots().len(),
                    0 <= i <= n,
                    forall|j: int| 0 <= j < i ==> cmd_chars@[j] == self.slots()[j].0,
                    forall|j: int| i <= j < 192 ==> cmd_chars@[j] == 0,
                decreases n - i,
            {
                cmd_chars[i] = self.cmds[i].0;
                i = i + 1;
            }
            replies.push(TCPacket { cmd: CMD_RESULT, dlen: n as u8, data: cmd_chars });
            proof {
                assert(self.cmd_bytes() + primitives::filled(192 - n, 0) =~= cmd_chars@);
            }
        } else {
            let mut i: usize = 0;
            while i < self.cmds.len()
                invariant
                    self.wf(),
                    packet.cmd != CMD_VERSION,
                    packet.cmd != CMD_LIST,
                    0 <= i <= self.slots().len(),
                    forall|j: int| 0 <= j < replies@.len() ==> (#[trigger] replies@[j]).dlen
                        <= MAX_DATA_LENGTH,
                    forall|rest: Seq<TCPacket>|
                        dispatch_from(self.slots(), i as int, *packet, rest) ==> dispatch_from(
                            self.slots(),
                            0,
                            *packet,
                            #[trigger] (replies@ + rest),
                        ),
                decreases self.slots().len() - i,
            {
                let ghost before = replies@;
                if self.cmds[i].0 == packet.cmd {
                    let handler = &self.cmds[i].1;
                    assert(handler_fits(self.slots()[i as int].1));
                    let res = handler(packet.sub_cmd, packet.dlen, &packet.data);
                    assert(handler_gives(self.slots()[i as int].1, *packet, res));
                    match res {
                        Err(err) => {
                            let code = err.get_byte();
                            replies.push(status_reply(code));
                            proof {
                                let out = seq![replies@.last()];
                                assert(dispatch_from(self.slots(), i as int, *packet, out));
                                assert(dispatch_from(self.slots(), 0, *packet, before + out));
                                assert(before + out =~= replies@);
                            }
                            return replies;
                        },
                        Ok(Some(t)) => {
                            let (cmd, dlen, data) = t;
                            replies.push(TCPacket { cmd, dlen, data });
                            proof {
                                assert forall|rest: Seq<TCPacket>|
                                    dispatch_from(self.slots(), i + 1, *packet, rest) implies dispatch_from(
                                    self.slots(),
                                    0,
                                    *packet,
                                    #[trigger] (replies@ + rest),
                                ) by {
                                    let out = seq![replies@.last()] + rest;
                                    assert(out.drop_first() =~= rest);
                                    assert(dispatch_from(self.slots(), i as int, *packet, out));
                                    assert(before + out =~= replies@ + rest);
                                }
                            }
                        },
                        Ok(None) => {},
                    }
                }
                i = i + 1;
            }
            let ok = status_reply(CmdError::OK.get_byte());
            proof {
                assert(dispatch_from(self.slots(), i as int, *packet, seq![ok]));
                assert(dispatch_from(self.slots(), 0, *packet, replies@ + seq![ok]));
                assert(replies@ + seq![ok] =~= replies@.push(ok));
            }
            replies.push(ok);
            return replies;
        }
        replies.push(status_reply(CmdError::OK.get_byte()));
        replies
    }

    /// Read one packet from the bus and write the replies to it. A frame that does
    /// not decode is answered with nothing: its error is returned.
    pub fn attempt_handle<B: Bus>(&self, bus: &mut B) -> (r: Result<(), PktError>)
        requires
            self.wf(),
        ensures
            r is Err ==> final(bus).sent() == old(bus).sent(),
            exists|raw: Seq<u8>, size: int|
                bus::is_read_frame(raw, size) && final(bus).received() == old(bus).received()
                    + raw.take(size) && match r {
                    Err(e) => packet::frame_check(raw, size, 3) == Err::<(), PktError>(e),
                    Ok(_) => packet::frame_check(raw, size, 3) is Ok && exists|
                        p: CTPacket,
                        out: Seq<TCPacket>,
                    |
                        p.is_read_from(primitives::cobs_unstuffed(raw, 0)) && self.answers(p, out)
                            && final(bus).sent() == old(bus).sent() + frames_of(out),
                },
    {
        let fetched = CTPacket::fetch(bus);
        let ghost raw_size = choose|raw: Seq<u8>, size: int|
            bus::is_read_frame(raw, size) && bus.received() == old(bus).received() + raw.take(size)
                && CTPacket::decoded(raw, size, fetched);
        let pkt = match fetched {
            Ok(p) => p,
            Err(e) => {
                return Err(e);
            },
        };
        let replies = self.handle(&pkt);
        let ghost start = bus.sent();
        let mut i: usize = 0;
        while i < replies.len()
            invariant
                0 <= i <= replies@.len(),
                forall|j: int| 0 <= j < replies@.len() ==> (#[trigger] replies@[j]).dlen
                    <= MAX_DATA_LENGTH,
                bus.sent() == start + frames_of(replies@.take(i as int)),
                bus.received() == old(bus).received() + raw_size.0.take(raw_size.1),
            decreases replies@.len() - i,
        {
            let _ = replies[i].send(bus);
            proof {
                assert(replies@.take(i + 1).drop_last() =~= replies@.take(i as int));
            }
            i = i + 1;
        }
        proof {
            assert(replies@.take(replies@.len() as int) =~= replies@);
            assert(pkt.is_read_from(primitives::cobs_unstuffed(raw_size.0, 0)));
        }
        Ok(())
    }

    /// A packet whose command is neither built-in nor registered is answered with
    /// the OK status alone.
    pub proof fn lemma_unknown_command(&self, p: CTPacket, out: Seq<TCPacket>)
        requires
            p.cmd != CMD_VERSION,
            p.cmd != CMD_LIST,
            !self.cmd_bytes().contains(p.cmd),
            self.answers(p, out),
        ensures
            out.len() == 1,
            is_status(out[0], CmdError::OK.spec_byte()),
    {
        assert forall|i: int| 0 <= i < self.slots().len() implies #[trigger] self.slots()[i].0
            != p.cmd by {
            assert(self.cmd_bytes()[i] == self.slots()[i].0);
        }
        lemma_no_match(self.slots(), 0, p, out);
    }
}

} // verus!
