//! The decisions of a live telemetry session: routing a plaintext frame into the decoder,
//! and what to do with each packet of an encrypted stream.
use vstd::prelude::*;

use crate::packet::{parse_spec, Packet, PacketView};
use crate::river::{apply_pack, pack_of, pack_of_spec, RiverState};

verus! {

/// The decoder state after routing a parsed packet into it.
pub open spec fn route_spec(s: RiverState, p: PacketView) -> RiverState {
    match pack_of_spec(p.src, p.cmd_set, p.cmd_id) {
        Some(k) => apply_pack(s, k, p.payload),
        None => s,
    }
}

/// Decode one plaintext inner-packet frame into the decoder. Returns whether the route was
/// recognised.
pub fn route_plaintext_frame(decoder: &mut RiverState, frame: &[u8]) -> (r: bool)
    ensures
        match parse_spec(frame@) {
            None => !r && *final(decoder) == *old(decoder),
            Some(p) => r == pack_of_spec(p.src, p.cmd_set, p.cmd_id) is Some && *final(decoder)
                == route_spec(*old(decoder), p),
        },
{
    match Packet::from_bytes(frame) {
        Some(pkt) => {
            let before = pack_of(pkt.src, pkt.cmd_set, pkt.cmd_id).is_some();
            let _ = decoder.update(pkt.src, pkt.cmd_set, pkt.cmd_id, pkt.payload.as_slice());
            before
        },
        None => false,
    }
}

/// Plaintext telemetry session (encrypt_type 0 devices): no ECDH/auth, just the AA packets.
pub struct PlaintextSession;

/// Encrypted telemetry session (encrypt_type 7 devices): ECDH handshake + AES session.
pub struct EncryptedSession;

/// What the encrypted stream loop does with one decrypted, parsed packet.
#[derive(Debug, Clone, Copy, PartialEq, Eq)]
pub struct PacketAction {
    /// Report "authenticated" (first packet that decrypts and parses).
    pub signal_authenticated: bool,
    /// Feed the packet to the decoder (false for the first echo of the auth packet).
    pub ingest: bool,
    /// Send the nudge reply (recognised telemetry routes only).
    pub reply: bool,
}

/// Per-connection state of the encrypted stream loop.
#[derive(Debug, Clone, Copy, PartialEq, Eq)]
pub struct EncryptedStream {
    pub authenticated: bool,
    pub signaled_auth: bool,
}

/// Whether a packet is the device's reply to the 0x86 auth packet.
pub open spec fn is_auth_reply_spec(p: PacketView, auth_header_dst: u8) -> bool {
    p.src == auth_header_dst && p.cmd_set == 0x35 && p.cmd_id == 0x86
}

impl EncryptedStream {
    /// The state at the start of a stream.
    pub fn new() -> (r: EncryptedStream)
        ensures
            !r.authenticated && !r.signaled_auth,
    {
        EncryptedStream { authenticated: false, signaled_auth: false }
    }

    /// Decide what to do with one packet: signal authentication on the first packet,
    /// swallow the first auth reply, otherwise ingest it and nudge recognised routes.
    pub fn on_packet(&mut self, pkt: &Packet, auth_header_dst: u8) -> (a: PacketAction)
        ensures
            a.signal_authenticated == !old(self).signaled_auth,
            final(self).signaled_auth,
            final(self).authenticated,
            (is_auth_reply_spec(pkt@, auth_header_dst) && !old(self).authenticated) ==> !a.ingest && !a.reply,
            !(is_auth_reply_spec(pkt@, auth_header_dst) && !old(self).authenticated) ==> a.ingest
                && a.reply == pack_of_spec(pkt.src, pkt.cmd_set, pkt.cmd_id) is Some,
    {
        let signal = !self.signaled_auth;
        self.signaled_auth = true;
        let is_auth_reply = pkt.src == auth_header_dst && pkt.cmd_set == 0x35 && pkt.cmd_id == 0x86;
        if is_auth_reply && !self.authenticated {
            self.authenticated = true;
            return PacketAction { signal_authenticated: signal, ingest: false, reply: false };
        }
        self.authenticated = true;
        let recognised = pack_of(pkt.src, pkt.cmd_set, pkt.cmd_id).is_some();
        PacketAction { signal_authenticated: signal, ingest: true, reply: recognised }
    }
}

} // verus!
