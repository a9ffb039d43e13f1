//! The pure decisions of the BLE transport: decoding EcoFlow's manufacturer-data scan
//! record, deciding which advertisements are EcoFlow devices, choosing the GATT
//! characteristics and the ATT write type.
use vstd::prelude::*;
use vstd::string::StrSliceExecFns;

use crate::manager::{trim_str, trim_ws};
use crate::text::{ascii_chars, string_from_utf8};
use vstd::utf8::{decode_utf8, valid_utf8};

verus! {

/// Nordic UART write characteristic.
pub const NORDIC_WRITE: u128 = 0x6e400002_b5a3_f393_e0a9_e50e24dcca9e;
/// Nordic UART notify characteristic.
pub const NORDIC_NOTIFY: u128 = 0x6e400003_b5a3_f393_e0a9_e50e24dcca9e;
/// RFCOMM-style write characteristic.
pub const RFCOMM_WRITE: u128 = 0x00000002_0000_1000_8000_00805f9b34fb;
/// RFCOMM-style notify characteristic.
pub const RFCOMM_NOTIFY: u128 = 0x00000003_0000_1000_8000_00805f9b34fb;
/// Standard GATT "Service Changed": never a telemetry source, never subscribed.
pub const GATT_SERVICE_CHANGED: u128 = 0x00002a05_0000_1000_8000_00805f9b34fb;
/// Device Information Service "Serial Number String".
pub const DIS_SERIAL: u128 = 0x00002a25_0000_1000_8000_00805f9b34fb;

/// One discovered EcoFlow device.
#[derive(Debug, Clone)]
pub struct Found {
    pub address: String,
    pub name: String,
    pub serial: Option<String>,
    pub encrypt_type: u8,
    pub product_type: u8,
}

/// `bytes` with its trailing zero bytes removed.
pub open spec fn trim_trailing_nul(s: Seq<u8>) -> Seq<u8>
    decreases s.len(),
{
    if s.len() > 0 && s.last() == 0 {
        trim_trailing_nul(s.drop_last())
    } else {
        s
    }
}

/// A printable, non-space ASCII byte.
pub open spec fn is_ascii_graphic(b: u8) -> bool {
    0x21 <= b <= 0x7e
}

/// The serial field of a scan record (bytes 1..17 without trailing NULs), when it is at
/// least 4 printable ASCII characters.
pub open spec fn scan_serial(md: Seq<u8>) -> Option<Seq<u8>> {
    if md.len() < 17 {
        None
    } else {
        let t = trim_trailing_nul(md.subrange(1, 17));
        if t.len() >= 4 && forall|i: int| 0 <= i < t.len() ==> is_ascii_graphic(t[i]) {
            Some(t)
        } else {
            None
        }
    }
}

/// The encrypt type carried in a scan record's capability flags (byte 22, default 0b0111000).
pub open spec fn scan_encrypt_type(md: Seq<u8>) -> u8 {
    let flags: u8 = if md.len() > 22 { md[22] } else { 0b0111000u8 };
    ((flags & 0b0111000u8) >> 3u8) as u8
}

/// The product type carried in a scan record (byte 18, default 0).
pub open spec fn scan_product_type(md: Seq<u8>) -> u8 {
    if md.len() > 18 {
        md[18]
    } else {
        0
    }
}

/// The view of a decoded scan record.
pub open spec fn record_view(r: Option<(String, u8, u8)>) -> Option<(Seq<char>, u8, u8)> {
    match r {
        Some((s, e, p)) => Some((s@, e, p)),
        None => None,
    }
}

/// The decoded scan record: (serial, encrypt type, product type).
pub open spec fn scan_record_spec(md: Seq<u8>) -> Option<(Seq<char>, u8, u8)> {
    match scan_serial(md) {
        Some(t) => Some((ascii_chars(t), scan_encrypt_type(md), scan_product_type(md))),
        None => None,
    }
}

/// Parse the EcoFlow `_ScanRecordV2` from a manufacturer-data value: the serial (bytes
/// 1..17, ASCII, NUL-padded), the encrypt type and the product type.
pub fn parse_scan_record(md: &[u8]) -> (r: Option<(String, u8, u8)>)
    ensures
        record_view(r) == scan_record_spec(md@),
{
    if md.len() < 17 {
        return None;
    }
    let ghost field = md@.subrange(1, 17);
    let mut end: usize = 17;
    while end > 1 && md[end - 1] == 0
        invariant
            1 <= end <= 17,
            17 <= md.len(),
            field == md@.subrange(1, 17),
            trim_trailing_nul(md@.subrange(1, end as int)) == trim_trailing_nul(field),
        decreases end,
    {
        proof {
            assert(md@.subrange(1, end as int).drop_last() =~= md@.subrange(1, end - 1));
        }
        end = end - 1;
    }
    let ghost t = md@.subrange(1, end as int);
    proof {
        assert(trim_trailing_nul(t) == t);
        assert(trim_trailing_nul(field) == t);
    }
    if end - 1 < 4 {
        proof {
            assert(trim_trailing_nul(field) == t);
            assert(t.len() < 4);
            assert(scan_serial(md@) is None);
        }
        return None;
    }
    let mut i: usize = 1;
    while i < end
        invariant
            1 <= i <= end,
            end <= 17 <= md.len(),
            t == md@.subrange(1, end as int),
            t == trim_trailing_nul(md@.subrange(1, 17)),
            t.len() >= 4,
            forall|j: int| 0 <= j < i - 1 ==> is_ascii_graphic(t[j]),
        decreases end - i,
    {
        if md[i] < 0x21 || md[i] > 0x7e {
            proof {
                assert(!is_ascii_graphic(t[i - 1]));
                assert(scan_serial(md@) is None);
            }
            return None;
        }
        i = i + 1;
    }
    let bytes = vstd::slice::slice_to_vec(&md[1..end]);
    proof {
        assert(bytes@ =~= t);
        assert(forall|j: int| 0 <= j < t.len() ==> t[j] < 0x80);
    }
    let serial = match string_from_utf8(bytes) {
        Some(s) => s,
        None => return None,
    };
    let product_type = if md.len() > 18 {
        md[18]
    } else {
        0
    };
    let capability_flags: u8 = if md.len() > 22 {
        md[22]
    } else {
        0b0111000
    };
    let encrypt_type = (capability_flags & 0b0111000) >> 3;
    Some((serial, encrypt_type, product_type))
}

/// The first decodable scan record among the manufacturer-data values, in the given order.
pub open spec fn best_record_spec(records: Seq<Seq<u8>>) -> Option<(Seq<char>, u8, u8)>
    decreases records.len(),
{
    if records.len() == 0 {
        None
    } else {
        match scan_record_spec(records[0]) {
            Some(r) => Some(r),
            None => best_record_spec(records.drop_first()),
        }
    }
}

/// The first decodable scan record among the manufacturer-data values.
pub fn best_scan_record(records: &Vec<Vec<u8>>) -> (r: Option<(String, u8, u8)>)
    ensures
        record_view(r) == best_record_spec(records@.map_values(|v: Vec<u8>| v@)),
{
    let ghost all = records@.map_values(|v: Vec<u8>| v@);
    proof {
        assert(all.skip(0) =~= all);
    }
    let mut i: usize = 0;
    while i < records.len()
        invariant
            i <= records.len(),
            all == records@.map_values(|v: Vec<u8>| v@),
            best_record_spec(all.skip(i as int)) == best_record_spec(all),
        decreases records.len() - i,
    {
        proof {
            assert(all.skip(i as int).drop_first() =~= all.skip(i + 1));
            assert(all.skip(i as int)[0] == records@[i as int]@);
        }
        let r = parse_scan_record(records[i].as_slice());
        if r.is_some() {
            return r;
        }
        i = i + 1;
    }
    proof {
        assert(all.skip(i as int).len() == 0);
    }
    None
}

/// Whether `s` starts with the characters `p`.
pub open spec fn starts_with_chars(s: Seq<char>, p: Seq<char>) -> bool {
    p.len() <= s.len() && s.take(p.len() as int) == p
}

fn str_starts_with(s: &str, p: &[char]) -> (r: bool)
    ensures
        r == starts_with_chars(s@, p@),
{
    let n = s.unicode_len();
    if p.len() > n {
        return false;
    }
    let mut i: usize = 0;
    while i < p.len()
        invariant
            i <= p.len() <= n,
            n == s@.len(),
            s@.take(i as int) == p@.take(i as int),
        decreases p.len() - i,
    {
        if s.get_char(i) != p[i] {
            proof {
                assert(s@.take(p@.len() as int)[i as int] != p@[i as int]);
            }
            return false;
        }
        proof {
            assert(s@.take(i + 1) =~= s@.take(i as int).push(s@[i as int]));
            assert(p@.take(i + 1) =~= p@.take(i as int).push(p@[i as int]));
        }
        i = i + 1;
    }
    proof {
        assert(p@.take(p@.len() as int) =~= p@);
    }
    true
}

/// Whether an advertisement looks like an EcoFlow device: its name starts with `EF-`, or
/// its scan record's serial starts with `R` or `EF`.
pub open spec fn looks_ecoflow(name: Seq<char>, record: Option<(Seq<char>, u8, u8)>) -> bool {
    starts_with_chars(name, seq!['E', 'F', '-']) || match record {
        Some((sn, _, _)) => starts_with_chars(sn, seq!['R']) || starts_with_chars(sn, seq!['E', 'F']),
        None => false,
    }
}

/// The device a scan reports for one advertisement, if it looks like an EcoFlow device;
/// without a scan record the serial is unknown, encrypt type 7 and product type 0.
pub fn found_from_advert(address: String, name: String, record: Option<(String, u8, u8)>) -> (r: Option<Found>)
    ensures
        r is Some <==> looks_ecoflow(name@, record_view(record)),
        r matches Some(f) ==> f.address == address && f.name == name && (match record {
            Some((s, e, p)) => f.serial == Some(s) && f.encrypt_type == e && f.product_type == p,
            None => f.serial is None && f.encrypt_type == 7 && f.product_type == 0,
        }),
{
    let ef_dash: [char; 3] = ['E', 'F', '-'];
    let r_only: [char; 1] = ['R'];
    let ef: [char; 2] = ['E', 'F'];
    proof {
        assert(ef_dash@ =~= seq!['E', 'F', '-']);
        assert(r_only@ =~= seq!['R']);
        assert(ef@ =~= seq!['E', 'F']);
    }
    let looks = str_starts_with(name.as_str(), ef_dash.as_slice()) || match &record {
        Some((sn, _, _)) => str_starts_with(sn.as_str(), r_only.as_slice()) || str_starts_with(
            sn.as_str(),
            ef.as_slice(),
        ),
        None => false,
    };
    if !looks {
        return None;
    }
    let (serial, encrypt_type, product_type) = match record {
        Some((s, e, pt)) => (Some(s), e, pt),
        None => (None, 7u8, 0u8),
    };
    Some(Found { address, name, serial, encrypt_type, product_type })
}

/// Which advertisements a scan reports: one whose name begins `E F -`, or whose scan
/// record's serial begins with `R` or with `E F`, is an EcoFlow device, whatever the
/// rest; any other is not.
pub proof fn lemma_ecoflow_filter(name: Seq<char>, record: Option<(Seq<char>, u8, u8)>)
    ensures
        (name.len() >= 3 && name[0] == 'E' && name[1] == 'F' && name[2] == '-') ==> looks_ecoflow(name, record),
        (record matches Some((sn, _, _)) && sn.len() >= 1 && sn[0] == 'R') ==> looks_ecoflow(name, record),
        (record matches Some((sn, _, _)) && sn.len() >= 2 && sn[0] == 'E' && sn[1] == 'F') ==> looks_ecoflow(
            name,
            record,
        ),
        looks_ecoflow(name, record) ==> (name.len() >= 3 && name[0] == 'E' && name[1] == 'F' && name[2]
            == '-') || (record matches Some((sn, _, _)) && ((sn.len() >= 1 && sn[0] == 'R') || (sn.len()
            >= 2 && sn[0] == 'E' && sn[1] == 'F'))),
{
    if name.len() >= 3 && name[0] == 'E' && name[1] == 'F' && name[2] == '-' {
        assert(name.take(3) =~= seq!['E', 'F', '-']);
    }
    if starts_with_chars(name, seq!['E', 'F', '-']) {
        assert(name.take(3)[0] == 'E' && name.take(3)[1] == 'F' && name.take(3)[2] == '-');
    }
    match record {
        Some((sn, _, _)) => {
            if sn.len() >= 1 && sn[0] == 'R' {
                assert(sn.take(1) =~= seq!['R']);
            }
            if sn.len() >= 2 && sn[0] == 'E' && sn[1] == 'F' {
                assert(sn.take(2) =~= seq!['E', 'F']);
            }
            if starts_with_chars(sn, seq!['R']) {
                assert(sn.take(1)[0] == 'R');
            }
            if starts_with_chars(sn, seq!['E', 'F']) {
                assert(sn.take(2)[0] == 'E' && sn.take(2)[1] == 'F');
            }
        },
        None => {},
    }
}

/// The ATT write type.
#[derive(Debug, Clone, Copy, PartialEq, Eq)]
pub enum WriteKind {
    WithResponse,
    WithoutResponse,
}

/// Pick a write type the characteristic actually advertises: with response when preferred
/// and supported, else without response when supported, else with response.
pub fn choose_write_type(prefer_response: bool, supports_write: bool, supports_write_without_response: bool) -> (k: WriteKind)
    ensures
        k == (if prefer_response && supports_write {
            WriteKind::WithResponse
        } else if supports_write_without_response {
            WriteKind::WithoutResponse
        } else {
            WriteKind::WithResponse
        }),
{
    if prefer_response && supports_write {
        WriteKind::WithResponse
    } else if supports_write_without_response {
        WriteKind::WithoutResponse
    } else {
        WriteKind::WithResponse
    }
}

/// Whether to subscribe to a characteristic: every notify/indicate one but Service Changed.
pub fn should_subscribe(uuid: u128, notify: bool, indicate: bool) -> (r: bool)
    ensures
        r == (uuid != GATT_SERVICE_CHANGED && (notify || indicate)),
{
    uuid != GATT_SERVICE_CHANGED && (notify || indicate)
}

/// The index of the first occurrence of `u` in `s`.
pub open spec fn first_index(s: Seq<u128>, u: u128) -> Option<int>
    decreases s.len(),
{
    if s.len() == 0 {
        None
    } else {
        match first_index(s.drop_last(), u) {
            Some(i) => Some(i),
            None => if s.last() == u {
                Some(s.len() - 1)
            } else {
                None
            },
        }
    }
}

fn find_uuid(uuids: &[u128], u: u128) -> (r: Option<usize>)
    ensures
        match first_index(uuids@, u) {
            Some(i) => r == Some(i as usize),
            None => r is None,
        },
{
    let mut i: usize = 0;
    while i < uuids.len()
        invariant
            i <= uuids.len(),
            first_index(uuids@.take(i as int), u) is None,
        decreases uuids.len() - i,
    {
        proof {
            assert(uuids@.take(i + 1).drop_last() =~= uuids@.take(i as int));
        }
        if uuids[i] == u {
            proof {
                lemma_first_index_prefix(uuids@, u, i + 1);
            }
            return Some(i);
        }
        i = i + 1;
    }
    proof {
        assert(uuids@.take(uuids@.len() as int) =~= uuids@);
    }
    None
}

/// A first occurrence within a prefix is the first occurrence in the whole sequence.
proof fn lemma_first_index_prefix(s: Seq<u128>, u: u128, k: int)
    requires
        0 <= k <= s.len(),
        first_index(s.take(k), u) is Some,
    ensures
        first_index(s, u) == first_index(s.take(k), u),
    decreases s.len() - k,
{
    if k < s.len() {
        assert(s.take(k + 1).drop_last() =~= s.take(k));
        lemma_first_index_prefix(s, u, k + 1);
    } else {
        assert(s.take(k) =~= s);
    }
}

/// The (write, notify) characteristic indices for a characteristic list: the Nordic UART
/// pair when both are present, else the RFCOMM-style pair, else none.
pub open spec fn select_characteristics_spec(uuids: Seq<u128>) -> Option<(int, int)> {
    match (first_index(uuids, NORDIC_WRITE), first_index(uuids, NORDIC_NOTIFY)) {
        (Some(w), Some(n)) => Some((w, n)),
        _ => match (first_index(uuids, RFCOMM_WRITE), first_index(uuids, RFCOMM_NOTIFY)) {
            (Some(w), Some(n)) => Some((w, n)),
            _ => None,
        },
    }
}

/// Choose the write/notify characteristics among the discovered ones (by UUID).
pub fn select_characteristics(uuids: &[u128]) -> (r: Option<(usize, usize)>)
    ensures
        match select_characteristics_spec(uuids@) {
            Some((w, n)) => r == Some((w as usize, n as usize)),
            None => r is None,
        },
{
    match (find_uuid(uuids, NORDIC_WRITE), find_uuid(uuids, NORDIC_NOTIFY)) {
        (Some(w), Some(n)) => Some((w, n)),
        _ => match (find_uuid(uuids, RFCOMM_WRITE), find_uuid(uuids, RFCOMM_NOTIFY)) {
            (Some(w), Some(n)) => Some((w, n)),
            _ => None,
        },
    }
}

/// The serial text of a Device Information value whose bytes, without their trailing
/// NUL bytes, are valid UTF-8: the text they encode, trimmed of white space.
pub open spec fn dis_text(val: Seq<u8>) -> Seq<char> {
    trim_ws(decode_utf8(trim_trailing_nul(val)))
}

/// The serial number read from the Device Information service: the value without its
/// trailing NUL bytes, as UTF-8 text, trimmed of white space; none when it is not UTF-8
/// or nothing is left.
pub fn dis_serial(val: &[u8]) -> (r: Option<String>)
    ensures
        !valid_utf8(trim_trailing_nul(val@)) ==> r is None,
        valid_utf8(trim_trailing_nul(val@)) ==> match r {
            Some(s) => s@ == dis_text(val@) && s@.len() > 0,
            None => dis_text(val@).len() == 0,
        },
{
    let mut n = val.len();
    proof {
        assert(val@.take(n as int) =~= val@);
    }
    while n > 0 && val[n - 1] == 0
        invariant
            n <= val.len(),
            trim_trailing_nul(val@) == trim_trailing_nul(val@.take(n as int)),
        decreases n,
    {
        proof {
            assert(val@.take(n as int).drop_last() =~= val@.take(n - 1));
        }
        n = n - 1;
    }
    let bytes = vstd::slice::slice_to_vec(&val[0..n]);
    proof {
        assert(bytes@ =~= val@.take(n as int));
        assert(trim_trailing_nul(bytes@) == bytes@);
    }
    match string_from_utf8(bytes) {
        None => None,
        Some(s) => {
            let t = trim_str(s.as_str());
            if t.unicode_len() == 0 {
                None
            } else {
                Some(String::from_str(t))
            }
        },
    }
}

/// Connection attempts made before giving up.
pub const CONNECT_ATTEMPTS: u8 = 4;
/// Checks of a fresh link before it counts as not settled.
pub const SETTLE_POLLS: u8 = 15;
/// Pause after a failed connection attempt, in milliseconds.
pub const RETRY_PAUSE_MS: u64 = 2000;
/// Pause between two checks of a fresh link, in milliseconds.
pub const POLL_PAUSE_MS: u64 = 300;

/// What the connection loop does next, after its pause.
pub enum ConnectAction {
    /// Start connection attempt `n` (counting from 1).
    Attempt(u8),
    /// Check whether the link is up.
    Poll,
    /// The link is up.
    Connected,
    /// Every attempt failed.
    GiveUp,
}

/// The next action and the pause, in milliseconds, to take before it.
pub struct ConnectStep {
    pub delay_ms: u64,
    pub action: ConnectAction,
}

/// What came of the last action.
pub enum ConnectEvent {
    /// The connection attempt returned an error.
    LinkFailed,
    /// The connection attempt did not return in time.
    LinkTimedOut,
    /// The connection attempt returned.
    Linked,
    /// The link check said whether the link is up.
    Polled(bool),
}

/// The attempt after attempt `n`, or giving up after the last.
pub open spec fn after_attempt(n: u8) -> ConnectAction {
    if n < CONNECT_ATTEMPTS {
        ConnectAction::Attempt((n + 1) as u8)
    } else {
        ConnectAction::GiveUp
    }
}

/// The attempt number after attempt `n` (it stays at the last).
pub open spec fn next_attempt_no(n: u8) -> u8 {
    if n < CONNECT_ATTEMPTS {
        (n + 1) as u8
    } else {
        n
    }
}

/// The retry policy: from attempt `attempt` with `polls` failed link checks, the event
/// gives the new attempt number, the new count of failed checks, and the next step.
/// A failed attempt pauses 2 s, a timed-out one none; a returned attempt checks the link
/// up to 15 times, 300 ms apart, before moving on; after the 4th attempt it gives up.
pub open spec fn connect_next(attempt: u8, polls: u8, ev: ConnectEvent) -> (u8, u8, ConnectStep) {
    match ev {
        ConnectEvent::LinkFailed => (
            next_attempt_no(attempt),
            0,
            ConnectStep { delay_ms: RETRY_PAUSE_MS, action: after_attempt(attempt) },
        ),
        ConnectEvent::LinkTimedOut => (
            next_attempt_no(attempt),
            0,
            ConnectStep { delay_ms: 0, action: after_attempt(attempt) },
        ),
        ConnectEvent::Linked => (attempt, 0, ConnectStep { delay_ms: 0, action: ConnectAction::Poll }),
        ConnectEvent::Polled(up) => if up {
            (attempt, polls, ConnectStep { delay_ms: 0, action: ConnectAction::Connected })
        } else if polls + 1 < SETTLE_POLLS {
            ((attempt, (polls + 1) as u8, ConnectStep { delay_ms: POLL_PAUSE_MS, action: ConnectAction::Poll }))
        } else {
            (
                next_attempt_no(attempt),
                0,
                ConnectStep { delay_ms: POLL_PAUSE_MS, action: after_attempt(attempt) },
            )
        },
    }
}

/// The state of the connection loop: the current attempt and the failed link checks in it.
pub struct ConnectPolicy {
    attempt: u8,
    polls: u8,
}

impl ConnectPolicy {
    /// The current attempt number.
    pub closed spec fn attempt(&self) -> u8 {
        self.attempt
    }

    /// The failed link checks of the current attempt.
    pub closed spec fn polls(&self) -> u8 {
        self.polls
    }

    /// The attempt is one of the four and fewer than 15 checks have failed.
    pub open spec fn wf(&self) -> bool {
        1 <= self.attempt() <= CONNECT_ATTEMPTS && self.polls() < SETTLE_POLLS
    }

    /// The loop before its first attempt, and that attempt.
    pub fn start() -> (r: (ConnectPolicy, ConnectStep))
        ensures
            r.0.wf(),
            r.0.attempt() == 1,
            r.0.polls() == 0,
            r.1 == (ConnectStep { delay_ms: 0, action: ConnectAction::Attempt(1) }),
    {
        (ConnectPolicy { attempt: 1, polls: 0 }, ConnectStep { delay_ms: 0, action: ConnectAction::Attempt(1) })
    }

    /// The next step after an event.
    pub fn step(&mut self, ev: ConnectEvent) -> (r: ConnectStep)
        requires
            old(self).wf(),
        ensures
            final(self).wf(),
            (final(self).attempt(), final(self).polls(), r) == connect_next(
                old(self).attempt(),
                old(self).polls(),
                ev,
            ),
    {
        let n = self.attempt;
        let (after, next_no) = if n < CONNECT_ATTEMPTS {
            (ConnectAction::Attempt(n + 1), n + 1)
        } else {
            (ConnectAction::GiveUp, n)
        };
        match ev {
            ConnectEvent::LinkFailed => {
                self.attempt = next_no;
                self.polls = 0;
                ConnectStep { delay_ms: RETRY_PAUSE_MS, action: after }
            },
            ConnectEvent::LinkTimedOut => {
                self.attempt = next_no;
                self.polls = 0;
                ConnectStep { delay_ms: 0, action: after }
            },
            ConnectEvent::Linked => {
                self.polls = 0;
                ConnectStep { delay_ms: 0, action: ConnectAction::Poll }
            },
            ConnectEvent::Polled(up) => {
                if up {
                    ConnectStep { delay_ms: 0, action: ConnectAction::Connected }
                } else if self.polls + 1 < SETTLE_POLLS {
                    self.polls = self.polls + 1;
                    ConnectStep { delay_ms: POLL_PAUSE_MS, action: ConnectAction::Poll }
                } else {
                    self.attempt = next_no;
                    self.polls = 0;
                    ConnectStep { delay_ms: POLL_PAUSE_MS, action: after }
                }
            },
        }
    }
}

/// Whether `c` is an ASCII upper-case letter.
pub open spec fn ascii_upper(c: char) -> bool {
    'A' <= c <= 'Z'
}

/// Whether two characters are equal once ASCII letters are lower-cased.
pub open spec fn same_ignoring_ascii_case(a: char, b: char) -> bool {
    ||| a == b
    ||| ascii_upper(a) && a as int + 32 == b as int
    ||| ascii_upper(b) && b as int + 32 == a as int
}

/// Whether two strings are equal ignoring ASCII case (`str::eq_ignore_ascii_case`).
pub open spec fn eq_ignore_ascii_case_spec(a: Seq<char>, b: Seq<char>) -> bool {
    a.len() == b.len() && forall|i: int| 0 <= i < a.len() ==> same_ignoring_ascii_case(a[i], b[i])
}

fn same_char_ignoring_ascii_case(a: char, b: char) -> (r: bool)
    ensures
        r == same_ignoring_ascii_case(a, b),
{
    let x = a as u32;
    let y = b as u32;
    x == y || (0x41 <= x && x <= 0x5a && x + 32 == y) || (0x41 <= y && y <= 0x5a && y + 32 == x)
}

/// Whether two strings are equal ignoring ASCII case.
pub fn eq_ignore_ascii_case(a: &str, b: &str) -> (r: bool)
    ensures
        r == eq_ignore_ascii_case_spec(a@, b@),
{
    let n = a.unicode_len();
    if n != b.unicode_len() {
        return false;
    }
    let mut i: usize = 0;
    while i < n
        invariant
            n == a@.len(),
            n == b@.len(),
            i <= n,
            forall|j: int| 0 <= j < i ==> same_ignoring_ascii_case(a@[j], b@[j]),
        decreases n - i,
    {
        if !same_char_ignoring_ascii_case(a.get_char(i), b.get_char(i)) {
            return false;
        }
        i = i + 1;
    }
    true
}

/// The index of the first address equal to `target` ignoring ASCII case.
pub fn pick_peripheral(addresses: &Vec<String>, target: &str) -> (r: Option<usize>)
    ensures
        match r {
            Some(i) => i < addresses@.len() && eq_ignore_ascii_case_spec(addresses@[i as int]@, target@)
                && forall|j: int| 0 <= j < i ==> !eq_ignore_ascii_case_spec(addresses@[j]@, target@),
            None => forall|j: int|
                0 <= j < addresses@.len() ==> !eq_ignore_ascii_case_spec(addresses@[j]@, target@),
        },
{
    let mut i: usize = 0;
    while i < addresses.len()
        invariant
            i <= addresses@.len(),
            forall|j: int| 0 <= j < i ==> !eq_ignore_ascii_case_spec(addresses@[j]@, target@),
        decreases addresses.len() - i,
    {
        if eq_ignore_ascii_case(addresses[i].as_str(), target) {
            return Some(i);
        }
        i = i + 1;
    }
    None
}

/// The serial and encrypt type a connection starts from: those of the device's best scan
/// record, or no serial and encrypt type 7 without one.
pub fn scan_identity(record: Option<(String, u8, u8)>) -> (r: (Option<String>, u8))
    ensures
        match record {
            Some((serial, encrypt_type, _)) => r.0 == Some(serial) && r.1 == encrypt_type,
            None => r.0 is None && r.1 == 7,
        },
{
    match record {
        Some((serial, encrypt_type, _)) => (Some(serial), encrypt_type),
        None => (None, 7),
    }
}

} // verus!
