//! River 2/3 telemetry decoding.
//!
//! The heartbeat packs are fixed-width little-endian C structs. Routing
//! (src, cmd_set, cmd_id) -> pack:
//!   (0x02, 0x20, 0x02) -> PD
//!   (0x03, 0x20, 0x02) -> EMS
//!   (0x03, 0x20, 0x32) -> BMS
//!   (0x04, *,    0x02) -> INV
//!   (0x05, 0x20, 0x02) -> MPPT (the config pack)
//!
//! Floating-point values (the BMS state of charge) are kept as their raw IEEE-754 bits.
use vstd::prelude::*;

use crate::bytes::{le_u16, le_u32, u16_from_le, u32_from_le};
use crate::model::status;
use crate::model::{empty_settings, DeviceSettings};

verus! {

/// A recognised heartbeat pack.
#[derive(Debug, Clone, Copy, PartialEq, Eq)]
pub enum Pack {
    Pd,
    Ems,
    Bms,
    Inv,
    Mppt,
}

/// The pack a route carries, if it is recognised.
pub open spec fn pack_of_spec(src: u8, cmd_set: u8, cmd_id: u8) -> Option<Pack> {
    if src == 0x02 && cmd_set == 0x20 && cmd_id == 0x02 {
        Some(Pack::Pd)
    } else if src == 0x03 && cmd_set == 0x20 && cmd_id == 0x02 {
        Some(Pack::Ems)
    } else if src == 0x03 && cmd_set == 0x20 && cmd_id == 0x32 {
        Some(Pack::Bms)
    } else if src == 0x04 && cmd_id == 0x02 {
        Some(Pack::Inv)
    } else if src == 0x05 && cmd_set == 0x20 && cmd_id == 0x02 {
        Some(Pack::Mppt)
    } else {
        None
    }
}

/// The name of a pack.
pub open spec fn pack_label(p: Pack) -> &'static str {
    match p {
        Pack::Pd => "PD",
        Pack::Ems => "EMS",
        Pack::Bms => "BMS",
        Pack::Inv => "INV",
        Pack::Mppt => "MPPT",
    }
}

/// The recognised pack of a route.
pub fn pack_of(src: u8, cmd_set: u8, cmd_id: u8) -> (r: Option<Pack>)
    ensures
        r == pack_of_spec(src, cmd_set, cmd_id),
{
    if src == 0x02 && cmd_set == 0x20 && cmd_id == 0x02 {
        Some(Pack::Pd)
    } else if src == 0x03 && cmd_set == 0x20 && cmd_id == 0x02 {
        Some(Pack::Ems)
    } else if src == 0x03 && cmd_set == 0x20 && cmd_id == 0x32 {
        Some(Pack::Bms)
    } else if src == 0x04 && cmd_id == 0x02 {
        Some(Pack::Inv)
    } else if src == 0x05 && cmd_set == 0x20 && cmd_id == 0x02 {
        Some(Pack::Mppt)
    } else {
        None
    }
}

/// Returns the pack name if the route is recognised, else `None` (the caller dumps raw).
pub fn pack_name(src: u8, cmd_set: u8, cmd_id: u8) -> (r: Option<&'static str>)
    ensures
        r == (match pack_of_spec(src, cmd_set, cmd_id) {
            Some(p) => Some(pack_label(p)),
            None => None,
        }),
{
    match pack_of(src, cmd_set, cmd_id) {
        Some(Pack::Pd) => Some("PD"),
        Some(Pack::Ems) => Some("EMS"),
        Some(Pack::Bms) => Some("BMS"),
        Some(Pack::Inv) => Some("INV"),
        Some(Pack::Mppt) => Some("MPPT"),
        None => None,
    }
}

/// A decoded field value for the raw/discovery view. `F32Bits` holds the IEEE-754 bits of
/// a little-endian `f32`.
#[derive(Debug, Clone, Copy, PartialEq, Eq)]
pub enum FieldValue {
    U8(u8),
    U16(u16),
    U32(u32),
    I32(i32),
    F32Bits(u32),
}

/// The byte at offset `o`, if present.
pub open spec fn u8_at(p: Seq<u8>, o: int) -> Option<u8> {
    if 0 <= o < p.len() {
        Some(p[o])
    } else {
        None
    }
}

/// The little-endian `u16` at offset `o`, if the two bytes are present.
pub open spec fn u16_at(p: Seq<u8>, o: int) -> Option<u16> {
    if 0 <= o && o + 2 <= p.len() {
        Some(le_u16(p[o], p[o + 1]))
    } else {
        None
    }
}

/// The little-endian `u32` at offset `o`, if the four bytes are present.
pub open spec fn u32_at(p: Seq<u8>, o: int) -> Option<u32> {
    if 0 <= o && o + 4 <= p.len() {
        Some(le_u32(p[o], p[o + 1], p[o + 2], p[o + 3]))
    } else {
        None
    }
}

/// The little-endian `i32` at offset `o`, if the four bytes are present.
pub open spec fn i32_at(p: Seq<u8>, o: int) -> Option<i32> {
    match u32_at(p, o) {
        Some(v) => Some(v as i32),
        None => None,
    }
}

fn u8at(b: &[u8], o: usize) -> (r: Option<u8>)
    ensures
        r == u8_at(b@, o as int),
{
    if o < b.len() {
        Some(b[o])
    } else {
        None
    }
}

fn u16at(b: &[u8], o: usize) -> (r: Option<u16>)
    requires
        o <= 1000,
    ensures
        r == u16_at(b@, o as int),
{
    if o + 2 <= b.len() {
        Some(u16_from_le(b[o], b[o + 1]))
    } else {
        None
    }
}

fn u32at(b: &[u8], o: usize) -> (r: Option<u32>)
    requires
        o <= 1000,
    ensures
        r == u32_at(b@, o as int),
{
    if o + 4 <= b.len() {
        Some(u32_from_le(b[o], b[o + 1], b[o + 2], b[o + 3]))
    } else {
        None
    }
}

fn i32at(b: &[u8], o: usize) -> (r: Option<i32>)
    requires
        o <= 1000,
    ensures
        r == i32_at(b@, o as int),
{
    match u32at(b, o) {
        Some(v) => Some(v as i32),
        None => None,
    }
}

/// One labelled field, present only when the value was decoded.
pub open spec fn field(name: &'static str, v: Option<FieldValue>) -> Seq<(&'static str, FieldValue)> {
    match v {
        Some(x) => seq![(name, x)],
        None => Seq::empty(),
    }
}

/// Wrap an optional byte as a field value.
pub open spec fn fv_u8(v: Option<u8>) -> Option<FieldValue> {
    match v {
        Some(x) => Some(FieldValue::U8(x)),
        None => None,
    }
}

/// Wrap an optional `u16` as a field value.
pub open spec fn fv_u16(v: Option<u16>) -> Option<FieldValue> {
    match v {
        Some(x) => Some(FieldValue::U16(x)),
        None => None,
    }
}

/// Wrap an optional `u32` as a field value.
pub open spec fn fv_u32(v: Option<u32>) -> Option<FieldValue> {
    match v {
        Some(x) => Some(FieldValue::U32(x)),
        None => None,
    }
}

/// Wrap an optional `i32` as a field value.
pub open spec fn fv_i32(v: Option<i32>) -> Option<FieldValue> {
    match v {
        Some(x) => Some(FieldValue::I32(x)),
        None => None,
    }
}

/// Wrap optional `f32` bits as a field value.
pub open spec fn fv_f32(v: Option<u32>) -> Option<FieldValue> {
    match v {
        Some(x) => Some(FieldValue::F32Bits(x)),
        None => None,
    }
}

/// A nonzero byte as an on/off flag.
pub open spec fn flag_of(v: Option<u8>) -> Option<bool> {
    match v {
        Some(x) => Some(x != 0),
        None => None,
    }
}

/// The labelled fields decoded from a pack, in the order the raw view lists them.
pub open spec fn pack_fields(pack: Pack, p: Seq<u8>) -> Seq<(&'static str, FieldValue)> {
    match pack {
        Pack::Pd => field("soc", fv_u8(u8_at(p, 14))) + field("wattsOutSum", fv_u16(u16_at(p, 15)))
            + field("wattsInSum", fv_u16(u16_at(p, 17))) + field("remainTime", fv_i32(i32_at(p, 19))),
        Pack::Ems => field("chgState", fv_u8(u8_at(p, 0))) + field("maxChargeSoc", fv_u8(u8_at(p, 12)))
            + field("minDsgSoc", fv_u8(u8_at(p, 43))) + field("openUpsFlag", fv_u8(u8_at(p, 15)))
            + field("chgRemainTime", fv_u32(u32_at(p, 17))) + field("dsgRemainTime", fv_u32(u32_at(p, 21)))
            + field("f32LcdShowSoc", fv_f32(u32_at(p, 26))),
        Pack::Bms => field("soc", fv_u8(u8_at(p, 11))) + field("vol(mV)", fv_u32(u32_at(p, 12)))
            + field("temp(°C)", fv_u8(u8_at(p, 20))) + field("f32ShowSoc", fv_f32(u32_at(p, 53)))
            + field("inputWatts", fv_u32(u32_at(p, 57))) + field("outputWatts", fv_u32(u32_at(p, 61)))
            + field("remainTime", fv_u32(u32_at(p, 65))),
        Pack::Inv => field("inputWatts", fv_u16(u16_at(p, 9))) + field("outputWatts", fv_u16(u16_at(p, 11)))
            + field("invOutVol(mV)", fv_u32(u32_at(p, 14))) + field("invOutFreq", fv_u8(u8_at(p, 22)))
            + field("acInVol(mV)", fv_u32(u32_at(p, 23))) + field("acInFreq", fv_u8(u8_at(p, 31)))
            + field("cfgAcEnabled", fv_u8(u8_at(p, 47))),
        Pack::Mppt => field("inWatts", fv_u16(u16_at(p, 16))) + field("acEnabled", fv_u8(u8_at(p, 66)))
            + field("xboost", fv_u8(u8_at(p, 67))) + field("dcEnabled", fv_u8(u8_at(p, 56)))
            + field("dcMode", fv_u8(u8_at(p, 31))) + field("acChargeWatts", fv_u16(u16_at(p, 73)))
            + field("carInput(mA)", fv_u16(u16_at(p, 61))),
    }
}

/// Accumulated telemetry of one device.
#[derive(Debug, Clone)]
pub struct RiverState {
    pub serial: Option<String>,
    // PD
    pub pd_soc: Option<u8>,
    pub pd_watts_out: Option<u16>,
    pub pd_watts_in: Option<u16>,
    // BMS
    /// IEEE-754 bits of the BMS `f32` state of charge.
    pub bms_soc_f32_bits: Option<u32>,
    pub bms_temp: Option<u8>,
    // EMS
    pub ems_chg_remain_min: Option<u32>,
    pub ems_dsg_remain_min: Option<u32>,
    // INV
    pub inv_ac_in_vol_mv: Option<u32>,
    pub inv_out_vol_mv: Option<u32>,
    pub inv_ac_in_freq: Option<u8>,
    pub inv_out_freq: Option<u8>,
    pub inv_input_watts: Option<u16>,
    pub inv_output_watts: Option<u16>,
    // MPPT
    pub mppt_in_watts: Option<u16>,
    /// Control settings read back from telemetry (merged across packs).
    pub settings: DeviceSettings,
}

/// A state with nothing decoded yet.
pub open spec fn fresh_state(serial: Option<String>) -> RiverState {
    RiverState {
        serial,
        pd_soc: None,
        pd_watts_out: None,
        pd_watts_in: None,
        bms_soc_f32_bits: None,
        bms_temp: None,
        ems_chg_remain_min: None,
        ems_dsg_remain_min: None,
        inv_ac_in_vol_mv: None,
        inv_out_vol_mv: None,
        inv_ac_in_freq: None,
        inv_out_freq: None,
        inv_input_watts: None,
        inv_output_watts: None,
        mppt_in_watts: None,
        settings: empty_settings(),
    }
}

/// The state after decoding pack `pack` with payload `p`.
pub open spec fn apply_pack(s: RiverState, pack: Pack, p: Seq<u8>) -> RiverState {
    match pack {
        Pack::Pd => RiverState {
            pd_soc: u8_at(p, 14),
            pd_watts_out: u16_at(p, 15),
            pd_watts_in: u16_at(p, 17),
            ..s
        },
        Pack::Ems => RiverState {
            ems_chg_remain_min: u32_at(p, 17),
            ems_dsg_remain_min: u32_at(p, 21),
            settings: DeviceSettings {
                charge_limit: u8_at(p, 12),
                discharge_limit: u8_at(p, 43),
                ..s.settings
            },
            ..s
        },
        Pack::Bms => RiverState {
            bms_temp: u8_at(p, 20),
            bms_soc_f32_bits: u32_at(p, 53),
            ..s
        },
        Pack::Inv => RiverState {
            inv_input_watts: u16_at(p, 9),
            inv_output_watts: u16_at(p, 11),
            inv_out_vol_mv: u32_at(p, 14),
            inv_out_freq: u8_at(p, 22),
            inv_ac_in_vol_mv: u32_at(p, 23),
            inv_ac_in_freq: u8_at(p, 31),
            ..s
        },
        Pack::Mppt => RiverState {
            mppt_in_watts: u16_at(p, 16),
            settings: DeviceSettings {
                dc_mode: u8_at(p, 31),
                dc_enabled: flag_of(u8_at(p, 56)),
                car_input_ma: u16_at(p, 61),
                ac_enabled: flag_of(u8_at(p, 66)),
                xboost_enabled: flag_of(u8_at(p, 67)),
                ac_charge_watts: u16_at(p, 73),
                ac_timeout_min: u16_at(p, 75),
                unit_timeout_min: u16_at(p, 80),
                screen_timeout_sec: u16_at(p, 82),
                ..s.settings
            },
            ..s
        },
    }
}

/// The fields of the settings that only the EMS pack writes are equal in `a` and `b`.
pub open spec fn same_limits(a: DeviceSettings, b: DeviceSettings) -> bool {
    a.charge_limit == b.charge_limit && a.discharge_limit == b.discharge_limit
}

/// The settings fields that only the MPPT pack writes are equal in `a` and `b`.
pub open spec fn same_config(a: DeviceSettings, b: DeviceSettings) -> bool {
    &&& a.ac_enabled == b.ac_enabled
    &&& a.xboost_enabled == b.xboost_enabled
    &&& a.dc_enabled == b.dc_enabled
    &&& a.dc_mode == b.dc_mode
    &&& a.ac_charge_watts == b.ac_charge_watts
    &&& a.car_input_ma == b.car_input_ma
    &&& a.unit_timeout_min == b.unit_timeout_min
    &&& a.screen_timeout_sec == b.screen_timeout_sec
    &&& a.ac_timeout_min == b.ac_timeout_min
}

/// What decoding a pack may change: the serial never changes; each group of fields
/// (PD, EMS with the charge and discharge limits, BMS, INV, MPPT with the other settings)
/// changes only when its own pack is decoded; and a field the pack writes whose bytes lie
/// past the end of the payload becomes `None`.
pub proof fn lemma_update_footprint(s: RiverState, pack: Pack, p: Seq<u8>)
    ensures
        ({
            let t = apply_pack(s, pack, p);
            &&& t.serial == s.serial
            &&& pack != Pack::Pd ==> t.pd_soc == s.pd_soc && t.pd_watts_out == s.pd_watts_out
                && t.pd_watts_in == s.pd_watts_in
            &&& pack != Pack::Ems ==> t.ems_chg_remain_min == s.ems_chg_remain_min
                && t.ems_dsg_remain_min == s.ems_dsg_remain_min && same_limits(t.settings, s.settings)
            &&& pack != Pack::Bms ==> t.bms_temp == s.bms_temp && t.bms_soc_f32_bits == s.bms_soc_f32_bits
            &&& pack != Pack::Inv ==> t.inv_ac_in_vol_mv == s.inv_ac_in_vol_mv
                && t.inv_out_vol_mv == s.inv_out_vol_mv && t.inv_ac_in_freq == s.inv_ac_in_freq
                && t.inv_out_freq == s.inv_out_freq && t.inv_input_watts == s.inv_input_watts
                && t.inv_output_watts == s.inv_output_watts
            &&& pack != Pack::Mppt ==> t.mppt_in_watts == s.mppt_in_watts && same_config(t.settings, s.settings)
            &&& pack == Pack::Pd ==> (t.pd_soc is None <==> p.len() < 15) && (t.pd_watts_out is None
                <==> p.len() < 17) && (t.pd_watts_in is None <==> p.len() < 19)
            &&& pack == Pack::Ems ==> (t.ems_chg_remain_min is None <==> p.len() < 21) && (
            t.ems_dsg_remain_min is None <==> p.len() < 25) && (t.settings.charge_limit is None
                <==> p.len() < 13) && (t.settings.discharge_limit is None <==> p.len() < 44)
            &&& pack == Pack::Bms ==> (t.bms_temp is None <==> p.len() < 21) && (t.bms_soc_f32_bits is None
                <==> p.len() < 57)
            &&& pack == Pack::Inv ==> (t.inv_input_watts is None <==> p.len() < 11) && (t.inv_output_watts
                is None <==> p.len() < 13) && (t.inv_out_vol_mv is None <==> p.len() < 18) && (
            t.inv_out_freq is None <==> p.len() < 23) && (t.inv_ac_in_vol_mv is None <==> p.len()
                < 27) && (t.inv_ac_in_freq is None <==> p.len() < 32)
            &&& pack == Pack::Mppt ==> (t.mppt_in_watts is None <==> p.len() < 18) && (t.settings.dc_mode
                is None <==> p.len() < 32) && (t.settings.dc_enabled is None <==> p.len() < 57) && (
            t.settings.car_input_ma is None <==> p.len() < 63) && (t.settings.ac_enabled is None
                <==> p.len() < 67) && (t.settings.xboost_enabled is None <==> p.len() < 68) && (
            t.settings.ac_charge_watts is None <==> p.len() < 75) && (t.settings.ac_timeout_min
                is None <==> p.len() < 77) && (t.settings.unit_timeout_min is None <==> p.len()
                < 82) && (t.settings.screen_timeout_sec is None <==> p.len() < 84)
        }),
{
}

fn push_u8(v: &mut Vec<(&'static str, FieldValue)>, name: &'static str, val: Option<u8>)
    ensures
        final(v)@ == old(v)@ + field(name, fv_u8(val)),
{
    if let Some(x) = val {
        v.push((name, FieldValue::U8(x)));
    }
    proof {
        assert(final(v)@ =~= old(v)@ + field(name, fv_u8(val)));
    }
}

fn push_u16(v: &mut Vec<(&'static str, FieldValue)>, name: &'static str, val: Option<u16>)
    ensures
        final(v)@ == old(v)@ + field(name, fv_u16(val)),
{
    if let Some(x) = val {
        v.push((name, FieldValue::U16(x)));
    }
    proof {
        assert(final(v)@ =~= old(v)@ + field(name, fv_u16(val)));
    }
}

fn push_u32(v: &mut Vec<(&'static str, FieldValue)>, name: &'static str, val: Option<u32>)
    ensures
        final(v)@ == old(v)@ + field(name, fv_u32(val)),
{
    if let Some(x) = val {
        v.push((name, FieldValue::U32(x)));
    }
    proof {
        assert(final(v)@ =~= old(v)@ + field(name, fv_u32(val)));
    }
}

fn push_i(v: &mut Vec<(&'static str, FieldValue)>, name: &'static str, val: Option<i32>)
    ensures
        final(v)@ == old(v)@ + field(name, fv_i32(val)),
{
    if let Some(x) = val {
        v.push((name, FieldValue::I32(x)));
    }
    proof {
        assert(final(v)@ =~= old(v)@ + field(name, fv_i32(val)));
    }
}

fn push_f(v: &mut Vec<(&'static str, FieldValue)>, name: &'static str, val: Option<u32>)
    ensures
        final(v)@ == old(v)@ + field(name, fv_f32(val)),
{
    if let Some(x) = val {
        v.push((name, FieldValue::F32Bits(x)));
    }
    proof {
        assert(final(v)@ =~= old(v)@ + field(name, fv_f32(val)));
    }
}

fn flag_opt(v: Option<u8>) -> (r: Option<bool>)
    ensures
        r == flag_of(v),
{
    match v {
        Some(x) => Some(x != 0),
        None => None,
    }
}

impl RiverState {
    /// A state with nothing decoded yet, for the device with this serial.
    pub fn new(serial: Option<String>) -> (r: RiverState)
        ensures
            r == fresh_state(serial),
    {
        RiverState {
            serial,
            pd_soc: None,
            pd_watts_out: None,
            pd_watts_in: None,
            bms_soc_f32_bits: None,
            bms_temp: None,
            ems_chg_remain_min: None,
            ems_dsg_remain_min: None,
            inv_ac_in_vol_mv: None,
            inv_out_vol_mv: None,
            inv_ac_in_freq: None,
            inv_out_freq: None,
            inv_input_watts: None,
            inv_output_watts: None,
            mppt_in_watts: None,
            settings: DeviceSettings::default(),
        }
    }

    /// Decode a heartbeat pack into state. Returns the labelled fields it extracted for the
    /// raw/discovery view, or `None` (state unchanged) if the route is unknown.
    pub fn update(&mut self, src: u8, cmd_set: u8, cmd_id: u8, p: &[u8]) -> (r: Option<Vec<(&'static str, FieldValue)>>)
        ensures
            match pack_of_spec(src, cmd_set, cmd_id) {
                None => r is None && *final(self) == *old(self),
                Some(pack) => r is Some && r->0@ == pack_fields(pack, p@) && *final(self) == apply_pack(*old(self), pack, p@),
            },
    {
        let pack = match pack_of(src, cmd_set, cmd_id) {
            Some(k) => k,
            None => return None,
        };
        let mut fields: Vec<(&'static str, FieldValue)> = Vec::new();
        match pack {
            Pack::Pd => {
                self.pd_soc = u8at(p, 14);
                self.pd_watts_out = u16at(p, 15);
                self.pd_watts_in = u16at(p, 17);
                push_u8(&mut fields, "soc", self.pd_soc);
                push_u16(&mut fields, "wattsOutSum", self.pd_watts_out);
                push_u16(&mut fields, "wattsInSum", self.pd_watts_in);
                push_i(&mut fields, "remainTime", i32at(p, 19));
            },
            Pack::Ems => {
                push_u8(&mut fields, "chgState", u8at(p, 0));
                push_u8(&mut fields, "maxChargeSoc", u8at(p, 12));
                push_u8(&mut fields, "minDsgSoc", u8at(p, 43));
                push_u8(&mut fields, "openUpsFlag", u8at(p, 15));
                self.ems_chg_remain_min = u32at(p, 17);
                self.ems_dsg_remain_min = u32at(p, 21);
                push_u32(&mut fields, "chgRemainTime", self.ems_chg_remain_min);
                push_u32(&mut fields, "dsgRemainTime", self.ems_dsg_remain_min);
                push_f(&mut fields, "f32LcdShowSoc", u32at(p, 26));
                self.settings.charge_limit = u8at(p, 12);
                self.settings.discharge_limit = u8at(p, 43);
            },
            Pack::Bms => {
                push_u8(&mut fields, "soc", u8at(p, 11));
                push_u32(&mut fields, "vol(mV)", u32at(p, 12));
                push_u8(&mut fields, "temp(°C)", u8at(p, 20));
                self.bms_temp = u8at(p, 20);
                self.bms_soc_f32_bits = u32at(p, 53);
                push_f(&mut fields, "f32ShowSoc", self.bms_soc_f32_bits);
                push_u32(&mut fields, "inputWatts", u32at(p, 57));
                push_u32(&mut fields, "outputWatts", u32at(p, 61));
                push_u32(&mut fields, "remainTime", u32at(p, 65));
            },
            Pack::Inv => {
                self.inv_input_watts = u16at(p, 9);
                self.inv_output_watts = u16at(p, 11);
                self.inv_out_vol_mv = u32at(p, 14);
                self.inv_out_freq = u8at(p, 22);
                self.inv_ac_in_vol_mv = u32at(p, 23);
                self.inv_ac_in_freq = u8at(p, 31);
                push_u16(&mut fields, "inputWatts", self.inv_input_watts);
                push_u16(&mut fields, "outputWatts", self.inv_output_watts);
                push_u32(&mut fields, "invOutVol(mV)", self.inv_out_vol_mv);
                push_u8(&mut fields, "invOutFreq", self.inv_out_freq);
                push_u32(&mut fields, "acInVol(mV)", self.inv_ac_in_vol_mv);
                push_u8(&mut fields, "acInFreq", self.inv_ac_in_freq);
                push_u8(&mut fields, "cfgAcEnabled", u8at(p, 47));
            },
            Pack::Mppt => {
                self.mppt_in_watts = u16at(p, 16);
                push_u16(&mut fields, "inWatts", self.mppt_in_watts);
                self.settings.dc_mode = u8at(p, 31);
                self.settings.dc_enabled = flag_opt(u8at(p, 56));
                self.settings.car_input_ma = u16at(p, 61);
                self.settings.ac_enabled = flag_opt(u8at(p, 66));
                self.settings.xboost_enabled = flag_opt(u8at(p, 67));
                self.settings.ac_charge_watts = u16at(p, 73);
                self.settings.ac_timeout_min = u16at(p, 75);
                self.settings.unit_timeout_min = u16at(p, 80);
                self.settings.screen_timeout_sec = u16at(p, 82);
                push_u8(&mut fields, "acEnabled", u8at(p, 66));
                push_u8(&mut fields, "xboost", u8at(p, 67));
                push_u8(&mut fields, "dcEnabled", u8at(p, 56));
                push_u8(&mut fields, "dcMode", u8at(p, 31));
                push_u16(&mut fields, "acChargeWatts", u16at(p, 73));
                push_u16(&mut fields, "carInput(mA)", u16at(p, 61));
            },
        }
        proof {
            assert(fields@ =~= pack_fields(pack, p@));
        }
        Some(fields)
    }
}

/// Where the snapshot's battery charge comes from: the precise BMS float (its bits) when
/// decoded, else the PD integer percentage.
#[derive(Debug, Clone, Copy, PartialEq, Eq)]
pub enum BatteryCharge {
    BmsF32Bits(u32),
    PdPercent(u8),
}

/// The integer part of a normalised snapshot; the floating-point fields (battery charge,
/// voltages in volts, load percentage) are derived from these by the caller.
#[derive(Debug, Clone)]
pub struct SnapshotCore {
    pub device_uid: Option<String>,
    pub battery_charge: Option<BatteryCharge>,
    pub input_voltage_mv: Option<u32>,
    pub output_voltage_mv: Option<u32>,
    /// AC output watts and the rated AC output watts, when both are known.
    pub load_watts: Option<(u16, u32)>,
    pub battery_runtime_s: Option<u32>,
    pub input_power_w: Option<u32>,
    pub output_power_w: Option<u32>,
    pub input_frequency: Option<u8>,
    pub temperature: Option<i32>,
    pub status_flags: u16,
    pub settings: DeviceSettings,
}

/// Whether the first four characters of `s` are `a b c d`.
pub open spec fn starts_with4(s: Seq<char>, a: char, b: char, c: char, d: char) -> bool {
    s.len() >= 4 && s[0] == a && s[1] == b && s[2] == c && s[3] == d
}

/// Rated AC output (W) by serial prefix, for the load percentage.
pub open spec fn rated_ac_watts_spec(serial: Option<String>) -> Option<u32> {
    match serial {
        None => None,
        Some(sn) => {
            let s = sn@;
            if starts_with4(s, 'R', '6', '0', '1') || starts_with4(s, 'R', '6', '0', '3') {
                Some(300)
            } else if starts_with4(s, 'R', '6', '1', '1') || starts_with4(s, 'R', '6', '1', '3') {
                Some(500)
            } else if starts_with4(s, 'R', '6', '2', '1') || starts_with4(s, 'R', '6', '2', '3') {
                Some(800)
            } else if starts_with4(s, 'R', '6', '3', '1') || starts_with4(s, 'R', '6', '3', '3') {
                Some(300)
            } else if starts_with4(s, 'R', '6', '5', '1') || starts_with4(s, 'R', '6', '5', '3') {
                Some(600)
            } else {
                None
            }
        },
    }
}

/// An optional value that is present and positive.
pub open spec fn positive_u16(v: Option<u16>) -> bool {
    match v {
        Some(w) => w > 0,
        None => false,
    }
}

/// Mains presence: AC input voltage present, or AC charging watts flowing.
pub open spec fn mains_spec(s: RiverState) -> bool {
    (match s.inv_ac_in_vol_mv {
        Some(v) => v > 1000,
        None => false,
    }) || positive_u16(s.inv_input_watts) || positive_u16(s.pd_watts_in)
}

/// Output presence: PD or inverter output watts flowing.
pub open spec fn output_active_spec(s: RiverState) -> bool {
    positive_u16(s.pd_watts_out) || positive_u16(s.inv_output_watts)
}

/// The status flags: LOW_BATTERY when `low_battery`; on mains ONLINE (and CHARGING when
/// PD input watts flow), else ON_BATTERY (and DISCHARGING when output is active).
pub open spec fn status_flags_spec(s: RiverState, low_battery: bool) -> u16 {
    let low: u16 = if low_battery { status::LOW_BATTERY } else { 0 };
    if mains_spec(s) {
        low | status::ONLINE | (if positive_u16(s.pd_watts_in) { status::CHARGING } else { 0u16 })
    } else {
        low | status::ON_BATTERY | (if output_active_spec(s) { status::DISCHARGING } else { 0u16 })
    }
}

/// Minutes as seconds.
pub open spec fn minutes_to_secs(m: Option<u32>) -> Option<u32> {
    match m {
        Some(v) => Some((v * 60) as u32),
        None => None,
    }
}

/// The remaining-time estimate that applies: charge time on mains, else discharge time.
pub open spec fn runtime_minutes(s: RiverState) -> Option<u32> {
    if mains_spec(s) {
        s.ems_chg_remain_min
    } else {
        s.ems_dsg_remain_min
    }
}

/// Whether the applicable remaining time, in seconds, fits in a `u32`.
pub open spec fn runtime_fits(s: RiverState) -> bool {
    match runtime_minutes(s) {
        Some(m) => m * 60 <= u32::MAX,
        None => true,
    }
}

/// Widen an optional `u16`.
pub open spec fn widen_u16(v: Option<u16>) -> Option<u32> {
    match v {
        Some(x) => Some(x as u32),
        None => None,
    }
}

/// The integer snapshot derived from an accumulated state.
pub open spec fn snapshot_core_spec(s: RiverState, low_battery: bool) -> SnapshotCore {
    SnapshotCore {
        device_uid: s.serial,
        battery_charge: match s.bms_soc_f32_bits {
            Some(b) => Some(BatteryCharge::BmsF32Bits(b)),
            None => match s.pd_soc {
                Some(v) => Some(BatteryCharge::PdPercent(v)),
                None => None,
            },
        },
        input_voltage_mv: s.inv_ac_in_vol_mv,
        output_voltage_mv: s.inv_out_vol_mv,
        load_watts: match (rated_ac_watts_spec(s.serial), s.inv_output_watts) {
            (Some(rated), Some(out)) => Some((out, rated)),
            _ => None,
        },
        battery_runtime_s: minutes_to_secs(runtime_minutes(s)),
        input_power_w: widen_u16(s.pd_watts_in),
        output_power_w: widen_u16(s.pd_watts_out),
        input_frequency: match s.inv_ac_in_freq {
            Some(f) if f > 0 => Some(f),
            _ => s.inv_out_freq,
        },
        temperature: match s.bms_temp {
            Some(t) => Some(t as i32),
            None => None,
        },
        status_flags: status_flags_spec(s, low_battery),
        settings: s.settings,
    }
}

/// The little-endian `u32` in bytes `o..o+4` of `p`, when `p` holds them.
pub open spec fn le_u32_in(p: Seq<u8>, o: int) -> Option<u32> {
    if p.len() >= o + 4 {
        Some(le_u32(p[o], p[o + 1], p[o + 2], p[o + 3]))
    } else {
        None
    }
}

/// The little-endian `u16` in bytes `o..o+2` of `p`, widened, when `p` holds them.
pub open spec fn le_u16_in(p: Seq<u8>, o: int) -> Option<u32> {
    if p.len() >= o + 2 {
        Some(le_u16(p[o], p[o + 1]) as u32)
    } else {
        None
    }
}

/// Where the snapshot's readings come from, whatever the state was before the pack:
/// after an INV pack the input voltage is the AC-input voltage in bytes 23..27 and the
/// output voltage the inverter-output voltage in bytes 14..18; after a PD pack the input
/// power is bytes 17..19 and the output power bytes 15..17; after a BMS pack the
/// temperature is byte 20 and the battery charge the `f32` bits in bytes 53..57. A
/// reading whose bytes the payload does not hold is absent. The device id is the serial.
pub proof fn lemma_snapshot_readings(s: RiverState, p: Seq<u8>, low_battery: bool)
    ensures
        ({
            let inv = snapshot_core_spec(apply_pack(s, Pack::Inv, p), low_battery);
            &&& inv.input_voltage_mv == le_u32_in(p, 23)
            &&& inv.output_voltage_mv == le_u32_in(p, 14)
            &&& inv.device_uid == s.serial
        }),
        ({
            let pd = snapshot_core_spec(apply_pack(s, Pack::Pd, p), low_battery);
            &&& pd.input_power_w == le_u16_in(p, 17)
            &&& pd.output_power_w == le_u16_in(p, 15)
        }),
        ({
            let bms = snapshot_core_spec(apply_pack(s, Pack::Bms, p), low_battery);
            &&& bms.temperature == (if p.len() >= 21 { Some(p[20] as i32) } else { None::<i32> })
            &&& p.len() >= 57 ==> bms.battery_charge == Some(
                BatteryCharge::BmsF32Bits(le_u32(p[53], p[54], p[55], p[56])),
            )
        }),
{
}

proof fn lemma_flag_bits(lo: bool, m: bool, c: bool, dch: bool, f: u16)
    by (bit_vector)
    requires
        f == (if m {
            (if lo { 4u16 } else { 0u16 }) | 1u16 | (if c { 16u16 } else { 0u16 })
        } else {
            (if lo { 4u16 } else { 0u16 }) | 2u16 | (if dch { 32u16 } else { 0u16 })
        }),
    ensures
        (f & 1u16 != 0) == m,
        (f & 2u16 != 0) == !m,
        (f & 4u16 != 0) == lo,
        (f & 16u16 != 0) == (m && c),
        (f & 32u16 != 0) == (!m && dch),
        f & 0xffc8u16 == 0,
{
}

/// The snapshot's status and runtime, stated from the decoded fields. The device is on
/// mains when the AC input voltage exceeds 1000 mV or AC or PD input watts are positive.
/// Then ONLINE (bit 0) is set, CHARGING (bit 4) when PD input watts are positive, and the
/// runtime is the charge-remaining minutes in seconds; otherwise ON_BATTERY (bit 1) is set,
/// DISCHARGING (bit 5) when PD or inverter output watts are positive, and the runtime is
/// the discharge-remaining minutes in seconds. LOW_BATTERY (bit 2) follows `low_battery`;
/// no other bit is set. The input frequency is the AC input frequency when positive, else
/// the inverter output frequency.
pub proof fn lemma_snapshot_status(s: RiverState, low_battery: bool)
    ensures
        ({
            let snap = snapshot_core_spec(s, low_battery);
            let f = snap.status_flags;
            let on_mains = (s.inv_ac_in_vol_mv matches Some(v) && v > 1000) || (
            s.inv_input_watts matches Some(w) && w > 0) || (s.pd_watts_in matches Some(w) && w > 0);
            let charging = s.pd_watts_in matches Some(w) && w > 0;
            let output = (s.pd_watts_out matches Some(w) && w > 0) || (s.inv_output_watts matches Some(
                w,
            ) && w > 0);
            let minutes = if on_mains {
                s.ems_chg_remain_min
            } else {
                s.ems_dsg_remain_min
            };
            &&& (f & 1 != 0) == on_mains
            &&& (f & 2 != 0) == !on_mains
            &&& (f & 4 != 0) == low_battery
            &&& (f & 16 != 0) == (on_mains && charging)
            &&& (f & 32 != 0) == (!on_mains && output)
            &&& f & 0xffc8 == 0
            &&& snap.battery_runtime_s == (match minutes {
                Some(m) => Some((m * 60) as u32),
                None => None::<u32>,
            })
            &&& snap.input_frequency == (match s.inv_ac_in_freq {
                Some(x) => if x > 0 {
                    Some(x)
                } else {
                    s.inv_out_freq
                },
                None => s.inv_out_freq,
            })
        }),
{
    let m = mains_spec(s);
    lemma_flag_bits(
        low_battery,
        m,
        positive_u16(s.pd_watts_in),
        output_active_spec(s),
        status_flags_spec(s, low_battery),
    );
}

fn positive(v: Option<u16>) -> (r: bool)
    ensures
        r == positive_u16(v),
{
    match v {
        Some(w) => w > 0,
        None => false,
    }
}

fn widen(v: Option<u16>) -> (r: Option<u32>)
    ensures
        r == widen_u16(v),
{
    match v {
        Some(x) => Some(x as u32),
        None => None,
    }
}

fn serial_starts_with4(s: &str, a: char, b: char, c: char, d: char) -> (r: bool)
    ensures
        r == starts_with4(s@, a, b, c, d),
{
    if s.unicode_len() < 4 {
        return false;
    }
    s.get_char(0) == a && s.get_char(1) == b && s.get_char(2) == c && s.get_char(3) == d
}

impl RiverState {
    /// Rated AC output (W) by serial prefix, for the load percentage. `None` when unknown.
    pub fn rated_ac_watts(&self) -> (r: Option<u32>)
        ensures
            r == rated_ac_watts_spec(self.serial),
    {
        let sn = match &self.serial {
            Some(s) => s.as_str(),
            None => return None,
        };
        if serial_starts_with4(sn, 'R', '6', '0', '1') || serial_starts_with4(sn, 'R', '6', '0', '3') {
            Some(300)
        } else if serial_starts_with4(sn, 'R', '6', '1', '1') || serial_starts_with4(sn, 'R', '6', '1', '3') {
            Some(500)
        } else if serial_starts_with4(sn, 'R', '6', '2', '1') || serial_starts_with4(sn, 'R', '6', '2', '3') {
            Some(800)
        } else if serial_starts_with4(sn, 'R', '6', '3', '1') || serial_starts_with4(sn, 'R', '6', '3', '3') {
            Some(300)
        } else if serial_starts_with4(sn, 'R', '6', '5', '1') || serial_starts_with4(sn, 'R', '6', '5', '3') {
            Some(600)
        } else {
            None
        }
    }

    /// Where the battery charge comes from: the BMS float when decoded, else the PD
    /// percentage.
    pub fn battery_charge(&self) -> (r: Option<BatteryCharge>)
        ensures
            r == snapshot_core_spec(*self, false).battery_charge,
    {
        match self.bms_soc_f32_bits {
            Some(b) => Some(BatteryCharge::BmsF32Bits(b)),
            None => match self.pd_soc {
                Some(v) => Some(BatteryCharge::PdPercent(v)),
                None => None,
            },
        }
    }

    /// Whether the applicable remaining time (charge time on mains, else discharge time)
    /// in seconds fits in a `u32`, which [`RiverState::to_snapshot_core`] needs.
    pub fn runtime_in_range(&self) -> (r: bool)
        ensures
            r == runtime_fits(*self),
    {
        let mains = (match self.inv_ac_in_vol_mv {
            Some(v) => v > 1000,
            None => false,
        }) || positive(self.inv_input_watts) || positive(self.pd_watts_in);
        let m = if mains {
            self.ems_chg_remain_min
        } else {
            self.ems_dsg_remain_min
        };
        match m {
            Some(v) => v <= u32::MAX / 60,
            None => true,
        }
    }

    /// Derive the integer snapshot from accumulated state. `low_battery` says whether the
    /// battery charge is below 20 %.
    pub fn to_snapshot_core(&self, low_battery: bool) -> (r: SnapshotCore)
        requires
            runtime_fits(*self),
        ensures
            r == snapshot_core_spec(*self, low_battery),
    {
        let mains = (match self.inv_ac_in_vol_mv {
            Some(v) => v > 1000,
            None => false,
        }) || positive(self.inv_input_watts) || positive(self.pd_watts_in);
        let output_active = positive(self.pd_watts_out) || positive(self.inv_output_watts);
        let mut flags: u16 = 0;
        if low_battery {
            flags = flags | status::LOW_BATTERY;
        }
        let runtime;
        if mains {
            flags = flags | status::ONLINE;
            if positive(self.pd_watts_in) {
                flags = flags | status::CHARGING;
            }
            runtime = match self.ems_chg_remain_min {
                Some(m) => Some(m * 60),
                None => None,
            };
        } else {
            flags = flags | status::ON_BATTERY;
            if output_active {
                flags = flags | status::DISCHARGING;
            }
            runtime = match self.ems_dsg_remain_min {
                Some(m) => Some(m * 60),
                None => None,
            };
        }
        proof {
            let low: u16 = if low_battery { status::LOW_BATTERY } else { 0 };
            assert((0u16 | 4u16) == 4u16) by (bit_vector);
            assert(forall|a: u16, b: u16| (a | b) | 0u16 == a | b) by (bit_vector);
            assert(forall|a: u16| (0u16 | a) == a) by (bit_vector);
            assert(flags == status_flags_spec(*self, low_battery));
        }
        let uid = match &self.serial {
            Some(s) => Some(s.clone()),
            None => None,
        };
        let load_watts = match (self.rated_ac_watts(), self.inv_output_watts) {
            (Some(rated), Some(out)) => Some((out, rated)),
            _ => None,
        };
        SnapshotCore {
            device_uid: uid,
            battery_charge: self.battery_charge(),
            input_voltage_mv: self.inv_ac_in_vol_mv,
            output_voltage_mv: self.inv_out_vol_mv,
            load_watts,
            battery_runtime_s: runtime,
            input_power_w: widen(self.pd_watts_in),
            output_power_w: widen(self.pd_watts_out),
            input_frequency: match self.inv_ac_in_freq {
                Some(f) if f > 0 => Some(f),
                _ => self.inv_out_freq,
            },
            temperature: match self.bms_temp {
                Some(t) => Some(t as i32),
                None => None,
            },
            status_flags: flags,
            settings: self.settings,
        }
    }
}

} // verus!
