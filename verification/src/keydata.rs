//! The static key table used to derive the BLE session key.
//!
//! The table (65280 bytes) ships as data beside the program; `gen_session_key` reads
//! 16 bytes of it at an index derived from the device's seed.
use vstd::prelude::*;

verus! {

/// Size of the key table in bytes.
pub const KEYDATA_LEN: usize = 65280;

/// Return the 8 bytes at `pos`, or `None` when that window falls outside the table.
pub fn get8(keydata: &[u8], pos: usize) -> (r: Option<[u8; 8]>)
    ensures
        pos + 8 <= keydata@.len() ==> r is Some && r->0@ == keydata@.subrange(pos as int, pos + 8),
        pos + 8 > keydata@.len() ==> r is None,
{
    let n = keydata.len();
    let end = match pos.checked_add(8) {
        Some(e) => e,
        None => return None,
    };
    if end > n {
        return None;
    }
    let out: [u8; 8] = [
        keydata[pos],
        keydata[pos + 1],
        keydata[pos + 2],
        keydata[pos + 3],
        keydata[pos + 4],
        keydata[pos + 5],
        keydata[pos + 6],
        keydata[pos + 7],
    ];
    proof {
        assert(out@ =~= keydata@.subrange(pos as int, pos + 8));
    }
    Some(out)
}

} // verus!
