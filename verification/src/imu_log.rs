//! The record of the IMU's registers that is written to disk when the IMU
//! is set up: each register's name with its bytes in hexadecimal, as
//! pretty-printed JSON.

use vstd::prelude::*;
use crate::text::{hex_byte, hex_byte_text};

verus! {

#[verifier::external_type_specification]
#[verifier::external_body]
pub struct ExJsonError(serde_json::Error);

/// The pretty-printed JSON text of a list of (name, list of strings)
/// pairs, as `serde_json::to_string_pretty` writes it; `None` where it
/// reports an error.
pub uninterp spec fn pretty_json(listing: Seq<(Seq<char>, Seq<Seq<char>>)>) -> Option<Seq<char>>;

/// `serde_json::to_string_pretty` on a list of (name, list of strings)
/// pairs. Its result is named by `pretty_json` of the list's contents:
/// the same contents give the same text, or the same failure. What that
/// text is, is left to serde_json.
#[verifier::external_body]
fn to_string_pretty(listing: &Vec<(String, Vec<String>)>) -> (r: Result<String, serde_json::Error>)
    ensures
        match r {
            Ok(s) => pretty_json(listing.deep_view()) == Some(s@),
            Err(_) => pretty_json(listing.deep_view()) is None,
        },
{
    serde_json::to_string_pretty(listing)
}

/// Register dump with each byte shown as hexadecimal text.
pub open spec fn hex_listing(registers: Seq<(Seq<char>, Seq<u8>)>) -> Seq<(Seq<char>, Seq<Seq<char>>)> {
    registers.map_values(
        |r: (Seq<char>, Seq<u8>)| (r.0, r.1.map_values(|b: u8| hex_byte_text(b))),
    )
}

fn hex_bytes(bytes: &Vec<u8>) -> (h: Vec<String>)
    ensures
        h.deep_view() == bytes@.map_values(|b: u8| hex_byte_text(b)),
{
    let mut h: Vec<String> = Vec::new();
    let mut i: usize = 0;
    while i < bytes.len()
        invariant
            0 <= i <= bytes.len(),
            h@.len() == i,
            h.deep_view() == bytes@.take(i as int).map_values(|b: u8| hex_byte_text(b)),
        decreases bytes.len() - i,
    {
        let ghost before = h.deep_view();
        let ghost old_h = h@;
        h.push(hex_byte(bytes[i]));
        proof {
            let target = bytes@.take(i + 1).map_values(|b: u8| hex_byte_text(b));
            assert forall|k: int| 0 <= k < h@.len() implies #[trigger] h.deep_view()[k] == target[k] by {
                if k < i {
                    assert(h@[k] == old_h[k]);
                    assert(before[k] == old_h[k].deep_view());
                }
            }
            assert(h.deep_view() =~= target);
        }
        i += 1;
    }
    assert(bytes@.take(bytes@.len() as int) =~= bytes@);
    h
}

/// Each register's name with its bytes as `0x..` text, in the order read.
pub fn hex_register_listing(registers: &Vec<(String, Vec<u8>)>) -> (listing: Vec<(String, Vec<String>)>)
    ensures
        listing.deep_view() == hex_listing(registers.deep_view()),
{
    let mut listing: Vec<(String, Vec<String>)> = Vec::new();
    let mut i: usize = 0;
    while i < registers.len()
        invariant
            0 <= i <= registers.len(),
            listing@.len() == i,
            listing.deep_view() == hex_listing(registers.deep_view().take(i as int)),
        decreases registers.len() - i,
    {
        let name = registers[i].0.clone();
        let bytes = hex_bytes(&registers[i].1);
        let ghost before = listing.deep_view();
        let ghost old_l = listing@;
        listing.push((name, bytes));
        proof {
            let target = hex_listing(registers.deep_view().take(i + 1));
            assert(registers.deep_view()[i as int] == registers@[i as int].deep_view());
            assert forall|k: int| 0 <= k < listing@.len() implies #[trigger] listing.deep_view()[k] == target[k] by {
                if k < i {
                    assert(listing@[k] == old_l[k]);
                    assert(before[k] == old_l[k].deep_view());
                }
            }
            assert(listing.deep_view() =~= target);
        }
        i += 1;
    }
    assert(registers.deep_view().take(registers.deep_view().len() as int) =~= registers.deep_view());
    listing
}

/// The JSON record of a register dump: each register's name with its bytes
/// as `0x..` text, pretty-printed. `None` where the JSON writer fails.
pub fn imu_parameters_json(registers: &Vec<(String, Vec<u8>)>) -> (json: Option<String>)
    ensures
        match json {
            Some(s) => pretty_json(hex_listing(registers.deep_view())) == Some(s@),
            None => pretty_json(hex_listing(registers.deep_view())) is None,
        },
{
    let listing = hex_register_listing(registers);
    match to_string_pretty(&listing) {
        Ok(s) => Some(s),
        Err(_) => None,
    }
}

} // verus!
