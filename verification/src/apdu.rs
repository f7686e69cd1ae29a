//! APDU command frames for a PC/SC contactless reader (ACR122U-style
//! pseudo-APDUs), and recognition of the success status word `90 00`.
//!
//! Each builder returns the exact byte frame to transmit; the caller owns the
//! transmission. The frames are stateless: nothing is retained between calls.

use vstd::prelude::*;

verus! {

/// The frame that stages a 6-byte authentication key into reader key slot 0:
/// `FF 82 00 00 06 || key`.
pub open spec fn spec_load_key_frame(key: Seq<u8>) -> Seq<u8> {
    seq![0xFFu8, 0x82u8, 0x00u8, 0x00u8, 0x06u8] + key
}

/// Build the load-key command for reader key slot 0.
pub fn load_key(key: &[u8; 6]) -> (frame: Vec<u8>)
    ensures
        frame@ == spec_load_key_frame(key@),
{
    let mut frame: Vec<u8> = Vec::new();
    frame.push(0xFF);
    frame.push(0x82);
    frame.push(0x00);
    frame.push(0x00);
    frame.push(0x06);
    frame.extend_from_slice(key.as_slice());
    proof {
        assert(frame@ =~= spec_load_key_frame(key@));
    }
    frame
}

/// The frame that authenticates one block with the key last loaded into
/// slot 0: `FF 86 00 00 05 01 00 block key_type 00`.
pub open spec fn spec_authenticate_frame(block: u8, key_type: u8) -> Seq<u8> {
    seq![0xFFu8, 0x86u8, 0x00u8, 0x00u8, 0x05u8, 0x01u8, 0x00u8, block, key_type, 0x00u8]
}

/// Key type A for MIFARE sector authentication.
pub const KEY_TYPE_A: u8 = 0x60;

/// Key type B for MIFARE sector authentication.
pub const KEY_TYPE_B: u8 = 0x61;

/// Build the authenticate-block command. `key_type` is `KEY_TYPE_A` or
/// `KEY_TYPE_B`.
pub fn authenticate(block: u8, key_type: u8) -> (frame: Vec<u8>)
    ensures
        frame@ == spec_authenticate_frame(block, key_type),
{
    let mut frame: Vec<u8> = Vec::new();
    frame.push(0xFF);
    frame.push(0x86);
    frame.push(0x00);
    frame.push(0x00);
    frame.push(0x05);
    frame.push(0x01);
    frame.push(0x00);
    frame.push(block);
    frame.push(key_type);
    frame.push(0x00);
    proof {
        assert(frame@ =~= spec_authenticate_frame(block, key_type));
    }
    frame
}

/// The frame that reads `length` bytes from one block or page:
/// `FF B0 00 block length`.
pub open spec fn spec_read_binary_frame(block: u8, length: u8) -> Seq<u8> {
    seq![0xFFu8, 0xB0u8, 0x00u8, block, length]
}

/// Build the read-binary command.
pub fn read_binary(block: u8, length: u8) -> (frame: Vec<u8>)
    ensures
        frame@ == spec_read_binary_frame(block, length),
{
    let mut frame: Vec<u8> = Vec::new();
    frame.push(0xFF);
    frame.push(0xB0);
    frame.push(0x00);
    frame.push(block);
    frame.push(length);
    proof {
        assert(frame@ =~= spec_read_binary_frame(block, length));
    }
    frame
}

/// The frame that writes `data` to one block or page:
/// `FF D6 00 block data.len() || data`.
pub open spec fn spec_update_binary_frame(block: u8, data: Seq<u8>) -> Seq<u8> {
    seq![0xFFu8, 0xD6u8, 0x00u8, block, data.len() as u8] + data
}

/// Build the update-binary command. The data must fit a one-byte length
/// field.
pub fn update_binary(block: u8, data: &[u8]) -> (frame: Vec<u8>)
    requires
        data@.len() <= 255,
    ensures
        frame@ == spec_update_binary_frame(block, data@),
{
    let mut frame: Vec<u8> = Vec::new();
    frame.push(0xFF);
    frame.push(0xD6);
    frame.push(0x00);
    frame.push(block);
    frame.push(data.len() as u8);
    frame.extend_from_slice(data);
    proof {
        assert(frame@ =~= spec_update_binary_frame(block, data@));
    }
    frame
}

/// A reader response reports success exactly when its last two bytes are the
/// status word `90 00`.
pub open spec fn spec_is_success(resp: Seq<u8>) -> bool {
    resp.len() >= 2 && resp[resp.len() - 2] == 0x90 && resp[resp.len() - 1] == 0x00
}

/// Whether a response ends in the success status word `90 00`.
pub fn is_success(resp: &[u8]) -> (ok: bool)
    ensures
        ok == spec_is_success(resp@),
{
    let n = resp.len();
    n >= 2 && resp[n - 2] == 0x90 && resp[n - 1] == 0x00
}

/// Drop the trailing 2-byte status word from a successful response, leaving
/// the data bytes.
pub fn strip_status(resp: &[u8]) -> (data: Vec<u8>)
    requires
        resp@.len() >= 2,
    ensures
        data@ == resp@.take(resp@.len() - 2),
{
    let mut data: Vec<u8> = Vec::new();
    let end = resp.len() - 2;
    let mut i: usize = 0;
    while i < end
        invariant
            end == resp@.len() - 2,
            i <= end,
            data@ == resp@.take(i as int),
        decreases end - i,
    {
        data.push(resp[i]);
        proof {
            assert(data@ =~= resp@.take(i + 1));
        }
        i = i + 1;
    }
    data
}

} // verus!
