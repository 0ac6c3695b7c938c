//! The device ID, a property of seven bytes. Property values travel inside
//! frames, so none of their bytes may have its top bit set.

use crate::queue::is_command_start;
use crate::queue::no_command_start;
use vstd::prelude::*;
use vstd::string::StringSliceAdditionalSpecFns;

verus! {

/// The size of the device ID field.
pub const DEVICE_ID_SIZE: usize = 7;

/// Why a device ID cannot be written.
#[derive(Clone, Copy, Debug, PartialEq, Eq, Structural)]
pub enum DeviceIdError {
    /// The ID is longer than seven bytes.
    TooLong,
    /// A byte of the ID is above 0x7F.
    NotAscii,
}

/// `count` spaces.
pub open spec fn spaces(count: nat) -> Seq<u8> {
    Seq::new(count, |i: int| 0x20u8)
}

/// The field that stands for a device ID: its bytes, padded on the right
/// with spaces to seven bytes. An ID of more than seven bytes has none, nor
/// has one with a byte above 0x7F.
pub open spec fn device_id_field(id: Seq<u8>) -> Result<Seq<u8>, DeviceIdError> {
    if id.len() > DEVICE_ID_SIZE {
        Err(DeviceIdError::TooLong)
    } else if !no_command_start(id) {
        Err(DeviceIdError::NotAscii)
    } else {
        Ok(id + spaces((DEVICE_ID_SIZE - id.len()) as nat))
    }
}

/// A field is seven bytes long and fit to travel in a frame.
pub proof fn lemma_device_id_field(id: Seq<u8>)
    ensures
        device_id_field(id) matches Ok(field) ==> field.len() == DEVICE_ID_SIZE && no_command_start(
            field,
        ),
{
    if device_id_field(id) is Ok {
        let field = device_id_field(id)->Ok_0;
        assert forall|i: int| 0 <= i < field.len() implies !is_command_start(#[trigger] field[i]) by {
            if i < id.len() {
                assert(field[i] == id[i]);
            }
        }
    }
}

/// Lays out the field for a device ID given as bytes.
pub fn encode_device_id_bytes(id: &[u8]) -> (field: Result<Vec<u8>, DeviceIdError>)
    ensures
        match field {
            Ok(bytes) => device_id_field(id@) == Ok::<Seq<u8>, DeviceIdError>(bytes@),
            Err(error) => device_id_field(id@) == Err::<Seq<u8>, DeviceIdError>(error),
        },
{
    if id.len() > DEVICE_ID_SIZE {
        return Err(DeviceIdError::TooLong);
    }
    let mut device_id_bytes: Vec<u8> = Vec::new();
    let mut i: usize = 0;
    while i < id.len()
        invariant
            0 <= i <= id.len() <= DEVICE_ID_SIZE,
            device_id_bytes@ == id@.take(i as int),
            no_command_start(id@.take(i as int)),
        decreases id.len() - i,
    {
        if id[i] > 0x7F {
            return Err(DeviceIdError::NotAscii);
        }
        device_id_bytes.push(id[i]);
        proof {
            let seen = id@.take(i + 1);
            assert(device_id_bytes@ =~= seen);
            assert forall|j: int| 0 <= j < seen.len() implies !is_command_start(
                #[trigger] seen[j],
            ) by {
                if j < i {
                    assert(seen[j] == id@.take(i as int)[j]);
                }
            }
        }
        i += 1;
    }
    proof {
        assert(id@.take(i as int) =~= id@);
    }
    while device_id_bytes.len() < DEVICE_ID_SIZE
        invariant
            id@.len() <= device_id_bytes@.len() <= DEVICE_ID_SIZE,
            device_id_bytes@ =~= id@ + spaces((device_id_bytes@.len() - id@.len()) as nat),
        decreases DEVICE_ID_SIZE - device_id_bytes@.len(),
    {
        // right-pad with spaces
        device_id_bytes.push(0x20);
    }
    Ok(device_id_bytes)
}

/// Lays out the field for a device ID: the bytes of the string, padded on
/// the right with spaces to seven bytes.
pub fn encode_device_id(device_id: &str) -> (field: Result<Vec<u8>, DeviceIdError>)
    ensures
        match field {
            Ok(bytes) => device_id_field(device_id.spec_bytes()) == Ok::<Seq<u8>, DeviceIdError>(
                bytes@,
            ),
            Err(error) => device_id_field(device_id.spec_bytes()) == Err::<
                Seq<u8>,
                DeviceIdError,
            >(error),
        },
{
    encode_device_id_bytes(device_id.as_bytes())
}

} // verus!
