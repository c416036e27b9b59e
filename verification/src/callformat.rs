//! Handling of the formats in which the body of a call can arrive.
//!
//! A plain call is taken as it is. A sealed call is opened by the host,
//! which holds the keys; the dispatcher is handed what came of that.

use vstd::prelude::*;
use crate::context::{Context, Mode};
use crate::module;
use crate::modules::core_module::Error;
use crate::text::owned;
use crate::types::transaction;
use crate::types::transaction::{Call, CallFormat};

verus! {

/// What is kept of the format of a call until its result is encoded.
#[derive(PartialEq, Eq, Structural, Clone, Copy, Debug)]
pub enum Metadata {
    /// The call was plain; its result goes out plain.
    Empty,
    /// The call was sealed; its result is to be sealed to the caller.
    EncryptedX25519DeoxysII,
}

/// What opening a sealed call gave: the call inside, or the reason for
/// which it did not open.
pub type Opened = Option<Result<Call, String>>;

/// Decodes a call according to its format.
///
/// A plain call is returned as it is. A sealed call needs a key manager;
/// while a batch is only checked it is not opened, and `None` is
/// returned; otherwise the call inside is returned, as the host opened
/// it.
pub fn decode_call<C: Context>(ctx: &C, call: Call, opened: Opened) -> (r: Result<
    Option<(Call, Metadata)>,
    Error,
>)
    ensures
        match call.format {
            CallFormat::Plain => r == Ok::<Option<(Call, Metadata)>, Error>(
                Some((call, Metadata::Empty)),
            ),
            CallFormat::EncryptedX25519DeoxysII => if !ctx.snapshot().key_manager {
                r matches Err(Error::InvalidCallFormat(cause)) && cause@
                    == "confidential transactions not available"@
            } else if ctx.snapshot().mode == Mode::CheckTx {
                r == Ok::<Option<(Call, Metadata)>, Error>(None)
            } else {
                match opened {
                    Some(Ok(inner)) => r == Ok::<Option<(Call, Metadata)>, Error>(
                        Some((inner, Metadata::EncryptedX25519DeoxysII)),
                    ),
                    Some(Err(cause)) => r == Err::<Option<(Call, Metadata)>, Error>(
                        Error::InvalidCallFormat(cause),
                    ),
                    None => r matches Err(Error::InvalidCallFormat(cause)) && cause@
                        == "call data was not opened"@,
                }
            },
        },
{
    match call.format {
        CallFormat::Plain => Ok(Some((call, Metadata::Empty))),
        CallFormat::EncryptedX25519DeoxysII => {
            if !ctx.has_key_manager() {
                return Err(
                    Error::InvalidCallFormat(owned("confidential transactions not available")),
                );
            }
            if ctx.is_check_only() {
                return Ok(None);
            }
            match opened {
                Some(Ok(inner)) => Ok(Some((inner, Metadata::EncryptedX25519DeoxysII))),
                Some(Err(cause)) => Err(Error::InvalidCallFormat(cause)),
                None => Err(Error::InvalidCallFormat(owned("call data was not opened"))),
            }
        },
    }
}

/// The result of a call as it goes on the wire. Where the call was
/// sealed, the host seals what is returned here.
pub fn encode_result(result: module::CallResult, metadata: Metadata) -> (r: transaction::CallResult)
    ensures
        module::wire_result_of(result, r),
{
    result.into_wire()
}

} // verus!
