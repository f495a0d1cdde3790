//! Decoding the host's peer-creation callback. The callback carries the
//! creation outcome and, on success, a wire-encoded creation response whose
//! first field is the new actor's address; `cw_utils` does the wire decoding.

use vstd::prelude::*;
use crate::Error;

verus! {

/// `cw_utils`'s error for an undecodable creation response.
#[verifier::external_type_specification]
#[verifier::external_body]
pub struct ExParseReplyError(cw_utils::ParseReplyError);

/// The contract address a creation response's bytes decode to, or `None`
/// when they do not decode. The decoding depends on the bytes alone.
pub uninterp spec fn parsed_peer_address(data: Seq<u8>) -> Option<Seq<char>>;

/// Relies on `cw_utils::parse_instantiate_response_data`: decodes a creation
/// response's bytes and yields the new contract's address, a function of the
/// bytes alone.
#[verifier::external_body]
fn parse_peer_creation_data(data: &Vec<u8>) -> (r: Result<String, cw_utils::ParseReplyError>)
    ensures
        r is Ok <==> parsed_peer_address(data@) is Some,
        (r matches Ok(s) ==> parsed_peer_address(data@) == Some(s@)),
{
    match cw_utils::parse_instantiate_response_data(data.as_slice()) {
        Ok(resp) => Ok(resp.contract_address),
        Err(e) => Err(e),
    }
}

/// A creation callback's payload, as the host delivers it: the creation
/// response's bytes when the host reports success (the response itself may
/// still be absent or undecodable), or an error outcome.
#[derive(Clone, Debug)]
pub enum CreationResult {
    Completed { data: Option<Vec<u8>> },
    Failed,
}

/// Extract the new peer actor's address from a creation callback. Fails with
/// `MalformedCallback` exactly when the outcome was an error, carried no
/// data, or carried bytes that do not decode to an address.
pub fn decode_peer_creation(result: &CreationResult) -> (r: Result<String, Error>)
    ensures
        match result {
            CreationResult::Failed => r == Err::<String, Error>(Error::MalformedCallback),
            CreationResult::Completed { data } => match data {
                None => r == Err::<String, Error>(Error::MalformedCallback),
                Some(d) => match parsed_peer_address(d@) {
                    Some(addr) => r matches Ok(s) && s@ == addr,
                    None => r == Err::<String, Error>(Error::MalformedCallback),
                },
            },
        },
{
    match result {
        CreationResult::Failed => Err(Error::MalformedCallback),
        CreationResult::Completed { data } => match data {
            None => Err(Error::MalformedCallback),
            Some(d) => match parse_peer_creation_data(d) {
                Ok(s) => Ok(s),
                Err(_) => Err(Error::MalformedCallback),
            },
        },
    }
}

} // verus!
