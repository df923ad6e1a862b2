//! How the standard library of the network renders keys and states as text.
use freenet_stdlib::prelude::CodeHash;
use freenet_stdlib::prelude::DelegateKey;

use vstd::prelude::*;

verus! {

use crate::text::decimal;
use crate::text::hex;
use crate::text::leading;

/// The text that the standard library displays for the key of a contract instance.
pub uninterp spec fn contract_key_text(instance: Seq<u8>) -> Seq<char>;

/// The text that the standard library encodes the hash of a code as.
pub uninterp spec fn code_hash_text(code_hash: Seq<u8>) -> Seq<char>;

/// The bytes in base ten, with commas in between.
pub open spec fn byte_list(bytes: Seq<u8>) -> Seq<char>
    decreases bytes.len(),
{
    if bytes.len() == 0 {
        Seq::empty()
    } else if bytes.len() == 1 {
        decimal(bytes[0] as nat)
    } else {
        byte_list(bytes.drop_last()) + ", "@ + decimal(bytes.last() as nat)
    }
}

/// The text of the key of a delegate when debugging, where its code hash is encoded as
/// `code_hash`.
pub open spec fn delegate_key_debug(key: Seq<u8>, code_hash: Seq<char>) -> Seq<char> {
    "DelegateKey { key: ["@ + byte_list(key) + "], code_hash: CodeHash(\""@ + code_hash
        + "\") }"@
}

/// The text of an instance identifier when debugging.
pub open spec fn instance_id_debug(instance: Seq<u8>) -> Seq<char> {
    "ContractInstanceId(\""@ + contract_key_text(instance) + "\")"@
}

/// The text that stands for a contract state: its first eight bytes.
pub open spec fn state_text(bytes: Seq<u8>) -> Seq<char> {
    "ContractState(data: [0x"@ + hex(leading(bytes, 8)) + "...])"@
}

/// Calls `to_string` of `freenet_stdlib::prelude::ContractKey`, through its `Display`. The text is
/// the base 58 form of the instance identifier, here under the name `contract_key_text`; the hash
/// of the code takes no part in it.
#[verifier::external_body]
pub(crate) fn display_contract_key(instance: &[u8; 32], code: &[u8; 32]) -> (r: String)
    ensures
        r@ == contract_key_text(instance@),
{
    let id = freenet_stdlib::prelude::ContractInstanceId::new(*instance);
    freenet_stdlib::prelude::ContractKey::from_id_and_code(id, CodeHash::new(*code)).to_string()
}

/// Formats a `freenet_stdlib::prelude::ContractInstanceId` with its `Debug`: the name of the type
/// and, in brackets and double quotes, the text that is displayed for the identifier.
#[verifier::external_body]
pub(crate) fn debug_instance_id(instance: &[u8; 32]) -> (r: String)
    ensures
        r@ == instance_id_debug(instance@),
{
    format!("{:?}", freenet_stdlib::prelude::ContractInstanceId::new(*instance))
}

/// Formats a `freenet_stdlib::prelude::DelegateKey` with its derived `Debug`: the name of the type,
/// the bytes of the key in base ten, and the `Debug` of the code hash, which is the name of its
/// type and the text that the hash is encoded as (the lower-case base 58 form, here under the name
/// `code_hash_text`).
#[verifier::external_body]
pub(crate) fn debug_delegate_key(key: &[u8; 32], code_hash: &[u8; 32]) -> (r: String)
    ensures
        r@ == delegate_key_debug(key@, code_hash_text(code_hash@)),
{
    format!("{:?}", DelegateKey::new(*key, CodeHash::new(*code_hash)))
}

/// Calls `to_string` of `freenet_stdlib::prelude::WrappedState`, through its `Display`: the first
/// eight bytes in hexadecimal digits between a fixed beginning and end.
#[verifier::external_body]
pub(crate) fn display_state(bytes: &Vec<u8>) -> (r: String)
    ensures
        r@ == state_text(bytes@),
{
    freenet_stdlib::prelude::WrappedState::from(bytes.as_slice()).to_string()
}

} // verus!
