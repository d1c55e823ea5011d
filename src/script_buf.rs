//! The parts of `bitcoin::ScriptBuf` that the assembler relies on.
use bitcoin::opcodes::Opcode;
use bitcoin::ScriptBuf;
use vstd::prelude::*;

verus! {

#[verifier::external_type_specification]
#[verifier::external_body]
pub struct ExScriptBuf(ScriptBuf);

/// The bytes that a `ScriptBuf` holds.
pub uninterp spec fn script_bytes(s: ScriptBuf) -> Seq<u8>;

/// Relies on `ScriptBuf::new`: the script it makes holds no bytes.
#[verifier::external_body]
pub(crate) fn empty_script() -> (r: ScriptBuf)
    ensures
        script_bytes(r) == Seq::<u8>::empty(),
{
    ScriptBuf::new()
}

/// Relies on `ScriptBuf::push_opcode`, given the opcode whose encoding is `code`:
/// it appends that one byte to the script.
#[verifier::external_body]
pub(crate) fn push_code(s: &mut ScriptBuf, code: u8)
    ensures
        script_bytes(*final(s)) == script_bytes(*old(s)).push(code),
{
    s.push_opcode(Opcode::from(code))
}

/// Relies on `Script::as_bytes` (through `ScriptBuf`'s deref): it lends the script's bytes.
#[verifier::external_body]
pub(crate) fn script_as_bytes(s: &ScriptBuf) -> (r: &[u8])
    ensures
        r@ == script_bytes(*s),
{
    s.as_bytes()
}

/// Relies on `ScriptBuf::from_bytes`: the script holds exactly the given bytes.
#[verifier::external_body]
pub(crate) fn script_from_bytes(bytes: Vec<u8>) -> (r: ScriptBuf)
    ensures
        script_bytes(r) == bytes@,
{
    ScriptBuf::from_bytes(bytes)
}

/// Relies on `ScriptBuf`'s derived `Clone`: the copy holds the same bytes.
#[verifier::external_body]
pub(crate) fn copy_script(s: &ScriptBuf) -> (r: ScriptBuf)
    ensures
        script_bytes(r) == script_bytes(*s),
{
    s.clone()
}

} // verus!
