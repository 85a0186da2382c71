//! The component loader.
//!
//! The loader turns a raw core module into a self-describing component by
//! attaching a fixed WASI adapter module under its well-known name and
//! encoding the pair as one component binary. Loading failures are fatal to
//! the whole run: without a component there is nothing to test.

use vstd::prelude::*;
use crate::outcome::LoadError;

verus! {

/// What the component encoder yields for a module and adapter pair: the
/// component's bytes, or nothing when it rejects the pair. The encoding is
/// a pure transform of the two byte strings; its value is named here, not
/// spelled out.
pub uninterp spec fn encoded_component(module: Seq<u8>, adapter: Seq<u8>) -> Option<Seq<u8>>;

/// Relies on wit_component::ComponentEncoder (its adapter, module and
/// encode steps): a pure transform that attaches the adapter module under
/// the name `wasi_snapshot_preview1` and encodes module plus adapter as one
/// component binary, failing exactly when it rejects the pair.
#[verifier::external_body]
fn encode_component(module: &Vec<u8>, adapter: &Vec<u8>) -> (r: Result<Vec<u8>, Vec<u8>>)
    ensures
        r matches Ok(c) ==> encoded_component(module@, adapter@) == Some(c@),
        r is Err ==> encoded_component(module@, adapter@) is None,
{
    let mut enc = wit_component::ComponentEncoder::default();
    if let Err(e) = enc.adapter("wasi_snapshot_preview1", adapter.as_slice()) {
        return Err(format!("{e:#}").into_bytes());
    }
    if let Err(e) = enc.module(module.as_slice()) {
        return Err(format!("{e:#}").into_bytes());
    }
    match enc.encode() {
        Ok(c) => Ok(c),
        Err(e) => Err(format!("{e:#}").into_bytes()),
    }
}

/// Loads a component from the raw module bytes, when they could be obtained,
/// and the adapter bytes. An unobtainable input is `Unreadable`; a module
/// and adapter pair the encoder rejects is `EncodingFailed`, carrying the
/// encoder's diagnostic. Both are fatal for the run.
pub fn load(input: Option<Vec<u8>>, adapter: &Vec<u8>) -> (r: Result<Vec<u8>, LoadError>)
    ensures
        input is None <==> r matches Err(LoadError::Unreadable),
        input matches Some(m) ==> match r {
            Ok(c) => encoded_component(m@, adapter@) == Some(c@),
            Err(e) => e matches LoadError::EncodingFailed(_) && encoded_component(m@, adapter@)
                is None,
        },
{
    match input {
        None => Err(LoadError::Unreadable),
        Some(m) => match encode_component(&m, adapter) {
            Ok(c) => Ok(c),
            Err(d) => Err(LoadError::EncodingFailed(d)),
        },
    }
}

} // verus!
