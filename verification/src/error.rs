use vstd::prelude::*;

verus! {

/// The failures this codec can report. Decoding fails on a buffer shorter
/// than the fixed header or whose declared option-body length overruns the
/// buffer (`TruncatedBuffer`), and on an attribute record that is malformed
/// (`MalformedAttribute`). Encoding fails when the option body does not fit
/// the 16-bit length field (`OptionBodyTooLarge`), and when an attribute
/// value does not fit its own 16-bit length field (`MalformedAttribute`).
#[derive(Debug, Clone, Copy, PartialEq, Eq, Structural)]
pub enum CodecError {
    TruncatedBuffer,
    MalformedAttribute,
    OptionBodyTooLarge,
}

} // verus!
