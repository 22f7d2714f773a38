//! Binary validator: classifies a raw byte buffer as a component, a legacy
//! core module, or invalid input, by inspecting the header. This gates which
//! loader pipeline a binary is handed to; a buffer without the magic prefix
//! never reaches the loader.

use vstd::prelude::*;

verus! {

/// Classification of a binary buffer.
#[derive(Debug, Clone, Copy, PartialEq, Eq, Structural)]
pub enum BinaryKind {
    /// Component-layer encoding: executable through the component pipeline.
    Component,
    /// Core-module encoding: handled by the legacy module pipeline.
    CoreModule,
    /// Too short, wrong magic prefix, or unknown version discriminator.
    Invalid,
}

/// The four magic bytes every well-formed binary starts with: `\0asm`.
pub open spec fn spec_has_magic(b: Seq<u8>) -> bool {
    b.len() >= 8 && b[0] == 0x00u8 && b[1] == 0x61u8 && b[2] == 0x73u8 && b[3] == 0x6du8
}

/// A buffer is a component when the version discriminator after the magic
/// prefix carries the component-layer encoding.
pub open spec fn spec_is_component(b: Seq<u8>) -> bool {
    spec_has_magic(b) && b[4] == 0x0du8 && b[5] == 0x00u8
}

/// A buffer is a core module when the version field is exactly 1.
pub open spec fn spec_is_core_module(b: Seq<u8>) -> bool {
    spec_has_magic(b) && b[4] == 0x01u8 && b[5] == 0x00u8 && b[6] == 0x00u8 && b[7] == 0x00u8
}

pub open spec fn spec_classify(b: Seq<u8>) -> BinaryKind {
    if spec_is_component(b) {
        BinaryKind::Component
    } else if spec_is_core_module(b) {
        BinaryKind::CoreModule
    } else {
        BinaryKind::Invalid
    }
}

/// Tri-state classification of a byte buffer by its header.
pub fn classify(bytes: &[u8]) -> (r: BinaryKind)
    ensures
        r == spec_classify(bytes@),
{
    if bytes.len() < 8 {
        return BinaryKind::Invalid;
    }
    if !(bytes[0] == 0x00 && bytes[1] == 0x61 && bytes[2] == 0x73 && bytes[3] == 0x6d) {
        return BinaryKind::Invalid;
    }
    if bytes[4] == 0x0d && bytes[5] == 0x00 {
        BinaryKind::Component
    } else if bytes[4] == 0x01 && bytes[5] == 0x00 && bytes[6] == 0x00 && bytes[7] == 0x00 {
        BinaryKind::CoreModule
    } else {
        BinaryKind::Invalid
    }
}

/// True exactly when the buffer carries the component-layer encoding.
pub fn is_wasm_component(bytes: &[u8]) -> (r: bool)
    ensures
        r == spec_is_component(bytes@),
{
    bytes.len() >= 8 && bytes[0] == 0x00 && bytes[1] == 0x61 && bytes[2] == 0x73 && bytes[3]
        == 0x6d && bytes[4] == 0x0d && bytes[5] == 0x00
}

} // verus!
