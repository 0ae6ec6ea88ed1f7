//! Constants of the GGUF format and its versions.

use vstd::prelude::*;

verus! {

/// GGUF magic number ('GGUF' in little-endian)
pub const GGUF_MAGIC: u32 = 0x46554747;

/// Current GGUF version
pub const GGUF_VERSION: u32 = 3;

/// Default alignment for tensor data (32 bytes)
pub const GGUF_DEFAULT_ALIGNMENT: u64 = 32;

#[derive(Debug, Clone, Copy, PartialEq, Eq, Structural)]
pub enum GGUFVersion {
    V1,
    V2,
    V3,
}

impl GGUFVersion {
    pub open spec fn spec_as_u32(self) -> u32 {
        match self {
            GGUFVersion::V1 => 1,
            GGUFVersion::V2 => 2,
            GGUFVersion::V3 => 3,
        }
    }

    pub open spec fn spec_from_u32(v: u32) -> Option<GGUFVersion> {
        if v == 1 {
            Some(GGUFVersion::V1)
        } else if v == 2 {
            Some(GGUFVersion::V2)
        } else if v == 3 {
            Some(GGUFVersion::V3)
        } else {
            None
        }
    }

    pub fn from_u32(v: u32) -> (r: Option<Self>)
        ensures
            r == Self::spec_from_u32(v),
            r matches Some(x) ==> x.spec_as_u32() == v,
    {
        match v {
            1 => Some(Self::V1),
            2 => Some(Self::V2),
            3 => Some(Self::V3),
            _ => None,
        }
    }

    pub fn as_u32(self) -> (r: u32)
        ensures
            r == self.spec_as_u32(),
            Self::spec_from_u32(r) == Some(self),
    {
        match self {
            Self::V1 => 1,
            Self::V2 => 2,
            Self::V3 => 3,
        }
    }
}

} // verus!
