//! SIMD capabilities of the processor and their description.

use vstd::prelude::*;

verus! {

/// SIMD capabilities
pub struct SimdCapabilities {
    pub has_avx: bool,
    pub has_avx2: bool,
    pub has_avx512f: bool,
    pub has_fma: bool,
    pub has_neon: bool,
}

/// SIMD-optimized operations (the kernels themselves work on floating point)
pub struct SimdOps;

/// The feature names in a description: the widest x86 vector extension,
/// then FMA, then NEON.
pub open spec fn feature_names(c: SimdCapabilities) -> Seq<Seq<char>> {
    let vector: Seq<Seq<char>> = if c.has_avx512f {
        seq!["AVX-512"@]
    } else if c.has_avx2 {
        seq!["AVX2"@]
    } else if c.has_avx {
        seq!["AVX"@]
    } else {
        seq![]
    };
    let fma: Seq<Seq<char>> = if c.has_fma {
        seq!["FMA"@]
    } else {
        seq![]
    };
    let neon: Seq<Seq<char>> = if c.has_neon {
        seq!["NEON"@]
    } else {
        seq![]
    };
    vector + fma + neon
}

/// The names separated by ", ".
pub open spec fn join_names(names: Seq<Seq<char>>) -> Seq<char>
    decreases names.len(),
{
    if names.len() == 0 {
        Seq::empty()
    } else if names.len() == 1 {
        names[0]
    } else {
        join_names(names.drop_last()) + ", "@ + names.last()
    }
}

pub open spec fn description_text(c: SimdCapabilities) -> Seq<char> {
    if feature_names(c).len() == 0 {
        "Scalar only"@
    } else {
        join_names(feature_names(c))
    }
}

impl SimdCapabilities {
    /// Get a human-readable description of capabilities
    pub fn description(&self) -> (r: String)
        ensures
            r@ == description_text(*self),
            r@.len() > 0,
    {
        proof {
            reveal_strlit("AVX-512");
            reveal_strlit("AVX2");
            reveal_strlit("AVX");
            reveal_strlit("FMA");
            reveal_strlit("NEON");
            reveal_strlit("Scalar only");
        }
        let ghost names = feature_names(*self);
        let mut out = String::new();
        let mut count: usize = 0;
        let ghost mut done: Seq<Seq<char>> = seq![];
        if self.has_avx512f {
            out.append("AVX-512");
            count = 1;
            proof {
                done = seq!["AVX-512"@];
            }
        } else if self.has_avx2 {
            out.append("AVX2");
            count = 1;
            proof {
                done = seq!["AVX2"@];
            }
        } else if self.has_avx {
            out.append("AVX");
            count = 1;
            proof {
                done = seq!["AVX"@];
            }
        }
        assert(out@ =~= join_names(done));
        if self.has_fma {
            if count > 0 {
                out.append(", ");
            }
            out.append("FMA");
            count = count + 1;
            proof {
                let prev = done;
                done = done.push("FMA"@);
                assert(done.drop_last() =~= prev);
            }
            assert(out@ =~= join_names(done));
        }
        if self.has_neon {
            if count > 0 {
                out.append(", ");
            }
            out.append("NEON");
            count = count + 1;
            proof {
                let prev = done;
                done = done.push("NEON"@);
                assert(done.drop_last() =~= prev);
            }
            assert(out@ =~= join_names(done));
        }
        assert(done =~= names);
        assert(count > 0 ==> out@.len() > 0);
        if count == 0 {
            String::from_str("Scalar only")
        } else {
            out
        }
    }
}

} // verus!
