//! Reference backend for a propose-only, human-in-the-loop agent protocol.
//!
//! The agent never acts on the host application: it proposes actions from
//! a closed, app-owned registry, and the application executes them through
//! its own authorized path after explicit user confirmation.

use vstd::prelude::*;

pub mod agent;
pub mod binding;
pub mod client;
pub mod codegen;
pub mod config;
pub mod conformance;
pub mod declarative;
pub mod demo;
pub mod envelope;
pub mod grpc;
pub mod host;
pub mod error;
pub mod evals;
pub mod json;
pub mod llm;
pub mod matcher;
pub mod palette;
pub mod pb;
pub mod proposal;
pub mod registry;
pub mod runner;
pub mod schema;
pub mod seams;
pub mod serve;
pub mod sign;
pub mod strmap;
pub mod telemetry;
pub mod text;
pub mod validation;
pub mod webhook;
pub mod wire;

use crate::text::chars_of;

verus! {

/// Spec version this crate implements; an `Init.spec_version` is checked
/// against the same major.minor prefix.
pub const SPEC_VERSION: &'static str = "0.1";

/// The characters of [`SPEC_VERSION`].
pub open spec fn implemented_version() -> Seq<char> {
    seq!['0', '.', '1']
}

/// A version string is compatible when it starts with the implemented
/// major.minor and continues, if at all, with `.` or `-` (a segment
/// boundary): `0.1`, `0.1.0` and `0.1.0-draft` are, `0.10` and `0.1x` are not.
pub open spec fn version_compatible(v: Seq<char>) -> bool {
    let p = implemented_version();
    &&& p.len() <= v.len()
    &&& v.take(p.len() as int) == p
    &&& (v.len() == p.len() || v[p.len() as int] == '.' || v[p.len() as int] == '-')
}

/// Whether a spec version string is compatible with [`SPEC_VERSION`].
pub fn spec_version_compatible(version: &str) -> (r: bool)
    ensures
        r == version_compatible(version@),
{
    proof {
        reveal_strlit("0.1");
    }
    let p = chars_of(SPEC_VERSION);
    let v = chars_of(version);
    assert(p@ =~= implemented_version());
    if v.len() < p.len() {
        return false;
    }
    let mut i: usize = 0;
    while i < p.len()
        invariant
            i <= p.len() <= v.len(),
            p@ == implemented_version(),
            v@ == version@,
            forall|j: int| 0 <= j < i ==> v@[j] == p@[j],
        decreases p.len() - i,
    {
        if v[i] != p[i] {
            assert(v@.take(p.len() as int)[i as int] != p@[i as int]);
            return false;
        }
        i = i + 1;
    }
    assert(v@.take(p.len() as int) =~= p@);
    if v.len() == p.len() {
        return true;
    }
    let c = v[p.len()];
    c == '.' || c == '-'
}

} // verus!
