//! Which backends a `native` build carries on a target, and why one is
//! left out. The program fills in [`NativeSet`] for the target it was
//! built for.

use vstd::prelude::*;
use crate::text::str_eq;

verus! {

/// The kind of target, as far as it decides why jpegli is missing.
#[derive(Debug, Clone, Copy, PartialEq, Eq, Structural)]
pub enum TargetKind {
    /// Windows.
    Windows,
    /// Linux on aarch64.
    LinuxAarch64,
    /// Anything else, musl among them.
    Other,
}

/// The native backends a build carries.
#[derive(Debug, Clone, Copy, PartialEq, Eq, Structural)]
pub struct NativeSet {
    /// A native build: what the releases page ships.
    pub native: bool,
    /// `gamut-jxl` is in the set.
    pub jxl: bool,
    /// `jpegli` is in the set.
    pub jpegli: bool,
    /// A HEIC decoder is registered.
    pub heic: bool,
    /// The target the build is for.
    pub target: TargetKind,
}

/// Why jpegli is missing on each kind of target.
pub open spec fn jpegli_why(t: TargetKind) -> Seq<char> {
    match t {
        TargetKind::Windows => "jpegli does not build next to libjxl with the Visual Studio cmake generator; JPEG is mozjpeg-rs on Windows"@,
        TargetKind::LinuxAarch64 => "jpegli crashes on aarch64 Linux; JPEG is mozjpeg-rs there"@,
        TargetKind::Other => "the static musl build has no C++ toolchain for jpegli yet; JPEG is mozjpeg-rs there"@,
    }
}

/// Why a native build leaves `feature` out, and which archive has it:
/// nothing for a feature the build carries, for one no target carries,
/// and for a portable build, where the feature itself is the answer.
pub open spec fn spec_left_out(feature: Seq<char>, set: NativeSet) -> Option<Seq<char>> {
    if !set.native {
        None
    } else if feature == "native-jxl"@ && !set.jxl {
        Some("the static musl build has no C++ toolchain for libjxl yet; the x86_64 Linux gnu archive carries JPEG XL"@)
    } else if feature == "native-jpegli"@ && !set.jpegli {
        Some(jpegli_why(set.target))
    } else if feature == "native-heif"@ && !set.heic {
        Some("a static musl binary cannot load libheif; the x86_64 Linux gnu archive reads HEIC through libheif when the machine has it"@)
    } else {
        None
    }
}

/// Why this build leaves `feature` out, for the user who already has a
/// release and must not be sent back to the releases page.
pub fn left_out(feature: &str, set: NativeSet) -> (r: Option<&'static str>)
    ensures
        match spec_left_out(feature@, set) {
            Some(m) => r matches Some(s) && s@ == m,
            None => r is None,
        },
{
    if !set.native {
        return None;
    }
    if str_eq(feature, "native-jxl") && !set.jxl {
        Some("the static musl build has no C++ toolchain for libjxl yet; the x86_64 Linux gnu archive carries JPEG XL")
    } else if str_eq(feature, "native-jpegli") && !set.jpegli {
        match set.target {
            TargetKind::Windows => Some("jpegli does not build next to libjxl with the Visual Studio cmake generator; JPEG is mozjpeg-rs on Windows"),
            TargetKind::LinuxAarch64 => Some("jpegli crashes on aarch64 Linux; JPEG is mozjpeg-rs there"),
            TargetKind::Other => Some("the static musl build has no C++ toolchain for jpegli yet; JPEG is mozjpeg-rs there"),
        }
    } else if str_eq(feature, "native-heif") && !set.heic {
        Some("a static musl binary cannot load libheif; the x86_64 Linux gnu archive reads HEIC through libheif when the machine has it")
    } else {
        None
    }
}

} // verus!
