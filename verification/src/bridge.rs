use vstd::prelude::*;

verus! {

/// Profile word of the fingerprint.
pub open spec fn spec_profile(debug_build: bool) -> Seq<char> {
    if debug_build { "debug"@ } else { "release"@ }
}

/// The fingerprint line: `rustgram-bridge <version> / <rustc> / <profile>`.
pub open spec fn spec_fingerprint(version: Seq<char>, rustc: Seq<char>, debug_build: bool) -> Seq<char> {
    "rustgram-bridge "@ + version + " / "@ + rustc + " / "@ + spec_profile(debug_build)
}

/// Build fingerprint from the crate version, the compiler version and the
/// build profile.
pub fn fingerprint(version: &str, rustc: &str, debug_build: bool) -> (r: String)
    ensures
        r@ == spec_fingerprint(version@, rustc@, debug_build),
{
    let mut s = String::from_str("rustgram-bridge ");
    s.append(version);
    s.append(" / ");
    s.append(rustc);
    s.append(" / ");
    if debug_build {
        s.append("debug");
    } else {
        s.append("release");
    }
    s
}

/// How many fingerprint bytes fit a caller's buffer of `out_len` bytes
/// with room for the closing NUL: `None` for a zero-length buffer, else the
/// smaller of `len` and `out_len - 1`.
pub fn copy_len(len: usize, out_len: usize) -> (r: Option<usize>)
    ensures
        out_len == 0 ==> r is None,
        out_len > 0 ==> r == Some(if len < out_len - 1 { len } else { (out_len - 1) as usize }),
{
    if out_len == 0 {
        None
    } else if len < out_len - 1 {
        Some(len)
    } else {
        Some(out_len - 1)
    }
}

} // verus!
