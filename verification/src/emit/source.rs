//! `scheme.cpp`: no definitions are emitted into the source file yet, so
//! its text is empty.

use vstd::prelude::*;
use crate::config::CodegenScheme;
use crate::ir::Scheme;

verus! {

/// The `.cpp` text: empty.
pub fn emit(scheme: &Scheme, config: &CodegenScheme) -> (r: String)
    ensures
        r@ == Seq::<char>::empty(),
{
    String::new()
}

} // verus!
