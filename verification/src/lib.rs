use vstd::prelude::*;

pub mod bridge;
pub mod text;
pub mod config;
pub mod crc;
pub mod tl;
pub mod parse;
pub mod ir;
pub mod resolve;
pub mod parse_model;
pub mod parser;
pub mod emit;
pub mod driver;
pub mod loc;

verus! {

/// The scheme a run generates from: the inputs' layer is carried over;
/// names, tables, warnings and enum lines are left empty.
pub fn parse_scheme(inputs: &tl::TlInputs, config: &config::CodegenScheme) -> (r: ir::Scheme)
    ensures
        r.layer == inputs.layer,
        r.input_names@.len() == 0,
        ir::table_entries(r.types).len() == 0,
        ir::table_entries(r.funcs).len() == 0,
        r.warnings@.len() == 0,
        r.enums@.len() == 0,
{
    ir::Scheme {
        layer: inputs.layer,
        input_names: Vec::new(),
        types: ir::table_new(),
        funcs: ir::table_new(),
        warnings: Vec::new(),
        enums: Vec::new(),
    }
}

} // verus!
