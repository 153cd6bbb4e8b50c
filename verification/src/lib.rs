pub mod arith_ops;
pub mod binary_chunk;
pub mod compare_ops;
pub mod consts;
pub mod errors;
pub mod float_bits;
pub mod inst_for;
pub mod inst_load;
pub mod inst_misc;
pub mod inst_operators;
pub mod inst_table;
pub mod instruction;
pub mod lua_stack;
pub mod lua_state;
pub mod lua_table;
pub mod lua_value;
pub mod number_ops;
pub mod opcodes;
pub mod reader;

pub use reader::undump;
