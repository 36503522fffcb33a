pub mod equivalent;
pub mod hash_value;
pub mod hashed;
pub mod instr_arg;
pub mod opcode;
pub mod small_map;
pub mod small_set;
pub mod text;
pub mod values;
pub mod vec_map;
