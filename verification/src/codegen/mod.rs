pub mod llvm;
pub mod table;
pub mod size;
pub mod llvm_types;
pub mod registry;
pub mod gen;
pub mod plan;
pub mod passes;
pub mod imports;
