//! Slang shader reflection: layouts, cursors over them, and program selection.

pub mod enums;
pub mod ir;
pub mod ir_denorm;
pub mod print;
pub mod compiler;
pub mod layout_v2;
pub mod types;
pub mod bindless;
pub mod layout;
pub mod layout_v3;
pub mod cursor_layout;
pub mod cursor;
pub mod cli;
pub mod linker;
pub mod builder;
pub mod keys;
pub mod program;
pub mod shader_cursor;
pub mod reflect;
pub mod reflect_type;
