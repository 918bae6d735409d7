pub mod text;
pub mod scanner;
pub mod compiler;
pub mod chunk;
pub mod value;
pub mod vm;
pub mod table;
pub mod debug;
pub mod sdl;
