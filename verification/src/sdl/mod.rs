pub mod io;
pub mod string;
