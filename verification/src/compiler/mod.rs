pub mod type_safety;
pub mod parser;
pub mod call;
pub mod decl;
pub mod declarations;
pub mod emit;
pub mod expr;
pub mod jumping;
pub mod logic;
pub mod locals;
pub mod methode;
pub mod prepass;
pub mod rules;
pub mod stmt;
