pub mod derive;
pub mod ir;
pub mod jit;
pub mod kernel;
pub mod lang;
pub mod recorder;
