pub mod bindings;
pub mod laws;
pub mod options;
pub mod tokens;

pub use bindings::UseBindings;
pub use options::{CompilerOptions, Launcher, OptimizationStrategy, RuntimeStrategy};
