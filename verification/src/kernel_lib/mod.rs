pub mod interrupt_framework;
#[allow(non_snake_case)]
pub mod interruptFramework;
