pub mod buffer;
pub mod color;
pub mod console;
pub mod qemu;
pub mod writer;

pub use buffer::{Buffer, BUFFER_HEIGHT, BUFFER_WIDTH};
pub use color::{Color, ColorCode, ScreenChar};
pub use console::_print;
pub use qemu::{QemuExitCode, QemuPort};
pub use writer::Writer;
