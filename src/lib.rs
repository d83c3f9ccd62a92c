//! Decoding of Mach-O thread commands and symbol table entries from a shared, seekable
//! source of bytes.
pub mod nlist;
pub mod reader;
pub mod result;
pub mod thread_command;

pub use nlist::{LcStr, Nlist, Nvalue};
pub use reader::{Endian, Reader, ReaderBuildOption};
pub use result::{Error, Result};
pub use thread_command::{
    ArmExceptionState64, ArmThreadState64, CPUType, Field, FlavorIterator, FlavorState, Hu32, Hu64,
    LcThread, LcThreadFlavor, X86ThreadState32, X86ThreadState64,
};
