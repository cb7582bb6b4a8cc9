//! Boot-time constants: the multiboot header record and the fixed welcome
//! text shown by the boot demonstration.

use vstd::prelude::*;
use vstd::string::StringExecFns;

verus! {

/// The magic value identifying a multiboot header.
pub const MULTIBOOT_HEADER_MAGIC: u32 = 0x1BADB002;

/// The multiboot header flags: none requested.
pub const MULTIBOOT_HEADER_FLAGS: u32 = 0;

/// The checksum completing the header: together with the magic value and
/// the flags it sums to zero modulo 2^32.
pub const MULTIBOOT_HEADER_CHECKSUM: u32 = 0xE4524FFE;

/// The multiboot header: magic value, flags, and a checksum, in that
/// order, such that the three sum to zero modulo 2^32.
#[derive(Debug, Clone, Copy, PartialEq, Eq, Structural)]
pub struct MultibootHeader {
    pub magic: u32,
    pub flags: u32,
    pub checksum: u32,
}

impl MultibootHeader {
    /// A well-formed header: the three fields sum to zero modulo 2^32, as
    /// the multiboot specification demands.
    pub fn new() -> (h: MultibootHeader)
        ensures
            h.magic == MULTIBOOT_HEADER_MAGIC,
            h.flags == MULTIBOOT_HEADER_FLAGS,
            (h.magic + h.flags + h.checksum) % 0x1_0000_0000 == 0,
    {
        MultibootHeader {
            magic: MULTIBOOT_HEADER_MAGIC,
            flags: MULTIBOOT_HEADER_FLAGS,
            checksum: MULTIBOOT_HEADER_CHECKSUM,
        }
    }
}

/// The welcome messages of the boot sequence, as one newline-separated
/// string: the same lines the kernel prints when it starts.
pub fn simulate_os_boot() -> (output: String)
    ensures
        output@ == "Hello World!\n"@ + "Welcome to EspressOS!\n"@ + "\n"@
            + "EspressOS WebAssembly Demo\n"@ + "==========================\n"@
            + "This is a web version of the EspressOS kernel output.\n"@
            + "The actual kernel runs on bare metal x86_64 hardware.\n"@,
{
    let mut output = String::new();
    output.append("Hello World!\n");
    output.append("Welcome to EspressOS!\n");
    output.append("\n");
    output.append("EspressOS WebAssembly Demo\n");
    output.append("==========================\n");
    output.append("This is a web version of the EspressOS kernel output.\n");
    output.append("The actual kernel runs on bare metal x86_64 hardware.\n");
    proof {
        assert(output@ =~= "Hello World!\n"@ + "Welcome to EspressOS!\n"@ + "\n"@
            + "EspressOS WebAssembly Demo\n"@ + "==========================\n"@
            + "This is a web version of the EspressOS kernel output.\n"@
            + "The actual kernel runs on bare metal x86_64 hardware.\n"@);
    }
    output
}

} // verus!
