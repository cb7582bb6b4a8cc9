use espress_os::boot::{
    simulate_os_boot, MULTIBOOT_HEADER_FLAGS, MULTIBOOT_HEADER_MAGIC,
};
use espress_os::MultibootHeader;

#[test]
fn multiboot_header_checksum_wraps_to_zero() {
    let h = MultibootHeader::new();
    assert_eq!(h.magic, MULTIBOOT_HEADER_MAGIC);
    assert_eq!(h.flags, MULTIBOOT_HEADER_FLAGS);
    assert_eq!(h.magic.wrapping_add(h.flags).wrapping_add(h.checksum), 0);
}

#[test]
fn boot_text_matches_kernel_output() {
    let expected = "Hello World!\n\
                    Welcome to EspressOS!\n\
                    \n\
                    EspressOS WebAssembly Demo\n\
                    ==========================\n\
                    This is a web version of the EspressOS kernel output.\n\
                    The actual kernel runs on bare metal x86_64 hardware.\n";
    assert_eq!(simulate_os_boot(), expected);
}
