# vect_boot

The verified core of a small x86_64 UEFI bootloader, written in Verus.

`src/` holds the logic, each function with a contract that Verus proves:

- `vect_bootapi`, `bootloader_api`: the boot information handed to the kernel
  (memory regions, framebuffer, entry point).
- `addr`: physical and virtual addresses as the `x86_64` crate accepts them.
- `memory_map`: the firmware's memory descriptors, the regions the kernel is told
  of, the page flags, and the order in which the loader maps memory.
- `allocator`: the boot frame allocator, with proofs that every frame it hands out
  is a whole frame of a usable region in the window and that, under one window
  and with disjoint regions, no frame is handed out twice.
- `elf_reader`: the ELF64 reader that finds the kernel's entry point and loadable
  segments, and the bytes each segment puts into memory.
- `logger`: the COM1 set-up sequence (with a proof, over a model of the UART's
  registers, that setting it up twice leaves it as setting it up once) and the
  byte stream of the serial console.
- `boot`: the framebuffer description, the kernel buffer size and the address of
  the level-4 page table.
- `disk_image`: the layout of the bootable FAT disk image.

`app/` is the unverified shell: file, FAT and UEFI I/O, port I/O, copying into
physical memory and page-table updates through the `x86_64` crate's `Mapper`.
