# A verified core for a small AArch64 kernel

The kernel boots on QEMU's `virt` machine, walks the flattened device tree to find its
PL011 UART and a virtio-net MMIO device, brings the network card up, sends an ARP
request and reports the packets it receives.

`src/` is the verified library (Verus):

- `bytes`, `utils`: big-endian words, byte comparison, C strings, token decoding.
- `fdt`: the walk of the device tree's structure block that finds the devices.
- `working_kernel`: the smaller boot path's search for the UART.
- `access`: the accesses to memory, devices and console that the kernel performs.
- `uart`: console output and input over the PL011.
- `virtio`: the virtio-net driver: queue layout, bring-up, sending and receiving,
  written as steps that take the value of the previous read and give the next accesses.

`app/` performs those accesses on the machine and holds the boot entry points.
`tests/` runs the library on concrete device trees and device answers.
