# virtio-gpu-nv

A virtio device that forwards the calls of NVIDIA's user-mode drivers from a Linux guest to the
driver of its host.

`src/` is the logic, verified with Verus.  It touches neither files nor devices: where the host has
to do something, a function returns what, and another takes the outcome.

- `nvidia/`, `handle_table`, `shm`, `protocol`, `nv_gpu_device`: the device with one request queue
  and a shared-memory window in three zones.
- `gpu_nv/`: the device with a control queue and direct mappings of GPU memory.  `model` says what
  every request does, `worker` does it, `laws` says what always holds.
- `queue`, `virtio`, `config_read`, `harness`: what lies between the devices and their transports.
- `abi/`, `version`: ioctl numbers and driver versions.
- `bytes`, `text`, `sort`, `paths`: little-endian fields, text, a stable sort and parts of paths.
  `paths` holds all that is trusted: two calls of `std::path::Path`.

`app/` makes the host's calls: a loopback harness on a Unix socket, and the workers of both devices
for a virtual machine monitor.
