# vulka

The bookkeeping of a Vulkan renderer and of its Slang shader toolchain,
written in Verus and proved against its contracts.

- `src/gpu/` — queues and lanes: queue groups and lane keys, GPU futures,
  submission counters, epochs and the progress tracker that follows each
  lane's timeline semaphore, the frame allocator, command buffers and the
  batches that gather them into one submission, command
  pools and the allocator that hands them out, the retire queue that holds
  resources until the GPU is done with them, swapchain state, device and
  queue-family selection, and the planning of a device's queue groups.
- `src/renderer/` — descriptor sets and pools for a shader's parameter
  blocks, the depth format, and the image layout transitions of a frame.
- `src/slang/` — shader layouts in several forms, cursors that walk them,
  the outline printer, compiler options and their hash, cache keys (with
  BLAKE3 from the `blake3` crate), the linker's module and entry-point sets,
  program selection, and the command line of the shader compiler.
- `tests/` — tests of the library through its public functions.
- `app/` — the shader compiler's command-line program: argument handling,
  file output, and the calls into the Slang compiler (`shader-slang`).

Vulkan itself is not called from the library: values it reports come in as
plain integers, and the library says what to do with them.

Lane vectors (`gpu::lane_vec::LaneVec<T>`) keep their values in a `Vec`.
They are generic over the value type, and a collection of an outside crate
can only be given a specification here through a name for its contents that
has no type parameters; a `Vec`, whose contents vstd specifies, lets the
lane vector state its values for every `T`. The same holds for the maps the
device keeps by queue family and queue group: they are sorted vectors whose
invariant is that no key occurs twice.
