# glex

A Vulkan renderer core whose logic is verified with Verus: the frame graph
(declaration, dependency analysis, scheduling, barriers), the executor's
per-frame plan over its work lanes (timeline values, waits, present
synchronisation), a TLSF sub-allocator with per-thread arenas and
GPU-timeline-gated frees, typed resource states with the barriers their
transitions need, descriptor sets, command recording as plain operations,
swapchain choices and window event handling.

## Layout

- `src/` — the verified library. Every function carries a contract that
  Verus proves; laws that span several functions stand as public proof
  functions (`lemma_*`).
  - memory: `mapping`, `free_list`, `arena`, `gpu_alloc`, `return_queue`
  - frame graph: `domain`, `command`, `frame`, `deps`, `schedule`, `barrier`
  - execution: `lane`, `executor_plan`, `executor`, `record`, `frame_sync`
  - recording: `command_buffer`, `recorder`, `rendering`, `descriptor`,
    `resource`, `type_states`
  - device and surface: `device_select`, `queue_caps`, `queue_lane`,
    `presentation`, `window`, `input`
  - plain values: `types`, `vk_values`, `pipeline_config`, `layout_helpers`
- `app/` — the code around the library that talks to the device through
  `ash`: it performs the operations the library plans (barriers, submits,
  recording, descriptor writes, swapchain calls) and holds what the library
  cannot (floating-point viewports, error types with `Display`).
- `tests/` — tests of the library on concrete values.
