# galaxy_3d_engine

Core of the Galaxy 3D rendering engine, as a Verus-verified library.

- `src/` — the library. Its own functions carry contracts that Verus
  proves: the engine's registry of graphics devices and manager
  singletons (`engine`), the render graph manager (`render_graph_manager`,
  `framebuffer_cache`, `pass_cache`, `frame_execution`), attachment
  validation (`attachments`), dependency ordering of passes
  (`pass_order`), barrier planning and the ring of frames in flight
  (`render_graph`), the creation of a graph's command lists on a device
  (`command_lists`), the commands that record a planned frame
  (`frame_commands`), and the plain resource descriptions they work on.
  `manager_laws`, `frame_commands` and the `law_*` proof functions in
  `engine` and `binding_group` state what holds across operations.
- Trusted, not proved: the calls into `slotmap` (`slots`) and into
  `rustc_hash`'s `FxHashMap` (`name_maps`) are `external_body` wrappers
  whose contracts state what those crates' sources do; every proof that
  goes through them rests on those contracts.
- `tests/` — tests of the library, run against the real outside crates.
- `app/` — what the library cannot hold: the process-wide engine facade
  and its logger (chrono, colored), command lists, pass actions and the
  loop that performs a planned frame, float camera math (glam), and the
  bytes uploaded to the GPU (bytemuck).
