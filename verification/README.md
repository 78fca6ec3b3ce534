# xr_chaperone

A chaperone (play-area boundary) for OpenXR overlay compositors such as Monado.
The user traces the boundary with a controller, reviews it on a desktop window,
and the XR thread renders a grid wall that fades in as tracked devices approach it.

Layout:

- `src/` — the verified library (Verus):
  - `app_state`: the tracing / review / active lifecycle and the boundary edits,
    with a mathematical model of each operation and the laws relating them;
  - `mesh`: the topology of the wall grid (vertex order and triangle indices),
    with proofs that every index names a vertex and every triangle lies on one wall;
  - `canvas`: the review canvas's pointer decisions;
  - `gpu`: memory type, queue family and swapchain format selection, SPIR-V word splitting;
  - `config`: boundary validation and the polygon chosen for rendering;
  - `xr_loop`: the render loop's reactions to session events and phases.
- `app/` — the program around it: OpenXR/Vulkan setup and rendering, Monado
  offsets, the iced user interface, configuration files, and all floating-point
  geometry (distances, visibility, projections, quaternions).
- `tests/` — tests of the library on concrete values.

The compiled SPIR-V shaders `chaperone.vert.spv` and `chaperone.frag.spv` are
read from a `shaders` directory next to the executable.
