# particle_advection

A real-time GPU particle simulation: 100,000 particles advected through a
time-varying 3D vector field, with streamlines traced through the same field.

The crate is split in two:

- `src/` is a Verus-verified library holding the integer logic of the viewer:
  - `ping_pong`: the pair of particle buffers that trade read/write roles
    every frame, with the laws that no pass reads what it writes and that
    each frame reads the previous frame's output;
  - `particles`: the per-frame plan (bind groups, workgroup count, vertex
    count) and the seed handed to the advection shader;
  - `streamlines`: the line-list index buffer of the streamlines and the grid
    cells that streamline seeds start from;
  - `field_texture`: the order in which the field is sampled into the 3D
    texture, the copy layout of the upload, and when the texture is sampled
    again (at least every 500 ms while the field comes from it);
  - `grid`: cell numbering of a cubic grid, shared by the two above;
  - `input`: the decisions of the window loop on input events, and the plan
    of each redraw (what becomes of the surface's frame, whether the field
    texture is refreshed, whether the streamlines are drawn).
- `app/` is the program around it: windowing (winit), GPU work (wgpu),
  floating-point camera and field math (glam, half), random seeding (rand).
  The WGSL shaders are read at start-up from a `shaders/` directory next to
  the executable or in the working directory.
