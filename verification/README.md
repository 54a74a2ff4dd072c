# solar_system

A solar-system viewer: the Sun and eight planets integrated as an n-body
system (velocity Verlet, astronomical units and days), drawn with Vulkan in a
winit window, with orbit trails that fade with age.

- `src/` is the verified library (Verus): the choice of GPU, the trail queues and their layout
  for drawing, the body sprite layout, the substep clamp of the integrator,
  the input state machine, the swapchain recovery policy, and the PPM encoder
  of the diagnostic frame dump. Every public function has a contract, and the
  invariants that tie them together are stated as proof functions.
- `app/` is the program around it: the floating-point physics and camera,
  the body catalogue, and everything that talks to Vulkan (vulkano) and to
  the window system (winit).
- `tests/` runs the library on concrete values.

Set `SOLAR_DUMP_FRAME` to render one 1280x800 frame three simulated years in
to `/tmp/opencode/solar_frame.ppm` and quit.
