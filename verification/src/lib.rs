//! The decision logic of an n-body solar-system viewer: orbit-trail
//! bookkeeping, the choice of GPU, the sprite and trail vertex layout, the integrator's substep
//! count, input handling, the swapchain recovery policy of the frame loop,
//! and the PPM encoding of the diagnostic frame dump.
pub mod controls;
pub mod device;
pub mod frame;
pub mod ppm;
pub mod quad;
pub mod stepping;
pub mod trails;
