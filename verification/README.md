# raytracer

A small ray tracer whose integer core is verified with Verus.

- `src/` is the verified library: colours and their `0xRRGGBB` words (`color`), the
  framebuffer and the painting of a frame (`framebuffer`), texel lookup and the checkerboard
  rule (`texture`), and the depth test that picks the hit a ray shows (`render`).
- `app/` is the program around it: the window and its controls, the camera, the scene, and
  the shading, all of which work in `f32`, which the library does not hold.
- `tests/` runs the library on concrete values.
