# hyperview

The verified core of a viewer for a 4D scene: Flatland, Spaceland and a fourth
dimension, shown step by step.

- `src/` is the library, verified with Verus: lattice shapes (hypercubes, cubes,
  squares, axes), the `x y z r g b a` atom text format, the bookkeeping of
  objects and view switches of a scene, and the guided tour with its texts.
- `app/` is the Bevy program around it: rendering, input, the floating-point
  motion of the scene, and the shapes cut out by curved surfaces (heart, circle,
  sphere, head, aquarium, fish).
- `tests/` runs the library on concrete values.
