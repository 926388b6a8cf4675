# developable

Developable surfaces attached to a smooth space curve, exported as a Wavefront `.obj`
mesh and as flattened `.svg` patterns.

- `src/` is the verified library (Verus): the layout of the `.obj` and `.svg` documents
  (record order, 1-based vertex and normal numbering, faces between consecutive frames or
  pipe sections, masks, outlines and cross bars), decimal rendering of indices, line
  splitting of comments, and the decisions of the command-line program. Numbers computed in
  floating point reach it already rendered as text.
- `app/` is the program around it: the floating-point geometry (curves, frames, the ODE
  integration of surfaces and pipes, bounds and scales), JSON input and output, files and
  streams.
