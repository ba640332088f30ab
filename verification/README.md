# localization_mcap_visualizer

Logic of a visualizer for recorded robot localization runs. A recording is an MCAP file with camera
images, detections, IMU measurements, visual odometry and the poses that the robot found. The
visualizer shows what was recorded at a point in time, and replays a recording through the
localization backend with other settings.

- `src/` is the library. It is verified with Verus: reading the messages of a file, aligning
  images, detections and poses in time, the course of a replay, and the state of the user
  interface.
- `tests/` runs the library on concrete values.
- `app/` is the program around it: files, decoding of payloads, the solver, floating-point
  geometry and drawing.

Where the library relies on the `mcap` crate, `src/messages.rs` says what it takes for granted of
each call.
