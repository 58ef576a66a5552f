# kbot

Control software for the K-Bot humanoid robot, with its decision logic
verified in Verus.

- `src/` is the verified library: the joint tables (actuator IDs, network
  slots, home pose, gains), the plan of bus operations behind a
  configuration request, the bookkeeping of bus scans, the layout of the
  policy network's observation and actions, the IMU interface search, and
  the text of log files and folder names. Laws that span several functions
  are stated as proof functions next to the code they are about.
- `tests/` runs the library on concrete values.
- `app/` holds the command-line tools: the actuator bus (robstride), the IMU
  (imu), network inference (ort), and all floating-point arithmetic
  (unit conversions, clamping to joint limits, interpolation, gravity).
