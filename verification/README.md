# flight_core

The core of a flight simulator, written in Verus.

- `src/` is the library. Verus proves every function in it against its
  contract. What users of the library provide has none of its own: the
  elementary functions, whose results the contracts name, and components of the
  avionics, of which their own account is taken.
  - `binary64`, `square_root`, `remainder`, `rounding`, `separation`, `single`,
    `literal`: IEEE 754 arithmetic on bits, its laws, and decimal constants.
  - `elementary`: the elementary functions that a machine provides.
  - `vector`, `rotation`, `state`, `config`, `atmosphere`, `pressure`,
    `layers`, `terrain`, `wind`, `prng`, `aero`, `shape`, `integrator`: the parts of the
    flight model.
  - `flight`: the flight model as a whole; `simulator`, `env`, `cockpit` and
    `session` fly with it.
  - `avionics`: the bus, sensors, flight controller, actuators, motor and
    battery, and the system that runs them in order.
  - `weather`: scenes, severity, curriculum, rewards and observation.
  - `agents`: configuration, registry and the agents themselves.
  - `voxel`: the surface of imported meshes.
  - `tunnel`: the wind tunnel.
- `tests/` runs the library, with the elementary functions of the machine.
- `app/` is ordinary Rust around the library: configuration files, random
  draws, boxed agents and the nodes of the Godot scene.

Angles are in radians and all quantities in SI units, unless a name says
otherwise. The axes of the earth are north, east and down; those of the body
are forward, right and down.
