# satur8

Per-game digital vibrance for Linux: boost colour saturation while a game is
focused or launched, and restore the desktop afterwards, without touching the
game process.

## Layout

- `src/` is the verified library (Verus). Every public function carries a
  contract over spec functions and views:
  - `env`: session, desktop and GPU detection from the environment variables
    and DRM sysfs facts, and which backend a session prefers;
  - `profile`: per-game profiles, case-insensitive lookup (first match wins),
    add/replace/remove;
  - `config`: where the profiles file lives;
  - `launch`: the `satur8 run` decisions (explicit saturation, named profile,
    executable match; native or gamescope);
  - `focus`: the focus daemon's decisions and its backend retry schedule;
  - `ctm`, `drm`: the DRM colour-matrix format, which CRTCs an output means,
    how commits and probes are reported, which card is driven;
  - `nv`: NVIDIA Digital Vibrance values;
  - `steam`, `apps`, `games`: Steam AppIDs and cached art, the running-program
    list, and the desktop app's game list;
  - `text`: string helpers tied to their spec functions.
- `app/` is the program around it: command line, daemon, D-Bus, DRM ioctls,
  `nvidia-settings`, the TOML file, signals and the floating-point saturation
  matrix. Run as `satur8-daemon` it is the focus daemon.
- `tests/` exercises the library on concrete values.

Saturations are stored in the library as the bit pattern of their `f32`
value; the arithmetic on them happens in `app/`.
