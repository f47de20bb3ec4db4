# disco

The disco screensaver: neon confetti, pulsing stars, a mirror ball with
sweeping light rays, equalizer bars and the live OS logo.

- `src/` is the verified library: the character grid and every drawing layer
  (stars and their lens flares, rays, the mirror ball, the equalizer, the
  confetti, the logo), the choice of flaring stars, the scene's counts and
  resize detection, the beat generator's noise sequence, and the audio
  visualizer handle. Each drawing function states, cell by cell, what it
  leaves on the grid.
- `app/` runs the scene: the floating-point physics and colour blending, the
  beat generator thread, and the terminal runner and system information of
  the screensaver collection's shared `library` crate.
- `tests/` exercises the library on concrete frames.
