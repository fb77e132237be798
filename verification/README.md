# terminal-vibes

A terminal music visualizer. `src/` is the library, verified with Verus:
the braille and half-block canvases that turn pixel grids into terminal
cells, color quantization, palettes and mode cycles, the visualization
carousel, bar and spectrogram layouts, the framing of captured samples, and
the key maps and frame pacing of the terminal front end. It also holds the
bookkeeping of a GPU shader mode (the shader list and its file-change
handling, the audio texture layout), which the program in `app/` does not
include.

`app/` is the program around it: PulseAudio capture, the FFT and beat
energies, the floating-point drawing of each visualization, configuration
files and the terminal loop.
