# pasteface

A recorder for the terminal: it records speech in chunks, transcribes them one after another with
a local Whisper or a remote service, and copies or saves the words.

The library in `src/` holds the rules of the program, each function with its contract, proved by
Verus. What reaches outside stands in `app/`.

- `service`, `protocol`, `session`, `restore`, `recorder_laws`, `request_laws`: the recorder. A
  request is a series of steps; each one names what has to be done outside, and goes on with what
  came of it.
- `transcribe`, `provider`: the transcription of one recording.
- `config`, `paths`, `export`: settings, keys and files.
- `interface`, `scene`, `tab_bar`, `tab_menu`, `settings_ui`, `selection`, `queue`, `chips`,
  `shortcuts`, `palette`, `logo`: what the screen shows, and what keys and clicks mean.
- `ipc`, `tray`, `cli`: how the interfaces reach the recorder.
- `model`, `error`, `input`, `geometry`, `search`, `text`: what the others share.

Moments are nanoseconds. Lengths of recordings, the level of the microphone and the opacities of
chunks are floating-point numbers; the library keeps them as their bits, and `app/` computes them.
Functions whose name begins with `law_` state what holds of the library as a whole.
