# itajara

A looper: several loops, each a stack of layers, recorded from one input and
played back together, run by one-line commands. The logic is a library whose
behaviour is stated in contracts and proved with Verus. The program around it
opens the streams, reads the devices and writes the files.

## Layout

`src/` is the library.

- What a command says: `text`, `line`, `verb`, `lane`.
- What a command does: `dispatch` reads it and takes the step it asks for. The
  steps stand by subject in `record`, `claim`, `multiply`, `cycle`, `bars`,
  `edit`, `window`, `knobs`, `stack`, `clear`, `copy`, `tape` and `source`.
  `guards` holds the refusals, `ack` the answers, `say` and `words` the words
  they are put in, and `conduct` what every command keeps to.
- What a loop is: `phase`, `layer`, `next_take`, `closing`, `loop_state`, and
  `shared` for the whole rig with its audio (`audio`).
- What a buffer of sound does: `stamp` (moves that fall due), `mixer` (which
  positions are heard), `input` (where what comes in is laid), `past` (what came
  in before), `commit` and `finish` (how a take becomes a layer), `note` (what is
  told of one that has).
- What leaves the rig: `render`, `export`, `capture`.
- What goes on around it: `options`, `probes`, `inputs`, `aggregate`,
  `calibration`, `start`, `pairing`, `watch`, `selftest`, and `fault` for the
  words of what is wrong with a device or an argument.
- `num`, `bits`, `wide`, `beat` and `frame` hold the arithmetic the rest leans on.
  A real number is held as its bits. It is compared in `bits`; what divides a
  length by one, for a pass or a beat, is worked out to the last bit in `wide`;
  and the rest is computed in `app/`.

`app/` is the program: arguments, devices, streams, files, and every sum of real
numbers.

`tests/` runs the library on concrete values.

## What is proved

Every function states what it returns or changes, and none panics on what its
`requires` admits. `Shared::wf` is the invariant of the rig; every step keeps it.
What relates several steps stands as public proof functions in the module of its
subject, named by what they say, such as
`input::an_overdub_lands_where_it_is_heard` or
`loop_state::decay_turned_off_brings_a_layer_back`.

Outside code is trusted in five places: `text.rs` (appending a character, lower
case, quoting) and `mixer.rs` (the random source and one draw from it).
