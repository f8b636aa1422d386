# siglus_patch

The rules behind a performance patch for the Siglus engine, verified with Verus: an OMV movie
player, hooks that pack and write saves in the background, a patcher that makes an executable
import the hook library, and an injector.

- `src/omv`: the header of an OMV file and what a player needs of it.
- `src/movie`: the player: clock, queues, buffers, colour conversion, the worker's decisions, and
  what the engine calls in place of its own player.
- `src/hook`: saves that are put off, the rotation of autosaves, attributes of picture files,
  pictures as PNG, and the machine code that leads the engine's calls to the player.
- `src/pe`: reading an executable image, adding an import to it, and deciding whether to patch.
- `src/injector.rs`: finding a process and the steps of loading a library into it.
- `app`: the programs around the library: windows, threads, files, FFmpeg and the engine's memory.

Threads, windows and the engine itself are outside the library. Where they take part, the library
is a function from an event to the next action, and the program performs the action.

What is proved of several functions together stands in functions whose names start with `law_`.
What is believed of other crates stands in the few items marked `external_body`, in the
`assume_specification` items, and in the specification functions without a body; each says in its
comment what it claims.
