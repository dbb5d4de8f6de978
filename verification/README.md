# audio-stream

Plays audio on another computer's output over the network: without loss, with little bandwidth while
nothing plays, and with any sample rate and buffer size that both audio devices support.

- `src/` is the library, verified with Verus: the wire format, discovery, the queues of samples
  between the audio devices and the network, the sessions of senders and receivers, the status line,
  and the menu of the tray application. Samples are 32-bit floating-point numbers, held as their
  bits.
- `app/` is the program around it: arguments, sockets, audio devices, child processes, the tray, and
  the figures that need floating-point arithmetic.
- `tests/` runs the library on concrete values.

What the library takes from other crates without proof is named in the doc comments of the functions
that call them: `ring.rs` (ringbuf), `json.rs` (serde_json), `pattern.rs` (regex) and `text.rs` (the
standard library).

## Usage

```sh
audio-stream recv -d pulse -l 0.0.0.0:8000
audio-stream send -p 8000 -d "Blackhole 2ch" -a 192.168.0.10:8000 -r 44100 -b 1024
audio-stream discover -p 8000
audio-stream tray
```
