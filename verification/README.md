# voiceapp

The logic of a voice-chat client, verified with Verus: the wire protocol
(packets, events, requests and responses, with their round-trip laws), the
voice packet path (frame numbering, the jitter buffer, routing by SSRC), the
console commands, the choice of audio stream configurations, and the state
machines of the desktop front end (its pages, configuration, audio and
voice-client handlers, and notification playback).

- `src/` is the verified library.  Each handler of the front end is a
  function from its state and a message to a new state and a list of
  actions; the contracts state both through spec functions over views.
- `tests/` runs the library on concrete values.
- `app/` is the unverified shell around it: sockets, the configuration
  file, audio devices through cpal, Opus coding, WAV decoding and
  resampling, and the floating-point sample arithmetic.
