# midi_io

A MIDI 1.0 library whose codec and backend bookkeeping are verified with Verus.

- `src/` is the verified library:
  - the message model (`channel`, `data_byte`, `pitch_bend`, `song_position`,
    `message`, `sys_ex`, `raw_message`), the one-shot `decode`r and the
    incremental `stream_parser`, with their errors (`error`) and their text
    (`text`);
  - the ALSA sequencer side: what a sequencer event means (`alsa_event`) and
    the backend's bookkeeping of ports, connections and virtual ports
    (`alsa_registry`);
  - the CoreMIDI side: endpoint caches, disconnect handlers, output state and
    host-time calibration (`coremidi_registry`);
  - inbound overflow accounting (`overflow`), command refusals and browser
    port handles (`platform`), port handles and names (`port`, `name`), and a
    small keyed table (`table`) the registries are built on.
- `tests/` exercises the library from outside.
- `app/` is the async client, its connection streams and the ALSA backend
  thread: it performs the I/O and carries out what the library decides.
