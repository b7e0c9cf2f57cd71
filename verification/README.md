# voicecode

Push-to-talk dictation: hold a key, speak, release, and the transcribed,
cleaned-up text is pasted into the active window.

The pipeline runs five stages connected by channels:

    listener -> recorder -> transcriber -> cleaner -> writer

Recordings are numbered (`seq`) by the recorder and transcribed concurrently;
the writer's sequence buffer puts them back in order before pasting.

## Layout

- `src/` is the verified library (Verus). It holds the decisions and data of
  every stage, each with a contract:
  - `config.rs`: settings, their defaults and how a partial file is completed;
  - `pipeline/listener.rs`: key names, the watched key and its events;
  - `pipeline/recorder.rs`: the recorder's state machine (key repeat, minimum
    duration, `seq` numbering);
  - `pipeline/transcriber.rs`: what a finished transcription publishes, the
    worker count, the hosted API endpoint and the local model's slot (never
    unloaded while in use);
  - `pipeline/cleaner.rs`: filler removal (regular expressions from the
    `regex` crate) and the text tidying that follows;
  - `pipeline/writer/`: the reordering buffer and the paste with clipboard
    backup and restore;
  - `utils/`: text helpers and the paste-dependency check.
- `app/` is the program around it: the tray, the keyboard hook, audio capture
  and processing, the transcription backends, the configuration file, and the
  async loops that drive the library's state machines.
- `tests/` exercises the library.
