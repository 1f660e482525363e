# strivo_plugins

Plugins for the stream recorder StriVo, written and verified in Verus.

| Plugin     | Purpose                                                                |
|------------|------------------------------------------------------------------------|
| `crunchr`  | Transcription, search and analysis (Whisper CLI, Voxtral, OpenRouter)  |
| `archiver` | Archiving of whole channels with yt-dlp                                |

## Layout

`src/` is the verified library. A plugin there is a state machine: a key, an event or a loaded
result goes in, the new state and a list of effects come out. `model.rs` of each plugin says which,
`laws.rs` what holds of it as a whole, and `mod.rs` is the code. Around them stand the parts that
compute: the chunker and the word counts (`crunchr/pipeline.rs`), the transcription backends
(`crunchr/transcribe/`), the analysis (`crunchr/analysis.rs`), prices (`crunchr/cost.rs`), the
calls of yt-dlp and what they return (`archiver/scanner.rs`, `archiver/downloader.rs`), the
recording picker (`picker.rs`) and what the panes show (`render.rs` of each plugin, `screen.rs`,
`picker_screen.rs`).

`app/` performs the effects: databases, commands, network, terminal.

`tests/` runs the library on concrete values.

## What is not proved

Numbers with a fraction pass through the library as bit patterns (`number::Double`); what is
computed with them is computed in `app/`. The contracts of the functions of other crates and of
the standard library that Verus does not know are stated at the items that call them, each with a
comment that says what is claimed.
