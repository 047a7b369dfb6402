# Dictum

Hold a key, speak, release: the words are typed where the cursor is.
Dictum records the microphone, runs Whisper (`whisper-cli`) locally and types
the transcription into the active window. Nothing leaves the machine.

This repository is split in two:

- `src/` — the library, verified with Verus. It holds every decision the
  application makes: the settings and their repair, the history, the hotkey
  state machine, the pipeline (what a key press or release leads to), cleaning
  whisper's output, substitutions and French typography, the keystrokes that
  type a text, the download manifest, resuming and checksums, update selection
  and version order, the local HTTP API's routes and bodies, the command line,
  the tray texts and the wizard's choices. Each public function states in its
  contract what it returns.
- `app/` — the program around it: files, processes, network, microphone,
  keyboard, tray icon and windows. It reads, calls the library, and acts.

Modules of the library:

| module         | what it decides                                                |
|----------------|----------------------------------------------------------------|
| `config`       | settings, defaults, repair, score, issues, reports, profiles   |
| `history`      | recent transcriptions, newest first, bounded; listing, export  |
| `hotkey`       | key names, press/release tracking into start/stop requests     |
| `pipeline`     | what each event leads to; pause; history update after a result |
| `transcript`   | whisper-cli arguments, timeout, reading its output             |
| `live`         | cleaning whisper-stream lines, repeats, hallucinations         |
| `substitution` | abbreviation rules, longest first                              |
| `typography`   | capital letter, French punctuation spacing and quotes          |
| `inject`       | the text typed and the keystrokes that type it                 |
| `downloader`   | manifest, resume, status, SHA-256 check, GPU detection         |
| `updater`      | version order, choice of the installer, stale installers       |
| `api`          | routes and JSON bodies of the local API                        |
| `cli`          | command-line commands, options and printed texts               |
| `notify`       | notification texts and the script that shows them              |
| `reformulate`  | rewording styles, prompt, endpoints                            |
| `setup`        | first-run choices, wizard settings, progress display           |
| `tray`         | tooltip, icon colour, menu and About texts                     |
| `binary32`     | order and clamping of the two real-valued settings             |
| `text`         | the string operations the rest is written with                 |

Verify with `verus src/lib.rs`; the tests under `tests/` exercise the
library with the real outside crates linked.
