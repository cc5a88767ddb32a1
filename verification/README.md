# Audio Config Manager

Saves and restores the audio configuration of a Windows machine: default
devices, and which application plays to or records from which device.

- `src/` is the verified library. It decides everything that can be decided on
  plain values: which routes are exported and restored, what a profile file
  holds, which backups are made and kept, which device events count as a change,
  in what order a restore proceeds, what each command answers. Every function
  states its result in a contract that Verus proves.
- `app/` talks to Windows, to PowerShell and to the desktop shell. It reads,
  hands plain values to the library, and carries out what comes back.
- `tests/` runs the library on concrete values.

Calls into other crates are made by the few items of `src/` marked
`external_body` or `assume_specification`; their doc comments say what is taken
from those crates without proof.
