# native-memory-scripter

A toolkit for inspecting and patching the memory of a Windows process from
scripts, with its decision logic verified.

- `src/` — the verified library
  - `le`, `search`, `text`: little-endian encodings, first-match search,
    character-level text comparison
  - `mem`: byte patterns and scanning, jump and hook planning, disassembly,
    allocation limits, vtable and import-table bookkeeping, reading a
    module image's export and import tables, export, module and segment
    selection
  - `mutation`: the newer hook and vtable semantics, and the decisions of
    the memory access monitor
  - `scripter`: native call argument blocks and return values, script
    discovery, script output lines, version and configuration records
- `app/` — the Windows side: system calls, files, logging, console and the
  plugin entry point, handing plain values to the library
- `tests/` — tests of the library on concrete values
