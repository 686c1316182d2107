# cs2-dumper (verified core)

Offset, interface and schema discovery for Counter-Strike 2 on Linux, split in two:

- `src/` is a Verus library holding the decisions: the ELF64 dynamic-symbol lookup
  (`elf`), pattern parsing and scanning through `skidscan` (`pattern`), the signature
  operations that turn a match into an offset (`offsets`, a step-by-step chain that
  asks its caller for the memory it needs), locating the interface and button lists
  (`interfaces`, `buttons`), walking registration lists (`walk`), name maps (`names`),
  and the schema system (`schemas`): its types, the search for the schema-system
  registration, and the walks over type scopes, class fields, class metadata, enum
  members and parent classes, each a state machine that names the next read it needs
  and takes back what was read.
  Verus proves the contract of every function there except four small trusted
  wrappers around outside code, whose contracts are taken as given:
  `pattern::parse_pattern` and `pattern::scan` (skidscan's `Signature::from_str` and
  `Signature::scan`), and `text::utf8_str` and `text::utf8_lossy`
  (`std::str::from_utf8` and `String::from_utf8_lossy`).
- `app/` attaches to the game with memflow, reads memory and `config.json`, performs
  the reads that the library's machines ask for, and hands back what it read. It relies
  on the game-structure layouts of a `source2` module that is not part of this tree.

`tests/` runs the library on synthetic module images and values.
