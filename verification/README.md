# zmanager-core

The archive and disk image core of an archive manager, verified with Verus.

- `src/` is the library, which Verus verifies.
- `tests/` runs the library from outside, with the real outside crates linked.
- `app/` is ordinary Rust around the library: it reads and writes files, drives
  the archive writer and the mounting engine, and hands the library plain values.

## Modules

| Module | What it does |
| --- | --- |
| `bytes`, `text`, `paths`, `der` | Little-endian numbers, texts, paths and DER elements |
| `failure`, `work` | Failures of reading and writing, and what extracting an entry asks for |
| `codec` | The decoders that archives and images are packed with |
| `warc`, `wim`, `xar` | Reading, testing and extracting web archives, Windows images and XAR files |
| `vdi`, `isz`, `iso`, `optical`, `disc` | Virtual disks, packed images, ISO 9660 and tracks of a disc |
| `virtual_disk`, `disk_mount`, `disk_run`, `disk_extract`, `report` | Which images are understood, what is mounted, listed, tested and extracted |
| `tzap` | Encrypted, split and signed archives: volumes, headers, keys, recipients, signatures, opening, writing and extracting |
| `x509_fixture` | Certificate chains to test with |

## How outside work appears in contracts

Reading a file, asking a user or waiting for a writer happens in `app/`. The
library takes what came back as an argument, and its contract says what follows
from each answer. Where several steps follow each other, as in extracting a member
(`tzap::steps`), one file (`tzap::single_file`) or putting volumes in place
(`tzap::sink`), the library says which step comes
next and when the work ends, and `app/` does the step.

Where the library calls an outside crate, a small function with a doc comment
makes the call and says what is relied on. A result that depends on the arguments
alone has a name, such as `zlib_output`. A result that also rests on the installed
OpenSSL has none: there a predicate such as `chain_answer` says which arguments
the result answers for, and the functions above it say what they do with any
answer. The archive reader's faults are treated alike, because it checks blocks side by
side and tells the fault that it meets first.

`Cargo.toml` names `ntfs-core`, which nothing here calls, to hold it to the version
that the mounting engine builds with.
