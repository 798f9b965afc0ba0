# ebcdic-lsp

Converts text between ASCII and eleven EBCDIC codepages, as LSP code actions for text that an
editor can show, and as a command (`ebcdic-lsp convert`) for mainframe data files that it cannot.

The logic is the library in `src/`, specified and proved with Verus:

| Module | What it holds |
| --- | --- |
| `codepage`, `tables` | The codepages, and that each of them decodes what it encodes. |
| `convert` | Decoding and encoding, and the round trip. |
| `rdw` | RDW/SDW de-framing, spanned records among them, and that it undoes framing. |
| `config`, `json` | Settings, and how codepage ids may be spelled. |
| `document` | Open buffers, UTF-16 positions, ranges, `file:` URIs. |
| `cli` | The command line, flat and framed conversions, control characters, summaries. |
| `lsp` | Code actions and the edits they make. |
| `extension` | Which server binary to run or to download. |
| `text` | Strings as character sequences. |

`app/` is the program around it: files, the LSP connection, and the Zed extension. `tests/` runs
the library.
