# memori_vault

The core logic of Memori-Vault, a local knowledge vault with a desktop application, an HTTP
service and an MCP server, written in Verus with its behaviour stated in `requires`/`ensures`
contracts and proved.

- `src/` is the verified library: Markdown chunking, document text extraction (Word, PDF
  and the compound files of Office 97-2003 documents), PDF stream filters, settings
  resolution and validation, model endpoints, sessions, OIDC checks, rate limiting, audit
  paging, log formatting, MCP catalogs and routing, and the smaller rules around them.
  Public proof functions named `law_*` state properties that span several functions.
- `tests/` runs the library on concrete values.
- `app/` is the plain Rust around the library: file, process, environment and network access,
  JSON parsing into the library's `Json` value, and the types that carry `serde` derives.
