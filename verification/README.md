# mcp_server_gdb

An MCP server that drives GDB through its machine interface (GDB/MI).

- `src/` is the verified library: the command line GDB is launched with
  (`mi::GDBBuilder::launch_plan`), the GDB/MI command line of a command
  (`mi::commands`), command tokens and the verdict on GDB's replies
  (`mi::GDB`, `mi::check_reply`, `mi::session_active`), the session registry
  (`gdb::GDBManager`), the remote target and reply texts of the tools
  (`tools`), and decimal writing of numbers (`decimal`).
- `app/` is the server around it: the GDB process and its output reader
  (tokio), interrupts (nix), the session operations, and the MCP tools
  (mcp-core).
- `tests/` runs the library on concrete cases.
