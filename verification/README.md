# agentiso

Isolated Linux workspaces for agents: each workspace is a microVM with its own
ZFS volume, TAP device, address and firewall rules, and is driven through a set
of tools. This crate holds the rules of the workspace manager as a library that
Verus proves against its contracts, and a thin server around it.

## Layout

- `src/` is the library.
  - `text`, `number`: strings and numbers, with their models.
  - `host`, `job`: steps that run programs on the host, and jobs made of them.
    A job only tells what to do next and takes what became of it.
  - `network`: addresses, bridge and TAP devices, nftables rules, and what is
    done over the life of a workspace.
  - `storage`: ZFS datasets, snapshots and clones.
  - `mcp`: sessions and quotas, rate limits, the vault of notes, and the
    decisions behind each tool. Tools that exchange several commands with a
    workspace (git, merging, preparing) are state machines, and so is the walk
    that finds out where a path of the vault leads over links.
  - `config`, `team`: plain data.
- `app/` is the server: processes, files, sockets, JSON and clocks.
- `tests/` runs the library.

## Contracts

Contracts speak of mathematical views: texts are sequences of characters,
sessions a map from names to what they own, commands the exact words that are
run. Properties that span several functions are public proof functions whose
names begin with `law_`; they stand at the end of each module.

What other crates compute is called through small functions that Verus does not
look into: regular expressions (`mcp/pattern`), YAML (`mcp/yaml`), UUIDs and
`Debug` forms (`mcp/tools`, `text`), and UTF-8 decoding
(`mcp/workspace_tools`). Their doc comments say what is taken for granted.

Time is passed in. Rate limits count in exact shares of a token, so that nothing
is lost to rounding.
