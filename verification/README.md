# remarkable

A toolkit for a reMarkable 2 tablet, built as a Verus-verified library with a
thin command-line program around it.

## Layout

- `src/` — the library, verified by Verus:
  - `reader`, `tag`, `crdt`, `scene`, `blocks`, `document`, `stream`: the
    parser of `.rm` v6 page files, with each reader's contract stated over
    the bytes it consumes. A page's root text block is carried to the page
    as its undecoded body bytes;
  - `render`: rendering parameters, the pen palette and stroke-width median;
  - `metadata`: the document tree, path and UUID resolution, page ranges,
    name suggestions;
  - `cli`: the decisions behind each command (what `mkdir`, `mv`, `rm`,
    `download` and `render` plan and report), configuration precedence and
    startup;
  - `tablet`: remote listings, the backup walk and SSH connection options;
  - `cli::laws`, `metadata::laws`: properties that span several functions.
- `app/` — the program: argument parsing, configuration files, JSON, SSH and
  SFTP, the local file system, and rasterisation with tiny-skia.
- `tests/` — tests of the library on concrete values.

## Commands

`connect`, `ls`, `info`, `backup`, `download`, `render`, `mkdir`, `mv` and
`rm` are implemented. `find`, `upload` and `rename` are accepted on the
command line but answer that this build does not support them; `ls` lists a
folder in the tree's order and takes no sort key; `backup` always copies the
whole data directory.
