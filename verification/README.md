# typwiki

A wiki written in typst and compiled to static HTML pages, with a live server
that recompiles on every change.

`src/` is the verified library (Verus): it decides which output path each
page and asset gets, which request is answered with which page, which files
belong to the wiki, and what the generated typst files say.

- `vpath` — wiki paths (typst's virtual paths) and links between pages
- `pathmap` — maps from wiki paths to entries, each path at most once
- `diag` — the diagnostics the library reports
- `bundle` — assembling the rendered documents and assets into the wiki
- `assets` — collecting asset outputs and reporting conflicting ones
- `serve` — answering HTTP requests from the compiled wiki
- `sources` — finding the sources, the generated include file, the index file
- `scope` — the `wiki` object that pages see
- `render` — the wiki as a list of pages rendered one by one
- `focus` — what a document's own queries see
- `watch` — the steps the live server takes after a change
- `laws` — properties that relate several of the functions above

`app/` is the program around it: command line, file system, HTTP server,
file watching, and the glue to typst's compiler, whose traits and macros the
library cannot implement itself.
