# malscraper

The bookkeeping of malScraper, a tool that gathers indicators of compromise
(payload domains, C2 addresses, file digests, phishing pages) from public feeds,
written as a Verus library with its behaviour stated in contracts and proved.

- `src/` is the verified library: the interactive command language, report
  locations, reading indicators out of report lines, whitelist and custom-feed
  bookkeeping, report comparison, scan history, statistics, search and filter,
  validation, export formats, payload processing, update decisions, the help
  menu's layout and the prompt's completion.
- `app/` is the program around it: the command line, downloads, files, the
  terminal, DNS lookups and the update installer.
- `tests/` runs the library on concrete inputs.
