# offtake_parser

Parsers for energy offtake data files, verified with Verus.

* `electricity_offtake_parser`: Elexon flow files, a header line, profile
  class groups of `DPP|location|date|value` lines and a trailer line.
* `gas_offtake_parser`: seasonal composite weather variable files, one
  quoted date and thirteen decimal numbers per line, and the codes of local
  distribution zones, bands and user groups.

Every parser takes a `Span` (a position in the input, with its line number)
and returns the rest of the input with the value, or a `ParseFailure`.
Each parser's contract equals its result to a grammar written as spec
functions (`sp_*`), and the `laws` modules prove what holds of every file
that parses. Decimal numbers are kept as the text that stands in the file;
`nom` recognises that text and `chrono` reads the dates.

`app/main.rs` reads `AUC.txt`, parses it and reports an error with `miette`.
