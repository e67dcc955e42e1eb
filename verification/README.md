# IEX DEEP parser

Converts `pcap.gz` captures of IEX DEEP 1.0 market data to parquet: one table,
one row per message, a column for every field of every message type.

    iex-deep-parser <input.pcap.gz> <output.parquet>

`src/` is the library. It is written in Verus, and its contracts are proved.

- `wire`: little-endian integers and padded text fields
- `message`: the message types and the rows they become
- `row`: rows, columns, and how much text a column can hold
- `packet`: the messages of a packet
- `capture`: the blocks of a capture, and the conversion as a state machine
- `buf`: the columns of the rows gathered so far, and the table they become
- `columns`: arrow's builders, arrays and tables, with what is trusted of them
- `schema`: the names, types and nullability of the columns
- `output`: how the table is stored
- `number`: numbers in progress reports

`app/` is the program around it: files, the gzip stream, the parquet writer, and
the conversion of prices to floating point. A price is a number of
ten-thousandths everywhere in the library; where a table is written, the program
supplies the bits of the double that stands for it.
