# bookview_collector

Collects the data of five-minute BTC prediction markets, trades on them, and replays what was
collected.

- `src/` is the library: order books and their synchronisation, message processing, the numbering
  of lines, scheduling, order execution and its limits, calls on the chain, and the engine of the
  simulator. It holds no clock, socket or file. Its functions take plain values and give back
  plain values and the actions to perform; what they compute is stated in their contracts and
  proved with Verus.
- `app/` is the program around it: `collect` (the default), `executor`, `sim` and `backtest`. It
  reads sockets, files and clocks, computes in floating point, and performs the actions.
- `tests/` runs the library on concrete values.

Prices and sizes that are floating-point numbers cross the border of the library as their IEEE 754
bits. The library compares them and decides; sums and products of them are handed in.
