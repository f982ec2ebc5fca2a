# vibe_lox

A Lox front end, bytecode compiler and virtual machine whose logic is
verified with Verus.

- `src/` is the verified library: the scanner, the recursive-descent parser
  (with error recovery), the S-expression printer, the resolver, variable
  environments, capture analysis, the bytecode compiler, the chunk format and
  its disassembler, the `.blox` file framing, the virtual machine as a state
  machine (`vm::machine`: one instruction per step, with number arithmetic
  handed to the host), the tree-walking evaluator's heap and operator
  decisions, and the decisions of the REPL. Each public function's contract
  states its result over a mathematical model (for the parser, the compiler
  and the machine, a grammar, a lowering and a step relation written as spec
  functions); laws relating several operations are public proof functions.
- `app/` is the command line program around it: argument handling, files,
  the REPL's line editor, MessagePack and JSON output, the loop that drives
  the machine and does its floating-point work, and the tree-walking
  evaluator's walk over the syntax tree.
- `tests/` exercises the library from outside.
