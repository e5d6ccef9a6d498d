# kaspa-chess-core

Chess rules for a game whose whole state is a 64-byte board, a castling-rights
bitmask, an en passant target and the side to move, with every rule proved
against a specification in Verus.

- `src/board.rs`: squares (rank, file) and piece bytes (colour, kind).
- `src/attack.rs`: attacked squares, the king's square, check.
- `src/apply.rs`: the board after a move, new en passant target, remaining
  castling rights, the next state.
- `src/rules.rs`: the legality of a move, and the inputs on which a move can
  be played or judged.
- `src/transition.rs`: checking a claimed (old state, move, new state)
  transition, and the laws that tie legality, the next state and the check
  together.
- `src/symmetry.rs`: the colour symmetry of attacks, of playing a move and of
  legality (board turned upside down, colours exchanged).
- `app/`: the prover host (reads JSON, builds the next state, asks RISC Zero
  for a Groth16 proof) and the zkVM guest (checks the transition, commits the
  journal).
