# echec

The rules, records and decisions of a chess program that learns by playing
itself, written in Verus: the functions of `src/` carry contracts, and the laws
that hold across functions are public proof functions named `loi_…`.

A position is its FEN text and a move its UCI text. The rules of chess come from
`shakmaty`, chance from `rand`, JSON texts from `serde_json`; the functions
that call them say what is taken on trust. Real numbers enter the library as
their bits, or as integers in the same order: sums and fits are done in `app/`.

- `echiquier`, `jeu`: positions, legal moves, games and repetitions.
- `bots`, `arena`: players, alpha-beta search, duels and series of duels.
- `features`, `features_roi`, `entree`, `nn`: what a network is fed, its file
  format, grafting, and the columns a lesson moves.
- `departs`, `livre`, `livre_lois`: starting positions, the opening book and what
  holds of its lines.
- `elo`: the ladder of anchors and its adaptive plan.
- `cycle`, `rejeu`, `checkpoints`, `corpus`, `graines`: a training, its memory,
  its milestones and its seeds.
- `arbitre`, `suivi`, `banc`: grading moves, following a match, a test bench.
- `rencontre`, `pgn`, `direct`: match games, their PGN, the game on the air.
- `serveur`: sessions, routes and curves of the web board.
- `calibration`, `commandes`, `options`, `reels`, `texte`: measures, command
  lines, bits of real numbers, text.

`tests/` runs the library with the outside crates linked. `app/` holds the
programs: the web board, distillation, grafting, rating, calibration, the
arbiter of a match.
