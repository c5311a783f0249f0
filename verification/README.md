# memebot_backend

The logic of a meme board, verified with Verus, and the console that runs it
against PostgreSQL.

- `src/` is the verified library:
  - `voting`: what a vote does to the stored vote of its (meme, user) pair and
    to the vote counters, with the laws that the counters count active votes;
  - `ranking`, `meme_query`, `memes_by_heat`: ordering memes by date, heat or
    score and taking the first ones;
  - `rating`: integer order keys that stand for the 32-bit ratings;
  - `text`, `cli`: splitting command lines, reading integers, and what each
    console command asks for or why it is refused;
  - `models`: the records.
- `app/` is the console program: database access (diesel), the rating formula,
  reading and printing.
- `tests/` runs the library on concrete values.
