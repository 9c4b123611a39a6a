# montage_edl

Applies an envelope of edit decisions to a timeline: trims, splits, moves, cuts,
transitions, titles, effects, audio, markers and the documents that travel with a
project. The ops of an envelope are applied in order to a copy of the timeline;
the first one that is refused refuses the envelope, and the error says which op it
was and why.

- `src/` is the engine, verified with Verus. `model` holds the timeline and its
  mathematical views, `envelope` the ops, `dispatch` what each op comes to,
  `engine` the run over a whole envelope. The modules whose names end in `laws`
  state what holds across ops.
- `tests/` runs the engine on concrete timelines.
- `app/` connects the engine to its surroundings: floating point, JSON, files, and
  the services that resolve anchors and know transitions, effects and templates.

Times and amounts are counted in quadrillionths (`Num`), with the values beyond every
count kept apart. What only a service outside can say about an op comes in as
`Answers`; the engine is exact about what it does with each of them.
