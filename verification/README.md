# Lucid Tutor

An adaptive tutor engine: it watches learners attempt topics, judges each
attempt (breakthrough, progress, plateau, stuck), answers in a teaching style,
finds learners on the same wavelength and suggests collaboration.

Layout:

- `src/` is the verified library (Verus):
  - `kinds.rs`: outcomes, teaching kinds, tutor styles, velocity trends and the
    comparisons of a result that decide its outcome;
  - `mastery.rs`: how an attempt is judged, and the counters kept per topic;
  - `teaching.rs`: the style the tutor settles on and the intervention it makes;
  - `registry.rs`: values keyed by name, each name once, in registration order;
  - `group.rs`: a learning group's sessions and shared topics, pairs of members
    to compare, and the first friend who got stuck;
  - `tutor.rs`: the tutor's clock, its learners and its teaching history.
- `app/` is ordinary Rust around it: the learner's vibration and topic mastery,
  whose understanding levels, velocities and resonances are floating-point,
  the tutor and group instantiated with them, and their serde forms.
- `tests/` runs the library on concrete values.
