# engine

The verified core of a civilization simulation on a hex map.

- `src/` is the library, written and proved with Verus: hex coordinates and
  distances, the land of the map and the capitals of the five nations, fallout
  markers and their decay, the bookkeeping of wars (which nations fight, which
  alliances join, casualty bounds, strike regions, front lines, combat timers),
  eras and technologies, the space race, age cohorts, the bounded event log and
  histories, the calendar, labels and colours, and number formatting.
- `tests/` runs the library on concrete values.
- `app/` is the simulation around it: the ECS world and its systems, which weigh
  float measures, serialisable copies of the library's types, terminal logging and
  the browser entry point.
