# typegin_core

A text-adventure engine whose game logic is verified with Verus. The core is
a pure game state that turns typed commands into structured events; any
front-end renders those events as it likes.

Layout:

- `src/` — the verified library: input parsing (`input`), the world model
  (`world`), authored data and its validation (`data`), interactions and
  triggers, the default rules (`rules`), the engine (`engine`), save and
  restore (`world::save`, `world::restore`), and the view seam (`view`).
  Laws relating several operations are public proof functions, mostly in
  `world::laws`, `world::restore`, `world::save`, `trigger` and `engine`.
- `tests/` — tests run against the compiled library.
- `app/` — the terminal front-end: reads the world's YAML files, runs the
  command loop, and turns saves into YAML text.

Rules and views: every hook of `rules::Rules` and `view::View` is written
out by the implementation. A hook whose contract speaks of the
implementation's own relation (`goes`, `takes`, `renders`, ...) cannot have
a shared default body that Verus accepts, so the stock behaviour is offered
as functions instead: `rules::default_look`, `rules::default_go` and the
others, which `rules::BasicRules` calls for every hook, and which a game's
rules call for the hooks they leave alone. A view returns `Vec::new()` from
a hook that has nothing to say.

The engine is generic over its rules (`GameEngine<R>`, with `BasicRules` by
default), so what a command does is stated over the very rules the engine
was opened with.
