# bota

A bot that plays by rules rather than by weights, and the pieces of a client
that show what it is doing, as a Verus library.

`src/` is the verified library:

- `proto` — what crosses the wire: fixed-point spots, handles, orders, and
  what a snapshot shows of each unit and seat.
- `aim` — facings, headings and spots ahead, an integer square root, and
  what armor and resistance leave of a blow.
- `lane` — roles, lanes, and a lane laid out from the buildings a snapshot
  shows, in exact arithmetic on raw coordinates wherever they stand.
- `field` — one tick read into the lists the policy weighs, nearest first.
- `shop`, `catalog` — what the bot buys next, how many of an item are
  owned counting what went into builds, the courier's errands, and what the
  shop asks a seat for an item.
- `builds` — whether a shop's builds bottom out, decided exactly.
- `policy` — the rungs of the policy ladder answered in whole numbers:
  tidying the bag, pressing a wand, shopping, waiting out a swing, and
  shaking off creeps, and the order the ladder is walked in.
- `doing` — the numbered deeds a chooser picks from: which are allowed this
  tick, the order each turns into, and that every allowed deed turns into
  one.
- `plan` — a training plan's stages settled against its defaults, and the
  first thing wrong with a plan.
- `memory` — which past ticks a chooser is shown, by doubling ages.
- `replay` — the framing of a replay file, a few bytes at a time, the
  first thing wrong with one, and what one poll may spend reading it.
- `mind` — the seam a chooser answers across, and the mind that takes the
  first deed it may.
- `study` — where a skill point goes.
- `fiend`, `sylla` — the two heroes' spellwork.
- `want`, `ask` — the orders a seat gives and when one is worth repeating.
- `slots` — what pressing a panel slot means and how the slot is drawn.
- `beat` — the attack cycle, and the blows and health each body showed.
- `breed`, `swiss`, `dice`, `forest`, `bot`, `numbers` — the rest.

`app/` holds what is measured in floating point (lengths along a lane,
shares of health, the attack cycle), the policy ladder built on it, the
command line, the wire forms of orders, reading a plan off YAML, and
the calls on a replay file's reader, within the budget the library keeps.
