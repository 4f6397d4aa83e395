# distribution_robot

The decision logic of a robot that explores a grid world, collects the
contents it is asked for (trees, fish, rocks, ...) and distributes them over
the markets it found, depositing the coins it earns at the nearest bank.

`src/` is the verified library:

- `geometry` — cells and directions;
- `storage` — the targets to deliver and the priority queue that holds them;
- `survey` — reading the robot's map: known cells, new targets, markets, banks;
- `exploration` — the exploration round as a state machine: the program
  reports what it saw and the library says where to look, which cells to try
  and where to walk;
- `delivery` — weights for the partitioning, assignment of markets, the next
  delivery and the nearest bank;
- `robot` — the robot's state, its factory, the phase of each tick, the
  random fallback move and recharging.

`app/lib.rs` is the module of the robot project that performs the views,
moves and transfers in the world and calls the project's path finder and
partitioning solver.
