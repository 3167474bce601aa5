# No Sleep Till Done

Keeps a laptop awake while long-running work finishes, also with its lid closed.
Three programs share one library:

- the controller holds the sleep override while the application's lease is fresh,
  and puts the machine to sleep once the lid has been closed for long enough and no
  process is waited for;
- the watchdog lets the machine sleep as usual where the controller stays away;
- the menu bar application shows the state of things and writes the lease.

## Layout

`src/` is the library. What it decides and computes is stated in contracts and
proved by Verus: the lease, the configuration file, the controller and the watchdog
as state machines, the process tree and its menu, the states and texts of the menu
bar, its icon, and the scripts and property lists that set the services up. Public
proof functions state what holds of the functions together.

`app/` is ordinary Rust around it: files, commands, signals, the system's registry
and the menu bar itself. The state machines say what is to be done, `app/` does it
and tells them what came of it. The library counts time on a clock that `app/` reads.

`tests/` holds the tests of the library.
