# rust_daq

Data acquisition for a liquid-argon detector that is read out by CAEN
digitizer boards.

* `src/` is the library. It decides what the boards' parameters are set to, how
  the boards are read out, how their events are suppressed, paired and stored,
  how runs are numbered and how they follow one another. It is verified with
  Verus.
* `app/` is the program around it. It talks to the boards, the disk, the
  terminal and the clock, and runs the threads. While it sets up the boards, the
  first failure ends the program.
* `tests/` runs the library on concrete values.

Data taking (`acquisition`), event processing (`processing`) and the course of
an acquisition (`status`) are state machines. Each has a function that takes
what has just happened and returns what is to be done next, and a specification
of the step as a function on plain values. The proof functions beside them state
what holds of whole sequences of steps.
