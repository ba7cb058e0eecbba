# pico_lockstep

Verified decision logic of a dual-core lockstep board (Raspberry Pi Pico 2, and
the random-number path of its emulated two-hart sibling).

`src/` is the library. It touches no hardware: functions take what was read and
return what to do, and the larger procedures are state machines that name one
action at a time.

| module   | contents |
|----------|----------|
| `rom`    | boot-ROM version, lookup routine and function codes |
| `flash`  | resolved ROM routines, RAM copy of boot2, erase and program sequences |
| `nor`    | what those sequences do to an ideal NOR chip |
| `core1`  | core 1's entry, its loop, and the RAM-resident wait loop |
| `checks` | core 0's park test and flash write test |
| `system` | both cores interleaved: core 1 is parked while flash is written |
| `rng`    | lockstep random-number interposer |
| `board`, `boot`, `clocks` | drivers and pins, start-up order, clock bring-up |
| `shared` | vocabulary of the state machines |

`tests/` runs the library on the host. `app/` is the firmware around it: the
parts that need the kernel are compiled for the board's targets only.
