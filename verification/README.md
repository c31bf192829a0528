# Exuberant Optimizer

A Windows utility that lists processes, raises their priority or keeps them on
physical cores, flushes the memory standby list and sets the resolution of the
system timer.

`src/` is the verified library: what the utility decides, computes and says,
with contracts that Verus proves. Floating point is left out of it: the
processor share of a process, and timer resolutions in milliseconds with their
bounds.

| module      | what it holds                                                       |
|-------------|---------------------------------------------------------------------|
| `optimizer` | the state of the utility, its update cycle, sorting by header, status |
| `process`   | rows of the process list and which of them are shown                |
| `listing`   | searching and stable sorting of the list                            |
| `sort_key`  | the order of each column                                            |
| `control`   | what is done to one process                                         |
| `affinity`  | the mask of physical cores                                          |
| `memory`    | page lists, free memory and when to purge                           |
| `timer`     | answers of the timer calls                                          |
| `ntstatus`  | status codes and their wording                                      |
| `clock`     | the time of day as text                                             |
| `text`      | numbers as text, and string operations of std                       |

`app/` is the window and the calls into Windows. It reads what the system
reports, hands it to the library and carries out what the library decides. It
also holds what is computed in floating point.
