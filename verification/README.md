# scan2bim converter

A desktop converter from E57 and LAS point clouds to Potree octrees. `src/` is
its core, written in Verus: what is done next in a conversion, in its stages and
in the stand-in for a missing converter, and what is told of it, are functions
with contracts, and the properties that span a whole run are proved beside them.
`app/` is the application around it: windows, processes, files, and the
floating-point figures of the progress display, on which two decisions rest: the
stand-in is complete when its percentage reaches 100, and the stage that it
shows is the quarter that the percentage is in. `tests/` runs the core.

| Module | What it decides |
| --- | --- |
| `job` | one conversion at a time; cancel flags and job handles |
| `pipeline` | the course of a conversion, from locating the tools to the report |
| `stage`, `poll`, `potree` | how the tools are run and what the way they end means |
| `stub` | the stand-in for a missing converter |
| `conversion` | what holds of a whole conversion and of all that is told of it |
| `percent`, `label` | what a line of converter output announces |
| `locate`, `environment` | where the tools are and what they are started with |
| `files`, `disk`, `paths` | input files, output sizes, free space, file names |
| `report` | what the user interface is told |
| `text` | the text operations that the others are written with |

What the core takes on trust of code outside it is marked in `text`
(`String::push`), `paths` (file names, path prefixes and joined paths, which
follow the rules of one of two platforms) and `job` (random UUIDs).
