# echo_li

The verified core of a visual-inertial odometry system with dense depth: the decisions, layouts
and data structures around the floating-point numerics, written in Rust and proved with Verus.

## What is proved

Verus does not reason about floating-point arithmetic, so a number enters the library by its bits
(`ieee::Real64`, `ieee::Real32`). The library compares such numbers exactly as IEEE 754 orders
them, flips their signs, rounds them to pixel indices, sorts them and moves them about; it never
adds or multiplies them. The program under `app/` does the arithmetic and asks the library what to
do with the results.

The contracts of the library state what its functions return, or how they change what they are
given, in terms of the numbers they are handed; the preconditions keep to what the data structures
need. Properties that hold across functions stand beside them as proof functions whose names begin
with `law_`.

## What is trusted

The bytes of a calibration file are parsed by `serde_yaml`. `dataserver::yaml` holds the two calls
into it; their contracts name the result and are believed, and everything read from the parsed
values is proved. Outside that module nothing rests on code that was not verified.

## Modules of `src/`

| module | content |
| --- | --- |
| `ieee` | numbers by their bits, and their order |
| `layout`, `seqs`, `ordering`, `text` | indices of grids, sequences, sorting, names |
| `core_types` | cameras, feature tracks, depth maps |
| `config` | the configuration, and the settings that follow from it |
| `dataserver` | the calibration of the camera and the records of a recorded sequence |
| `alignment` | which poses of two trajectories are compared |
| `coordinate_suite` | where the blocks of the estimator's matrices go, in three charts |
| `depth::occupancy` | the local occupancy grid and the walk of a ray through it |
| `depth::flowdep`, `depth::flowdep_kernels`, `depth::keyframe_pool` | inverse depth from optical flow |
| `depth::patch_depth` | dense depth from patches: masks, tables, seeds, tiles, fusion, keyframes |
| `cli` | the choices of the program: setup, order of events, priors, hashes, pictures |

`tests/` runs the library with ordinary numbers. `app/` is the program around it: files, the
configuration format, the numerics, and the traits through which a feature tracker and a state
estimator are linked.
