# oxideav-pipeline

The logic of a media pipeline, written in Verus: what a job's graph turns into,
how packets and frames move through it, and what is reported of it. Every item
under `src/` is verified. What talks to codecs, containers, filters, files and
threads stands under `app/` and asks the library what to do next.

## How it is built

Most of the library is made of state machines. A machine is told what came of
the last call (`step`), and answers with the next call to make. Its contract is
a function on its view: the state, the shared counters and the command after the
step are exactly that function of the state, the counters and the reply before
it. Laws about whole runs are proof functions over those same functions.

| Part | Modules |
| --- | --- |
| Values | `media`, `ports`, `stats`, `text`, `node_text`, `uri` |
| Errors and where they came from | `error`, `failure` |
| Graph to tracks | `dag`, `sources`, `track`, `pixel`, `prepare`, `instantiate`, `preparation` |
| Choosing codecs | `selection` |
| One call at a time | `pump`, `convert`, `serial` |
| One worker per stage | `staged`, `source_stage`, `workers`, `decode_stage`, `frame_stage`, `encode_stage`, `topology`, `mux`, `output` |
| Jobs and their control | `executor`, `handle` |
| Single source to single sink | `pipeline`, `transcode` |
| Laws across modules | `parity`, `progress`, `barriers`, `reports`, `stopping` |
| Whole runs | `sums`, `scripted`, `whole_serial`, `whole_source`, `whole_staged`, `whole_sinks`, `whole_mux`, `whole_track`, `crew`, `crew_run`, `crew_order`, `whole_run`, `queue_flow`, `natural_end`, `coming_to_end` |

## What it promises

- The error that a caller sees is the first one that was raised, with the stage
  and the track it was raised at, whichever way the output was run.
- A packet that a decoder cannot take is skipped and counted, once, and the
  stream goes on, unless the decoder says that it gave up.
- A seek reaches every source, lands all of them on one instant, and is answered
  on every track by exactly one barrier of its generation.
- Bytes counted into the packet queues are counted out again; a reader waits
  only while something is in them.
- Over a whole run, counters never go back from one report to the next, only the
  last report is the end, and it agrees with the final statistics.
- An output counts the same on one thread and on many, and shows its sink equally
  many frames, whatever its tracks, its sources, and the order its workers take turns
  in, as long as decoders, frame stages and encoders do the same both times.
- There is always an order of turns in which an output on many threads comes to its
  end, whatever the ceiling on its queues; and once a stop is asked for, every turn
  brings a worker nearer to its end, unless a seek or one more encoded packet turns up.
- Once an output has come to its end by itself, nothing is left in its packet queues.

## Layout

- `src/`: the library.
- `tests/`: ordinary Rust tests; some run whole outputs over small stand-ins.
- `app/`: sources, sinks, codecs, filters and threads around the library.
