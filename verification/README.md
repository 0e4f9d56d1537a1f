# downtown

A realtime latency profiler for Python programs. Kernel-side USDT probes on
the interpreter record how long each line of a chosen source file takes, in
log-linear histograms; a terminal interface shows the source with each
line's latency percentiles next to it.

```
downtown src/mycode.py                        # every process of `python`
downtown src/mycode.py --pid 123              # /proc/123/exe
downtown src/mycode.py --python-bin ./python  # every process of ./python
```

Keys: up and down move the selection, page up and page down jump to the
previous or next function definition, enter toggles whether the selected line
is watched, `q` quits. The interpreter must be built with `--with-dtrace`.

## Layout

- `src/` is the verified library (Verus). It holds what the program decides
  and computes: the histograms and their percentile summaries
  (`profiler::hist`), the path hash and the planning of probe and filter
  changes, the summary of the kernel-side latency entries
  (`profiler`), command-line settings (`cli`), source line numbering and
  function jumps (`tui::code`), finding the function definitions of a
  Python source (`tui::defs`), scrolling (`tui::scroll`), highlighting
  (`tui::highlight`), key handling and the tables on screen (`tui`,
  `tui::widgets`, `tui::layout`). Calls into `comfy_table`, `syntect`,
  `rustpython`, `ratatui`'s layout solver and `std::path` stand behind small trusted
  wrappers whose contracts are stated in their doc comments.
- `app/` is the program around it: command-line parsing, the terminal, the
  kernel-side program (`libbpf-rs`), reading the source file, and the
  actors that run them. It checks the library's preconditions before each
  call and does the I/O the library asks for.
- `tests/` exercises the library on concrete values.
