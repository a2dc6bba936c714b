# leptos_chartistry

Building blocks of Chartistry charts, verified with Verus.

`src/` is the verified library:

- `colours` — RGB colours, their `#RRGGBB` names and colour schemes whose
  swatches repeat by series index.
- `timestamps` — calendar and clock periods, truncating an instant to its
  period and listing the period boundaries in a range.
- `timestamp_gen` — the timestamp tick generator: periods from the largest
  down add their boundaries to the chosen ticks, sampled until they fit the
  span, and a formatter labels each tick at the largest period it is aligned
  to.
- `timestamp_laws` — what holds of every generation: ticks increase, lie in
  the requested range, fit the span and are candidates of one of the
  periods; merging and sampling keep exactly what they should. That every
  tick starts a period of one of the periods (truncating it changes nothing,
  months and years included) is stated by `TimestampGen::generate` itself.
- `span` — how much room tick labels take along an axis.
- `aligned_floats` — labels of numeric ticks at a decimal scale.
- `tick_labels` — right-aligning labels on a vertical axis.
- `options`, `builder_options` — the named choices that configure a chart,
  and the editable option lists of the chart builder.
- `utc`, `text` — the calls into chrono and std that the rest builds on.

Instants are nanoseconds since the Unix epoch in an `i64`; calendar
arithmetic and formatting are chrono's.

`app/` holds what works in floating point: bounds, padding, fonts, aspect
ratios, numeric tick generation and lookup of data by position, and the
conversion between chrono's `DateTime<Utc>` and the library's instants.
