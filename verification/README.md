# dbt_fusion

A verified library for the parts of a dbt engine that decide: what is written to a
warehouse, what is read of it, and what is refused. The code is Rust, its contracts and
their proofs are Verus.

## What it holds

- `athena`: the Athena adapter. S3 locations, partition keys and buckets, Glue tables and
  their documentation, table versions, swaps, clean-ups, Lake Formation tags and grants,
  Spark sessions, connection settings, catalog metadata, and the methods that macros call.
  `athena::aws` holds the operations against the services themselves, in batches.
  `athena::facts` keeps what does not change while an engine lives.
- `wap`: audited publication of Snowflake tables. The plan of an invocation, the working
  table, the audits, the order of tasks, and the publication with its cleanup.
- `retry`: what of an earlier run is run again.
- `schemas`: keys of warehouses in configurations, and the schemas that are shown.
- `databricks`: refresh schedules of materialized views.
- `snowflake`, `relation`: statements and names of relations.
- `vars`: environment variables and YAML values as templates see them.
- `deps`: checksums of package declarations.
- `profile`: the Athena profile that the setup fills in.
- `state`: materializations and the order of events.
- `file_security`: files and directories that only their owner can use.
- `json`, `value`, `ordered`, `text`, `number`: the values that the rest is stated over.

## How operations are written

Nothing in the library does I/O. An operation that talks to a driver or a service is a
function of the answers so far: it hands back the next question, or what came of it. The
contract says which question follows which answers, whatever they are. Longer courses, such
as a Spark calculation or a publication, are state machines: a state and an event give the
next state and what to do.

## What is trusted

Functions marked `external_body` call another crate or the standard library; the comment
above each says what is claimed of the call. Everything else is proved.

## Around the library

`app/` carries values in and out: the template engine, the driver, files, the environment,
threads and the clock. `tests/` runs the library from outside.
