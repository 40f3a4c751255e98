# qdrant_datafusion

Turns points of a Qdrant query result into an Arrow record batch, driven by a schema: one column for
each field, in the order of the fields, and one row for each point. The library is verified with
Verus.

- `src/arrow/deserialize.rs`: vectors in both wire formats, their lookup by name, and the record
  batch builder
- `src/arrow/extractor.rs`: what the column of a field takes from a point
- `src/arrow/columns.rs`, `src/arrow/batch.rs`, `src/arrow/schema.rs`: the calls into Arrow, with
  the contracts that the proofs rest on
- `src/payload.rs`: payloads as JSON
- `src/qdrant.rs`: points as plain values
- `src/laws.rs`: what holds of vectors, columns and batches as a whole
- `app/`: the same interface over the types of the Qdrant client and of DataFusion
- `tests/`: tests with the real Arrow and JSON crates
