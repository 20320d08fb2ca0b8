# liquers_core

Commands and assets for the Liquers query system, written in Verus with their contracts
proved.

- `src/` is the verified library: JSON values and the command metadata read from and written
  to them, the merge of declaration documents, command declarations and the conventions they
  follow, the arguments a command runs with, the command registries, and the life of an asset
  (its statuses, the decisions its service loop, its job queue and its expiration take, what
  it holds of its value through loading, evaluation and reading, and the maps that register
  assets by key and by query).
- `app/` is the host around it: conversion to and from `serde_json`, reading files, the
  command line of the query validator, and the asynchronous loops that drive an asset's
  service messages and the expiration of assets.
- `tests/` runs the library on concrete values.
