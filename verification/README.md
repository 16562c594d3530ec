# sophia

A binding to the sophia embedded key-value database, with its logic verified
by Verus.

- `src/` is the verified library. It never touches C memory: each operation
  (`DbObject::key`, `Env::get_db_request`, `SetGetOps::set`, ...) returns the
  exact C call to make as a plain value (`call::Call`), and the answers that
  matter (a null or non-null object, a looked-up value) go back through
  verified functions (`Env::get_db`, `SetGetOps::get`, `Cursor::next`, ...).
  `workload` holds the benchmark's writer and reader as step functions.
- `app/` is the foreign-function shell: the `extern "C"` declarations, the
  function that makes a computed call, the handle types with `Drop`, the
  `obj!` macro, and the benchmark program.
- `tests/` exercise the library on concrete handles and values.
