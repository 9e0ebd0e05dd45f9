# sysctl

A library for reading and setting FreeBSD sysctls, verified with Verus.

- `src/` is the verified library. `decode` turns the kernel's replies (the
  format word and string, the value bytes, temperatures, descriptions, OIDs)
  into typed values; `query` is the protocol as a state machine: each query
  names the system call it needs next, and `Query::step` takes the reply and
  decides what follows. `codec` holds the trusted calls into `byteorder` and
  `std::str::from_utf8`; `laws` states what holds across the functions.
- `app/` makes the `sysctl(3)` calls that a query asks for and offers the
  functions `value`, `value_oid`, `value_as`, `value_oid_as`, `set_value` and
  `description`, and Kelvin, Celsius and Fahrenheit of a temperature in `f32`.
- `tests/` runs the library on replies written by hand.
