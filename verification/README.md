# companion

The part of a Music Assistant companion that decides: which audio formats are
offered for a device and in what order, how devices are listed and chosen, when a
change of the system volume is reported, what is remembered of what is playing,
what Discord is told about it, and which servers are found on the network.

* `src/` holds the library. Every function states what it returns, and Verus
  proves it. The laws that span several functions stand as public proof functions
  beside what they speak of.
* `tests/` runs the library on concrete values.
* `app/` connects the library to the outside: audio hosts, Discord, multicast DNS,
  the volume controls of macOS and Windows, and JSON. What has to be computed in
  floating point is computed there.

The library trusts one thing that it does not prove: that
`mdns_sd::TxtProperties::get_property_val_str` looks up a key of a TXT record.
