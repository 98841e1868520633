# Protobuf interactions for Pact

Configures the interactions of Pact contract tests with Protobuf messages and gRPC services. A
configuration names a message or a method of a service, and gives a matching rule definition for each
field:

```
pact:message-type: InitPluginRequest
implementation: notEmpty('plugin-driver-rust')
version: matching(semver, '0.0.0')
```

Together with the descriptors of the Protobuf file this makes an interaction: the message in its
binary form, the matching rules and generators of its fields by their paths, and a text that shows the
message.

- `src/` is the library, verified with Verus. `process::try_process_proto` is its entry.
- `app/` reads the Protobuf file and converts between the types of the plugin driver and those of the
  library.
- `tests/` runs the library.

Settings whose names start with `pact:` are those of the plugin; all others are fields. A null leaves
a scalar field out. Floating-point numbers are held by their bits: where the library meets a text
whose bits it has not been given, it asks for them with `Error::NumberNotRead`. A rule for the keys or
the values of a collection that refers to an attribute cannot say its values, and then there is
neither an interaction nor an error.
