# lynara

The core of the Lynara Minecraft launcher, verified with Verus.

`src/` is the library. Its functions have contracts that Verus proves, except
the few marked `#[verifier::external_body]`, each of which calls into
`std`, `sha1`, `hex`, `dirs` or `zip` and says in its doc comment what is
claimed of it:

- `minecraft::manifest`: Mojang's version manifests, the OS rules that decide
  which libraries apply, Maven paths, the estimated download size.
- `minecraft::paths`: the launcher's folder layout under its root.
- `minecraft::installer`: the installation as a sequence of steps (client jar,
  libraries, asset index, asset objects, Fabric libraries), each step a
  function from what was learned to what must be done next.
- `minecraft::launcher`, `minecraft::jar`: the classpath, the Java command
  line, which native libraries are extracted from which jars, and where.
- `minecraft::java`: reading `java -version`, the search order for an
  installed Java (as steps), the Adoptium query.
- `minecraft::fabric`: Fabric loader choice, Maven paths and URLs.
- `minecraft::downloader`, `digest`: SHA-1 checks of downloads, including a
  digest fed chunk by chunk (the digest comes from the `sha1` crate, its
  hexadecimal form from `hex`).
- `auth`: the decisions of the Microsoft device-code sign-in.
- `assets`: Lynara's bundled Modrinth content and the steps that install one
  item of it.
- `text`, `keyed`: the string operations and the small keyed map the rest is
  written with.

`app/` is the unverified shell: HTTP requests, files, processes, the OS
keyring, JSON, and the loops that run the library's step functions.

`tests/` holds the tests, run against the compiled library.
