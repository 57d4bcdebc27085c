# mujmap

Two-way synchronisation of a notmuch mail database with a JMAP server.

The library in `src/` decides everything that a synchronisation decides: what is
new, what changed on which side, what is downloaded, tagged, removed and pushed,
in which order, and what happens when something fails. It does no input or output.
A run (`sync::machine`) says what to do next, is told what came of it, and goes on.
How it goes on is stated in `sync::run` and proved of the code; what holds of every
run from its beginning to its end is stated and proved in `sync::laws` and
`sync::merge_laws`, among other things:

- a dry run changes nothing, and a run that only pushes leaves the mail alone;
- the database is changed only inside of an atomic operation, and mail files are
  moved and removed only after it;
- if the atomic operation fails, every link that was made is removed again;
- when the merge begins, the file of every new email is in the cache;
- local changes win over those of the server;
- a run that ends well has done everything it was to do, has recorded where the
  next one goes on, and the next one goes on there;
- a run that fails has recorded nothing;
- every run ends.

The library takes two things about the outside for granted: that there is a type
`std::path::PathBuf`, and that cloning one gives the same path (`path`).

`app/` performs what a run asks for: files, locks, threads, messages. The notmuch
database, the cache and the JMAP session stand behind the traits of `app/outside.rs`.
