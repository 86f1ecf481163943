# devenv_installer

The verified core of a Windows desktop installer that sets up a Java/Node
development environment (Node.js, JDK, Maven, MySQL, Tomcat, and downloads of
IntelliJ IDEA, Navicat and Redis) from Chinese mirrors.

- `src/` is the library, verified with Verus:
  - `version_catalog/`: the version drop-downs, read from live sources
    (Node release indexes, Adoptium, Maven Central, MySQL mirrors, the Apache
    archive): filtering, ordering newest first, merging the versions the
    installer relies on, cutting to a display limit, marking the default; with
    the laws every catalog keeps (`laws.rs`, `catalog_laws.rs`).
  - `system/`: `PATH` as text (entries compared without trailing backslashes
    and case) and the decisions of environment changes; `path_laws.rs` proves
    that an appended entry is present and a removed one is gone.
  - `install/`: clearing older installs, MySQL specifics, what each component
    installer computes, and the install workflow (tasks, results, rollback).
- `app/` is the program around it: Tauri commands, HTTP, the registry, the
  file system and child processes. It carries out what the library decides.
- `tests/` exercise the library on concrete values.
