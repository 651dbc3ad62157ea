# minos

An authorization library built around the Minos policy language, verified with Verus.

Policies are written in Minos text:

```text
syntax = 0.16;

resource File {
    env DEFAULT {
        policy {
            allow = ["read"];
            rule { actor.groups *= ["File"]; }
            rule { actor.id = resource.owner; }
        }
    }
}
```

`MinosParser::parse_str` reads such a text into a `Storage` of resources, environments,
policies and rules; `Engine` answers requests against it (`authorize`,
`actor_has_permission(s)`, `find_permission(s)`).

## Layout

* `src/` — the verified library.
  * `parser/lexer.rs` splits a text into lexemes; `parser/v0_16.rs` and `parser/v0_16_m.rs`
    hold the grammars of syntax `0.16` and `0.16M` as spec functions and the readers that
    follow them; `parser.rs` finds the declared version and builds the storage.
  * `language/` — rules, policies, environments, resources and the storage, each read from
    its token.
  * `engine/` — the engine, the actors and resources it is asked about, container loading
    and figures about the policies of a storage.
  * `authorization.rs`, `authorization_builder.rs`, `jwt.rs` — time-limited authorizations
    granted from ownership and group checks, and the claims that carry them in a token.
  * `model/` — attribute paths, assertions and policy files of the rule model.
  * `minos/lang.rs` — the token kinds of syntax `0.14`.
  * `pattern.rs` — searches made with the `regex` crate.
* `tests/` — tests run against the compiled library.
* `app/` — reading files and directories from disk, and signing claims into tokens with
  `jsonwebtoken`.

## Syntax `0.16M`

Syntax `0.16M` adds macros to syntax `0.16`:

```text
syntax = 0.16M;
macro admins { actor.roles *= ["admin"]; }
macro crud = ["create", "read", "update", "delete"];

resource Doc {
    policy {
        allow = [crud, "share"];
        rule { admins; }
    }
}
```

A macro is defined before it is called, and a later definition hides an earlier one. A
`NAME;` in a rule stands for the requirements of a macro of requirements; a `NAME` in an
array stands for the strings of a macro of strings. Calling a macro that is not defined
fails with `Error::MacroNotExist`.
