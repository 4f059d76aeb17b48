# packageurl

Verified building blocks of a Package URL (purl) library, written in Verus.

- `src/utils.rs`: `cut` and `rcut` split a string around the first or last
  occurrence of a separator byte; `to_lowercase` lowercases, borrowing the input
  when nothing in it is uppercase.
- `src/types.rs`: the rules of each known package type (namespace required or
  forbidden, lowercased components, required qualifiers), `validate`, which
  reports the first broken rule, and `canonicalize`, which lowercases the names
  of mlflow packages on Databricks servers.
- `src/purl.rs`, `src/error.rs`: the purl components and the errors the rules
  report.
- `src/share.rs`: the shareable link and page location of a purl.
- `src/bytes.rs`: byte searches over UTF-8 strings that the above rest on.
