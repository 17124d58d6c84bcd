# agile_kanban

The verified core of an agile kanban board that works with coding agents and
code hosts. The functions under `src/` are checked by Verus against their
contracts, except the trusted items below; `app/` holds the parts that talk
to the outside world.

Trusted, not proved: each of these makes one call into `chrono`, `git2`,
`url`, `percent-encoding`, `uuid`, `sha2` or std, and Verus takes its
contract as given (each says so in its doc comment).

- `clock`: `parse_rfc3339_parts`, `utc_now_parts`, `format_rfc3339`,
  `format_ymd`;
- `git_refs`: `branch_name_is_valid`;
- `gitlab`: `parse_url`, `percent_encode_component`, `to_uppercase_text`;
- `grooming`: `duration_from_secs`, the specification of `Duration::clone`,
  and the declaration of `serde_json::Error`;
- `ids`: `uuid_to_string`, `uuid_parse`;
- `text`: `char_is_whitespace`, `string_push`;
- `webhooks`: `sha256_digest`, `lossy_text`.

Modules:

- `model`, `agile`, `board`: tasks, sprints, the agile rules on a task's
  sprint, epic, parent and story points, the backlog view and sprint
  planning checks.
- `analytics`, `cycle_time`, `devex`: day buckets of a range, cumulative flow
  and burndown, cycle times and their histogram, activity series and file
  hotspots.
- `grooming`: the prompt for backlog grooming and the cleanup and strict
  validation of the draft a model returns.
- `merge`, `release_notes`: merges of a workspace and the release notes of a
  sprint.
- `webhooks`, `gitlab`, `streams`, `git_refs`: webhook admission and
  effects, the GitLab service's URLs and comment handling, which live
  changes each subscriber receives, and branch-name checks.
- `text`, `ordering`, `clock`, `ids`: text, ordering, time and id helpers
  stated over `Seq<char>` and integers.

Instants are nanoseconds since the Unix epoch (UTC), ids the 128-bit values of
UUIDs.
