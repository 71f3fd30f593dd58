# orchestrator

The decision logic of a web-security scan orchestrator, written in Verus
and proved against its contracts: the passive analysers that read
response headers and page bodies, the pipeline composer and executor,
the plugin registry, playbook execution, progress tracking, race and
rate-limit analysis, and response deduplication.

- `src/` is the verified library. Text is modelled as `Seq<char>`; each
  analyser states the exact sequence of issues it reports as a spec
  function of its inputs.
- `app/` holds what stays outside the proofs: HTTP fetching with
  `reqwest`, numeric severities, progress rendering, and the JSON forms of
  playbooks, plugin manifests and deduplication settings.
- `tests/` exercises the library from outside.
