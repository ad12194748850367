# providers

Request handling for an object-storage emulator with two front doors, Azure Blob Storage and
Google Cloud Storage (JSON and XML), over one shared namespace of buckets. The library is
written in Verus: what each handler answers is stated in its contract and proved.

## How a request is served

A handler never calls storage. It is a function of the request, a stamp (the moment and fresh
identifiers) and a tape of the answers that storage has given so far. It returns a step:

- `Perform(effect)`: ask storage, or the adapter's memory, this, and put the answer at the end
  of the tape,
- `Reply(response)`: answer with this,
- `Fail(message)`: give up.

The caller performs the effect and runs the handler again with the longer tape. So the contract
of a handler says for every sequence of answers what is asked next and what is replied.

## Layout

- `src/registry.rs`: the front doors behind one address, to which those for OCI Object Storage
  and for S3 are given; `src/faults.rs`: failures that a request asks for; `src/dispatch.rs`:
  what holds of every request.
- `src/azure/`: the Azure Blob front door. `basics` and `rules` hold what the operations share,
  `auth` signatures, `blocks` staged and committed blocks, `containers` and `blobs` the
  operations. `guards`, `contents` and `listings` state what holds across them.
- `src/gcs/`: the Google Cloud Storage front door. `basics` and `checks` hold what the
  operations share, `auth` signatures, `multipart` upload bodies, `objects` writes,
  `uploads`, `json_api` and `xml_api` the operations. `guards`, `contents` and `listings` state
  what holds across them, `runs` and `sessions` what holds of requests served to their end.
- `src/ownership.rs`: how the front doors keep apart in one namespace.
- `src/store.rs`: buckets, objects, effects, outcomes and steps.
- `src/http.rs`, `src/json.rs`, `src/xml.rs`, `src/clock.rs`, `src/codec.rs`: requests and
  responses, documents, moments, digests and encodings. The calls into other crates are here.
- `src/text.rs`, `src/number.rs`, `src/table.rs`, `src/order.rs`, `src/views.rs`: texts, decimal
  numbers, tables, ordered lists.
- `app/`: the server around the library: HTTP, the storage interface, records, turns.
- `tests/`: requests run against storage in memory, and single steps.
