Kustd
=====

Kustd is a simple Kubernetes operator which synchronizes secrets and config maps between
namespaces. What it decides is verified with Verus.

Available annotations
---------------------

`kustd.zdatainc.com/sync` - Specify namespace labels to sync resource to  
`kustd.zdatainc.com/remove-annotations` - Comma separated list of annotations to remove from synced resource  
`kustd.zdatainc.com/remove-labels` - Comma separated list of labels to remove from synced resource  

Copies carry `kustd.zdatainc.com/origin.name` and `kustd.zdatainc.com/origin.namespace`. They are
found by these two: copies outside the selected namespaces are deleted, and all of them when their
source is deleted.

Layout
------

`src/` is the verified library.

- `text`: comma separated lists
- `string_map`: maps keyed by strings
- `objects`, `syncable`: metadata, namespaces, secrets and config maps
- `manager`: which resources are synced, what copies look like, which copies are stale
- `run`: the course of a synchronization, request by request
- `laws`: what holds of every copy and of destinations
- `history`: what holds of every run, whatever the Kubernetes API answers
- `cluster`: what a run makes of a cluster that does as it is asked
- `error`: what can go wrong
- `outside`: the calls into `kube` and `chrono` whose contracts are believed, not proved

`app/` is the operator around it: it watches the cluster, makes the requests of a run and hands the
answers back. `tests/` runs the library, against a cluster held in memory where it needs one.
