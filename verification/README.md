# weave_agent

A verified library for two jobs of a host agent.

**Weave updates.** An Astra configuration lists the network attachments that a host should have.
An update compares it with what a DOCA Weave server holds. It creates the missing virtual
networks and attachments, moves attachments to other networks, deletes what is stale, and reports
on every attachment. The library decides; whoever drives it makes the calls:

```
update_weave_ew_vpc_astra_config(config) -> Call { update, request } | Done(status) | Failed(error)
update.step(reply)                       -> the same
```

**mTLS profiles.** The PEM files of a profile are held to rules before a client is built from
them: every certificate is valid now, every CA certificate is a trust anchor, and the client key
belongs to the client certificate. Each client is made of the material that is handed in for it;
nothing is kept from earlier ones.

## Layout

- `src/` is the library. Every function is verified with Verus, down to the calls into outside
  crates, which stand behind functions marked `external_body` in `calendar.rs`, `paths.rs`,
  `pki.rs`, `http.rs` and `grpc.rs`.
- `tests/` runs the library on concrete values, with the outside crates linked.
- `app/` drives the library: calls to the server, files, the clock and the log.

## What is proved about updates

Whatever the server replies: the attachments of the status are those of the configuration, with a
report on each; nothing is created that the configuration does not call for; a network that is
listed or was created is not created again. A network that the configuration wants is not deleted.
An attachment that it wants is not deleted either, provided that no two of its attachments share
an interface. A finished update has deleted everything else that can be named, except networks
with the VNI 0, which are never deleted. An attachment with a network is reported ready only if
the server said so; one with the VNI 0 has no network and is reported ready without a word from
the server, unless one that is in its way could not be deleted, or one is listed for it that is
not ready.

On a server that grants every call, an update whose VNIs can be reported never fails; where the
server goes on to do so, it finishes. Suppose the objects on the server have ids of their own and are ready, and no two
attachments of the configuration share an interface. Then an update that reports every attachment
ready leaves on the server what the configuration wants and nothing else that it would delete, and
a second update makes three list calls, changes nothing and reports the same. Where every
attachment with a network also says how it is to be bound, the first update does report every
attachment ready.

## What is proved about profiles

Material is accepted exactly where every certificate is valid, those of the CA bundle are trust
anchors, and certificate and key make up an identity. Expired material stays refused. An error
names the file that is at fault, unless it is about certificate and key together. A client that is
built again uses the material as it is then: other material that can be used replaces the old one,
and a key that does not belong to the certificate is refused, though the material was accepted
before.
