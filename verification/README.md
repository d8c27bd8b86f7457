# apt-transport-kyc

An APT transport for license-gated package archives: the method binary behind
`kyc://` sources, and the sign-in that it runs when no license is at hand.

`src/` is the library, verified with [Verus](https://github.com/verus-lang/verus).
It decides; it does no I/O.

| module | what it holds |
| --- | --- |
| `protocol` | apt's method protocol: reading requests, writing responses |
| `device_flow` | the device authorization grant (RFC 8628) as a state machine |
| `license_store` | which license file is read, and the steps of a write |
| `method` | how one request is answered, from the URI to `201 URI Done` |
| `codec` | base64, hexadecimal, digests |
| `text`, `headers` | characters, numbers, header fields |

The modules named `*_laws` state what holds of all inputs and of whole runs: a
response reads back, a license is written whole or not at all, the user is asked
to sign in at most once per process, apt is told of a file only when it is there.

`app/` is the binary. It reads and writes, fetches, sleeps, and hands what came of
it to the library.
