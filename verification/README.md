# sluice

Simple flow control for nginx's `ngx_mail_auth_http_module`: nginx's mail proxy asks, once per
session, which upstream server the session should go to, and sluice answers from a small table that
maps domains to servers.

- A client that logs in (SMTP `AUTH`, IMAP, POP3) is routed by the domain of its user name, which has
  to look like an e-mail address. The envelope is not looked at.
- Mail without a login is routed by the domain of the recipient (`RCPT TO`) or, where that is not in
  the table, by the domain of the sender (`MAIL FROM`).

Neither credentials nor mail are checked: that is the upstream server's job.

## Layout

- `src/` is the library, verified with Verus. It decides on a request and words the answer.
  `src/outside.rs` holds what it relies on without proof; `src/laws.rs` states what holds of the
  library as a whole.
- `tests/` runs the library on concrete sessions.
- `app/` is the service around it: the configuration file, the listening sockets and the HTTP
  endpoints.

## Configuration

```toml
# addresses the HTTP server listens on: `host:port` or `unix://path/to.sock`
bind = ["127.0.0.1:8080"]
log_filter = "sluice=info,abpl=info,warn"

[proxy_map]
# one server for every protocol
"example.com" = "10.0.0.5:25"

# or one for each protocol
[proxy_map."example.net"]
smtp = "10.0.0.7:25"
smtp_authenticated = "10.0.0.7:587"
imap = "10.0.0.7:143"
pop3 = "10.0.0.7:110"
```

Domains in `proxy_map` are written in lower case. Without an `smtp_authenticated` entry, clients that
log in over SMTP get the `smtp` one; there is no other fallback.
