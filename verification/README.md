# webbit

A web front end for linkspace: any page ending in `.html` can be opened,
edited and uploaded; uploads wait in quarantine until someone vouches for
them with a signed key point.

`src/` is the request logic, verified with Verus:

- `html` — injecting a fragment (the uploader script) after `<head>`.
- `query` — turning a request path and query string into query statements.
- `read` — choosing the latest point and gathering the data of a page.
- `upload` — cutting an uploaded file into data points; which uploads are accepted.
- `pkt` — the checks on uploaded and vouched packets, and previews.
- `views` — how the page routes answer once the point was looked up.
- `listing` — HTML and JSON listings of points.
- `quarantine` — progress of vectored writes of a quarantine file.
- `hash`, `path`, `text` — hashes in base64, request paths, small text helpers.
- `routes` — the route table.

`app/` is the rocket server around it: request guards, file and network I/O,
and the calls into linkspace.
