# Office Convert Lambda

A lambda that converts office files to PDF with LibreOffice, and a client that
calls it.

- `src/` is a library that holds the decisions of both, with contracts that
  Verus proves. It does no input or output: each longer piece of work is a
  sequence of steps. A step says what to do next, and `resume` takes the reply
  and gives the step after it. The public proof functions named `law_...` state
  what holds of whole runs.
- `app/` is the lambda itself, which carries the steps out with S3, LibreOffice
  and the file system, and the client's side of a call.
- `tests/` runs the library on given values.

| Module | What it decides |
| --- | --- |
| `event_handler` | how a request is served, and what it is answered |
| `service` | what holds of a request all the way down |
| `storage` | bringing the source from S3 and the result to S3 |
| `office` | running LibreOffice and converting documents |
| `encrypted` | reading as much of a file as its condition is judged by |
| `temp_files` | the temporary files of a conversion |
| `packed_libreoffice` | unpacking the LibreOffice install |
| `client` | calling the lambda, and calling it again |
| `error` | the errors that a request is answered with |
| `aws`, `environment` | settings |
| `path`, `text` | paths as components, and text |
