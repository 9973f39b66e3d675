# mcp_stdio

The decisions of an upstream that runs as a child process and speaks the Model
Context Protocol over its standard input and output, verified with Verus.

- `src/logs.rs`: the bounded log of recent output, and its formatted text
- `src/pending.rs`: the table of requests that wait for a response
- `src/process.rs`: what callers do (send, notify, subscribe, stop) and the error
  that a failed `initialize` request is reported with
- `src/driver.rs`: the event loop as a state and a step function
- `src/wire.rs`: the JSON text of messages, as `serde_json` writes `rmcp`'s types
- `src/text.rs`: trimming, joining and substrings
- `src/laws.rs`: what holds over any course of events
- `app/`: the tasks, channels and child process around the library

Of `serde_json::to_string` the library assumes that the text of a server's message
or a client's notification depends on nothing else, that the text of any other
message of a client is one of those that the message can be written as, and that
each of these texts ends in a closing brace. Of `rmcp` it assumes that the message
made of a notification depends on nothing but the notification.
