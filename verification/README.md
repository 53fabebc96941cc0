# openab-agent

The model client of a coding agent. It speaks to the Anthropic Messages API, the OpenAI Responses
API and the Gemini `generateContent` API, and reaches WebSocket hosts through an HTTP proxy.

`src/` is the verified core:

- `message`: conversations, tool definitions and the events of a reply
- `anthropic`, `openai`, `gemini`: request bodies and the meaning of replies
- `exchange`: when a request is repeated, and what it ends with
- `error`, `settings`, `jwt`: error texts, settings, and the account of an access token
- `proxy`: which proxy the environment names, the CONNECT handshake, and ports
- `json`, `text`, `sequence`: the data these are stated over
- `laws`: what holds of several of these functions together

`app/` is the program around it: the command line, HTTP requests, sockets and the log. The ACP
server, the store of OAuth tokens and the TLS handshake are supplied through its traits.
