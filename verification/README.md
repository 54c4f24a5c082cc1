# web_search_mcp

A Model Context Protocol server library that answers web searches through an Azure AI
Search knowledge base, written in Verus.

- `src/` is the verified library: the string-keyed map behind tool metadata and the
  tool registry, tool results, the error type and its messages, the JSON text of the
  retrieve request, and every decision of the `web_search` tool (settings, request,
  status handling, reading the answer).
- `app/` is the server program around it: environment and command line, the HTTP
  exchange with Azure AI Search, serde and schema derives, and the MCP transports.
- `tests/` runs the library on concrete values.
