//! MCP client configuration: the servers to connect to, how each is
//! reached, and how a tool's text output is put together.

use std::collections::HashMap;
use vstd::prelude::*;

verus! {

/// The MCP servers to connect to, in order.
pub struct McpConfig {
    pub servers: Vec<McpServerConfig>,
}

/// One MCP server: a title and how it is reached.
pub struct McpServerConfig {
    pub title: String,
    pub transport: McpTransport,
}

/// How an MCP server is reached, as the configuration states it.
pub enum McpTransport {
    /// A child process that speaks MCP on its standard input and output.
    Stdio { command: String, args: Vec<String>, envs: HashMap<String, String> },
    /// A streamable HTTP endpoint.
    Http { url: String, headers: HashMap<String, String> },
    /// A server-sent-events endpoint.
    Sse { url: String, headers: HashMap<String, String> },
}

/// What the client actually connects to.
pub enum Endpoint {
    /// Spawn `command` with `args` and the environment `envs`.
    ChildProcess { command: String, args: Vec<String>, envs: HashMap<String, String> },
    /// Connect over streamable HTTP to `url`.
    StreamableHttp { url: String },
}

impl McpTransport {
    /// The endpoint that the client connects to: a child process for a
    /// stdio server; streamable HTTP for both HTTP and SSE servers, whose
    /// configured headers are not sent.
    pub fn endpoint(self) -> (e: Endpoint)
        ensures
            e == (match self {
                McpTransport::Stdio { command, args, envs } => Endpoint::ChildProcess {
                    command,
                    args,
                    envs,
                },
                McpTransport::Http { url, .. } => Endpoint::StreamableHttp { url },
                McpTransport::Sse { url, .. } => Endpoint::StreamableHttp { url },
            }),
    {
        match self {
            McpTransport::Stdio { command, args, envs } => Endpoint::ChildProcess {
                command,
                args,
                envs,
            },
            McpTransport::Http { url, .. } => Endpoint::StreamableHttp { url },
            McpTransport::Sse { url, .. } => Endpoint::StreamableHttp { url },
        }
    }
}

/// The texts of the content blocks that are text, in order.
pub open spec fn texts_of(blocks: Seq<Option<String>>) -> Seq<Seq<char>>
    decreases blocks.len(),
{
    if blocks.len() == 0 {
        Seq::empty()
    } else {
        let rest = texts_of(blocks.drop_last());
        match blocks.last() {
            Some(t) => rest.push(t@),
            None => rest,
        }
    }
}

/// The parts put one after another with `sep` between each two.
pub open spec fn joined(parts: Seq<Seq<char>>, sep: Seq<char>) -> Seq<char>
    decreases parts.len(),
{
    if parts.len() == 0 {
        Seq::empty()
    } else if parts.len() == 1 {
        parts[0]
    } else {
        joined(parts.drop_last(), sep) + sep + parts.last()
    }
}

/// The output of a tool call: the texts of its text blocks, one per line.
/// A block that is not text is given as `None`.
pub fn join_text_blocks(blocks: &Vec<Option<String>>) -> (r: String)
    ensures
        r@ == joined(texts_of(blocks@), seq!['\n']),
{
    let mut out = String::new();
    let mut first = true;
    let mut i: usize = 0;
    proof {
        reveal_strlit("\n");
        assert(blocks@.take(0) =~= Seq::<Option<String>>::empty());
    }
    while i < blocks.len()
        invariant
            i <= blocks.len(),
            out@ == joined(texts_of(blocks@.take(i as int)), seq!['\n']),
            first <==> texts_of(blocks@.take(i as int)).len() == 0,
        decreases blocks.len() - i,
    {
        let ghost prev = texts_of(blocks@.take(i as int));
        proof {
            assert(blocks@.take(i + 1).drop_last() =~= blocks@.take(i as int));
            assert(blocks@.take(i + 1).last() == blocks@[i as int]);
        }
        match &blocks[i] {
            Some(t) => {
                let ghost next = prev.push(t@);
                assert(next.drop_last() =~= prev);
                if !first {
                    proof {
                        reveal_strlit("\n");
                    }
                    out.append("\n");
                }
                out.append(t.as_str());
                first = false;
            },
            None => {},
        }
        i += 1;
    }
    assert(blocks@.take(blocks.len() as int) =~= blocks@);
    out
}

} // verus!
