//! The per-sandbox MCP registry: server configurations keyed by unique
//! name, in insertion order.  Each sandbox owns its own registry; nothing
//! in it is shared across executions.

use vstd::prelude::*;

verus! {

use crate::text::chars_of;
use crate::text::push_str_chars;
use crate::text::str_eq;
use crate::text::string_from_chars;

/// An MCP server configuration as the sandbox sees it.
pub struct MCPServerConfig {
    pub name: String,
    pub url: String,
}

impl MCPServerConfig {
    /// A copy of this configuration.
    pub fn duplicate(&self) -> (r: MCPServerConfig)
        ensures
            r == *self,
    {
        MCPServerConfig { name: self.name.clone(), url: self.url.clone() }
    }
}

/// An error of the sandbox runtime's MCP operations.
#[derive(Debug)]
pub enum McpError {
    /// Server configuration error, such as a duplicate name.
    Config(String),
    /// Server connection error.
    Connection(String),
    /// Tool call error: transport, parsing, or permission.
    ToolCall(String),
}

/// The rendering of an MCP error.
pub open spec fn spec_mcp_error_message(e: McpError) -> Seq<char> {
    match e {
        McpError::Config(m) => "MCP configuration error: "@ + m@,
        McpError::Connection(m) => "MCP connection error: "@ + m@,
        McpError::ToolCall(m) => "MCP tool call error: "@ + m@,
    }
}

impl McpError {
    /// The human-readable message of this error.
    pub fn message(&self) -> (r: String)
        ensures
            r@ == spec_mcp_error_message(*self),
    {
        let mut out: Vec<char>;
        match self {
            McpError::Config(m) => {
                out = chars_of("MCP configuration error: ");
                push_str_chars(&mut out, m.as_str());
            },
            McpError::Connection(m) => {
                out = chars_of("MCP connection error: ");
                push_str_chars(&mut out, m.as_str());
            },
            McpError::ToolCall(m) => {
                out = chars_of("MCP tool call error: ");
                push_str_chars(&mut out, m.as_str());
            },
        }
        string_from_chars(&out)
    }
}

/// The registry of MCP servers available to one sandbox.
pub struct MCPRegistry {
    entries: Vec<MCPServerConfig>,
}

/// Whether `entries` holds a server of the given name.
pub open spec fn spec_reg_has(entries: Seq<MCPServerConfig>, name: Seq<char>) -> bool {
    exists|j: int| 0 <= j < entries.len() && (#[trigger] entries[j]).name@ == name
}

/// The index of the first server of the given name, or `-1`.
pub open spec fn spec_reg_index(entries: Seq<MCPServerConfig>, name: Seq<char>) -> int
    decreases entries.len(),
{
    if entries.len() == 0 {
        -1
    } else if entries[0].name@ == name {
        0
    } else {
        let rest = spec_reg_index(entries.drop_first(), name);
        if rest == -1 {
            -1
        } else {
            rest + 1
        }
    }
}

/// Names are pairwise distinct.
pub open spec fn spec_reg_unique(entries: Seq<MCPServerConfig>) -> bool {
    forall|i: int, j: int|
        0 <= i < j < entries.len() ==> (#[trigger] entries[i]).name@ != (
        #[trigger] entries[j]).name@
}

proof fn lemma_reg_index_range(entries: Seq<MCPServerConfig>, name: Seq<char>)
    ensures
        -1 <= spec_reg_index(entries, name) < entries.len(),
        spec_reg_index(entries, name) >= 0 ==> entries[spec_reg_index(entries, name)].name@
            == name,
        (spec_reg_index(entries, name) >= 0) == spec_reg_has(entries, name),
    decreases entries.len(),
{
    if entries.len() > 0 && entries[0].name@ != name {
        lemma_reg_index_range(entries.drop_first(), name);
        if spec_reg_has(entries, name) {
            let j = choose|j: int|
                0 <= j < entries.len() && (#[trigger] entries[j]).name@ == name;
            assert(entries.drop_first()[j - 1].name@ == name);
        }
        if spec_reg_has(entries.drop_first(), name) {
            let j = choose|j: int|
                0 <= j < entries.drop_first().len() && (#[trigger] entries.drop_first()[j]).name@
                    == name;
            assert(entries[j + 1].name@ == name);
        }
    }
}

impl MCPRegistry {
    /// The registered servers, in insertion order.
    pub closed spec fn view_entries(self) -> Seq<MCPServerConfig> {
        self.entries@
    }

    /// An empty registry.
    pub fn new() -> (r: MCPRegistry)
        ensures
            r.view_entries().len() == 0,
            spec_reg_unique(r.view_entries()),
    {
        MCPRegistry { entries: Vec::new() }
    }

    /// Whether a server of this name is registered.
    #[verifier::loop_isolation(false)]
    pub fn has(&self, name: &str) -> (r: bool)
        ensures
            r == spec_reg_has(self.view_entries(), name@),
    {
        let mut i: usize = 0;
        while i < self.entries.len()
            invariant
                i <= self.entries@.len(),
                forall|j: int| 0 <= j < i ==> (#[trigger] self.entries@[j]).name@ != name@,
            decreases self.entries@.len() - i,
        {
            if str_eq(self.entries[i].name.as_str(), name) {
                return true;
            }
            i = i + 1;
        }
        false
    }

    /// Register a server; a second server under an already-registered
    /// name is refused and the registry is left unchanged.
    #[verifier::loop_isolation(false)]
    pub fn add(&mut self, cfg: MCPServerConfig) -> (r: Result<(), McpError>)
        ensures
            spec_reg_has(old(self).view_entries(), cfg.name@) ==> {
                &&& r matches Err(e)
                &&& e matches McpError::Config(m)
                &&& m@ == "MCP Server with name \""@ + cfg.name@
                    + "\" is already registered, you cannot register two MCP servers with the same name"@
                &&& final(self).view_entries() == old(self).view_entries()
            },
            !spec_reg_has(old(self).view_entries(), cfg.name@) ==> {
                &&& r is Ok
                &&& final(self).view_entries() == old(self).view_entries().push(cfg)
            },
            spec_reg_unique(old(self).view_entries()) ==> spec_reg_unique(
                final(self).view_entries(),
            ),
    {
        if self.has(cfg.name.as_str()) {
            let mut msg = chars_of("MCP Server with name \"");
            push_str_chars(&mut msg, cfg.name.as_str());
            push_str_chars(
                &mut msg,
                "\" is already registered, you cannot register two MCP servers with the same name",
            );
            return Err(McpError::Config(string_from_chars(&msg)));
        }
        self.entries.push(cfg);
        proof {
            let es = self.entries@;
            assert forall|i: int, j: int|
                0 <= i < j < es.len() && spec_reg_unique(old(self).view_entries()) implies (
            #[trigger] es[i]).name@ != (#[trigger] es[j]).name@ by {
                if j == es.len() - 1 {
                    assert(!spec_reg_has(old(self).view_entries(), cfg.name@));
                }
            }
        }
        Ok(())
    }

    /// A copy of the configuration registered under this name.
    #[verifier::loop_isolation(false)]
    pub fn get(&self, name: &str) -> (r: Option<MCPServerConfig>)
        ensures
            r is Some <==> spec_reg_has(self.view_entries(), name@),
            r matches Some(c) ==> c == self.view_entries()[spec_reg_index(
                self.view_entries(),
                name@,
            )],
    {
        proof {
            lemma_reg_index_range(self.entries@, name@);
        }
        let mut i: usize = 0;
        while i < self.entries.len()
            invariant
                i <= self.entries@.len(),
                forall|j: int| 0 <= j < i ==> (#[trigger] self.entries@[j]).name@ != name@,
            decreases self.entries@.len() - i,
        {
            if str_eq(self.entries[i].name.as_str(), name) {
                proof {
                    lemma_reg_index_step(self.entries@, name@, i as int);
                }
                return Some(self.entries[i].duplicate());
            }
            i = i + 1;
        }
        None
    }

    /// Remove the server of this name; whether one was there comes back.
    #[verifier::loop_isolation(false)]
    pub fn delete(&mut self, name: &str) -> (r: bool)
        ensures
            r == spec_reg_has(old(self).view_entries(), name@),
            !r ==> final(self).view_entries() == old(self).view_entries(),
            r ==> final(self).view_entries() == old(self).view_entries().remove(
                spec_reg_index(old(self).view_entries(), name@),
            ),
            spec_reg_unique(old(self).view_entries()) ==> spec_reg_unique(
                final(self).view_entries(),
            ),
    {
        proof {
            lemma_reg_index_range(self.entries@, name@);
        }
        let mut i: usize = 0;
        while i < self.entries.len()
            invariant
                self.entries@ == old(self).view_entries(),
                i <= self.entries@.len(),
                forall|j: int| 0 <= j < i ==> (#[trigger] self.entries@[j]).name@ != name@,
            decreases self.entries@.len() - i,
        {
            if str_eq(self.entries[i].name.as_str(), name) {
                proof {
                    lemma_reg_index_step(self.entries@, name@, i as int);
                }
                self.entries.remove(i);
                proof {
                    let es = self.entries@;
                    let os = old(self).view_entries();
                    assert(es =~= os.remove(i as int));
                    if spec_reg_unique(os) {
                        assert forall|a: int, b: int|
                            0 <= a < b < es.len() implies (#[trigger] es[a]).name@ != (
                        #[trigger] es[b]).name@ by {
                            if a < i {
                                if b < i {
                                } else {
                                    assert(es[b] == os[b + 1]);
                                }
                            } else {
                                assert(es[a] == os[a + 1]);
                                assert(es[b] == os[b + 1]);
                            }
                        }
                    }
                }
                return true;
            }
            i = i + 1;
        }
        false
    }

    /// Remove every registered server.
    pub fn clear(&mut self)
        ensures
            final(self).view_entries().len() == 0,
            spec_reg_unique(final(self).view_entries()),
    {
        self.entries.clear();
    }
}

proof fn lemma_reg_index_step(entries: Seq<MCPServerConfig>, name: Seq<char>, i: int)
    requires
        0 <= i < entries.len(),
        forall|j: int| 0 <= j < i ==> (#[trigger] entries[j]).name@ != name,
        entries[i].name@ == name,
    ensures
        spec_reg_index(entries, name) == i,
    decreases entries.len(),
{
    if i > 0 {
        assert(forall|j: int|
            0 <= j < i - 1 ==> (#[trigger] entries.drop_first()[j]).name@ != name);
        lemma_reg_index_step(entries.drop_first(), name, i - 1);
    }
}

} // verus!
