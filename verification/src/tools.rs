//! The tool registry: the tools an agent can call, and the rule that
//! decides which of them a scene's configuration allows.
use vstd::prelude::*;
use std::collections::HashMap;
use crate::types::ToolConfig;

verus! {

/// A tool an agent can call. Required tools cannot be uninstalled.
#[derive(Debug)]
pub struct ToolDefinition {
    pub name: String,
    pub group: String,
    pub description: String,
    pub required: bool,
}

/// Whether `list` names `tool` by its name or by its group.
pub open spec fn names_tool(list: Seq<String>, tool: ToolDefinition) -> bool {
    exists|k: int| 0 <= k < list.len() && (list[k]@ == tool.group@ || list[k]@ == tool.name@)
}

/// The permission rule: a required tool is allowed unless `deny` names it
/// (by name or group); an optional tool is allowed only if `allow` names it.
pub open spec fn tool_allowed(tool: ToolDefinition, config: ToolConfig) -> bool {
    if tool.required {
        !names_tool(config.deny@, tool)
    } else {
        names_tool(config.allow@, tool)
    }
}

/// The permission rule, entry by entry: an optional tool is allowed as soon
/// as one entry of `allow` is its group or its name, and not allowed when
/// none is; a required tool is refused as soon as one entry of `deny` is
/// its group or its name, and allowed when none is.
pub proof fn lemma_permission_by_entries(tool: ToolDefinition, config: ToolConfig, k: int)
    ensures
        !tool.required && 0 <= k < config.allow@.len() && (config.allow@[k]@ == tool.group@
            || config.allow@[k]@ == tool.name@) ==> tool_allowed(tool, config),
        !tool.required && (forall|j: int|
            0 <= j < config.allow@.len() ==> #[trigger] config.allow@[j]@ != tool.group@
                && config.allow@[j]@ != tool.name@) ==> !tool_allowed(tool, config),
        tool.required && 0 <= k < config.deny@.len() && (config.deny@[k]@ == tool.group@
            || config.deny@[k]@ == tool.name@) ==> !tool_allowed(tool, config),
        tool.required && (forall|j: int|
            0 <= j < config.deny@.len() ==> #[trigger] config.deny@[j]@ != tool.group@
                && config.deny@[j]@ != tool.name@) ==> tool_allowed(tool, config),
{
}

/// The built-in tools as (name, group, required).
pub open spec fn builtin_tools() -> Seq<(Seq<char>, Seq<char>, bool)> {
    seq![
        ("read"@, "group:fs"@, true),
        ("write"@, "group:fs"@, true),
        ("edit"@, "group:fs"@, true),
        ("ls"@, "group:fs"@, true),
        ("exec"@, "group:runtime"@, true),
        ("memory_search"@, "group:memory"@, true),
        ("memory_store"@, "group:memory"@, true),
        ("knowledge_query"@, "group:knowledge"@, true),
        ("browser"@, "group:browser"@, false),
        ("code_exec"@, "group:sandbox"@, false),
    ]
}

/// The descriptions of the built-in tools, in the order of `builtin_tools`.
pub open spec fn builtin_descriptions() -> Seq<Seq<char>> {
    seq![
        "读取文件"@,
        "写入文件"@,
        "修改文件"@,
        "列出目录"@,
        "执行命令"@,
        "检索记忆"@,
        "写入记忆"@,
        "知识查询"@,
        "浏览器搜索"@,
        "代码沙箱执行"@,
    ]
}

/// The name, group and required flag of a tool.
pub open spec fn tool_key(t: ToolDefinition) -> (Seq<char>, Seq<char>, bool) {
    (t.name@, t.group@, t.required)
}

/// The built-in tool names are pairwise distinct.
proof fn lemma_builtin_names_distinct()
    ensures
        forall|j: int, k: int|
            0 <= j < k < builtin_tools().len() ==> builtin_tools()[j].0 != builtin_tools()[k].0,
{
    reveal_strlit("read");
    reveal_strlit("write");
    reveal_strlit("edit");
    reveal_strlit("ls");
    reveal_strlit("exec");
    reveal_strlit("memory_search");
    reveal_strlit("memory_store");
    reveal_strlit("knowledge_query");
    reveal_strlit("browser");
    reveal_strlit("code_exec");
    assert("read"@.len() != "write"@.len());
    assert("read"@[0] != "edit"@[0]);
    assert("read"@.len() != "ls"@.len());
    assert("read"@[0] != "exec"@[0]);
    assert("read"@.len() != "memory_search"@.len());
    assert("read"@.len() != "memory_store"@.len());
    assert("read"@.len() != "knowledge_query"@.len());
    assert("read"@.len() != "browser"@.len());
    assert("read"@.len() != "code_exec"@.len());
    assert("write"@.len() != "edit"@.len());
    assert("write"@.len() != "ls"@.len());
    assert("write"@.len() != "exec"@.len());
    assert("write"@.len() != "memory_search"@.len());
    assert("write"@.len() != "memory_store"@.len());
    assert("write"@.len() != "knowledge_query"@.len());
    assert("write"@.len() != "browser"@.len());
    assert("write"@.len() != "code_exec"@.len());
    assert("edit"@.len() != "ls"@.len());
    assert("edit"@[1] != "exec"@[1]);
    assert("edit"@.len() != "memory_search"@.len());
    assert("edit"@.len() != "memory_store"@.len());
    assert("edit"@.len() != "knowledge_query"@.len());
    assert("edit"@.len() != "browser"@.len());
    assert("edit"@.len() != "code_exec"@.len());
    assert("ls"@.len() != "exec"@.len());
    assert("ls"@.len() != "memory_search"@.len());
    assert("ls"@.len() != "memory_store"@.len());
    assert("ls"@.len() != "knowledge_query"@.len());
    assert("ls"@.len() != "browser"@.len());
    assert("ls"@.len() != "code_exec"@.len());
    assert("exec"@.len() != "memory_search"@.len());
    assert("exec"@.len() != "memory_store"@.len());
    assert("exec"@.len() != "knowledge_query"@.len());
    assert("exec"@.len() != "browser"@.len());
    assert("exec"@.len() != "code_exec"@.len());
    assert("memory_search"@.len() != "memory_store"@.len());
    assert("memory_search"@.len() != "knowledge_query"@.len());
    assert("memory_search"@.len() != "browser"@.len());
    assert("memory_search"@.len() != "code_exec"@.len());
    assert("memory_store"@.len() != "knowledge_query"@.len());
    assert("memory_store"@.len() != "browser"@.len());
    assert("memory_store"@.len() != "code_exec"@.len());
    assert("knowledge_query"@.len() != "browser"@.len());
    assert("knowledge_query"@.len() != "code_exec"@.len());
    assert("browser"@.len() != "code_exec"@.len());
}

/// The tools an agent can call, keyed by name.
pub struct ToolRegistry {
    tools: Vec<ToolDefinition>,
}

impl ToolRegistry {
    /// The registered tools, in registration order.
    pub closed spec fn tools(self) -> Seq<ToolDefinition> {
        self.tools@
    }

    /// No two registered tools share a name.
    pub open spec fn wf(self) -> bool {
        forall|j: int, k: int|
            0 <= j < k < self.tools().len() ==> self.tools()[j].name@ != self.tools()[k].name@
    }

    /// The tool registered under `name`, if any.
    pub open spec fn tool(self, name: Seq<char>) -> Option<ToolDefinition> {
        if exists|k: int| 0 <= k < self.tools().len() && self.tools()[k].name@ == name {
            Some(self.tools()[choose|k: int| 0 <= k < self.tools().len() && self.tools()[k].name@ == name])
        } else {
            None
        }
    }

    /// A registry holding the built-in tools: eight required ones (file
    /// system, runtime, memory, knowledge) and two optional ones (browser,
    /// sandboxed code execution).
    pub fn new() -> (r: Self)
        ensures
            r.wf(),
            r.tools().map_values(|t: ToolDefinition| tool_key(t)) == builtin_tools(),
            r.tools().map_values(|t: ToolDefinition| t.description@) == builtin_descriptions(),
    {
        proof {
            reveal_strlit("memory_search");
            reveal_strlit("group:browser");
            reveal_strlit("group:knowledge");
            reveal_strlit("write");
            reveal_strlit("memory_store");
            reveal_strlit("edit");
            reveal_strlit("knowledge_query");
            reveal_strlit("ls");
            reveal_strlit("read");
            reveal_strlit("exec");
            reveal_strlit("group:memory");
            reveal_strlit("browser");
            reveal_strlit("group:runtime");
            reveal_strlit("code_exec");
            reveal_strlit("group:sandbox");
            reveal_strlit("group:fs");
        }
        proof {
            lemma_builtin_names_distinct();
        }
        let mut registry = ToolRegistry { tools: Vec::new() };
        registry.register(ToolDefinition { name: "read".to_owned(), group: "group:fs".to_owned(), description: "读取文件".to_owned(), required: true });
        assert(registry.tools().len() == 1);
        assert(tool_key(registry.tools()[0]) == builtin_tools()[0]);
        registry.register(ToolDefinition { name: "write".to_owned(), group: "group:fs".to_owned(), description: "写入文件".to_owned(), required: true });
        assert(registry.tools().len() == 2);
        assert(tool_key(registry.tools()[1]) == builtin_tools()[1]);
        registry.register(ToolDefinition { name: "edit".to_owned(), group: "group:fs".to_owned(), description: "修改文件".to_owned(), required: true });
        assert(registry.tools().len() == 3);
        assert(tool_key(registry.tools()[2]) == builtin_tools()[2]);
        registry.register(ToolDefinition { name: "ls".to_owned(), group: "group:fs".to_owned(), description: "列出目录".to_owned(), required: true });
        assert(registry.tools().len() == 4);
        assert(tool_key(registry.tools()[3]) == builtin_tools()[3]);
        registry.register(ToolDefinition { name: "exec".to_owned(), group: "group:runtime".to_owned(), description: "执行命令".to_owned(), required: true });
        assert(registry.tools().len() == 5);
        assert(tool_key(registry.tools()[4]) == builtin_tools()[4]);
        registry.register(ToolDefinition { name: "memory_search".to_owned(), group: "group:memory".to_owned(), description: "检索记忆".to_owned(), required: true });
        assert(registry.tools().len() == 6);
        assert(tool_key(registry.tools()[5]) == builtin_tools()[5]);
        registry.register(ToolDefinition { name: "memory_store".to_owned(), group: "group:memory".to_owned(), description: "写入记忆".to_owned(), required: true });
        assert(registry.tools().len() == 7);
        assert(tool_key(registry.tools()[6]) == builtin_tools()[6]);
        registry.register(ToolDefinition { name: "knowledge_query".to_owned(), group: "group:knowledge".to_owned(), description: "知识查询".to_owned(), required: true });
        assert(registry.tools().len() == 8);
        assert(tool_key(registry.tools()[7]) == builtin_tools()[7]);
        registry.register(ToolDefinition { name: "browser".to_owned(), group: "group:browser".to_owned(), description: "浏览器搜索".to_owned(), required: false });
        assert(registry.tools().len() == 9);
        assert(tool_key(registry.tools()[8]) == builtin_tools()[8]);
        registry.register(ToolDefinition { name: "code_exec".to_owned(), group: "group:sandbox".to_owned(), description: "代码沙箱执行".to_owned(), required: false });
        assert(registry.tools().len() == 10);
        assert(tool_key(registry.tools()[9]) == builtin_tools()[9]);
        proof {
            assert(registry.tools().map_values(|t: ToolDefinition| tool_key(t)) =~= builtin_tools());
            assert(registry.tools().map_values(|t: ToolDefinition| t.description@) =~= builtin_descriptions());
        }
        registry
    }

    /// Adds a tool; a tool registered under the same name is replaced in
    /// its place.
    fn register(&mut self, tool: ToolDefinition)
        requires
            old(self).wf(),
        ensures
            final(self).wf(),
            old(self).tool(tool.name@) is None ==> final(self).tools() == old(self).tools().push(tool),
            old(self).tool(tool.name@) is Some ==> exists|k: int|
                0 <= k < old(self).tools().len() && old(self).tools()[k].name@ == tool.name@
                    && final(self).tools() == old(self).tools().update(k, tool),
    {
        let ghost olds = self.tools@;
        let mut i: usize = 0;
        while i < self.tools.len()
            invariant
                i <= self.tools@.len(),
                self.tools@ == olds,
                old(self).tools@ == olds,
                old(self).wf(),
                forall|k: int| 0 <= k < i ==> olds[k].name@ != tool.name@,
            decreases self.tools@.len() - i,
        {
            if self.tools[i].name == tool.name {
                let ghost t = tool;
                self.tools.set(i, tool);
                proof {
                    assert(self.tools@ == olds.update(i as int, t));
                    assert(old(self).tools()[i as int].name@ == t.name@);
                    assert(old(self).tool(t.name@) is Some);
                }
                return;
            }
            i = i + 1;
        }
        proof {
            assert(old(self).tool(tool.name@) is None);
        }
        let ghost t = tool;
        self.tools.push(tool);
        proof {
            assert(self.tools@ == olds.push(t));
            assert forall|j: int, k: int| 0 <= j < k < self.tools@.len() implies self.tools@[j].name@ != self.tools@[k].name@ by {
                if k == olds.len() {
                    assert(olds[j].name@ != t.name@);
                } else {
                    assert(old(self).tools()[j].name@ != old(self).tools()[k].name@);
                }
            }
        }
    }

    /// The registered tools, in registration order.
    pub fn list(&self) -> (r: Vec<&ToolDefinition>)
        ensures
            r@.len() == self.tools().len(),
            forall|k: int| 0 <= k < r@.len() ==> *r@[k] == self.tools()[k],
    {
        let mut r: Vec<&ToolDefinition> = Vec::new();
        let mut i: usize = 0;
        while i < self.tools.len()
            invariant
                i <= self.tools@.len(),
                r@.len() == i,
                forall|k: int| 0 <= k < i ==> *r@[k] == self.tools@[k],
            decreases self.tools@.len() - i,
        {
            r.push(&self.tools[i]);
            i = i + 1;
        }
        r
    }

    /// Whether the configuration allows the tool called `name`; a tool that
    /// is not registered is never allowed.
    pub fn is_allowed(&self, name: &str, config: &ToolConfig) -> (r: bool)
        requires
            self.wf(),
        ensures
            r == match self.tool(name@) {
                Some(t) => tool_allowed(t, *config),
                None => false,
            },
            forall|k: int|
                #![trigger config.allow@[k]]
                0 <= k < config.allow@.len() && self.tool(name@) is Some && !self.tool(name@)->0.required && (
                config.allow@[k]@ == self.tool(name@)->0.group@ || config.allow@[k]@ == self.tool(
                    name@,
                )->0.name@) ==> r,
            forall|k: int|
                #![trigger config.deny@[k]]
                0 <= k < config.deny@.len() && self.tool(name@) is Some && self.tool(name@)->0.required && (
                config.deny@[k]@ == self.tool(name@)->0.group@ || config.deny@[k]@ == self.tool(
                    name@,
                )->0.name@) ==> !r,
    {
        let mut i: usize = 0;
        while i < self.tools.len()
            invariant
                i <= self.tools@.len(),
                self.wf(),
                forall|k: int| 0 <= k < i ==> self.tools@[k].name@ != name@,
            decreases self.tools@.len() - i,
        {
            if crate::text::str_eq(self.tools[i].name.as_str(), name) {
                let tool = &self.tools[i];
                proof {
                    let k = choose|k: int| 0 <= k < self.tools().len() && self.tools()[k].name@ == name@;
                    assert(k == i as int);
                }
                if tool.required {
                    return !names_in(&config.deny, tool);
                }
                return names_in(&config.allow, tool);
            }
            i = i + 1;
        }
        false
    }

    /// The registered tools of a group, in registration order.
    pub fn by_group(&self, group: &str) -> (r: Vec<&ToolDefinition>)
        ensures
            r@.map_values(|t: &ToolDefinition| *t) == self.tools().filter(
                |t: ToolDefinition| t.group@ == group@,
            ),
    {
        let ghost pred = |t: ToolDefinition| t.group@ == group@;
        let mut r: Vec<&ToolDefinition> = Vec::new();
        let mut i: usize = 0;
        while i < self.tools.len()
            invariant
                i <= self.tools@.len(),
                pred == (|t: ToolDefinition| t.group@ == group@),
                r@.map_values(|t: &ToolDefinition| *t) == self.tools@.take(i as int).filter(pred),
            decreases self.tools@.len() - i,
        {
            let ghost before = r@;
            proof {
                reveal(Seq::filter);
                let t = self.tools@.take(i + 1);
                assert(t.drop_last() =~= self.tools@.take(i as int));
                assert(t.last() == self.tools@[i as int]);
            }
            if crate::text::str_eq(self.tools[i].group.as_str(), group) {
                r.push(&self.tools[i]);
                assert(r@.map_values(|t: &ToolDefinition| *t) =~= before.map_values(
                    |t: &ToolDefinition| *t,
                ).push(self.tools@[i as int]));
            }
            i = i + 1;
        }
        assert(self.tools@.take(self.tools@.len() as int) =~= self.tools@);
        r
    }
}

/// Whether `list` names `tool` by its name or by its group.
fn names_in(list: &Vec<String>, tool: &ToolDefinition) -> (r: bool)
    ensures
        r == names_tool(list@, *tool),
{
    let mut i: usize = 0;
    while i < list.len()
        invariant
            i <= list@.len(),
            forall|k: int| 0 <= k < i ==> !(list@[k]@ == tool.group@ || list@[k]@ == tool.name@),
        decreases list@.len() - i,
    {
        if list[i] == tool.group || list[i] == tool.name {
            return true;
        }
        i = i + 1;
    }
    false
}

impl Default for ToolConfig {
    /// File system, runtime, memory and knowledge tools allowed; browser
    /// and sandbox denied; `~/.bugs/`, `~/.ssh/` and `/etc/` protected.
    fn default() -> (r: Self)
        ensures
            r.allow@.map_values(|s: String| s@) == seq![
                "group:fs"@,
                "group:runtime"@,
                "group:memory"@,
                "group:knowledge"@,
            ],
            r.deny@.map_values(|s: String| s@) == seq!["group:browser"@, "group:sandbox"@],
            r.protection_paths@.map_values(|s: String| s@) == seq!["~/.bugs/"@, "~/.ssh/"@, "/etc/"@],
            r.granted@.len() == 0,
    {
        let mut allow: Vec<String> = Vec::new();
        allow.push("group:fs".to_owned());
        allow.push("group:runtime".to_owned());
        allow.push("group:memory".to_owned());
        allow.push("group:knowledge".to_owned());
        let mut deny: Vec<String> = Vec::new();
        deny.push("group:browser".to_owned());
        deny.push("group:sandbox".to_owned());
        let mut protection_paths: Vec<String> = Vec::new();
        protection_paths.push("~/.bugs/".to_owned());
        protection_paths.push("~/.ssh/".to_owned());
        protection_paths.push("/etc/".to_owned());
        let r = ToolConfig { allow, deny, protection_paths, granted: HashMap::new() };
        assert(r.allow@.map_values(|s: String| s@) =~= seq![
            "group:fs"@,
            "group:runtime"@,
            "group:memory"@,
            "group:knowledge"@,
        ]);
        assert(r.deny@.map_values(|s: String| s@) =~= seq!["group:browser"@, "group:sandbox"@]);
        assert(r.protection_paths@.map_values(|s: String| s@) =~= seq!["~/.bugs/"@, "~/.ssh/"@, "/etc/"@]);
        r
    }
}

} // verus!
