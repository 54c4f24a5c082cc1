//! Tool results, the tool context and the tool registry.

use vstd::prelude::*;
use crate::string_map::StringMap;

verus! {

/// A JSON value, from `serde_json`.
#[verifier::external_type_specification]
#[verifier::external_body]
pub struct ExJsonValue(serde_json::Value);

/// The value of a conversion, where it succeeded.
pub open spec fn converted_value(converted: Result<serde_json::Value, serde_json::Error>) -> Option<serde_json::Value> {
    match converted {
        Ok(v) => Some(v),
        Err(_) => None,
    }
}

/// Tool execution context.
pub struct ToolContext<'a> {
    _phantom: std::marker::PhantomData<&'a ()>,
}

impl<'a> ToolContext<'a> {
    /// The context that a new tool run starts from.
    pub closed spec fn fresh() -> Self {
        ToolContext { _phantom: std::marker::PhantomData }
    }

    /// Create a new tool context.
    pub fn new() -> (ctx: Self)
        ensures
            ctx == ToolContext::<'a>::fresh(),
    {
        ToolContext { _phantom: std::marker::PhantomData }
    }
}

impl<'a> Default for ToolContext<'a> {
    fn default() -> (ctx: Self)
        ensures
            ctx == ToolContext::<'a>::fresh(),
    {
        Self::new()
    }
}

/// Result of tool execution.
#[derive(Debug, Clone)]
pub struct ToolResult {
    /// Whether the tool execution was successful.
    pub success: bool,
    /// Result data.
    pub data: Option<serde_json::Value>,
    /// Error message if execution failed.
    pub error: Option<String>,
    /// Additional metadata.
    pub metadata: StringMap<serde_json::Value>,
}

/// `r` is a successful result that carries `data` and no metadata.
pub open spec fn is_success_result(r: ToolResult, data: Option<serde_json::Value>) -> bool {
    &&& r.success
    &&& r.data == data
    &&& r.error is None
    &&& r.metadata@ == Map::<Seq<char>, serde_json::Value>::empty()
}

/// `r` is a failed result with the message `message` and no metadata.
pub open spec fn is_failure_result(r: ToolResult, message: Seq<char>) -> bool {
    &&& !r.success
    &&& r.data is None
    &&& r.error matches Some(e) && e@ == message
    &&& r.metadata@ == Map::<Seq<char>, serde_json::Value>::empty()
}

/// A result reports an error exactly when it is not a success.
pub open spec fn is_consistent(r: ToolResult) -> bool {
    r.success <==> r.error is None
}

impl ToolResult {
    /// Create a successful result.
    pub fn success(data: Option<serde_json::Value>) -> (r: Self)
        ensures
            is_success_result(r, data),
            is_consistent(r),
    {
        ToolResult { success: true, data, error: None, metadata: StringMap::new() }
    }

    /// Create a successful result from what converting the data to a JSON value
    /// (`serde_json::to_value`) gave: the value where the conversion succeeded, and no
    /// data where it failed; the conversion's error is dropped.
    pub fn success_with(converted: Result<serde_json::Value, serde_json::Error>) -> (r: Self)
        ensures
            is_success_result(r, converted_value(converted)),
            is_consistent(r),
    {
        let data = match converted {
            Ok(v) => Some(v),
            Err(_) => None,
        };
        ToolResult { success: true, data, error: None, metadata: StringMap::new() }
    }

    /// Create a failure result.
    pub fn failure(error: &str) -> (r: Self)
        ensures
            is_failure_result(r, error@),
            is_consistent(r),
    {
        ToolResult {
            success: false,
            data: None,
            error: Some(error.to_owned()),
            metadata: StringMap::new(),
        }
    }

    /// Add metadata to the result; a key that is present gets the new value.
    pub fn with_metadata(self, key: &str, value: serde_json::Value) -> (r: Self)
        ensures
            r.metadata@ == self.metadata@.insert(key@, value),
            r.success == self.success,
            r.data == self.data,
            r.error == self.error,
    {
        let mut result = self;
        result.metadata.insert(key.to_owned(), value);
        result
    }
}

/// The message of a request for a tool that is not registered.
pub open spec fn not_found_message(name: Seq<char>) -> Seq<char> {
    "Tool '"@ + name + "' not found"@
}

/// The name under which the web search tool is registered.
pub open spec fn web_search_name() -> Seq<char> {
    "web_search"@
}

/// A tool that has a name.
///
/// Implementations promise that `name` returns the text of `tool_name`.
pub trait ToolName {
    /// The tool's name.
    spec fn tool_name(&self) -> Seq<char>;

    /// Get tool name.
    fn name(&self) -> (res: &str)
        ensures
            res@ == self.tool_name(),
    ;
}

/// Every tool of `m` is kept under its own name.
pub open spec fn keyed_by_name<T: ToolName>(m: Map<Seq<char>, T>) -> bool {
    forall|k: Seq<char>| #[trigger] m.dom().contains(k) ==> m[k].tool_name() == k
}

/// Tool registry for managing and accessing tools, keyed by tool name.
pub struct ToolRegistry<T> {
    tools: StringMap<T>,
}

impl<T> View for ToolRegistry<T> {
    type V = Map<Seq<char>, T>;

    closed spec fn view(&self) -> Map<Seq<char>, T> {
        self.tools@
    }
}

impl<T> ToolRegistry<T> {
    /// Create a new empty tool registry.
    pub fn new() -> (r: Self)
        ensures
            r@ == Map::<Seq<char>, T>::empty(),
            r@ == registrations(Seq::<(Seq<char>, T)>::empty()),
    {
        ToolRegistry { tools: StringMap::new() }
    }

    /// Create a registry that holds the default tools: `web_search_tool`, under the
    /// web search tool's name.
    pub fn with_defaults(web_search_tool: T) -> (r: Self)
        ensures
            r@ == Map::<Seq<char>, T>::empty().insert(web_search_name(), web_search_tool),
    {
        let mut registry = Self::new();
        let name = <crate::web_search::WebSearchTool as ToolName>::name(&crate::web_search::WebSearchTool);
        registry.register(name.to_owned(), web_search_tool);
        registry
    }

    /// Register a tool under `name` (the tool's own name), replacing a tool registered
    /// under that name.
    pub fn register(&mut self, name: String, tool: T)
        ensures
            final(self)@ == old(self)@.insert(name@, tool),
    {
        self.tools.insert(name, tool);
    }

    /// Get a tool by name.
    pub fn get(&self, name: &str) -> (res: Option<&T>)
        ensures
            match res {
                Some(t) => self@.dom().contains(name@) && *t == self@[name@],
                None => !self@.dom().contains(name@),
            },
    {
        self.tools.get(name)
    }

    /// Check if a tool exists.
    pub fn has(&self, name: &str) -> (b: bool)
        ensures
            b == self@.dom().contains(name@),
    {
        self.tools.contains_key(name)
    }

    /// List all tool names, each once.
    pub fn list_names(&self) -> (names: Vec<String>)
        ensures
            names.len() == self@.len(),
            forall|i: int, j: int|
                0 <= i < names.len() && 0 <= j < names.len() && i != j ==> #[trigger] names@[i]@ != #[trigger] names@[j]@,
            forall|i: int| 0 <= i < names.len() ==> self@.dom().contains(#[trigger] names@[i]@),
            forall|k: Seq<char>| #[trigger] self@.dom().contains(k) ==> exists|i: int| 0 <= i < names.len() && names@[i]@ == k,
    {
        let names = self.tools.keys();
        proof {
            assert forall|i: int, j: int|
                0 <= i < names.len() && 0 <= j < names.len() && i != j implies #[trigger] names@[i]@
                != #[trigger] names@[j]@ by {
                assert(crate::string_map::string_views(names@)[i] == names@[i]@);
                assert(crate::string_map::string_views(names@)[j] == names@[j]@);
            }
        }
        names
    }

    /// Get all tools, each once: the `i`-th is the tool of the `i`-th name of some
    /// listing of the registered names, each name listed once.
    pub fn all_tools(&self) -> (tools: Vec<&T>)
        ensures
            tools.len() == self@.len(),
            exists|order: Seq<Seq<char>>|
                #![trigger order.no_duplicates()]
                order.no_duplicates() && order.len() == tools.len() && order.to_set() == self@.dom() && (
                forall|i: int| 0 <= i < tools.len() ==> *(#[trigger] tools@[i]) == self@[order[i]]),
    {
        let tools = self.tools.values();
        proof {
            let order = self.tools.key_order();
            assert(order.no_duplicates());
        }
        tools
    }

    /// Looks up the tool that a request for `name` runs: `Ok` with the tool where one
    /// is registered under `name`, otherwise `Err` with the failure result that
    /// answers the request.
    pub fn execute(&self, name: &str) -> (res: Result<&T, ToolResult>)
        ensures
            match res {
                Ok(t) => self@.dom().contains(name@) && *t == self@[name@],
                Err(r) => !self@.dom().contains(name@) && is_failure_result(r, not_found_message(name@))
                    && is_consistent(r),
            },
    {
        match self.tools.get(name) {
            Some(tool) => Ok(tool),
            None => {
                let mut message = String::from_str("Tool '");
                message.append(name);
                message.append("' not found");
                Err(ToolResult::failure(message.as_str()))
            },
        }
    }

    /// The registered names are finitely many.
    pub proof fn lemma_names_finite(&self)
        ensures
            self@.dom().finite(),
    {
        self.tools.lemma_dom_finite();
    }

    /// Get the number of registered tools.
    pub fn count(&self) -> (n: usize)
        ensures
            n == self@.len(),
    {
        self.tools.len()
    }
}

impl<T: ToolName> ToolRegistry<T> {
    /// Register a tool under the name it reports, replacing a tool registered under
    /// that name.
    pub fn register_tool(&mut self, tool: T)
        ensures
            final(self)@ == old(self)@.insert(tool.tool_name(), tool),
    {
        let name = tool.name().to_owned();
        self.register(name, tool);
    }
}

impl Default for ToolRegistry<crate::web_search::WebSearchTool> {
    /// Create a registry with the default tools: the web search tool, under its own
    /// name `web_search`.
    fn default() -> (r: Self)
        ensures
            r@ == Map::<Seq<char>, crate::web_search::WebSearchTool>::empty().insert(
                web_search_name(),
                crate::web_search::WebSearchTool,
            ),
            keyed_by_name(r@),
    {
        let mut registry = Self::new();
        registry.register_tool(crate::web_search::WebSearchTool);
        registry
    }
}

/// What a registry holds after the registrations `regs` (each a name and a tool) were
/// made, in order, into an empty one.
pub open spec fn registrations<T>(regs: Seq<(Seq<char>, T)>) -> Map<Seq<char>, T>
    decreases regs.len(),
{
    if regs.len() == 0 {
        Map::empty()
    } else {
        registrations(regs.drop_last()).insert(regs.last().0, regs.last().1)
    }
}

/// The names of a sequence of registrations.
pub open spec fn registered_names<T>(regs: Seq<(Seq<char>, T)>) -> Seq<Seq<char>> {
    regs.map_values(|r: (Seq<char>, T)| r.0)
}

/// The registrations that `register_tool` makes for the tools `tools`: each under its
/// own name.
pub open spec fn own_name_registrations<T: ToolName>(tools: Seq<T>) -> Seq<(Seq<char>, T)> {
    tools.map_values(|t: T| (t.tool_name(), t))
}

/// A new registry holds what no registration gives, and each registration extends
/// what the registrations before it gave: a registry built by `new` and then
/// `register(n1, t1)`, ..., `register(nk, tk)` holds
/// `registrations([(n1, t1), ..., (nk, tk)])`.
pub proof fn law_registration_step<T>(
    regs: Seq<(Seq<char>, T)>,
    before: ToolRegistry<T>,
    after: ToolRegistry<T>,
    name: Seq<char>,
    tool: T,
)
    requires
        before@ == registrations(regs),
        after@ == before@.insert(name, tool),
    ensures
        after@ == registrations(regs.push((name, tool))),
{
    assert(regs.push((name, tool)).drop_last() =~= regs);
}

/// After a sequence of registrations: a name is registered exactly when it was
/// registered at some step; the count is the number of distinct names registered;
/// and the tool under a name is the one of the last registration with that name.
pub proof fn law_registrations<T>(regs: Seq<(Seq<char>, T)>)
    ensures
        registrations(regs).dom() == registered_names(regs).to_set(),
        registrations(regs).len() == registered_names(regs).to_set().len(),
        forall|k: Seq<char>|
            #[trigger] registrations(regs).dom().contains(k) ==> exists|i: int|
                0 <= i < regs.len() && regs[i].0 == k && regs[i].1 == registrations(regs)[k]
                    && forall|j: int| i < j < regs.len() ==> #[trigger] regs[j].0 != k,
    decreases regs.len(),
{
    broadcast use vstd::seq_lib::seq_to_set_is_finite;

    if regs.len() == 0 {
        assert(registered_names(regs).to_set() =~= Set::<Seq<char>>::empty());
        assert(registrations(regs).dom() =~= Set::<Seq<char>>::empty());
    } else {
        let rest = regs.drop_last();
        let last = regs.last();
        law_registrations(rest);
        assert(registered_names(regs) =~= registered_names(rest).push(last.0));
        registered_names(rest).lemma_push_to_set_commute(last.0);
        assert(registrations(regs).dom() =~= registered_names(regs).to_set());
        assert forall|k: Seq<char>| #[trigger] registrations(regs).dom().contains(k) implies exists|i: int|
            0 <= i < regs.len() && regs[i].0 == k && regs[i].1 == registrations(regs)[k]
                && forall|j: int| i < j < regs.len() ==> #[trigger] regs[j].0 != k by {
            if k == last.0 {
                let i = regs.len() - 1;
                assert(regs[i] == last);
            } else {
                let i = choose|i: int|
                    0 <= i < rest.len() && rest[i].0 == k && rest[i].1 == registrations(rest)[k]
                        && forall|j: int| i < j < rest.len() ==> #[trigger] rest[j].0 != k;
                assert(regs[i] == rest[i]);
                assert forall|j: int| i < j < regs.len() implies #[trigger] regs[j].0 != k by {
                    if j < rest.len() {
                        assert(regs[j] == rest[j]);
                    }
                }
            }
        }
    }
}

/// Tools registered by `register_tool` are each kept under their own name.
pub proof fn law_register_tool_keeps_own_names<T: ToolName>(tools: Seq<T>)
    ensures
        keyed_by_name(registrations(own_name_registrations(tools))),
    decreases tools.len(),
{
    if tools.len() > 0 {
        let rest = tools.drop_last();
        law_register_tool_keeps_own_names(rest);
        assert(own_name_registrations(tools).drop_last() =~= own_name_registrations(rest));
        assert(own_name_registrations(tools).last() == (tools.last().tool_name(), tools.last()));
    }
}

/// In a registry whose tools are kept under their own names, the tools that
/// `all_tools` lists each report the name they are listed for, so no two report the
/// same name and each is the registry's tool for its name.
pub proof fn law_all_tools_under_own_names<T: ToolName>(registry: ToolRegistry<T>, order: Seq<Seq<char>>, tools: Seq<T>)
    requires
        keyed_by_name(registry@),
        order.no_duplicates(),
        order.len() == tools.len(),
        order.to_set() == registry@.dom(),
        forall|i: int| 0 <= i < tools.len() ==> #[trigger] tools[i] == registry@[order[i]],
    ensures
        forall|i: int|
            0 <= i < tools.len() ==> (#[trigger] tools[i]).tool_name() == order[i] && registry@.dom().contains(
                tools[i].tool_name(),
            ) && registry@[tools[i].tool_name()] == tools[i],
        forall|i: int, j: int|
            0 <= i < tools.len() && 0 <= j < tools.len() && i != j ==> (#[trigger] tools[i]).tool_name()
                != (#[trigger] tools[j]).tool_name(),
{
    assert forall|i: int| 0 <= i < tools.len() implies (#[trigger] tools[i]).tool_name() == order[i]
        && registry@.dom().contains(tools[i].tool_name()) && registry@[tools[i].tool_name()] == tools[i] by {
        assert(order.to_set().contains(order[i]));
    }
    assert forall|i: int, j: int|
        0 <= i < tools.len() && 0 <= j < tools.len() && i != j implies (#[trigger] tools[i]).tool_name()
        != (#[trigger] tools[j]).tool_name() by {
        assert(order.to_set().contains(order[i]));
        assert(order.to_set().contains(order[j]));
    }
}

/// Registering a tool and then looking its name up finds that tool; every other
/// name keeps the tool it had, or stays unregistered.
pub proof fn law_register_then_lookup<T>(before: ToolRegistry<T>, after: ToolRegistry<T>, name: Seq<char>, tool: T)
    requires
        after@ == before@.insert(name, tool),
    ensures
        after@.dom().contains(name),
        after@[name] == tool,
        forall|other: Seq<char>|
            other != name ==> (#[trigger] after@.dom().contains(other) <==> before@.dom().contains(other)),
        forall|other: Seq<char>|
            other != name && before@.dom().contains(other) ==> #[trigger] after@[other] == before@[other],
{
}

/// Registering a name that is new adds one to the count; registering a name that is
/// taken leaves the count as it was.
pub proof fn law_register_count<T>(before: ToolRegistry<T>, after: ToolRegistry<T>, name: Seq<char>, tool: T)
    requires
        after@ == before@.insert(name, tool),
    ensures
        after@.len() == before@.len() + if before@.dom().contains(name) { 0int } else { 1int },
{
    before.lemma_names_finite();
    if before@.dom().contains(name) {
        assert(before@.dom().insert(name) =~= before@.dom());
    }
}

/// Of two registrations under one name, the later one wins.
pub proof fn law_register_last_wins<T>(registry: ToolRegistry<T>, name: Seq<char>, first: T, second: T)
    ensures
        registry@.insert(name, first).insert(name, second) == registry@.insert(name, second),
{
    assert(registry@.insert(name, first).insert(name, second) =~= registry@.insert(name, second));
}

/// Of two metadata entries under one key, the later one wins.
pub proof fn law_metadata_last_write_wins(result: ToolResult, key: Seq<char>, first: serde_json::Value, second: serde_json::Value)
    ensures
        result.metadata@.insert(key, first).insert(key, second) == result.metadata@.insert(key, second),
{
    assert(result.metadata@.insert(key, first).insert(key, second) =~= result.metadata@.insert(key, second));
}

/// Adding metadata keeps a result's outcome: a result that reports an error exactly
/// when it is not a success still does.
pub proof fn law_metadata_keeps_outcome(before: ToolResult, after: ToolResult, key: Seq<char>, value: serde_json::Value)
    requires
        is_consistent(before),
        after.metadata@ == before.metadata@.insert(key, value),
        after.success == before.success,
        after.data == before.data,
        after.error == before.error,
    ensures
        is_consistent(after),
        after.metadata@.dom().contains(key),
        after.metadata@[key] == value,
{
}

} // verus!
