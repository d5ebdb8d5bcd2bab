//! Tool set configuration for agents.
//!
//! A `ToolSet` says which tools an agent may use: a filter from tool names to
//! "included" or "excluded". Names that are not in the filter are not
//! included. The lead agent uses `ToolSet::default()` (all built-in tools);
//! callers can use `ToolSet::read_only()`, `ToolSet::no_tools()`, or per-tool
//! overrides via `with_tool()` / `without_tool()` / `merge()`. Building the
//! tools themselves from a set happens where the tool implementations live.

use vstd::prelude::*;

use super::tools::ToolName;
use crate::named_list::NamedList;

verus! {

/// The names of the built-in tools.
pub open spec fn builtin_names() -> Set<Seq<char>> {
    set![
        "bash"@,
        "read"@,
        "write"@,
        "edit"@,
        "grep"@,
        "find_files"@,
        "list_dir"@,
        "write_todo_list"@,
    ]
}

/// The names of the read-only tools.
pub open spec fn read_only_names() -> Set<Seq<char>> {
    set!["read"@, "grep"@, "find_files"@, "list_dir"@]
}

/// The read-only tools are built-in tools, and none of them runs commands
/// or changes files: `bash`, `write`, `edit` and `write_todo_list` are not
/// among them, while `read`, `grep`, `find_files` and `list_dir` are.
pub proof fn law_read_only_tools_cannot_change_anything()
    ensures
        read_only_names().subset_of(builtin_names()),
        !read_only_names().contains("bash"@),
        !read_only_names().contains("write"@),
        !read_only_names().contains("edit"@),
        !read_only_names().contains("write_todo_list"@),
        read_only_names().contains("read"@),
        read_only_names().contains("grep"@),
        read_only_names().contains("find_files"@),
        read_only_names().contains("list_dir"@),
        builtin_names().contains("bash"@),
        builtin_names().contains("write"@),
        builtin_names().contains("edit"@),
        builtin_names().contains("write_todo_list"@),
{
    reveal_strlit("bash");
    reveal_strlit("write");
    reveal_strlit("edit");
    reveal_strlit("write_todo_list");
    reveal_strlit("read");
    reveal_strlit("grep");
    reveal_strlit("find_files");
    reveal_strlit("list_dir");
    assert("bash"@[0] != "read"@[0] && "bash"@[0] != "grep"@[0] && "bash"@[0] != "find_files"@[0] && "bash"@[0] != "list_dir"@[0]);
    assert("write"@[0] != "read"@[0] && "write"@[0] != "grep"@[0] && "write"@[0] != "find_files"@[0] && "write"@[0] != "list_dir"@[0]);
    assert("edit"@[0] != "read"@[0] && "edit"@[0] != "grep"@[0] && "edit"@[0] != "find_files"@[0] && "edit"@[0] != "list_dir"@[0]);
    assert("write_todo_list"@[0] != "read"@[0] && "write_todo_list"@[0] != "grep"@[0]
        && "write_todo_list"@[0] != "find_files"@[0] && "write_todo_list"@[0] != "list_dir"@[0]);
}

/// The registry of the built-in tools.
fn with_all_builtins() -> (r: NamedList<()>)
    ensures
        r.wf(),
        r@.dom() == builtin_names(),
{
    let mut r = NamedList::new();
    r.insert(String::from_str(ToolName::bash().as_str()), ());
    r.insert(String::from_str(ToolName::read().as_str()), ());
    r.insert(String::from_str(ToolName::write().as_str()), ());
    r.insert(String::from_str(ToolName::edit().as_str()), ());
    r.insert(String::from_str(ToolName::grep().as_str()), ());
    r.insert(String::from_str(ToolName::find_files().as_str()), ());
    r.insert(String::from_str(ToolName::list_dir().as_str()), ());
    r.insert(String::from_str(ToolName::write_todo_list().as_str()), ());
    assert(r@.dom() =~= builtin_names());
    r
}

/// Controls which tools an agent has access to.
pub struct ToolSet {
    /// Tool filter. `true` = included, `false` = excluded.
    filter: NamedList<bool>,
    /// The tools that can be built: the built-in ones and those registered
    /// later.
    registry: NamedList<()>,
}

impl View for ToolSet {
    type V = Map<Seq<char>, bool>;

    /// The filter: for each named tool, whether it is included.
    closed spec fn view(&self) -> Map<Seq<char>, bool> {
        self.filter@
    }
}

impl ToolSet {
    /// The internal maps are well formed.
    pub closed spec fn wf(&self) -> bool {
        self.filter.wf() && self.registry.wf()
    }

    /// The names of the tools that can be built.
    pub closed spec fn registered(&self) -> Set<Seq<char>> {
        self.registry@.dom()
    }

    /// The tools an agent built from this set gets: those registered and
    /// included.
    pub open spec fn built(&self) -> Set<Seq<char>> {
        self.registered().filter(|k: Seq<char>| self@.dom().contains(k) && self@[k])
    }

    /// Returns `true` if this tool is included.
    pub fn includes(&self, tool: &ToolName) -> (r: bool)
        requires
            self.wf(),
        ensures
            r == (self@.dom().contains(tool@) && self@[tool@]),
    {
        match self.filter.get(tool.as_str()) {
            Some(v) => *v,
            None => false,
        }
    }

    /// Include a tool in this set.
    pub fn with_tool(self, name: ToolName) -> (r: Self)
        requires
            self.wf(),
        ensures
            r.wf(),
            r@ == self@.insert(name@, true),
            r.registered() == self.registered(),
    {
        let mut s = self;
        s.filter.insert(String::from_str(name.as_str()), true);
        s
    }

    /// Exclude a tool from this set.
    pub fn without_tool(self, name: ToolName) -> (r: Self)
        requires
            self.wf(),
        ensures
            r.wf(),
            r@ == self@.insert(name@, false),
            r.registered() == self.registered(),
    {
        let mut s = self;
        s.filter.insert(String::from_str(name.as_str()), false);
        s
    }

    /// Merge `other` on top of `self`: entries in `other` override entries
    /// in `self`.
    pub fn merge(self, other: &ToolSet) -> (r: Self)
        requires
            self.wf(),
            other.wf(),
        ensures
            r.wf(),
            r@ == self@.union_prefer_right(other@),
            r.registered() == self.registered(),
    {
        let ghost start = self@;
        let ghost start_registered = self.registered();
        let mut s = self;
        let n = other.filter.len();
        let mut i: usize = 0;
        proof {
            other.filter.lemma_names_are_domain();
            assert(start.union_prefer_right(other@.restrict(Set::empty())) =~= start);
        }
        while i < n
            invariant
                s.wf(),
                other.wf(),
                s.registered() == start_registered,
                n == other.filter.spec_names().len(),
                i <= n,
                s@ == start.union_prefer_right(
                    other@.restrict(
                        Set::new(
                            |k: Seq<char>|
                                exists|j: int| 0 <= j < i && #[trigger] other.filter.spec_names()[j]@ == k,
                        ),
                    ),
                ),
            decreases n - i,
        {
            let (name, value) = other.filter.entry(i);
            let ghost before = Set::new(
                |k: Seq<char>| exists|j: int| 0 <= j < i && #[trigger] other.filter.spec_names()[j]@ == k,
            );
            let ghost after = Set::new(
                |k: Seq<char>| exists|j: int| 0 <= j < i + 1 && #[trigger] other.filter.spec_names()[j]@ == k,
            );
            proof {
                other.filter.lemma_entry(i as int);
            }
            s.filter.insert(name.clone(), *value);
            proof {
                let k0 = name@;
                assert(other.filter.spec_names()[i as int]@ == k0);
                assert forall|k: Seq<char>| #[trigger] after.contains(k) == (before.contains(k) || k == k0) by {
                    if after.contains(k) {
                        let j = choose|j: int| 0 <= j < i + 1 && #[trigger] other.filter.spec_names()[j]@ == k;
                        if j < i {
                            assert(before.contains(k));
                        }
                    }
                    if before.contains(k) {
                        let j = choose|j: int| 0 <= j < i && #[trigger] other.filter.spec_names()[j]@ == k;
                        assert(after.contains(k));
                    }
                }
                assert(s@ =~= start.union_prefer_right(other@.restrict(after)));
            }
            i += 1;
        }
        proof {
            let all = Set::new(
                |k: Seq<char>| exists|j: int| 0 <= j < n && #[trigger] other.filter.spec_names()[j]@ == k,
            );
            assert(other@.restrict(all) =~= other@);
        }
        s
    }

    /// The tools an agent built from this set gets: every registered tool
    /// that is included, each once.
    pub fn tools(&self) -> (r: Vec<ToolName>)
        requires
            self.wf(),
        ensures
            forall|i: int| 0 <= i < r@.len() ==> #[trigger] self.built().contains(r@[i]@),
            forall|k: Seq<char>|
                #[trigger] self.built().contains(k) ==> exists|i: int| 0 <= i < r@.len() && r@[i]@ == k,
            forall|i: int, j: int| 0 <= i < j < r@.len() ==> #[trigger] r@[i]@ != #[trigger] r@[j]@,
    {
        let n = self.registry.len();
        let mut r: Vec<ToolName> = Vec::new();
        let mut i: usize = 0;
        // For each tool in `r`, the position of its name in the registry.
        let ghost mut at: Seq<int> = Seq::empty();
        proof {
            self.registry.lemma_names_are_domain();
            self.registry.lemma_distinct_names();
        }
        while i < n
            invariant
                self.wf(),
                n == self.registry.spec_names().len(),
                i <= n,
                at.len() == r@.len(),
                forall|a: int|
                    0 <= a < r@.len() ==> {
                        &&& 0 <= #[trigger] at[a] < i
                        &&& r@[a]@ == self.registry.spec_names()[at[a]]@
                        &&& self.built().contains(r@[a]@)
                    },
                forall|a: int, b: int| 0 <= a < b < r@.len() ==> #[trigger] at[a] < #[trigger] at[b],
                forall|j: int|
                    0 <= j < i && #[trigger] self.built().contains(self.registry.spec_names()[j]@)
                        ==> at.contains(j),
            decreases n - i,
        {
            let (name, _) = self.registry.entry(i);
            let tool = ToolName::new(name.as_str());
            let ghost old_at = at;
            proof {
                self.registry.lemma_entry(i as int);
            }
            if self.includes(&tool) {
                proof {
                    assert(self.built().contains(tool@));
                }
                r.push(tool);
                proof {
                    at = at.push(i as int);
                }
            } else {
                proof {
                    assert(!self.built().contains(self.registry.spec_names()[i as int]@));
                }
            }
            proof {
                assert forall|j: int|
                    0 <= j < i + 1 && #[trigger] self.built().contains(self.registry.spec_names()[j]@)
                        implies at.contains(j) by {
                    if j == i {
                        assert(at[at.len() - 1] == j);
                    } else {
                        assert(old_at.contains(j));
                        let a = choose|a: int| 0 <= a < old_at.len() && old_at[a] == j;
                        assert(at[a] == j);
                    }
                }
            }
            i += 1;
        }
        proof {
            assert forall|a: int| 0 <= a < r@.len() implies #[trigger] self.built().contains(r@[a]@) by {
                assert(0 <= at[a] < i);
            }
            assert forall|a: int, b: int| 0 <= a < b < r@.len() implies #[trigger] r@[a]@ != #[trigger] r@[b]@ by {
                assert(at[a] < at[b]);
            }
            assert forall|k: Seq<char>| #[trigger] self.built().contains(k) implies exists|a: int|
                0 <= a < r@.len() && r@[a]@ == k by {
                assert(self.registry@.dom().contains(k));
                let j = choose|j: int| 0 <= j < self.registry.spec_names().len() && #[trigger] self.registry.spec_names()[j]@ == k;
                assert(self.built().contains(self.registry.spec_names()[j]@));
                assert(at.contains(j));
                let a = choose|a: int| 0 <= a < at.len() && at[a] == j;
                assert(r@[a]@ == k);
            }
        }
        r
    }

    /// The named tool, if it is registered and included.
    pub fn get(&self, name: &ToolName) -> (r: Option<ToolName>)
        requires
            self.wf(),
        ensures
            r is Some <==> self.built().contains(name@),
            r matches Some(t) ==> t@ == name@,
    {
        if !self.includes(name) {
            return None;
        }
        if self.registry.contains(name.as_str()) {
            Some(name.duplicate())
        } else {
            None
        }
    }

    /// Register a tool built elsewhere (such as one a tool server offers)
    /// and include it.
    pub fn register_tool(&mut self, name: ToolName)
        requires
            old(self).wf(),
        ensures
            final(self).wf(),
            final(self)@ == old(self)@.insert(name@, true),
            final(self).registered() == old(self).registered().insert(name@),
    {
        self.registry.insert(String::from_str(name.as_str()), ());
        self.filter.insert(String::from_str(name.as_str()), true);
        proof {
            assert(self.registered() =~= old(self).registered().insert(name@));
        }
    }

    /// No tools included.
    pub fn no_tools() -> (r: Self)
        ensures
            r.wf(),
            r@ == Map::<Seq<char>, bool>::empty(),
            r.registered() == builtin_names(),
    {
        ToolSet { filter: NamedList::new(), registry: with_all_builtins() }
    }

    /// Read-only tools only: read, grep, find_files, list_dir.
    pub fn read_only() -> (r: Self)
        ensures
            r.wf(),
            r@ == Map::new(|k: Seq<char>| read_only_names().contains(k), |k: Seq<char>| true),
            r.registered() == builtin_names(),
    {
        let mut filter = NamedList::new();
        filter.insert(String::from_str(ToolName::read().as_str()), true);
        filter.insert(String::from_str(ToolName::grep().as_str()), true);
        filter.insert(String::from_str(ToolName::find_files().as_str()), true);
        filter.insert(String::from_str(ToolName::list_dir().as_str()), true);
        let r = ToolSet { filter, registry: with_all_builtins() };
        assert(r@ =~= Map::new(|k: Seq<char>| read_only_names().contains(k), |k: Seq<char>| true));
        r
    }
}

impl Default for ToolSet {
    /// All built-in tools included.
    fn default() -> (r: Self)
        ensures
            r.wf(),
            r@ == Map::new(|k: Seq<char>| builtin_names().contains(k), |k: Seq<char>| true),
            r.registered() == builtin_names(),
    {
        let mut filter = NamedList::new();
        filter.insert(String::from_str(ToolName::bash().as_str()), true);
        filter.insert(String::from_str(ToolName::read().as_str()), true);
        filter.insert(String::from_str(ToolName::write().as_str()), true);
        filter.insert(String::from_str(ToolName::edit().as_str()), true);
        filter.insert(String::from_str(ToolName::grep().as_str()), true);
        filter.insert(String::from_str(ToolName::find_files().as_str()), true);
        filter.insert(String::from_str(ToolName::list_dir().as_str()), true);
        filter.insert(String::from_str(ToolName::write_todo_list().as_str()), true);
        let r = ToolSet { filter, registry: with_all_builtins() };
        assert(r@ =~= Map::new(|k: Seq<char>| builtin_names().contains(k), |k: Seq<char>| true));
        r
    }
}

} // verus!
