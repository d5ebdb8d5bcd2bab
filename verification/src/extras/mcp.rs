//! Tool servers (MCP). Connecting to a server and asking it for its tools
//! are done by the caller; this module decides which connections are kept
//! and which tools the agent is offered.

use std::sync::Arc;

use vstd::prelude::*;

verus! {

/// A connected server: its name and the connection.
pub struct McpClientHandle<H> {
    pub server_name: String,
    pub peer: H,
}

/// The servers that were connected.
pub struct McpClientManager<H> {
    pub handles: Vec<McpClientHandle<H>>,
}

/// A tool that a server offers: the server's name, the tool's definition,
/// and the context its calls run in.
pub struct McpTool<D, C> {
    pub server_name: String,
    pub definition: D,
    pub ctx: Arc<C>,
}

/// A connection as its server's name and the connection.
pub open spec fn handle_view<H>(h: McpClientHandle<H>) -> (Seq<char>, H) {
    (h.server_name@, h.peer)
}

/// The servers whose connection attempt succeeded, in the order of the
/// attempts.
pub open spec fn connected<H, E>(attempts: Seq<(String, Result<H, E>)>) -> Seq<(Seq<char>, H)>
    decreases attempts.len(),
{
    if attempts.len() == 0 {
        Seq::empty()
    } else {
        let rest = connected(attempts.drop_last());
        match attempts.last().1 {
            Ok(h) => rest.push((attempts.last().0@, h)),
            Err(_) => rest,
        }
    }
}

/// The tools one server offers, each tagged with the server's name; none
/// when listing them failed.
pub open spec fn offered_by<D, E>(name: Seq<char>, listing: Result<Vec<D>, E>) -> Seq<(Seq<char>, D)> {
    match listing {
        Ok(tools) => tools@.map_values(|d: D| (name, d)),
        Err(_) => Seq::empty(),
    }
}

/// The tools all servers offer, server after server: `names[i]` is the name
/// of the server whose listing is `listings[i]`.
pub open spec fn offered<D, E>(names: Seq<Seq<char>>, listings: Seq<Result<Vec<D>, E>>) -> Seq<(Seq<char>, D)>
    decreases listings.len(),
{
    if listings.len() == 0 {
        Seq::empty()
    } else {
        offered(names, listings.drop_last()) + offered_by(names[listings.len() - 1], listings.last())
    }
}

/// A tool as the server's name and the tool's definition.
pub open spec fn tool_view<D, C>(t: McpTool<D, C>) -> (Seq<char>, D) {
    (t.server_name@, t.definition)
}

/// Connecting keeps each successful attempt, under its server's name, and
/// nothing else, in the order of the attempts: one success gives its
/// server, one failure gives none, and the servers kept from two runs of
/// attempts are those of the first followed by those of the second.
pub proof fn law_connected_keeps_successes<H, E>(
    a: Seq<(String, Result<H, E>)>,
    b: Seq<(String, Result<H, E>)>,
    name: String,
    h: H,
    e: E,
)
    ensures
        connected(seq![(name, Ok::<H, E>(h))]) == seq![(name@, h)],
        connected(seq![(name, Err::<H, E>(e))]) == Seq::<(Seq<char>, H)>::empty(),
        connected(a + b) == connected(a) + connected(b),
        connected(a).len() <= a.len(),
    decreases b.len(),
{
    let one = seq![(name, Ok::<H, E>(h))];
    assert(one.drop_last() =~= Seq::<(String, Result<H, E>)>::empty());
    let two = seq![(name, Err::<H, E>(e))];
    assert(two.drop_last() =~= Seq::<(String, Result<H, E>)>::empty());
    assert(connected(Seq::<(String, Result<H, E>)>::empty()) == Seq::<(Seq<char>, H)>::empty());
    assert(connected(one) =~= seq![(name@, h)]);
    if b.len() == 0 {
        assert(a + b =~= a);
        assert(connected(a) + connected(b) =~= connected(a));
    } else {
        law_connected_keeps_successes(a, b.drop_last(), name, h, e);
        assert((a + b).drop_last() =~= a + b.drop_last());
        assert((a + b).last() == b.last());
        match b.last().1 {
            Ok(x) => {
                assert(connected(a) + connected(b.drop_last()).push((b.last().0@, x)) =~= (connected(a)
                    + connected(b.drop_last())).push((b.last().0@, x)));
            },
            Err(_) => {},
        }
    }
    lemma_connected_len(a);
}

proof fn lemma_connected_len<H, E>(a: Seq<(String, Result<H, E>)>)
    ensures
        connected(a).len() <= a.len(),
    decreases a.len(),
{
    if a.len() > 0 {
        lemma_connected_len(a.drop_last());
    }
}

/// Each server offers its listed tools, in order and each under the
/// server's name, or none when its listing failed; the tools of two runs of
/// servers are those of the first followed by those of the second.
pub proof fn law_offered_concatenates<D, E>(
    names: Seq<Seq<char>>,
    a: Seq<Result<Vec<D>, E>>,
    b: Seq<Result<Vec<D>, E>>,
    name: Seq<char>,
    listing: Result<Vec<D>, E>,
)
    requires
        names.len() >= a.len() + b.len(),
    ensures
        offered(names, a + b) == offered(names, a) + offered(names.skip(a.len() as int), b),
        listing is Err ==> offered_by(name, listing).len() == 0,
        listing matches Ok(v) ==> {
            &&& offered_by(name, listing).len() == v@.len()
            &&& forall|i: int| 0 <= i < v@.len() ==> #[trigger] offered_by(name, listing)[i] == (name, v@[i])
        },
    decreases b.len(),
{
    if b.len() == 0 {
        assert(a + b =~= a);
        assert(offered(names, a) + offered(names.skip(a.len() as int), b) =~= offered(names, a));
    } else {
        law_offered_concatenates(names, a, b.drop_last(), name, listing);
        assert((a + b).drop_last() =~= a + b.drop_last());
        assert((a + b).last() == b.last());
        assert(names.skip(a.len() as int)[b.len() - 1] == names[(a + b).len() - 1]);
        assert(offered(names, a + b) =~= offered(names, a) + offered(names.skip(a.len() as int), b));
    }
}

/// `std::sync::Arc::clone`: claimed to give another pointer to the same
/// value (its documentation: "Makes a clone of the `Arc` pointer. This
/// creates another pointer to the same allocation").
#[verifier::external_body]
fn arc_clone<C>(a: &Arc<C>) -> (r: Arc<C>)
    ensures
        r == *a,
{
    Arc::clone(a)
}

impl<H> McpClientManager<H> {
    /// The names of the connected servers, in order.
    pub open spec fn server_names(&self) -> Seq<Seq<char>> {
        self.handles@.map_values(|h: McpClientHandle<H>| h.server_name@)
    }

    /// Keep the servers that could be connected, in the order in which they
    /// were tried, each under its name; the others are left out.
    pub fn connect_all<E>(attempts: Vec<(String, Result<H, E>)>) -> (r: Self)
        ensures
            r.handles@.map_values(|h: McpClientHandle<H>| handle_view(h)) == connected(attempts@),
    {
        let ghost all = attempts@;
        let mut handles: Vec<McpClientHandle<H>> = Vec::new();
        for attempt in it: attempts.into_iter()
            invariant
                it.seq() == all,
                handles@.map_values(|h: McpClientHandle<H>| handle_view(h)) == connected(
                    all.take(it.index() as int),
                ),
        {
            let ghost before = handles@;
            let ghost a = attempt;
            proof {
                assert(all.take(it.index() + 1).drop_last() =~= all.take(it.index() as int));
                assert(all.take(it.index() + 1).last() == a);
            }
            let (server_name, result) = attempt;
            match result {
                Ok(peer) => {
                    handles.push(McpClientHandle { server_name, peer });
                    proof {
                        let f = |h: McpClientHandle<H>| handle_view(h);
                        assert(handles@ =~= before.push(handles@.last()));
                        assert(handles@.map_values(f) =~= before.map_values(f).push(f(handles@.last())));
                    }
                },
                Err(_) => {},
            }
        }
        proof {
            assert(all.take(all.len() as int) =~= all);
        }
        McpClientManager { handles }
    }

    /// The tools the agent is offered, given for each connected server, in
    /// the order of the handles, what listing its tools gave. Each tool is
    /// tagged with the name of its server and runs in `ctx`; a server whose
    /// listing failed offers none.
    pub fn collect_tools<D, E, C>(&self, ctx: &Arc<C>, listings: Vec<Result<Vec<D>, E>>) -> (r: Vec<
        McpTool<D, C>,
    >)
        requires
            listings@.len() == self.handles@.len(),
        ensures
            r@.map_values(|t: McpTool<D, C>| tool_view(t)) == offered(self.server_names(), listings@),
            forall|i: int| 0 <= i < r@.len() ==> #[trigger] r@[i].ctx == *ctx,
    {
        let ghost all = listings@;
        let ghost names = self.server_names();
        let mut tools: Vec<McpTool<D, C>> = Vec::new();
        let n = self.handles.len();
        let mut k: usize = 0;
        for listing in it: listings.into_iter()
            invariant
                it.seq() == all,
                all.len() == self.handles@.len(),
                n == self.handles@.len(),
                names == self.server_names(),
                k == it.index(),
                tools@.map_values(|t: McpTool<D, C>| tool_view(t)) == offered(names, all.take(it.index() as int)),
                forall|i: int| 0 <= i < tools@.len() ==> #[trigger] tools@[i].ctx == *ctx,
        {
            let ghost before = tools@.map_values(|t: McpTool<D, C>| tool_view(t));
            let ghost before_tools = tools@;
            let ghost idx = it.index() as int;
            proof {
                assert(idx < all.len());
                assert(k < n);
                assert(all.take(idx + 1).drop_last() =~= all.take(idx));
                assert(all.take(idx + 1).last() == listing);
            }
            let server_name = &self.handles[k].server_name;
            let next = k + 1;
            proof {
                assert(names[idx] == server_name@);
            }
            match listing {
                Ok(definitions) => {
                    let ghost defs = definitions@;
                    for definition in jt: definitions.into_iter()
                        invariant
                            jt.seq() == defs,
                            0 <= idx < names.len(),
                            server_name@ == names[idx],
                            tools@.map_values(|t: McpTool<D, C>| tool_view(t)) == before + defs.take(
                                jt.index() as int,
                            ).map_values(|d: D| (names[idx], d)),
                            forall|i: int| 0 <= i < tools@.len() ==> #[trigger] tools@[i].ctx == *ctx,
                    {
                        let ghost d = definition;
                        let ghost mid = tools@;
                        tools.push(McpTool { server_name: server_name.clone(), definition, ctx: arc_clone(ctx) });
                        proof {
                            let t = tools@.last();
                            assert(tools@ =~= mid.push(t));
                            assert(t.server_name@ == names[idx]);
                            assert(t.definition == d);
                            let f = |t: McpTool<D, C>| tool_view(t);
                            let g = |d: D| (names[idx], d);
                            assert(defs.take(jt.index() + 1) =~= defs.take(jt.index() as int).push(d));
                            assert(mid.push(t).map_values(f) =~= mid.map_values(f).push(f(t)));
                            assert(defs.take(jt.index() as int).push(d).map_values(g) =~= defs.take(
                                jt.index() as int,
                            ).map_values(g).push(g(d)));
                            assert(tools@.map_values(f) =~= before + defs.take(jt.index() + 1).map_values(g));
                        }
                    }
                    proof {
                        assert(defs.take(defs.len() as int) =~= defs);
                    }
                },
                Err(_) => {
                    proof {
                        assert(before + Seq::<(Seq<char>, D)>::empty() =~= before);
                    }
                },
            }
            k = next;
        }
        proof {
            assert(all.take(all.len() as int) =~= all);
        }
        tools
    }
}

} // verus!
