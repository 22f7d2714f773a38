//! The tool/component registry: the mapping from component identifier to
//! its published tool list, and a flat mapping from tool name to owning
//! component identifier for name-based dispatch. Loading publishes a new
//! entry atomically (replace, never mutate); unloading removes the entry
//! and the tool-name routes its tools owned.

use vstd::prelude::*;
use crate::introspect::{ToolDescriptor, SpecDescriptor, view_descriptors, lemma_view_descriptors,
    spec_descriptor_wf};
use crate::jsonval::{Json, JsonField, SpecJson, view_json, view_json_fields, view_json_seq,
    lemma_view_json_fields, lemma_view_json_seq, spec_obj_get};
use crate::shape::{view_names, lemma_view_names};
use crate::strutil::str_eq;

verus! {

/// What loading a component reports: its identifier, whether an earlier
/// artifact was replaced, and the published tool names.
#[derive(Debug)]
pub struct LoadResult {
    pub component_id: String,
    pub status: LoadStatus,
    pub tool_names: Vec<String>,
}

/// Whether a load introduced a new component or replaced one.
#[derive(Debug, Clone, Copy, PartialEq, Eq, Structural)]
pub enum LoadStatus {
    New,
    Replaced,
}

/// Why a per-call resolution failed.
#[derive(Debug, Clone, Copy, PartialEq, Eq, Structural)]
pub enum ResolveError {
    /// The tool name is in no loaded component's published list.
    ToolNotFound,
    /// The named component is not loaded.
    ComponentNotFound,
    /// The component exists but publishes no tool of that name.
    ToolNotInComponent,
}

/// One loaded component: its identifier and published tools.
pub struct ComponentEntry {
    pub component_id: String,
    pub tools: Vec<ToolDescriptor>,
}

/// One route from a tool name to the owning component.
pub struct ToolRoute {
    pub tool_name: String,
    pub component_id: String,
}

/// The registry.
pub struct Registry {
    pub components: Vec<ComponentEntry>,
    pub tool_index: Vec<ToolRoute>,
}

/// First entry with the given identifier, if any.
pub open spec fn spec_comp_lookup(s: Seq<ComponentEntry>, id: Seq<char>) -> Option<
    Seq<SpecDescriptor>,
>
    decreases s,
{
    if s.len() == 0 {
        None
    } else if s[0].component_id@ == id {
        Some(view_descriptors(s[0].tools@))
    } else {
        spec_comp_lookup(s.subrange(1, s.len() as int), id)
    }
}

/// First route for the given tool name, if any.
pub open spec fn spec_route_lookup(s: Seq<ToolRoute>, name: Seq<char>) -> Option<Seq<char>>
    decreases s,
{
    if s.len() == 0 {
        None
    } else if s[0].tool_name@ == name {
        Some(s[0].component_id@)
    } else {
        spec_route_lookup(s.subrange(1, s.len() as int), name)
    }
}

/// The names of a published tool list, in order.
pub open spec fn spec_tool_names(tools: Seq<SpecDescriptor>) -> Seq<Seq<char>> {
    Seq::new(tools.len(), |i: int| tools[i].name)
}

/// First tool of the given name in a published list.
pub open spec fn spec_find_tool(tools: Seq<SpecDescriptor>, name: Seq<char>) -> Option<
    SpecDescriptor,
>
    decreases tools.len(),
{
    if tools.len() == 0 {
        None
    } else if tools[0].name == name {
        Some(tools[0])
    } else {
        spec_find_tool(tools.subrange(1, tools.len() as int), name)
    }
}

impl Registry {
    /// Component identifiers are unique, and every published descriptor
    /// binds one name per parameter.
    pub open spec fn wf(self) -> bool {
        &&& forall|i: int, j: int|
            0 <= i < j < self.components@.len() ==> (#[trigger] self.components@[i]).component_id@
                != (#[trigger] self.components@[j]).component_id@
        &&& forall|i: int, j: int|
            0 <= i < j < self.tool_index@.len() ==> (#[trigger] self.tool_index@[i]).tool_name@
                != (#[trigger] self.tool_index@[j]).tool_name@
        &&& forall|i: int, j: int|
            0 <= i < self.components@.len() && 0 <= j < view_descriptors(
                (#[trigger] self.components@[i]).tools@,
            ).len() ==> spec_descriptor_wf(
                #[trigger] view_descriptors(self.components@[i].tools@)[j],
            )
    }

    /// A fresh registry with nothing loaded.
    pub fn new() -> (r: Registry)
        ensures
            r.wf(),
            r.components@.len() == 0,
            r.tool_index@.len() == 0,
    {
        Registry { components: Vec::new(), tool_index: Vec::new() }
    }

    /// Index of the entry with the given identifier, if any.
    fn find_component(&self, id: &str) -> (r: Option<usize>)
        ensures
            match r {
                Some(i) => i < self.components@.len() && self.components@[i as int].component_id@
                    == id@ && spec_comp_lookup(self.components@, id@) == Some(
                    view_descriptors(self.components@[i as int].tools@),
                ) && (forall|k: int|
                    0 <= k < i ==> (#[trigger] self.components@[k]).component_id@ != id@),
                None => spec_comp_lookup(self.components@, id@) is None && (forall|k: int|
                    0 <= k < self.components@.len() ==> (
                    #[trigger] self.components@[k]).component_id@ != id@),
            },
    {
        let mut i: usize = 0;
        while i < self.components.len()
            invariant
                i <= self.components@.len(),
                forall|k: int| 0 <= k < i ==> (#[trigger] self.components@[k]).component_id@
                    != id@,
            decreases self.components.len() - i,
        {
            if str_eq(self.components[i].component_id.as_str(), id) {
                proof {
                    lemma_comp_lookup_skip(self.components@, id@, i as int);
                    let sub = self.components@.subrange(i as int, self.components@.len() as int);
                    assert(sub[0] == self.components@[i as int]);
                }
                return Some(i);
            }
            i += 1;
        }
        proof {
            lemma_comp_lookup_skip(self.components@, id@, self.components@.len() as int);
        }
        None
    }

    /// Index of the route for the given tool name, if any.
    fn find_route(&self, name: &str) -> (r: Option<usize>)
        ensures
            match r {
                Some(i) => i < self.tool_index@.len() && self.tool_index@[i as int].tool_name@
                    == name@ && spec_route_lookup(self.tool_index@, name@) == Some(
                    self.tool_index@[i as int].component_id@,
                ),
                None => spec_route_lookup(self.tool_index@, name@) is None,
            },
    {
        let mut i: usize = 0;
        while i < self.tool_index.len()
            invariant
                i <= self.tool_index@.len(),
                forall|k: int| 0 <= k < i ==> (#[trigger] self.tool_index@[k]).tool_name@ != name@,
            decreases self.tool_index.len() - i,
        {
            if str_eq(self.tool_index[i].tool_name.as_str(), name) {
                proof {
                    lemma_route_lookup_skip(self.tool_index@, name@, i as int);
                    let sub = self.tool_index@.subrange(i as int, self.tool_index@.len() as int);
                    assert(sub[0] == self.tool_index@[i as int]);
                }
                return Some(i);
            }
            i += 1;
        }
        proof {
            lemma_route_lookup_skip(self.tool_index@, name@, self.tool_index@.len() as int);
        }
        None
    }

    /// Publishes a component's compiled tool list under its identifier:
    /// an existing entry of that identifier is replaced, and every
    /// published tool name is routed to this component, last
    /// registration winning. Routes of names this load does not publish
    /// are untouched.
    pub fn publish(&mut self, id: &str, tools: Vec<ToolDescriptor>) -> (status: LoadStatus)
        requires
            old(self).wf(),
            forall|j: int|
                0 <= j < view_descriptors(tools@).len() ==> spec_descriptor_wf(
                    #[trigger] view_descriptors(tools@)[j],
                ),
        ensures
            final(self).wf(),
            (status == LoadStatus::Replaced) == (spec_comp_lookup(old(self).components@, id@)
                is Some),
            spec_comp_lookup(final(self).components@, id@) == Some(view_descriptors(tools@)),
            forall|id2: Seq<char>|
                id2 != id@ ==> #[trigger] spec_comp_lookup(final(self).components@, id2)
                    == spec_comp_lookup(old(self).components@, id2),
            forall|name: Seq<char>|
                #[trigger] spec_route_lookup(final(self).tool_index@, name) == (
                if spec_tool_names(view_descriptors(tools@)).contains(name) {
                    Some(id@)
                } else {
                    spec_route_lookup(old(self).tool_index@, name)
                }),
    {
        let ghost tview = view_descriptors(tools@);
        let ghost tseq = tools@;
        proof {
            lemma_view_descriptors(tools@);
        }
        let found = self.find_component(id);
        let status: LoadStatus;
        let n: usize;
        match found {
            Some(i) => {
                status = LoadStatus::Replaced;
                let entry = ComponentEntry { component_id: id.to_owned(), tools };
                self.components.set(i, entry);
                n = i;
                proof {
                    lemma_set_comp_lookup(old(self).components@, self.components@, id@, i as int);
                    assert forall|x: int, y: int|
                        0 <= x < y < self.components@.len() implies (
                    #[trigger] self.components@[x]).component_id@ != (
                    #[trigger] self.components@[y]).component_id@ by {
                        assert(old(self).components@[x].component_id@ != old(
                            self,
                        ).components@[y].component_id@);
                        if x != i as int {
                            assert(self.components@[x] == old(self).components@[x]);
                        }
                        if y != i as int {
                            assert(self.components@[y] == old(self).components@[y]);
                        }
                    }
                }
            },
            None => {
                status = LoadStatus::New;
                let entry = ComponentEntry { component_id: id.to_owned(), tools };
                n = self.components.len();
                self.components.push(entry);
                proof {
                    lemma_push_comp_lookup(old(self).components@, self.components@, id@);
                    assert forall|x: int, y: int|
                        0 <= x < y < self.components@.len() implies (
                    #[trigger] self.components@[x]).component_id@ != (
                    #[trigger] self.components@[y]).component_id@ by {
                        if y < n as int {
                            assert(self.components@[x] == old(self).components@[x]);
                            assert(self.components@[y] == old(self).components@[y]);
                        } else {
                            assert(self.components@[x] == old(self).components@[x]);
                        }
                    }
                }
            },
        }
        proof {
            assert(self.components@[n as int].tools@ == tseq);
            assert forall|x: int, j: int|
                0 <= x < self.components@.len() && 0 <= j < view_descriptors(
                    (#[trigger] self.components@[x]).tools@,
                ).len() implies spec_descriptor_wf(
                #[trigger] view_descriptors(self.components@[x].tools@)[j],
            ) by {
                if x == n as int {
                } else {
                    assert(self.components@[x] == old(self).components@[x]);
                }
            }
        }
        let ghost comps = self.components@;
        let mut k: usize = 0;
        while k < self.components[n].tools.len()
            invariant
                n < self.components@.len(),
                self.components@ == comps,
                comps[n as int].tools@ == tseq,
                tview == view_descriptors(tseq),
                tview.len() == tseq.len(),
                forall|j: int| 0 <= j < tseq.len() ==> (#[trigger] tseq[j])@ == tview[j],
                k <= tseq.len(),
                forall|i: int, j: int|
                    0 <= i < j < self.tool_index@.len() ==> (
                    #[trigger] self.tool_index@[i]).tool_name@ != (
                    #[trigger] self.tool_index@[j]).tool_name@,
                forall|name: Seq<char>|
                    #[trigger] spec_route_lookup(self.tool_index@, name) == (
                    if spec_tool_names(tview).take(k as int).contains(name) {
                        Some(id@)
                    } else {
                        spec_route_lookup(old(self).tool_index@, name)
                    }),
            decreases self.components@[n as int].tools@.len() - k,
        {
            let tool_name = self.components[n].tools[k].name.clone();
            let route = ToolRoute { tool_name, component_id: id.to_owned() };
            route_upsert(&mut self.tool_index, route);
            proof {
                assert(spec_tool_names(tview).take(k as int + 1) =~= spec_tool_names(tview).take(
                    k as int,
                ).push(tview[k as int].name));
                assert forall|name: Seq<char>|
                    #[trigger] spec_route_lookup(self.tool_index@, name) == (
                    if spec_tool_names(tview).take(k as int + 1).contains(name) {
                        Some(id@)
                    } else {
                        spec_route_lookup(old(self).tool_index@, name)
                    }) by {
                    if name == tview[k as int].name {
                        assert(spec_tool_names(tview).take(k as int + 1).contains(name)) by {
                            assert(spec_tool_names(tview).take(k as int + 1).last() == name);
                        }
                    } else {
                        assert(spec_tool_names(tview).take(k as int + 1).contains(name)
                            == spec_tool_names(tview).take(k as int).contains(name)) by {
                            if spec_tool_names(tview).take(k as int + 1).contains(name) {
                                let w = choose|w: int|
                                    0 <= w < k as int + 1 && #[trigger] spec_tool_names(
                                        tview,
                                    ).take(k as int + 1)[w] == name;
                                assert(spec_tool_names(tview).take(k as int)[w] == name);
                            } else {
                                if spec_tool_names(tview).take(k as int).contains(name) {
                                    let w = choose|w: int|
                                        0 <= w < k as int && #[trigger] spec_tool_names(
                                            tview,
                                        ).take(k as int)[w] == name;
                                    assert(spec_tool_names(tview).take(k as int + 1)[w] == name);
                                }
                            }
                        }
                    }
                }
            }
            k += 1;
        }
        proof {
            assert(spec_tool_names(tview).take(tview.len() as int) =~= spec_tool_names(tview));
        }
        status
    }

    /// Removes a component: its entry leaves the registry, the routes of
    /// the tool names it published are dropped, and the persisted bytes
    /// are the caller's to delete. Unloading an unknown identifier is an
    /// error and changes nothing.
    pub fn unload(&mut self, id: &str) -> (r: Result<Vec<String>, ResolveError>)
        requires
            old(self).wf(),
        ensures
            final(self).wf(),
            (r is Ok) == (spec_comp_lookup(old(self).components@, id@) is Some),
            r is Err ==> *final(self) == *old(self) && r == Err::<Vec<String>, ResolveError>(
                ResolveError::ComponentNotFound,
            ),
            r is Ok ==> {
                let published = spec_comp_lookup(old(self).components@, id@)->Some_0;
                &&& view_names((r->Ok_0)@) == spec_tool_names(published)
                &&& spec_comp_lookup(final(self).components@, id@) is None
                &&& forall|id2: Seq<char>|
                    id2 != id@ ==> #[trigger] spec_comp_lookup(final(self).components@, id2)
                        == spec_comp_lookup(old(self).components@, id2)
                &&& forall|name: Seq<char>|
                    #[trigger] spec_route_lookup(final(self).tool_index@, name) == (
                    if spec_tool_names(published).contains(name) {
                        None
                    } else {
                        spec_route_lookup(old(self).tool_index@, name)
                    })
            },
    {
        let found = self.find_component(id);
        let i = match found {
            Some(i) => i,
            None => {
                return Err(ResolveError::ComponentNotFound);
            },
        };
        let names = collect_tool_names(&self.components[i].tools);
        let ghost published = view_descriptors(old(self).components@[i as int].tools@);
        let ghost nview = view_names(names@);
        proof {
            lemma_view_names(names@);
        }
        self.components.remove(i);
        proof {
            lemma_remove_comp_lookup(old(self).components@, self.components@, id@, i as int);
            assert forall|x: int, y: int|
                0 <= x < y < self.components@.len() implies (
            #[trigger] self.components@[x]).component_id@ != (
            #[trigger] self.components@[y]).component_id@ by {
                if x < i as int {
                    assert(self.components@[x] == old(self).components@[x]);
                } else {
                    assert(self.components@[x] == old(self).components@[x + 1]);
                }
                if y < i as int {
                    assert(self.components@[y] == old(self).components@[y]);
                } else {
                    assert(self.components@[y] == old(self).components@[y + 1]);
                }
            }
            assert forall|x: int, j: int|
                0 <= x < self.components@.len() && 0 <= j < view_descriptors(
                    (#[trigger] self.components@[x]).tools@,
                ).len() implies spec_descriptor_wf(
                #[trigger] view_descriptors(self.components@[x].tools@)[j],
            ) by {
                if x < i as int {
                    assert(self.components@[x] == old(self).components@[x]);
                } else {
                    assert(self.components@[x] == old(self).components@[x + 1]);
                }
            }
        }
        let ghost comps = self.components@;
        let mut k: usize = 0;
        while k < names.len()
            invariant
                k <= names@.len(),
                self.components@ == comps,
                nview == view_names(names@),
                nview.len() == names@.len(),
                forall|j: int| 0 <= j < names@.len() ==> (#[trigger] names@[j])@ == nview[j],
                forall|x: int, y: int|
                    0 <= x < y < self.tool_index@.len() ==> (
                    #[trigger] self.tool_index@[x]).tool_name@ != (
                    #[trigger] self.tool_index@[y]).tool_name@,
                forall|name: Seq<char>|
                    #[trigger] spec_route_lookup(self.tool_index@, name) == (
                    if nview.take(k as int).contains(name) {
                        None
                    } else {
                        spec_route_lookup(old(self).tool_index@, name)
                    }),
            decreases names@.len() - k,
        {
            route_remove(&mut self.tool_index, names[k].as_str());
            proof {
                assert(nview.take(k as int + 1) =~= nview.take(k as int).push(nview[k as int]));
                assert forall|name: Seq<char>|
                    #[trigger] spec_route_lookup(self.tool_index@, name) == (
                    if nview.take(k as int + 1).contains(name) {
                        None
                    } else {
                        spec_route_lookup(old(self).tool_index@, name)
                    }) by {
                    if name == nview[k as int] {
                        assert(nview.take(k as int + 1).contains(name)) by {
                            assert(nview.take(k as int + 1).last() == name);
                        }
                    } else {
                        assert(nview.take(k as int + 1).contains(name) == nview.take(
                            k as int,
                        ).contains(name)) by {
                            if nview.take(k as int + 1).contains(name) {
                                let w = choose|w: int|
                                    0 <= w < k as int + 1 && #[trigger] nview.take(
                                        k as int + 1,
                                    )[w] == name;
                                assert(nview.take(k as int)[w] == name);
                            } else {
                                if nview.take(k as int).contains(name) {
                                    let w = choose|w: int|
                                        0 <= w < k as int && #[trigger] nview.take(k as int)[w]
                                            == name;
                                    assert(nview.take(k as int + 1)[w] == name);
                                }
                            }
                        }
                    }
                }
            }
            k += 1;
        }
        proof {
            assert(nview.take(nview.len() as int) =~= nview);
            assert(nview =~= spec_tool_names(published));
        }
        Ok(names)
    }

    /// The identifiers of the loaded components, in load order.
    pub fn list_components(&self) -> (r: Vec<String>)
        ensures
            r@.len() == self.components@.len(),
            forall|i: int|
                0 <= i < r@.len() ==> (#[trigger] r@[i])@ == self.components@[i].component_id@,
    {
        let mut out: Vec<String> = Vec::new();
        let mut i: usize = 0;
        while i < self.components.len()
            invariant
                i <= self.components@.len(),
                out@.len() == i as int,
                forall|k: int|
                    0 <= k < i ==> (#[trigger] out@[k])@ == self.components@[k].component_id@,
            decreases self.components.len() - i,
        {
            out.push(self.components[i].component_id.clone());
            i += 1;
        }
        out
    }

    /// A snapshot of every published tool: name, description and input
    /// schema, component by component in load order.
    pub fn list_tools(&self) -> (r: Vec<Json>)
        ensures
            view_json_seq(r@) == spec_catalog(self.components@),
    {
        let mut out: Vec<Json> = Vec::new();
        let mut i: usize = 0;
        proof {
            lemma_view_json_seq(out@);
            assert(self.components@.subrange(0, self.components@.len() as int)
                =~= self.components@);
            assert(view_json_seq(out@) + spec_catalog(self.components@) =~= spec_catalog(
                self.components@,
            ));
        }
        while i < self.components.len()
            invariant
                i <= self.components@.len(),
                spec_catalog(self.components@) =~= view_json_seq(out@) + spec_catalog(
                    self.components@.subrange(i as int, self.components@.len() as int),
                ),
            decreases self.components.len() - i,
        {
            let ghost sub = self.components@.subrange(i as int, self.components@.len() as int);
            proof {
                assert(sub[0] == self.components@[i as int]);
                assert(sub.subrange(1, sub.len() as int) =~= self.components@.subrange(
                    i as int + 1,
                    self.components@.len() as int,
                ));
            }
            let entry = &self.components[i];
            let ghost tview = view_descriptors(entry.tools@);
            proof {
                lemma_view_descriptors(entry.tools@);
                assert(spec_catalog(sub) =~= spec_entry_summaries(tview) + spec_catalog(
                    sub.subrange(1, sub.len() as int),
                ));
            }
            let mut j: usize = 0;
            proof {
                assert(tview.subrange(0, tview.len() as int) =~= tview);
            }
            while j < entry.tools.len()
                invariant
                    j <= entry.tools@.len(),
                    tview == view_descriptors(entry.tools@),
                    tview.len() == entry.tools@.len(),
                    forall|w: int|
                        0 <= w < entry.tools@.len() ==> (#[trigger] entry.tools@[w])@ == tview[w],
                    spec_catalog(self.components@) =~= view_json_seq(out@)
                        + spec_entry_summaries(
                        tview.subrange(j as int, tview.len() as int),
                    ) + spec_catalog(
                        self.components@.subrange(i as int + 1, self.components@.len() as int),
                    ),
                decreases entry.tools@.len() - j,
            {
                let ghost tsub = tview.subrange(j as int, tview.len() as int);
                proof {
                    assert(tsub[0] == tview[j as int]);
                    assert(tsub.subrange(1, tsub.len() as int) =~= tview.subrange(
                        j as int + 1,
                        tview.len() as int,
                    ));
                }
                let d = &entry.tools[j];
                let mut fieldsv: Vec<JsonField> = Vec::new();
                fieldsv.push(JsonField { name: "name".to_owned(), value: Json::Str(d.name.clone()) });
                fieldsv.push(
                    JsonField {
                        name: "description".to_owned(),
                        value: Json::Str(d.description.clone()),
                    },
                );
                fieldsv.push(
                    JsonField { name: "inputSchema".to_owned(), value: d.input_schema.clone() },
                );
                let summary = Json::Obj(fieldsv);
                proof {
                    lemma_view_json_fields(fieldsv@);
                    assert(view_json_fields(fieldsv@) =~= seq![
                        (fieldsv@[0].name@, view_json(fieldsv@[0].value)),
                        (fieldsv@[1].name@, view_json(fieldsv@[1].value)),
                        (fieldsv@[2].name@, view_json(fieldsv@[2].value)),
                    ]);
                    assert(view_json(summary) =~= spec_tool_summary(tview[j as int]));
                    lemma_view_json_seq_push(out@, summary);
                    assert(spec_entry_summaries(tsub) =~= seq![spec_tool_summary(tsub[0])]
                        + spec_entry_summaries(tsub.subrange(1, tsub.len() as int)));
                    assert(view_json_seq(out@) + spec_entry_summaries(tsub)
                        =~= view_json_seq(out@.push(summary)) + spec_entry_summaries(
                        tsub.subrange(1, tsub.len() as int),
                    ));
                }
                out.push(summary);
                j += 1;
            }
            proof {
                assert(spec_entry_summaries(tview.subrange(tview.len() as int, tview.len() as int))
                    =~= Seq::<SpecJson>::empty());
            }
            i += 1;
        }
        proof {
            assert(spec_catalog(
                self.components@.subrange(
                    self.components@.len() as int,
                    self.components@.len() as int,
                ),
            ) =~= Seq::<SpecJson>::empty());
            assert(view_json_seq(out@) =~= spec_catalog(self.components@));
        }
        out
    }

    /// Resolves a call: an explicit component identifier wins, otherwise
    /// the flat tool-name index is consulted; then the named tool is
    /// looked up in the owning component's published list. Each failure
    /// is a distinct reported error, never a panic.
    pub fn resolve(&self, tool_name: &str, explicit: Option<&str>) -> (r: Result<
        (String, ToolDescriptor),
        ResolveError,
    >)
        ensures
            match r {
                Ok(p) => spec_resolve(
                    self.components@,
                    self.tool_index@,
                    tool_name@,
                    match explicit {
                        Option::None => Option::None,
                        Option::Some(c) => Option::Some(c@),
                    },
                ) == Ok::<(Seq<char>, SpecDescriptor), ResolveError>((p.0@, p.1@)),
                Err(e) => spec_resolve(
                    self.components@,
                    self.tool_index@,
                    tool_name@,
                    match explicit {
                        Option::None => Option::None,
                        Option::Some(c) => Option::Some(c@),
                    },
                ) == Err::<(Seq<char>, SpecDescriptor), ResolveError>(e),
            },
    {
        let cid: String = match explicit {
            Some(c) => c.to_owned(),
            None => {
                match self.find_route(tool_name) {
                    Some(i) => self.tool_index[i].component_id.clone(),
                    None => {
                        return Err(ResolveError::ToolNotFound);
                    },
                }
            },
        };
        let n = match self.find_component(cid.as_str()) {
            Some(n) => n,
            None => {
                return Err(ResolveError::ComponentNotFound);
            },
        };
        let entry = &self.components[n];
        let ghost tview = view_descriptors(entry.tools@);
        proof {
            lemma_view_descriptors(entry.tools@);
        }
        let mut j: usize = 0;
        while j < entry.tools.len()
            invariant
                j <= entry.tools@.len(),
                tview == view_descriptors(entry.tools@),
                tview.len() == entry.tools@.len(),
                match explicit {
                    Option::None => spec_route_lookup(self.tool_index@, tool_name@) == Some(
                        cid@,
                    ),
                    Option::Some(c) => cid@ == c@,
                },
                spec_comp_lookup(self.components@, cid@) == Some(tview),
                forall|w: int|
                    0 <= w < entry.tools@.len() ==> (#[trigger] entry.tools@[w])@ == tview[w],
                forall|w: int| 0 <= w < j ==> (#[trigger] tview[w]).name != tool_name@,
            decreases entry.tools@.len() - j,
        {
            if str_eq(entry.tools[j].name.as_str(), tool_name) {
                proof {
                    lemma_find_tool_skip(tview, tool_name@, j as int);
                    let sub = tview.subrange(j as int, tview.len() as int);
                    assert(sub[0] == tview[j as int]);
                }
                return Ok((cid, entry.tools[j].clone()));
            }
            j += 1;
        }
        proof {
            lemma_find_tool_skip(tview, tool_name@, tview.len() as int);
            assert(tview.subrange(tview.len() as int, tview.len() as int).len() == 0);
        }
        Err(ResolveError::ToolNotInComponent)
    }
}

/// What resolving a call comes to: the owning component, found directly
/// or through the flat index, and the named tool inside it.
pub open spec fn spec_resolve(
    comps: Seq<ComponentEntry>,
    routes: Seq<ToolRoute>,
    name: Seq<char>,
    explicit: Option<Seq<char>>,
) -> Result<(Seq<char>, SpecDescriptor), ResolveError> {
    let cid = match explicit {
        Some(c) => Some(c),
        None => spec_route_lookup(routes, name),
    };
    match cid {
        None => Err(ResolveError::ToolNotFound),
        Some(c) => match spec_comp_lookup(comps, c) {
            None => Err(ResolveError::ComponentNotFound),
            Some(tools) => match spec_find_tool(tools, name) {
                None => Err(ResolveError::ToolNotInComponent),
                Some(d) => Ok((c, d)),
            },
        },
    }
}

/// A tool name with no route and no explicit component resolves to a
/// resolution error: an unloaded or never-loaded tool is reported,
/// never called.
pub proof fn lemma_unknown_tool_resolution(r: Registry, name: Seq<char>)
    requires
        spec_route_lookup(r.tool_index@, name) is None,
    ensures
        spec_resolve(r.components@, r.tool_index@, name, None) == Err::<
            (Seq<char>, SpecDescriptor),
            ResolveError,
        >(ResolveError::ToolNotFound),
{
}

/// A name is found in a published list exactly when the list carries
/// it.
pub proof fn lemma_find_tool_by_name(tools: Seq<SpecDescriptor>, name: Seq<char>)
    ensures
        (spec_find_tool(tools, name) is Some) == spec_tool_names(tools).contains(name),
    decreases tools.len(),
{
    if tools.len() == 0 {
        assert(!spec_tool_names(tools).contains(name));
    } else if tools[0].name == name {
        assert(spec_tool_names(tools)[0] == name);
    } else {
        let tail = tools.subrange(1, tools.len() as int);
        lemma_find_tool_by_name(tail, name);
        assert forall|k: int| 0 <= k < tail.len() implies #[trigger] spec_tool_names(tail)[k]
            == spec_tool_names(tools)[k + 1] by {
            assert(tail[k] == tools[k + 1]);
        }
        if spec_tool_names(tools).contains(name) {
            let w = choose|w: int|
                0 <= w < tools.len() && #[trigger] spec_tool_names(tools)[w] == name;
            assert(w > 0);
            assert(spec_tool_names(tail)[w - 1] == name);
        }
        if spec_tool_names(tail).contains(name) {
            let w = choose|w: int|
                0 <= w < tail.len() && #[trigger] spec_tool_names(tail)[w] == name;
            assert(spec_tool_names(tools)[w + 1] == name);
        }
    }
}

/// Success is owed after a load: every tool name a component just
/// published resolves, without an explicit component identifier, to
/// that component and some tool of that name.
pub proof fn lemma_published_tool_resolves(
    r: Registry,
    id: Seq<char>,
    tools: Seq<SpecDescriptor>,
    name: Seq<char>,
)
    requires
        spec_comp_lookup(r.components@, id) == Some(tools),
        spec_route_lookup(r.tool_index@, name) == Some(id),
        spec_tool_names(tools).contains(name),
    ensures
        spec_resolve(r.components@, r.tool_index@, name, None) matches Ok(p) && p.0 == id
            && p.1.name == name,
{
    lemma_find_tool_by_name(tools, name);
    lemma_find_tool_named(tools, name);
}

/// A found tool carries the name it was found by.
proof fn lemma_find_tool_named(tools: Seq<SpecDescriptor>, name: Seq<char>)
    requires
        spec_find_tool(tools, name) is Some,
    ensures
        spec_find_tool(tools, name)->Some_0.name == name,
    decreases tools.len(),
{
    if tools.len() > 0 && tools[0].name != name {
        lemma_find_tool_named(tools.subrange(1, tools.len() as int), name);
    }
}

/// One tool's catalog entry.
pub open spec fn spec_tool_summary(d: SpecDescriptor) -> SpecJson {
    SpecJson::Obj(
        seq![
            ("name"@, SpecJson::Str(d.name)),
            ("description"@, SpecJson::Str(d.description)),
            ("inputSchema"@, d.input_schema),
        ],
    )
}

/// The catalog entries of one component's published list, in order.
pub open spec fn spec_entry_summaries(tools: Seq<SpecDescriptor>) -> Seq<SpecJson>
    decreases tools.len(),
{
    if tools.len() == 0 {
        Seq::empty()
    } else {
        seq![spec_tool_summary(tools[0])] + spec_entry_summaries(
            tools.subrange(1, tools.len() as int),
        )
    }
}

/// The whole catalog, component by component.
pub open spec fn spec_catalog(comps: Seq<ComponentEntry>) -> Seq<SpecJson>
    decreases comps,
{
    if comps.len() == 0 {
        Seq::empty()
    } else {
        spec_entry_summaries(view_descriptors(comps[0].tools@)) + spec_catalog(
            comps.subrange(1, comps.len() as int),
        )
    }
}

/// The catalog entries of one list, pointwise.
pub proof fn lemma_entry_summaries(tools: Seq<SpecDescriptor>)
    ensures
        spec_entry_summaries(tools).len() == tools.len(),
        forall|i: int|
            0 <= i < tools.len() ==> spec_entry_summaries(tools)[i] == spec_tool_summary(
                #[trigger] tools[i],
            ),
    decreases tools.len(),
{
    if tools.len() > 0 {
        let tail = tools.subrange(1, tools.len() as int);
        lemma_entry_summaries(tail);
        assert forall|i: int| 0 <= i < tools.len() implies spec_entry_summaries(tools)[i]
            == spec_tool_summary(tools[i]) by {
            if i > 0 {
                assert(tail[i - 1] == tools[i]);
                assert(spec_entry_summaries(tools)[i] == spec_entry_summaries(tail)[i - 1]);
            }
        }
    }
}

/// The catalog holds exactly the tools of the loaded components: every
/// published tool's entry appears, and every entry is some published
/// tool's. Listing is exhaustive and invents nothing.
pub proof fn lemma_catalog_exact(comps: Seq<ComponentEntry>)
    ensures
        forall|i: int, j: int|
            0 <= i < comps.len() && 0 <= j < view_descriptors(
                (#[trigger] comps[i]).tools@,
            ).len() ==> spec_catalog(comps).contains(
                spec_tool_summary(#[trigger] view_descriptors(comps[i].tools@)[j]),
            ),
        forall|k: int|
            0 <= k < spec_catalog(comps).len() ==> exists|i: int, j: int|
                0 <= i < comps.len() && 0 <= j < view_descriptors((comps[i]).tools@).len()
                    && #[trigger] spec_catalog(comps)[k] == spec_tool_summary(
                    #[trigger] view_descriptors(comps[i].tools@)[j],
                ),
    decreases comps,
{
    if comps.len() > 0 {
        let tail = comps.subrange(1, comps.len() as int);
        lemma_catalog_exact(tail);
        let head = spec_entry_summaries(view_descriptors(comps[0].tools@));
        lemma_entry_summaries(view_descriptors(comps[0].tools@));
        assert forall|i: int, j: int|
            0 <= i < comps.len() && 0 <= j < view_descriptors(
                (#[trigger] comps[i]).tools@,
            ).len() implies spec_catalog(comps).contains(
            spec_tool_summary(#[trigger] view_descriptors(comps[i].tools@)[j]),
        ) by {
            if i == 0 {
                assert(spec_catalog(comps)[j] == head[j]);
            } else {
                assert(tail[i - 1] == comps[i]);
                assert(spec_catalog(tail).contains(
                    spec_tool_summary(view_descriptors(tail[i - 1].tools@)[j]),
                ));
                let w = choose|w: int|
                    0 <= w < spec_catalog(tail).len() && #[trigger] spec_catalog(tail)[w]
                        == spec_tool_summary(view_descriptors(tail[i - 1].tools@)[j]);
                assert(spec_catalog(comps)[head.len() + w] == spec_catalog(tail)[w]);
            }
        }
        assert forall|k: int|
            0 <= k < spec_catalog(comps).len() implies exists|i: int, j: int|
            0 <= i < comps.len() && 0 <= j < view_descriptors((comps[i]).tools@).len()
                && #[trigger] spec_catalog(comps)[k] == spec_tool_summary(
                #[trigger] view_descriptors(comps[i].tools@)[j],
            ) by {
            if k < head.len() {
                assert(spec_catalog(comps)[k] == spec_tool_summary(
                    view_descriptors(comps[0].tools@)[k],
                ));
            } else {
                let k2 = k - head.len();
                assert(spec_catalog(comps)[k] == spec_catalog(tail)[k2]);
                let (i2, j2): (int, int) = choose|i2: int, j2: int|
                    0 <= i2 < tail.len() && 0 <= j2 < view_descriptors((tail[i2]).tools@).len()
                        && #[trigger] spec_catalog(tail)[k2] == spec_tool_summary(
                        #[trigger] view_descriptors(tail[i2].tools@)[j2],
                    );
                assert(tail[i2] == comps[i2 + 1]);
                assert(spec_catalog(comps)[k] == spec_tool_summary(
                    view_descriptors(comps[i2 + 1].tools@)[j2],
                ));
            }
        }
    }
}

/// Two registries loaded with the same components, in whatever order,
/// publish catalogs with the same entries: what a caller discovers does
/// not depend on load order.
pub proof fn lemma_catalog_order_independent(c1: Seq<ComponentEntry>, c2: Seq<ComponentEntry>)
    requires
        forall|e: ComponentEntry| c1.contains(e) == c2.contains(e),
    ensures
        forall|s: SpecJson| spec_catalog(c1).contains(s) == spec_catalog(c2).contains(s),
{
    lemma_catalog_exact(c1);
    lemma_catalog_exact(c2);
    assert forall|s: SpecJson|
        spec_catalog(c1).contains(s) implies spec_catalog(c2).contains(s) by {
        lemma_catalog_half(c1, c2, s);
    }
    assert forall|s: SpecJson|
        spec_catalog(c2).contains(s) implies spec_catalog(c1).contains(s) by {
        lemma_catalog_half(c2, c1, s);
    }
    assert forall|s: SpecJson|
        spec_catalog(c1).contains(s) == spec_catalog(c2).contains(s) by {
        if spec_catalog(c1).contains(s) {
            lemma_catalog_half(c1, c2, s);
        }
        if spec_catalog(c2).contains(s) {
            lemma_catalog_half(c2, c1, s);
        }
    }
}

/// A name that no loaded component publishes names no catalog entry
/// either. With `unload`'s own clauses this carries the removal to the
/// name level: after unloading a component, none of its tool names is
/// listed, provided no remaining component publishes a tool under the
/// same name.
pub proof fn lemma_absent_name_unlisted(comps: Seq<ComponentEntry>, name: Seq<char>)
    requires
        forall|i: int|
            0 <= i < comps.len() ==> !spec_tool_names(
                view_descriptors((#[trigger] comps[i]).tools@),
            ).contains(name),
    ensures
        forall|k: int|
            0 <= k < spec_catalog(comps).len() ==> spec_obj_get(
                (#[trigger] spec_catalog(comps)[k])->Obj_0,
                "name"@,
            ) != Some(SpecJson::Str(name)),
{
    lemma_catalog_exact(comps);
    assert forall|k: int| 0 <= k < spec_catalog(comps).len() implies spec_obj_get(
        (#[trigger] spec_catalog(comps)[k])->Obj_0,
        "name"@,
    ) != Some(SpecJson::Str(name)) by {
        let (i, j): (int, int) = choose|i: int, j: int|
            0 <= i < comps.len() && 0 <= j < view_descriptors((comps[i]).tools@).len()
                && #[trigger] spec_catalog(comps)[k] == spec_tool_summary(
                #[trigger] view_descriptors(comps[i].tools@)[j],
            );
        let ts = view_descriptors(comps[i].tools@);
        let d = ts[j];
        assert(spec_tool_names(ts)[j] == d.name);
        assert(d.name != name);
        let entries = spec_catalog(comps)[k]->Obj_0;
        assert(entries[0] == ("name"@, SpecJson::Str(d.name)));
        assert(spec_obj_get(entries, "name"@) == Some(SpecJson::Str(d.name)));
    }
}

proof fn lemma_catalog_half(c1: Seq<ComponentEntry>, c2: Seq<ComponentEntry>, s: SpecJson)
    requires
        forall|e: ComponentEntry| c1.contains(e) ==> c2.contains(e),
        spec_catalog(c1).contains(s),
    ensures
        spec_catalog(c2).contains(s),
{
    lemma_catalog_exact(c1);
    lemma_catalog_exact(c2);
    let k = choose|k: int| 0 <= k < spec_catalog(c1).len() && spec_catalog(c1)[k] == s;
    let (i, j): (int, int) = choose|i: int, j: int|
        0 <= i < c1.len() && 0 <= j < view_descriptors((c1[i]).tools@).len()
            && #[trigger] spec_catalog(c1)[k] == spec_tool_summary(
            #[trigger] view_descriptors(c1[i].tools@)[j],
        );
    assert(c1.contains(c1[i]));
    assert(c2.contains(c1[i]));
    let i2 = choose|i2: int| 0 <= i2 < c2.len() && c2[i2] == c1[i];
    assert(spec_catalog(c2).contains(spec_tool_summary(view_descriptors(c2[i2].tools@)[j])));
}

/// A successful identifier lookup hands back some loaded entry's list.
pub proof fn lemma_comp_lookup_member(s: Seq<ComponentEntry>, id: Seq<char>)
    requires
        spec_comp_lookup(s, id) is Some,
    ensures
        exists|i: int|
            0 <= i < s.len() && spec_comp_lookup(s, id) == Some(
                view_descriptors((#[trigger] s[i]).tools@),
            ),
    decreases s,
{
    if s.len() > 0 {
        if s[0].component_id@ == id {
            assert(spec_comp_lookup(s, id) == Some(view_descriptors((s[0]).tools@)));
        } else {
            let tail = s.subrange(1, s.len() as int);
            lemma_comp_lookup_member(tail, id);
            let i = choose|i: int|
                0 <= i < tail.len() && spec_comp_lookup(tail, id) == Some(
                    view_descriptors((#[trigger] tail[i]).tools@),
                );
            assert(tail[i] == s[i + 1]);
            assert(spec_comp_lookup(s, id) == Some(view_descriptors((s[i + 1]).tools@)));
        }
    }
}

/// A found tool is one of the list's own descriptors.
pub proof fn lemma_find_tool_member(tools: Seq<SpecDescriptor>, name: Seq<char>)
    requires
        spec_find_tool(tools, name) is Some,
    ensures
        exists|j: int|
            0 <= j < tools.len() && spec_find_tool(tools, name) == Some(#[trigger] tools[j]),
    decreases tools.len(),
{
    if tools.len() > 0 {
        if tools[0].name == name {
            assert(spec_find_tool(tools, name) == Some(tools[0]));
        } else {
            let tail = tools.subrange(1, tools.len() as int);
            lemma_find_tool_member(tail, name);
            let j = choose|j: int|
                0 <= j < tail.len() && spec_find_tool(tail, name) == Some(#[trigger] tail[j]);
            assert(tail[j] == tools[j + 1]);
            assert(spec_find_tool(tools, name) == Some(tools[j + 1]));
        }
    }
}

/// Every descriptor a well-formed registry resolves to is itself well
/// formed: it binds one name per parameter.
pub proof fn lemma_resolved_descriptor_wf(
    r: Registry,
    name: Seq<char>,
    explicit: Option<Seq<char>>,
)
    requires
        r.wf(),
        spec_resolve(r.components@, r.tool_index@, name, explicit) is Ok,
    ensures
        spec_descriptor_wf(
            spec_resolve(r.components@, r.tool_index@, name, explicit)->Ok_0.1,
        ),
{
    let cid = match explicit {
        Some(c) => c,
        None => spec_route_lookup(r.tool_index@, name)->Some_0,
    };
    lemma_comp_lookup_member(r.components@, cid);
    let i = choose|i: int|
        0 <= i < r.components@.len() && spec_comp_lookup(r.components@, cid) == Some(
            view_descriptors((#[trigger] r.components@[i]).tools@),
        );
    let tools = view_descriptors(r.components@[i].tools@);
    lemma_find_tool_member(tools, name);
    let j = choose|j: int|
        0 <= j < tools.len() && spec_find_tool(tools, name) == Some(#[trigger] tools[j]);
    assert(spec_descriptor_wf(view_descriptors(r.components@[i].tools@)[j]));
}

/// First tool of a name is unmoved by dropping earlier other names.
pub proof fn lemma_find_tool_skip(tools: Seq<SpecDescriptor>, name: Seq<char>, i: int)
    requires
        0 <= i <= tools.len(),
        forall|k: int| 0 <= k < i ==> (#[trigger] tools[k]).name != name,
    ensures
        spec_find_tool(tools, name) == spec_find_tool(
            tools.subrange(i, tools.len() as int),
            name,
        ),
    decreases i,
{
    if i > 0 {
        assert((tools[0]).name != name);
        let tail = tools.subrange(1, tools.len() as int);
        assert(spec_find_tool(tools, name) == spec_find_tool(tail, name));
        assert forall|k: int| 0 <= k < i - 1 implies (#[trigger] tail[k]).name != name by {
            assert(tail[k] == tools[k + 1]);
        }
        lemma_find_tool_skip(tail, name, i - 1);
        assert(tail.subrange(i - 1, tail.len() as int) =~= tools.subrange(i, tools.len() as int));
    } else {
        assert(tools.subrange(0, tools.len() as int) =~= tools);
    }
}

/// Appending a JSON value appends its view.
pub proof fn lemma_view_json_seq_push(s: Seq<Json>, j: Json)
    ensures
        view_json_seq(s.push(j)) == view_json_seq(s) + seq![view_json(j)],
{
    lemma_view_json_seq(s.push(j));
    lemma_view_json_seq(s);
    assert forall|k: int|
        0 <= k < s.len() + 1 implies view_json_seq(s.push(j))[k] == (view_json_seq(s) + seq![
            view_json(j),
        ])[k] by {
        if k < s.len() {
            assert(s.push(j)[k] == s[k]);
        } else {
            assert(s.push(j)[k] == j);
        }
    }
    assert(view_json_seq(s.push(j)) =~= view_json_seq(s) + seq![view_json(j)]);
}

/// The names of a published list, collected.
pub fn collect_tool_names(tools: &Vec<ToolDescriptor>) -> (r: Vec<String>)
    ensures
        view_names(r@) == spec_tool_names(view_descriptors(tools@)),
        r@.len() == tools@.len(),
{
    proof {
        lemma_view_descriptors(tools@);
    }
    let mut out: Vec<String> = Vec::new();
    let mut i: usize = 0;
    while i < tools.len()
        invariant
            i <= tools@.len(),
            out@.len() == i as int,
            view_descriptors(tools@).len() == tools@.len(),
            forall|w: int|
                0 <= w < tools@.len() ==> (#[trigger] tools@[w])@ == view_descriptors(tools@)[w],
            forall|k: int|
                0 <= k < i ==> (#[trigger] out@[k])@ == view_descriptors(tools@)[k].name,
        decreases tools.len() - i,
    {
        out.push(tools[i].name.clone());
        i += 1;
    }
    proof {
        lemma_view_names(out@);
        assert forall|k: int| 0 <= k < out@.len() implies view_names(out@)[k] == spec_tool_names(
            view_descriptors(tools@),
        )[k] by {
            assert(out@[k]@ == view_descriptors(tools@)[k].name);
        }
        assert(view_names(out@) =~= spec_tool_names(view_descriptors(tools@)));
    }
    out
}

/// Removing the unique entry of an identifier removes its lookup and
/// keeps the others.
proof fn lemma_remove_comp_lookup(
    olds: Seq<ComponentEntry>,
    news: Seq<ComponentEntry>,
    id: Seq<char>,
    i: int,
)
    requires
        0 <= i < olds.len(),
        news == olds.remove(i),
        olds[i].component_id@ == id,
        forall|k: int| 0 <= k < olds.len() && k != i ==> (#[trigger] olds[k]).component_id@ != id,
    ensures
        spec_comp_lookup(news, id) is None,
        forall|id2: Seq<char>|
            id2 != id ==> #[trigger] spec_comp_lookup(news, id2) == spec_comp_lookup(olds, id2),
    decreases i,
{
    if i == 0 {
        assert(news =~= olds.subrange(1, olds.len() as int));
        lemma_comp_lookup_none(news, id);
        assert forall|id2: Seq<char>|
            id2 != id implies #[trigger] spec_comp_lookup(news, id2) == spec_comp_lookup(
            olds,
            id2,
        ) by {
            assert(spec_comp_lookup(olds, id2) == spec_comp_lookup(
                olds.subrange(1, olds.len() as int),
                id2,
            ));
        }
    } else {
        let tn = news.subrange(1, news.len() as int);
        let to = olds.subrange(1, olds.len() as int);
        assert(news[0] == olds[0]);
        assert(olds[0].component_id@ != id);
        assert(tn =~= to.remove(i - 1));
        assert(to[i - 1] == olds[i]);
        assert forall|k: int|
            0 <= k < to.len() && k != i - 1 implies (#[trigger] to[k]).component_id@ != id by {
            assert(to[k] == olds[k + 1]);
        }
        lemma_remove_comp_lookup(to, tn, id, i - 1);
        assert forall|id2: Seq<char>|
            id2 != id implies #[trigger] spec_comp_lookup(news, id2) == spec_comp_lookup(
            olds,
            id2,
        ) by {
            if olds[0].component_id@ == id2 {
            } else {
                assert(spec_comp_lookup(news, id2) == spec_comp_lookup(tn, id2));
                assert(spec_comp_lookup(olds, id2) == spec_comp_lookup(to, id2));
            }
        }
    }
}

/// A lookup over entries none of which carry the identifier is empty.
proof fn lemma_comp_lookup_none(s: Seq<ComponentEntry>, id: Seq<char>)
    requires
        forall|k: int| 0 <= k < s.len() ==> (#[trigger] s[k]).component_id@ != id,
    ensures
        spec_comp_lookup(s, id) is None,
    decreases s,
{
    if s.len() > 0 {
        let tail = s.subrange(1, s.len() as int);
        assert forall|k: int| 0 <= k < tail.len() implies (#[trigger] tail[k]).component_id@
            != id by {
            assert(tail[k] == s[k + 1]);
        }
        lemma_comp_lookup_none(tail, id);
    }
}

/// Drops the route of one tool name, if present.
fn route_remove(routes: &mut Vec<ToolRoute>, name: &str)
    requires
        forall|i: int, j: int|
            0 <= i < j < old(routes)@.len() ==> (#[trigger] old(routes)@[i]).tool_name@ != (
            #[trigger] old(routes)@[j]).tool_name@,
    ensures
        forall|name2: Seq<char>|
            #[trigger] spec_route_lookup(final(routes)@, name2) == (
            if name2 == name@ {
                None
            } else {
                spec_route_lookup(old(routes)@, name2)
            }),
        forall|i: int, j: int|
            0 <= i < j < final(routes)@.len() ==> (#[trigger] final(routes)@[i]).tool_name@ != (
            #[trigger] final(routes)@[j]).tool_name@,
{
    let mut i: usize = 0;
    while i < routes.len()
        invariant
            i <= routes@.len(),
            routes@ == old(routes)@,
            forall|x: int, y: int|
                0 <= x < y < routes@.len() ==> (#[trigger] routes@[x]).tool_name@ != (
                #[trigger] routes@[y]).tool_name@,
            forall|k: int| 0 <= k < i ==> (#[trigger] routes@[k]).tool_name@ != name@,
        decreases routes.len() - i,
    {
        if str_eq(routes[i].tool_name.as_str(), name) {
            let ghost olds = routes@;
            let ghost iv = i as int;
            routes.remove(i);
            proof {
                lemma_route_remove(olds, routes@, iv);
                assert forall|x: int, y: int|
                    0 <= x < y < routes@.len() implies (#[trigger] routes@[x]).tool_name@ != (
                #[trigger] routes@[y]).tool_name@ by {
                    if x < iv {
                        assert(routes@[x] == olds[x]);
                    } else {
                        assert(routes@[x] == olds[x + 1]);
                    }
                    if y < iv {
                        assert(routes@[y] == olds[y]);
                    } else {
                        assert(routes@[y] == olds[y + 1]);
                    }
                }
            }
            return ;
        }
        i += 1;
    }
    proof {
        lemma_route_lookup_none(routes@, name@);
    }
}

/// Removing the unique route of a name removes its lookup and keeps the
/// others.
proof fn lemma_route_remove(olds: Seq<ToolRoute>, news: Seq<ToolRoute>, i: int)
    requires
        0 <= i < olds.len(),
        news == olds.remove(i),
        forall|k: int|
            0 <= k < olds.len() && k != i ==> (#[trigger] olds[k]).tool_name@
                != olds[i].tool_name@,
    ensures
        forall|name2: Seq<char>|
            #[trigger] spec_route_lookup(news, name2) == (
            if name2 == olds[i].tool_name@ {
                None
            } else {
                spec_route_lookup(olds, name2)
            }),
    decreases i,
{
    if i == 0 {
        assert(news =~= olds.subrange(1, olds.len() as int));
        assert forall|name2: Seq<char>|
            #[trigger] spec_route_lookup(news, name2) == (
            if name2 == olds[0].tool_name@ {
                None
            } else {
                spec_route_lookup(olds, name2)
            }) by {
            if name2 == olds[0].tool_name@ {
                assert forall|k: int| 0 <= k < news.len() implies (
                #[trigger] news[k]).tool_name@ != name2 by {
                    assert(news[k] == olds[k + 1]);
                }
                lemma_route_lookup_none(news, name2);
            }
        }
    } else {
        let tn = news.subrange(1, news.len() as int);
        let to = olds.subrange(1, olds.len() as int);
        assert(news[0] == olds[0]);
        assert(tn =~= to.remove(i - 1));
        assert(to[i - 1] == olds[i]);
        assert(olds[0].tool_name@ != olds[i].tool_name@);
        assert forall|k: int|
            0 <= k < to.len() && k != i - 1 implies (#[trigger] to[k]).tool_name@
                != to[i - 1].tool_name@ by {
            assert(to[k] == olds[k + 1]);
        }
        lemma_route_remove(to, tn, i - 1);
        assert forall|name2: Seq<char>|
            #[trigger] spec_route_lookup(news, name2) == (
            if name2 == olds[i].tool_name@ {
                None
            } else {
                spec_route_lookup(olds, name2)
            }) by {
            if olds[0].tool_name@ == name2 {
            } else {
                assert(spec_route_lookup(news, name2) == spec_route_lookup(tn, name2));
                assert(spec_route_lookup(olds, name2) == spec_route_lookup(to, name2));
            }
        }
    }
}

/// A lookup over routes none of which carry the name is empty.
proof fn lemma_route_lookup_none(s: Seq<ToolRoute>, name: Seq<char>)
    requires
        forall|k: int| 0 <= k < s.len() ==> (#[trigger] s[k]).tool_name@ != name,
    ensures
        spec_route_lookup(s, name) is None,
    decreases s,
{
    if s.len() > 0 {
        let tail = s.subrange(1, s.len() as int);
        assert forall|k: int| 0 <= k < tail.len() implies (#[trigger] tail[k]).tool_name@
            != name by {
            assert(tail[k] == s[k + 1]);
        }
        lemma_route_lookup_none(tail, name);
    }
}

/// Looking an identifier up is unmoved by dropping non-matching entries.
pub proof fn lemma_comp_lookup_skip(s: Seq<ComponentEntry>, id: Seq<char>, i: int)
    requires
        0 <= i <= s.len(),
        forall|k: int| 0 <= k < i ==> (#[trigger] s[k]).component_id@ != id,
    ensures
        spec_comp_lookup(s, id) == spec_comp_lookup(s.subrange(i, s.len() as int), id),
    decreases i,
{
    if i > 0 {
        assert((s[0]).component_id@ != id);
        let tail = s.subrange(1, s.len() as int);
        assert(spec_comp_lookup(s, id) == spec_comp_lookup(tail, id));
        assert forall|k: int| 0 <= k < i - 1 implies (#[trigger] tail[k]).component_id@ != id by {
            assert(tail[k] == s[k + 1]);
        }
        lemma_comp_lookup_skip(tail, id, i - 1);
        assert(tail.subrange(i - 1, tail.len() as int) =~= s.subrange(i, s.len() as int));
    } else {
        assert(s.subrange(0, s.len() as int) =~= s);
    }
}

/// The same for tool-name routes.
pub proof fn lemma_route_lookup_skip(s: Seq<ToolRoute>, name: Seq<char>, i: int)
    requires
        0 <= i <= s.len(),
        forall|k: int| 0 <= k < i ==> (#[trigger] s[k]).tool_name@ != name,
    ensures
        spec_route_lookup(s, name) == spec_route_lookup(s.subrange(i, s.len() as int), name),
    decreases i,
{
    if i > 0 {
        assert((s[0]).tool_name@ != name);
        let tail = s.subrange(1, s.len() as int);
        assert(spec_route_lookup(s, name) == spec_route_lookup(tail, name));
        assert forall|k: int| 0 <= k < i - 1 implies (#[trigger] tail[k]).tool_name@ != name by {
            assert(tail[k] == s[k + 1]);
        }
        lemma_route_lookup_skip(tail, name, i - 1);
        assert(tail.subrange(i - 1, tail.len() as int) =~= s.subrange(i, s.len() as int));
    } else {
        assert(s.subrange(0, s.len() as int) =~= s);
    }
}

/// Replacing the unique entry of an identifier changes only that
/// identifier's lookup.
proof fn lemma_set_comp_lookup(
    olds: Seq<ComponentEntry>,
    news: Seq<ComponentEntry>,
    id: Seq<char>,
    i: int,
)
    requires
        0 <= i < olds.len(),
        news.len() == olds.len(),
        news[i].component_id@ == id,
        olds[i].component_id@ == id,
        forall|k: int| 0 <= k < olds.len() && k != i ==> news[k] == olds[k],
        forall|k: int| 0 <= k < i ==> (#[trigger] olds[k]).component_id@ != id,
    ensures
        spec_comp_lookup(news, id) == Some(view_descriptors(news[i].tools@)),
        forall|id2: Seq<char>|
            id2 != id ==> #[trigger] spec_comp_lookup(news, id2) == spec_comp_lookup(olds, id2),
    decreases i,
{
    if i == 0 {
        assert forall|id2: Seq<char>|
            id2 != id implies #[trigger] spec_comp_lookup(news, id2) == spec_comp_lookup(
            olds,
            id2,
        ) by {
            assert(news.subrange(1, news.len() as int) =~= olds.subrange(1, olds.len() as int));
        }
    } else {
        let tn = news.subrange(1, news.len() as int);
        let to = olds.subrange(1, olds.len() as int);
        assert(news[0] == olds[0]);
        assert(olds[0].component_id@ != id);
        assert forall|k: int| 0 <= k < to.len() && k != i - 1 implies tn[k] == to[k] by {
            assert(tn[k] == news[k + 1]);
            assert(to[k] == olds[k + 1]);
        }
        assert forall|k: int| 0 <= k < i - 1 implies (#[trigger] to[k]).component_id@ != id by {
            assert(to[k] == olds[k + 1]);
        }
        assert(tn[i - 1] == news[i]);
        assert(to[i - 1] == olds[i]);
        lemma_set_comp_lookup(to, tn, id, i - 1);
        assert forall|id2: Seq<char>|
            id2 != id implies #[trigger] spec_comp_lookup(news, id2) == spec_comp_lookup(
            olds,
            id2,
        ) by {
            if olds[0].component_id@ == id2 {
            } else {
                assert(spec_comp_lookup(news, id2) == spec_comp_lookup(tn, id2));
                assert(spec_comp_lookup(olds, id2) == spec_comp_lookup(to, id2));
            }
        }
    }
}

/// Appending a new identifier adds its lookup and keeps the others.
proof fn lemma_push_comp_lookup(olds: Seq<ComponentEntry>, news: Seq<ComponentEntry>, id: Seq<char>)
    requires
        news.len() == olds.len() + 1,
        forall|k: int| 0 <= k < olds.len() ==> news[k] == olds[k],
        news[olds.len() as int].component_id@ == id,
        forall|k: int| 0 <= k < olds.len() ==> (#[trigger] olds[k]).component_id@ != id,
    ensures
        spec_comp_lookup(news, id) == Some(view_descriptors(news[olds.len() as int].tools@)),
        forall|id2: Seq<char>|
            id2 != id ==> #[trigger] spec_comp_lookup(news, id2) == spec_comp_lookup(olds, id2),
    decreases olds.len(),
{
    if olds.len() == 0 {
        assert forall|id2: Seq<char>|
            id2 != id implies #[trigger] spec_comp_lookup(news, id2) == spec_comp_lookup(
            olds,
            id2,
        ) by {
            assert(news[0].component_id@ == id);
            assert(news.subrange(1, news.len() as int).len() == 0);
            assert(spec_comp_lookup(news.subrange(1, news.len() as int), id2) is None);
            assert(spec_comp_lookup(news, id2) is None);
            assert(spec_comp_lookup(olds, id2) is None);
        }
    } else {
        let tn = news.subrange(1, news.len() as int);
        let to = olds.subrange(1, olds.len() as int);
        assert(news[0] == olds[0]);
        assert(olds[0].component_id@ != id);
        assert forall|k: int| 0 <= k < to.len() implies tn[k] == to[k] by {
            assert(tn[k] == news[k + 1]);
            assert(to[k] == olds[k + 1]);
        }
        assert forall|k: int| 0 <= k < to.len() implies (#[trigger] to[k]).component_id@ != id by {
            assert(to[k] == olds[k + 1]);
        }
        assert(tn[to.len() as int] == news[olds.len() as int]);
        lemma_push_comp_lookup(to, tn, id);
        assert forall|id2: Seq<char>|
            id2 != id implies #[trigger] spec_comp_lookup(news, id2) == spec_comp_lookup(
            olds,
            id2,
        ) by {
            if olds[0].component_id@ == id2 {
            } else {
                assert(spec_comp_lookup(news, id2) == spec_comp_lookup(tn, id2));
                assert(spec_comp_lookup(olds, id2) == spec_comp_lookup(to, id2));
            }
        }
    }
}

/// Adds or replaces the route of one tool name.
fn route_upsert(routes: &mut Vec<ToolRoute>, route: ToolRoute)
    requires
        forall|i: int, j: int|
            0 <= i < j < old(routes)@.len() ==> (#[trigger] old(routes)@[i]).tool_name@ != (
            #[trigger] old(routes)@[j]).tool_name@,
    ensures
        forall|name: Seq<char>|
            #[trigger] spec_route_lookup(final(routes)@, name) == (
            if name == route.tool_name@ {
                Some(route.component_id@)
            } else {
                spec_route_lookup(old(routes)@, name)
            }),
        forall|i: int, j: int|
            0 <= i < j < final(routes)@.len() ==> (#[trigger] final(routes)@[i]).tool_name@ != (
            #[trigger] final(routes)@[j]).tool_name@,
{
    let mut i: usize = 0;
    while i < routes.len()
        invariant
            i <= routes@.len(),
            routes@ == old(routes)@,
            forall|x: int, y: int|
                0 <= x < y < routes@.len() ==> (#[trigger] routes@[x]).tool_name@ != (
                #[trigger] routes@[y]).tool_name@,
            forall|k: int| 0 <= k < i ==> (#[trigger] routes@[k]).tool_name@ != route.tool_name@,
        decreases routes.len() - i,
    {
        if str_eq(routes[i].tool_name.as_str(), route.tool_name.as_str()) {
            let ghost olds = routes@;
            let ghost iv = i as int;
            routes.set(i, route);
            proof {
                lemma_route_set(olds, routes@, iv);
                assert forall|x: int, y: int|
                    0 <= x < y < routes@.len() implies (#[trigger] routes@[x]).tool_name@ != (
                #[trigger] routes@[y]).tool_name@ by {
                    assert(routes@[iv].tool_name@ == olds[iv].tool_name@);
                    if x != iv {
                        assert(routes@[x] == olds[x]);
                    }
                    if y != iv {
                        assert(routes@[y] == olds[y]);
                    }
                }
            }
            return ;
        }
        i += 1;
    }
    let ghost olds = routes@;
    let ghost nlen = routes@.len();
    routes.push(route);
    proof {
        lemma_route_push(olds, routes@);
        assert forall|x: int, y: int|
            0 <= x < y < routes@.len() implies (#[trigger] routes@[x]).tool_name@ != (
        #[trigger] routes@[y]).tool_name@ by {
            if y < nlen {
                assert(routes@[x] == olds[x]);
                assert(routes@[y] == olds[y]);
            } else {
                assert(routes@[x] == olds[x]);
            }
        }
    }
}

/// Replacing the first route of a name changes only that name's lookup.
proof fn lemma_route_set(olds: Seq<ToolRoute>, news: Seq<ToolRoute>, i: int)
    requires
        0 <= i < olds.len(),
        news.len() == olds.len(),
        news[i].tool_name@ == olds[i].tool_name@,
        forall|k: int| 0 <= k < olds.len() && k != i ==> news[k] == olds[k],
        forall|k: int| 0 <= k < i ==> (#[trigger] olds[k]).tool_name@ != olds[i].tool_name@,
    ensures
        forall|name: Seq<char>|
            #[trigger] spec_route_lookup(news, name) == (
            if name == olds[i].tool_name@ {
                Some(news[i].component_id@)
            } else {
                spec_route_lookup(olds, name)
            }),
    decreases i,
{
    if i == 0 {
        assert forall|name: Seq<char>|
            #[trigger] spec_route_lookup(news, name) == (
            if name == olds[0].tool_name@ {
                Some(news[0].component_id@)
            } else {
                spec_route_lookup(olds, name)
            }) by {
            assert(news.subrange(1, news.len() as int) =~= olds.subrange(1, olds.len() as int));
        }
    } else {
        let tn = news.subrange(1, news.len() as int);
        let to = olds.subrange(1, olds.len() as int);
        assert(news[0] == olds[0]);
        assert forall|k: int| 0 <= k < to.len() && k != i - 1 implies tn[k] == to[k] by {
            assert(tn[k] == news[k + 1]);
            assert(to[k] == olds[k + 1]);
        }
        assert forall|k: int|
            0 <= k < i - 1 implies (#[trigger] to[k]).tool_name@ != to[i - 1].tool_name@ by {
            assert(to[k] == olds[k + 1]);
            assert(to[i - 1] == olds[i]);
        }
        assert(tn[i - 1] == news[i]);
        assert(to[i - 1] == olds[i]);
        lemma_route_set(to, tn, i - 1);
        assert forall|name: Seq<char>|
            #[trigger] spec_route_lookup(news, name) == (
            if name == olds[i].tool_name@ {
                Some(news[i].component_id@)
            } else {
                spec_route_lookup(olds, name)
            }) by {
            if olds[0].tool_name@ == name {
            } else {
                assert(spec_route_lookup(news, name) == spec_route_lookup(tn, name));
                assert(spec_route_lookup(olds, name) == spec_route_lookup(to, name));
            }
        }
    }
}

/// Appending a route for a name with no route adds exactly that lookup.
proof fn lemma_route_push(olds: Seq<ToolRoute>, news: Seq<ToolRoute>)
    requires
        news.len() == olds.len() + 1,
        forall|k: int| 0 <= k < olds.len() ==> news[k] == olds[k],
        forall|k: int|
            0 <= k < olds.len() ==> (#[trigger] olds[k]).tool_name@ != news[olds.len() as int].tool_name@,
    ensures
        forall|name: Seq<char>|
            #[trigger] spec_route_lookup(news, name) == (
            if name == news[olds.len() as int].tool_name@ {
                Some(news[olds.len() as int].component_id@)
            } else {
                spec_route_lookup(olds, name)
            }),
    decreases olds.len(),
{
    if olds.len() == 0 {
        assert forall|name: Seq<char>|
            #[trigger] spec_route_lookup(news, name) == (
            if name == news[0].tool_name@ {
                Some(news[0].component_id@)
            } else {
                spec_route_lookup(olds, name)
            }) by {
            assert(news.subrange(1, news.len() as int).len() == 0);
            if name != news[0].tool_name@ {
                assert(spec_route_lookup(news.subrange(1, news.len() as int), name) is None);
                assert(spec_route_lookup(news, name) is None);
                assert(spec_route_lookup(olds, name) is None);
            }
        }
    } else {
        let tn = news.subrange(1, news.len() as int);
        let to = olds.subrange(1, olds.len() as int);
        assert(news[0] == olds[0]);
        assert forall|k: int| 0 <= k < to.len() implies tn[k] == to[k] by {
            assert(tn[k] == news[k + 1]);
            assert(to[k] == olds[k + 1]);
        }
        assert(tn[to.len() as int] == news[olds.len() as int]);
        assert forall|k: int|
            0 <= k < to.len() implies (#[trigger] to[k]).tool_name@
                != tn[to.len() as int].tool_name@ by {
            assert(to[k] == olds[k + 1]);
        }
        lemma_route_push(to, tn);
        assert forall|name: Seq<char>|
            #[trigger] spec_route_lookup(news, name) == (
            if name == news[olds.len() as int].tool_name@ {
                Some(news[olds.len() as int].component_id@)
            } else {
                spec_route_lookup(olds, name)
            }) by {
            if olds[0].tool_name@ == name {
            } else {
                assert(spec_route_lookup(news, name) == spec_route_lookup(tn, name));
                assert(spec_route_lookup(olds, name) == spec_route_lookup(to, name));
            }
        }
    }
}

} // verus!
