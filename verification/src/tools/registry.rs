//! The tools an agent offers, by name.
use vstd::prelude::*;

use crate::ai::Tool;
use crate::json::{clone_members, field, get, json_str, lemma_object_view, members_view, put, Json, JsonV};
use crate::text::{str_eq, string_views, to_owned_string};

verus! {

/// What the registry knows of a tool.
#[derive(Debug)]
pub struct ToolInfo {
    pub name: String,
    pub description: String,
    pub parameters_schema: Json,
    pub is_read_only: bool,
}

/// The schema members for a tool's arguments: the object type, then its
/// `properties` when present (or an empty object when `with_default`), then
/// its `required` names when present.
pub open spec fn schema_members(schema: Json, with_default: bool) -> Seq<(Seq<char>, JsonV)> {
    seq![("type"@, JsonV::Str("object"@))]
        + (match field(schema, "properties"@) {
            Some(p) => seq![("properties"@, p.view_json())],
            None => if with_default { seq![("properties"@, JsonV::Object(Seq::empty()))] } else { Seq::empty() },
        })
        + match field(schema, "required"@) {
            Some(r) => seq![("required"@, r.view_json())],
            None => Seq::empty(),
        }
}

/// The members of the schema a model is told a tool takes.
pub fn schema_for(schema: &Json, with_default: bool) -> (res: Vec<(String, Json)>)
    ensures
        members_view(res@) == schema_members(*schema, with_default),
{
    let mut m: Vec<(String, Json)> = Vec::new();
    put(&mut m, "type", json_str("object"));
    let ghost m0 = members_view(m@);
    match get(schema, "properties") {
        Some(p) => {
            put(&mut m, "properties", p.deep_clone());
        },
        None => {
            if with_default {
                let empty: Vec<(String, Json)> = Vec::new();
                proof {
                    lemma_object_view(empty);
                }
                put(&mut m, "properties", Json::Object(empty));
                assert(members_view(Seq::<(String, Json)>::empty()) =~= Seq::<(Seq<char>, JsonV)>::empty());
            }
        },
    }
    let ghost m1 = members_view(m@);
    assert(m1 =~= m0 + match field(*schema, "properties"@) {
        Some(p) => seq![("properties"@, p.view_json())],
        None => if with_default { seq![("properties"@, JsonV::Object(Seq::empty()))] } else { Seq::empty() },
    });
    match get(schema, "required") {
        Some(r) => {
            put(&mut m, "required", r.deep_clone());
        },
        None => {},
    }
    assert(members_view(m@) =~= schema_members(*schema, with_default));
    m
}

/// No name occurs twice.
pub open spec fn names_unique(v: Seq<ToolInfo>) -> bool {
    forall|i: int, j: int| 0 <= i < j < v.len() ==> (#[trigger] v[i]).name@ != (#[trigger] v[j]).name@
}

/// The position of the tool named `name`.
pub open spec fn position_of(v: Seq<ToolInfo>, name: Seq<char>) -> Option<int> {
    if exists|i: int| 0 <= i < v.len() && (#[trigger] v[i]).name@ == name {
        Some(choose|i: int| 0 <= i < v.len() && (#[trigger] v[i]).name@ == name)
    } else {
        None
    }
}

/// The tools after registering `tool`: it takes the place of the tool with
/// its name, or comes last.
pub open spec fn registered(v: Seq<ToolInfo>, tool: ToolInfo) -> Seq<ToolInfo> {
    match position_of(v, tool.name@) {
        Some(p) => v.update(p, tool),
        None => v.push(tool),
    }
}

/// A registered tool is the one found under its name, and registering keeps
/// every other tool where it was.
pub proof fn lemma_register_then_get(v: Seq<ToolInfo>, tool: ToolInfo)
    requires
        names_unique(v),
    ensures
        position_of(registered(v, tool), tool.name@) matches Some(p) && registered(v, tool)[p] == tool,
        forall|i: int| 0 <= i < v.len() && v[i].name@ != tool.name@ ==> #[trigger] registered(v, tool)[i] == v[i],
{
    let r = registered(v, tool);
    match position_of(v, tool.name@) {
        Some(p) => {
            assert(r[p].name@ == tool.name@);
            let q = choose|i: int| 0 <= i < r.len() && (#[trigger] r[i]).name@ == tool.name@;
            if q != p {
                assert(r[q] == v[q]);
                assert(v[p].name@ == tool.name@);
                if q < p {
                    assert((v[q]).name@ != (v[p]).name@);
                } else {
                    assert((v[p]).name@ != (v[q]).name@);
                }
            }
        },
        None => {
            let last = v.len() as int;
            assert(r[last].name@ == tool.name@);
            let q = choose|i: int| 0 <= i < r.len() && (#[trigger] r[i]).name@ == tool.name@;
            if q != last {
                assert(r[q] == v[q]);
            }
        },
    }
}

/// The tools of an agent, each name once.
#[derive(Debug)]
pub struct ToolRegistry {
    pub tools: Vec<ToolInfo>,
}

impl ToolRegistry {
    /// The registry's invariant: no name occurs twice.
    pub open spec fn wf(&self) -> bool {
        names_unique(self.tools@)
    }

    /// An empty registry.
    pub fn new() -> (res: Self)
        ensures
            res.wf(),
            res.tools@.len() == 0,
    {
        ToolRegistry { tools: Vec::new() }
    }

    /// The position of the tool named `name`, if any.
    pub fn get(&self, name: &str) -> (res: Option<usize>)
        requires
            self.wf(),
        ensures
            match res {
                Some(i) => i < self.tools@.len() && self.tools@[i as int].name@ == name@,
                None => forall|i: int| 0 <= i < self.tools@.len() ==> (#[trigger] self.tools@[i]).name@ != name@,
            },
    {
        for i in 0..self.tools.len()
            invariant
                forall|k: int| 0 <= k < i ==> (#[trigger] self.tools@[k]).name@ != name@,
        {
            if str_eq(self.tools[i].name.as_str(), name) {
                return Some(i);
            }
        }
        None
    }

    /// Adds a tool; one with the same name is replaced in its place.
    pub fn register(&mut self, tool: ToolInfo)
        requires
            old(self).wf(),
        ensures
            final(self).wf(),
            final(self).tools@ == registered(old(self).tools@, tool),
    {
        match self.get(tool.name.as_str()) {
            Some(i) => {
                proof {
                    assert(self.tools@[i as int].name@ == tool.name@);
                    assert(position_of(self.tools@, tool.name@) == Some(i as int));
                }
                let ghost before = self.tools@;
                self.tools.set(i, tool);
                assert forall|a: int, b: int| 0 <= a < b < self.tools@.len() implies
                    (#[trigger] self.tools@[a]).name@ != (#[trigger] self.tools@[b]).name@ by {
                    if a != i && b != i {
                        assert(self.tools@[a] == before[a] && self.tools@[b] == before[b]);
                    } else if a == i {
                        assert(self.tools@[b] == before[b]);
                    } else {
                        assert(self.tools@[a] == before[a]);
                    }
                }
            },
            None => {
                let ghost before = self.tools@;
                self.tools.push(tool);
                assert forall|a: int, b: int| 0 <= a < b < self.tools@.len() implies
                    (#[trigger] self.tools@[a]).name@ != (#[trigger] self.tools@[b]).name@ by {
                    assert(self.tools@[a] == before[a]);
                    if b < before.len() {
                        assert(self.tools@[b] == before[b]);
                    }
                }
            },
        }
    }

    /// No tools.
    pub fn is_empty(&self) -> (res: bool)
        ensures
            res == (self.tools@.len() == 0),
    {
        self.tools.len() == 0
    }

    /// How many tools.
    pub fn len(&self) -> (res: usize)
        ensures
            res == self.tools@.len(),
    {
        self.tools.len()
    }

    /// The tools' names.
    pub fn names(&self) -> (res: Vec<String>)
        ensures
            string_views(res@) == self.tools@.map_values(|t: ToolInfo| t.name@),
    {
        let mut out: Vec<String> = Vec::new();
        for i in 0..self.tools.len()
            invariant
                string_views(out@) == self.tools@.take(i as int).map_values(|t: ToolInfo| t.name@),
        {
            let ghost prev = out@;
            out.push(self.tools[i].name.clone());
            assert(string_views(out@) =~= string_views(prev).push(self.tools@[i as int].name@));
            assert(self.tools@.take(i + 1).map_values(|t: ToolInfo| t.name@)
                =~= self.tools@.take(i as int).map_values(|t: ToolInfo| t.name@).push(self.tools@[i as int].name@));
        }
        assert(self.tools@.take(self.tools.len() as int) =~= self.tools@);
        out
    }

    /// The tools as offered to a model: name, description and argument
    /// schema (with empty properties when a tool lists none).
    pub fn specs(&self) -> (res: Vec<Tool>)
        ensures
            res@.len() == self.tools@.len(),
            forall|i: int| 0 <= i < res@.len() ==> {
                &&& (#[trigger] res@[i]).name@ == self.tools@[i].name@
                &&& res@[i].description matches Some(d) && d@ == self.tools@[i].description@
                &&& members_view(res@[i].input_schema@) == schema_members(self.tools@[i].parameters_schema, true)
            },
    {
        convert_tools(&self.tools, true)
    }
}

/// The tools as offered to a model; `with_default` gives a tool that lists
/// no properties an empty set of them.
pub fn convert_tools(tools: &Vec<ToolInfo>, with_default: bool) -> (res: Vec<Tool>)
    ensures
        res@.len() == tools@.len(),
        forall|i: int| 0 <= i < res@.len() ==> {
            &&& (#[trigger] res@[i]).name@ == tools@[i].name@
            &&& res@[i].description matches Some(d) && d@ == tools@[i].description@
            &&& members_view(res@[i].input_schema@) == schema_members(tools@[i].parameters_schema, with_default)
        },
{
    let mut out: Vec<Tool> = Vec::new();
    for i in 0..tools.len()
        invariant
            out@.len() == i,
            forall|k: int| 0 <= k < i ==> {
                &&& (#[trigger] out@[k]).name@ == tools@[k].name@
                &&& out@[k].description matches Some(d) && d@ == tools@[k].description@
                &&& members_view(out@[k].input_schema@) == schema_members(tools@[k].parameters_schema, with_default)
            },
    {
        let t = &tools[i];
        out.push(Tool {
            name: t.name.clone(),
            description: Some(t.description.clone()),
            input_schema: schema_for(&t.parameters_schema, with_default),
        });
    }
    out
}

} // verus!
