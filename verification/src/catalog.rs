//! The tools that are offered to a model.
use vstd::prelude::*;

use crate::json::Json;
use crate::text::{characters, same};

verus! {

/// A tool: its full name, and the name under which a model calls it.
#[derive(Debug)]
pub struct ToolName {
    pub full: String,
    pub api: String,
}

/// The tools that are offered to a model, and those that are known but switched off.
#[derive(Debug)]
pub struct ToolboxCatalog {
    pub prompt: String,
    pub definitions: Vec<Json>,
    pub tools: Vec<ToolName>,
    pub disabled: Vec<ToolName>,
}

/// The full name of the first tool that a model calls so.
pub open spec fn full_name(tools: Seq<ToolName>, api: Seq<char>) -> Option<Seq<char>>
    decreases tools.len(),
{
    if tools.len() == 0 {
        None
    } else if tools[0].api@ == api {
        Some(tools[0].full@)
    } else {
        full_name(tools.skip(1), api)
    }
}

/// The name under which a model calls the first tool of a full name.
pub open spec fn api_name(tools: Seq<ToolName>, full: Seq<char>) -> Option<Seq<char>>
    decreases tools.len(),
{
    if tools.len() == 0 {
        None
    } else if tools[0].full@ == full {
        Some(tools[0].api@)
    } else {
        api_name(tools.skip(1), full)
    }
}

fn find_full_name<'a>(tools: &'a Vec<ToolName>, api: &str) -> (name: Option<&'a str>)
    ensures
        match name {
            Some(found) => full_name(tools@, api@) == Some(found@),
            None => full_name(tools@, api@) is None,
        },
{
    let mut place: usize = 0;
    assert(tools@.skip(0) =~= tools@);
    while place < tools.len()
        invariant
            place <= tools@.len(),
            full_name(tools@.skip(place as int), api@) == full_name(tools@, api@),
        decreases tools@.len() - place,
    {
        assert(tools@.skip(place as int).skip(1) =~= tools@.skip(place + 1));
        if same(tools[place].api.as_str(), api) {
            return Some(tools[place].full.as_str());
        }
        place += 1;
    }
    None
}

impl ToolboxCatalog {
    /// The full name of the tool that a model calls so: a tool that is switched off is still known.
    pub open spec fn resolved(&self, api: Seq<char>) -> Option<Seq<char>> {
        match full_name(self.disabled@, api) {
            Some(full) => Some(full),
            None => full_name(self.tools@, api),
        }
    }

    /// The full name of the tool that a model calls so.
    pub fn resolve_api_name(&self, api: &str) -> (name: Option<&str>)
        ensures
            match name {
                Some(found) => self.resolved(api@) == Some(found@),
                None => self.resolved(api@) is None,
            },
    {
        match find_full_name(&self.disabled, api) {
            Some(full) => Some(full),
            None => find_full_name(&self.tools, api),
        }
    }

    /// The name under which a model calls the tool: the one that it is offered under, or, for a
    /// tool of the past, its full name with underscores for its dots.
    pub open spec fn called(&self, full: Seq<char>) -> Seq<char> {
        match api_name(self.tools@, full) {
            Some(api) => api,
            None => match api_name(self.disabled@, full) {
                Some(api) => api,
                None => underscored(full),
            },
        }
    }

    /// The name under which a model calls the tool.
    pub fn api_name(&self, full: &str) -> (name: String)
        ensures
            name@ == self.called(full@),
    {
        match find_api_name(&self.tools, full) {
            Some(api) => api.to_owned(),
            None => match find_api_name(&self.disabled, full) {
                Some(api) => api.to_owned(),
                None => with_underscores(full),
            },
        }
    }
}

/// A name with underscores for its dots.
pub open spec fn underscored(name: Seq<char>) -> Seq<char> {
    name.map_values(
        |character: char|
            if character == '.' {
                '_'
            } else {
                character
            },
    )
}

fn with_underscores(name: &str) -> (result: String)
    ensures
        result@ == underscored(name@),
{
    let list = characters(name);
    let mut result = String::new();
    let mut place: usize = 0;
    assert(result@ =~= underscored(list@.take(0)));
    while place < list.len()
        invariant
            place <= list@.len(),
            result@ == underscored(list@.take(place as int)),
        decreases list@.len() - place,
    {
        let ghost before = result@;
        if list[place] == '.' {
            result.push('_');
        } else {
            result.push(list[place]);
        }
        assert(result@ =~= underscored(list@.take(place + 1)));
        place += 1;
    }
    assert(list@.take(place as int) =~= list@);
    result
}

fn find_api_name<'a>(tools: &'a Vec<ToolName>, full: &str) -> (name: Option<&'a str>)
    ensures
        match name {
            Some(found) => api_name(tools@, full@) == Some(found@),
            None => api_name(tools@, full@) is None,
        },
{
    let mut place: usize = 0;
    assert(tools@.skip(0) =~= tools@);
    while place < tools.len()
        invariant
            place <= tools@.len(),
            api_name(tools@.skip(place as int), full@) == api_name(tools@, full@),
        decreases tools@.len() - place,
    {
        assert(tools@.skip(place as int).skip(1) =~= tools@.skip(place + 1));
        if same(tools[place].full.as_str(), full) {
            return Some(tools[place].api.as_str());
        }
        place += 1;
    }
    None
}

} // verus!
