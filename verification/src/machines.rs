//! Display names of machines and workspaces, and the routes to remote machines.

use crate::commands;
use crate::config;
use crate::strmap;
use crate::text;
use crate::strmap::StrMap;
use vstd::prelude::*;

verus! {

/// Names under the machines' stable identities, apart from the SSH routes to them, so that
/// renaming a machine does not change how it is reached.
#[derive(Debug)]
pub struct MachineNames {
    pub names: StrMap<String>,
    pub workspaces: StrMap<StrMap<String>>,
    pub routes: StrMap<Vec<String>>,
}

/// Why a name or a route is not accepted.
#[derive(Clone, Copy, Debug, PartialEq, Eq, Structural)]
pub enum NameError {
    BadName,
    BadRoute,
}

impl NameError {
    /// What the user is told.
    pub open spec fn text(self) -> Seq<char> {
        match self {
            NameError::BadName => "name must be nonempty and contain no control characters"@,
            NameError::BadRoute => "SSH route must contain valid destinations"@,
        }
    }

    /// What the user is told.
    pub fn message(self) -> (r: &'static str)
        ensures
            r@ == self.text(),
    {
        match self {
            NameError::BadName => "name must be nonempty and contain no control characters",
            NameError::BadRoute => "SSH route must contain valid destinations",
        }
    }
}

/// Whether a control character stands in a text.
pub open spec fn has_control(s: Seq<char>) -> bool {
    exists|i: int| 0 <= i < s.len() && text::control(#[trigger] s[i])
}

/// Whether a text can be a name once the white space around it is gone.
pub open spec fn name_ok(s: Seq<char>) -> bool {
    text::trimmed(s).len() > 0 && !has_control(text::trimmed(s))
}

/// Whether a text can be an SSH destination: it has something to show, is no option, and holds no
/// control character.
pub open spec fn destination_ok(s: Seq<char>) -> bool {
    &&& text::trimmed(s).len() > 0
    &&& s[0] != '-'
    &&& !has_control(s)
}

/// Whether every stop of a route can be an SSH destination, and there is one.
pub open spec fn route_ok(route: Seq<Seq<char>>) -> bool {
    route.len() > 0 && forall|i: int| 0 <= i < route.len() ==> destination_ok(#[trigger] route[i])
}

fn any_control(cs: &[char]) -> (r: bool)
    ensures
        r == has_control(cs@),
{
    let mut i: usize = 0;
    while i < cs.len()
        invariant
            i <= cs@.len(),
            forall|k: int| 0 <= k < i ==> !text::control(#[trigger] cs@[k]),
        decreases cs@.len() - i,
    {
        if text::is_control(cs[i]) {
            return true;
        }
        i = i + 1;
    }
    false
}

/// Whether a text can be an SSH destination.
pub fn valid_destination(host: &str) -> (r: bool)
    ensures
        r == destination_ok(host@),
{
    let cs = text::chars_of(host);
    let bare = text::trim(cs.as_slice());
    if bare.len() == 0 {
        return false;
    }
    proof {
        if cs@.len() == 0 {
            assert(text::trimmed(cs@) =~= cs@);
        }
    }
    cs[0] != '-' && !any_control(cs.as_slice())
}

/// The label kept under a workspace's identity before workspaces had one of their own.
pub open spec fn legacy_key(machine: Seq<char>, workspace: Seq<char>) -> Seq<char> {
    "ssh://"@ + machine + "/"@ + workspace
}

/// The texts of a map.
pub open spec fn text_map(m: Map<Seq<char>, String>) -> Map<Seq<char>, Seq<char>> {
    m.map_values(|s: String| s@)
}

impl MachineNames {
    /// The names of the machines.
    pub open spec fn machine_names(self) -> Map<Seq<char>, Seq<char>> {
        text_map(self.names@)
    }

    /// The names of one machine's workspaces.
    pub open spec fn names_on(self, machine: Seq<char>) -> Map<Seq<char>, Seq<char>> {
        if self.workspaces@.contains_key(machine) {
            text_map(self.workspaces@[machine]@)
        } else {
            Map::empty()
        }
    }

    /// The name of a workspace, also one kept under the key of earlier versions.
    pub open spec fn workspace_label(self, machine: Seq<char>, workspace: Seq<char>) -> Option<
        Seq<char>,
    > {
        let names = self.names_on(machine);
        if names.contains_key(workspace) {
            Some(names[workspace])
        } else if machine != "local"@ && names.contains_key(legacy_key(machine, workspace)) {
            Some(names[legacy_key(machine, workspace)])
        } else {
            None
        }
    }

    /// The routes to the machines.
    pub open spec fn machine_routes(self) -> Map<Seq<char>, Seq<Seq<char>>> {
        self.routes@.map_values(|v: Vec<String>| commands::texts(v@))
    }

    /// No name and no route.
    pub fn new() -> (r: Self)
        ensures
            r.machine_names() == Map::<Seq<char>, Seq<char>>::empty(),
            r.workspaces@ == Map::<Seq<char>, StrMap<String>>::empty(),
            forall|m: Seq<char>| #[trigger] r.names_on(m) == Map::<Seq<char>, Seq<char>>::empty(),
            r.machine_routes() == Map::<Seq<char>, Seq<Seq<char>>>::empty(),
    {
        let r = MachineNames {
            names: StrMap::new(),
            workspaces: StrMap::new(),
            routes: StrMap::new(),
        };
        proof {
            assert(r.machine_names() =~= Map::<Seq<char>, Seq<char>>::empty());
            assert(r.machine_routes() =~= Map::<Seq<char>, Seq<Seq<char>>>::empty());
        }
        r
    }

    /// Whether every stop of a route can be an SSH destination, and there is one.
    pub fn valid_remote_route(route: &[String]) -> (r: bool)
        ensures
            r == route_ok(commands::texts(route@)),
    {
        if route.len() == 0 {
            return false;
        }
        let mut i: usize = 0;
        while i < route.len()
            invariant
                i <= route@.len(),
                route@.len() > 0,
                forall|k: int| 0 <= k < i ==> destination_ok(#[trigger] commands::texts(route@)[k]),
            decreases route@.len() - i,
        {
            if !valid_destination(route[i].as_str()) {
                proof {
                    assert(!destination_ok(commands::texts(route@)[i as int]));
                }
                return false;
            }
            i = i + 1;
        }
        true
    }

    /// The name without the white space around it, if it is one.
    pub fn validate_name(name: &str) -> (r: Result<String, NameError>)
        ensures
            match r {
                Ok(s) => name_ok(name@) && s@ == text::trimmed(name@),
                Err(e) => !name_ok(name@) && e == NameError::BadName,
            },
    {
        let cs = text::chars_of(name);
        let bare = text::trim(cs.as_slice());
        if bare.len() == 0 || any_control(bare.as_slice()) {
            return Err(NameError::BadName);
        }
        Ok(text::string_of(bare.as_slice()))
    }

    /// Names a machine; nothing changes where the name is not accepted.
    pub fn rename(&mut self, id: &str, name: &str) -> (r: Result<(), NameError>)
        ensures
            r is Ok <==> name_ok(name@),
            r matches Err(e) ==> e == NameError::BadName && *final(self) == *old(self),
            r is Ok ==> final(self).machine_names() == old(self).machine_names().insert(
                id@,
                text::trimmed(name@),
            ),
            final(self).workspaces == old(self).workspaces,
            final(self).routes == old(self).routes,
    {
        match Self::validate_name(name) {
            Ok(label) => {
                let ghost label_v = label@;
                self.names.insert(id.to_string(), label);
                proof {
                    assert(self.machine_names() =~= old(self).machine_names().insert(
                        id@,
                        label_v,
                    ));
                }
                Ok(())
            },
            Err(e) => Err(e),
        }
    }

    /// The name of a workspace. Labels kept under the key of earlier versions still count on
    /// machines other than the local one.
    pub fn workspace_name(&self, machine: &str, workspace: &str) -> (r: Option<&String>)
        ensures
            (match r {
                Some(s) => Some(s@),
                None => None,
            }) == self.workspace_label(machine@, workspace@),
    {
        match self.workspaces.get(machine) {
            None => None,
            Some(names) => {
                if let Some(label) = names.get(workspace) {
                    return Some(label);
                }
                if text::same_text(machine, "local") {
                    return None;
                }
                let mut key = "ssh://".to_string();
                key.append(machine);
                key.append("/");
                key.append(workspace);
                names.get(key.as_str())
            },
        }
    }

    /// Names a workspace; nothing changes where the name is not accepted.
    pub fn rename_workspace(&mut self, machine: &str, workspace: &str, name: &str) -> (r: Result<
        (),
        NameError,
    >)
        ensures
            r is Ok <==> name_ok(name@),
            r matches Err(e) ==> e == NameError::BadName && *final(self) == *old(self),
            r is Ok ==> final(self).names_on(machine@) == old(self).names_on(machine@).insert(
                workspace@,
                text::trimmed(name@),
            ),
            forall|m: Seq<char>|
                m != machine@ ==> #[trigger] final(self).names_on(m) == old(self).names_on(m),
            final(self).names == old(self).names,
            final(self).routes == old(self).routes,
    {
        match Self::validate_name(name) {
            Ok(label) => {
                let ghost label_v = label@;
                let mut names: StrMap<String> = match self.workspaces.get(machine) {
                    Some(present) => copy_text_map(present),
                    None => StrMap::new(),
                };
                let ghost before = text_map(names@);
                proof {
                    assert(before =~= old(self).names_on(machine@));
                }
                names.insert(workspace.to_string(), label);
                proof {
                    assert(text_map(names@) =~= before.insert(workspace@, label_v));
                }
                self.workspaces.insert(machine.to_string(), names);
                Ok(())
            },
            Err(e) => Err(e),
        }
    }

    /// Keeps the route to a machine; nothing changes where the route is not accepted.
    pub fn remember_remote(&mut self, id: &str, route: &[String]) -> (r: Result<(), NameError>)
        ensures
            r is Ok <==> route_ok(commands::texts(route@)),
            r matches Err(e) ==> e == NameError::BadRoute && *final(self) == *old(self),
            r is Ok ==> final(self).machine_routes() == old(self).machine_routes().insert(
                id@,
                commands::texts(route@),
            ),
            final(self).names == old(self).names,
            final(self).workspaces == old(self).workspaces,
    {
        if !Self::valid_remote_route(route) {
            return Err(NameError::BadRoute);
        }
        let stops = copy_texts(route);
        let ghost stops_v = commands::texts(stops@);
        self.routes.insert(id.to_string(), stops);
        proof {
            assert(self.machine_routes() =~= old(self).machine_routes().insert(id@, stops_v));
        }
        Ok(())
    }

    /// Drops the route to a machine, keeping its name.
    pub fn forget_remote(&mut self, id: &str)
        ensures
            final(self).machine_routes() == old(self).machine_routes().remove(id@),
            final(self).names == old(self).names,
            final(self).workspaces == old(self).workspaces,
    {
        self.routes.remove(id);
        proof {
            assert(self.machine_routes() =~= old(self).machine_routes().remove(id@));
        }
    }
}

/// A copy of a vector of texts.
pub fn copy_texts(v: &[String]) -> (r: Vec<String>)
    ensures
        commands::texts(r@) == commands::texts(v@),
        r@.len() == v@.len(),
{
    let mut out: Vec<String> = Vec::new();
    let mut i: usize = 0;
    while i < v.len()
        invariant
            i <= v@.len(),
            out@.len() == i,
            forall|k: int| 0 <= k < i ==> (#[trigger] out@[k])@ == v@[k]@,
        decreases v@.len() - i,
    {
        out.push(v[i].clone());
        i = i + 1;
    }
    proof {
        assert(commands::texts(out@) =~= commands::texts(v@));
    }
    out
}

/// A copy of a map of texts.
pub fn copy_text_map(m: &StrMap<String>) -> (r: StrMap<String>)
    ensures
        text_map(r@) == text_map(m@),
{
    let mut entries: Vec<(String, String)> = Vec::new();
    let mut i: usize = 0;
    while i < m.entries.len()
        invariant
            i <= m.entries@.len(),
            entries@.len() == i,
            forall|k: int|
                0 <= k < i ==> (#[trigger] entries@[k]).0@ == m.entries@[k].0@ && entries@[k].1@
                    == m.entries@[k].1@,
        decreases m.entries@.len() - i,
    {
        let e = &m.entries[i];
        entries.push((e.0.clone(), e.1.clone()));
        i = i + 1;
    }
    let r = StrMap { entries };
    proof {
        assert forall|k: Seq<char>| #[trigger] same_lookup(r.entries@, m.entries@, k) by {
            lemma_same_lookup(r.entries@, m.entries@, k);
        }
        assert forall|k: Seq<char>| text_map(r@).contains_key(k) == text_map(m@).contains_key(k) by {
            assert(same_lookup(r.entries@, m.entries@, k));
        }
        assert forall|k: Seq<char>| #[trigger] text_map(r@).contains_key(k) implies text_map(r@)[k]
            == text_map(m@)[k] by {
            assert(same_lookup(r.entries@, m.entries@, k));
        }
        assert(text_map(r@) =~= text_map(m@));
    }
    r
}

spec fn same_lookup(a: Seq<(String, String)>, b: Seq<(String, String)>, key: Seq<char>) -> bool {
    match (strmap::lookup(a, key), strmap::lookup(b, key)) {
        (Some(x), Some(y)) => x@ == y@,
        (None, None) => true,
        _ => false,
    }
}

proof fn lemma_same_lookup(a: Seq<(String, String)>, b: Seq<(String, String)>, key: Seq<char>)
    requires
        a.len() == b.len(),
        forall|k: int|
            0 <= k < a.len() ==> (#[trigger] a[k]).0@ == b[k].0@ && a[k].1@ == b[k].1@,
    ensures
        same_lookup(a, b, key),
    decreases a.len(),
{
    if a.len() > 0 {
        assert(a[0].0@ == b[0].0@ && a[0].1@ == b[0].1@);
        assert forall|k: int| 0 <= k < a.drop_first().len() implies (
        #[trigger] a.drop_first()[k]).0@ == b.drop_first()[k].0@ && a.drop_first()[k].1@
            == b.drop_first()[k].1@ by {
            assert(a[k + 1].0@ == b[k + 1].0@);
        }
        lemma_same_lookup(a.drop_first(), b.drop_first(), key);
    }
}

/// Where the names are kept: beside the configuration that was named, or else below the directory
/// for configurations.
pub open spec fn names_place(
    beside: Option<Seq<char>>,
    configs: Option<Seq<char>>,
    home: Option<Seq<char>>,
) -> Option<Seq<char>> {
    match (beside, configs, home) {
        (Some(dir), _, _) => Some(config::below(dir, "machines.json"@)),
        (None, Some(dir), _) => Some(config::below(config::below(dir, "zmux"@), "machines.json"@)),
        (None, None, Some(dir)) => Some(
            config::below(config::below(config::below(dir, ".config"@), "zmux"@), "machines.json"@),
        ),
        (None, None, None) => None,
    }
}

/// Where the names are kept, given the directory of the configuration that was named, the one for
/// configurations, and the home directory.
pub fn config_path(beside: Option<String>, configs: Option<String>, home: Option<String>) -> (r:
    Option<String>)
    ensures
        commands::opt_text(r) == names_place(commands::opt_text(beside), commands::opt_text(configs), commands::opt_text(home)),
{
    if let Some(dir) = &beside {
        return Some(config::join_path(dir.as_str(), "machines.json"));
    }
    let base = match &configs {
        Some(dir) => dir.clone(),
        None => match &home {
            Some(dir) => config::join_path(dir.as_str(), ".config"),
            None => {
                return None;
            },
        },
    };
    let own = config::join_path(base.as_str(), "zmux");
    Some(config::join_path(own.as_str(), "machines.json"))
}

} // verus!
