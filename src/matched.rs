use vstd::prelude::*;
use crate::arg::copy_strs;
use crate::text::strs_view;

verus! {

/// What one argument collected during a match: the 1-based token position of each
/// occurrence, its values in order, and for each value the occurrence (an index into
/// `positions`) that supplied it.
#[derive(Clone, Debug, PartialEq, Eq)]
pub struct MatchedArg {
    pub name: String,
    pub positions: Vec<usize>,
    pub values: Vec<String>,
    pub value_occ: Vec<usize>,
}

/// The model of a [`MatchedArg`].
pub struct MatchedView {
    pub name: Seq<char>,
    pub positions: Seq<usize>,
    pub values: Seq<Seq<char>>,
    pub value_occ: Seq<usize>,
}

impl View for MatchedArg {
    type V = MatchedView;

    open spec fn view(&self) -> MatchedView {
        MatchedView {
            name: self.name@,
            positions: self.positions@,
            values: strs_view(self.values@),
            value_occ: self.value_occ@,
        }
    }
}

/// The models of a list of records.
pub open spec fn recs_view(v: Seq<MatchedArg>) -> Seq<MatchedView> {
    v.map_values(|m: MatchedArg| m@)
}

/// The first record from `j` on that carries `name`.
pub open spec fn find_rec_from(recs: Seq<MatchedView>, name: Seq<char>, j: int) -> Option<usize>
    decreases recs.len() - j,
{
    if j < 0 || j >= recs.len() {
        None
    } else if recs[j].name == name {
        Some(j as usize)
    } else {
        find_rec_from(recs, name, j + 1)
    }
}

/// The first record that carries `name`.
pub open spec fn find_rec(recs: Seq<MatchedView>, name: Seq<char>) -> Option<usize> {
    find_rec_from(recs, name, 0)
}

/// Whether some record carries `name`.
pub open spec fn present(recs: Seq<MatchedView>, name: Seq<char>) -> bool {
    find_rec(recs, name) is Some
}

/// Searches the records for `name`.
pub fn lookup_rec(recs: &Vec<MatchedArg>, name: &String) -> (r: Option<usize>)
    ensures
        r == find_rec(recs_view(recs@), name@),
        r matches Some(k) ==> k < recs.len(),
{
    let ghost rv = recs_view(recs@);
    let mut j: usize = 0;
    while j < recs.len()
        invariant
            j <= recs.len(),
            rv == recs_view(recs@),
            find_rec(rv, name@) == find_rec_from(rv, name@, j as int),
        decreases recs.len() - j,
    {
        if recs[j].name == *name {
            return Some(j);
        }
        j += 1;
    }
    None
}

impl MatchedArg {
    /// A copy of the record with the same model.
    pub fn copy(&self) -> (r: MatchedArg)
        ensures
            r@ == self@,
    {
        MatchedArg {
            name: self.name.clone(),
            positions: self.positions.clone(),
            values: copy_strs(&self.values),
            value_occ: self.value_occ.clone(),
        }
    }
}

/// The result of a successful match of one node: what each argument collected, and the
/// subcommand matched below it, if any.
#[derive(Debug, PartialEq, Eq)]
pub struct ArgMatches {
    pub args: Vec<MatchedArg>,
    pub subcommand: Option<Box<SubCommand>>,
}

/// A matched subcommand: its name and its own result.
#[derive(Debug, PartialEq, Eq)]
pub struct SubCommand {
    pub name: String,
    pub matches: ArgMatches,
}

/// The model of an [`ArgMatches`].
pub struct MatchesView {
    pub args: Seq<MatchedView>,
    pub sub: Option<Box<SubView>>,
}

/// The model of a [`SubCommand`].
pub struct SubView {
    pub name: Seq<char>,
    pub matches: MatchesView,
}

/// The model of a result, down the whole chain of subcommands.
pub open spec fn matches_view(m: ArgMatches) -> MatchesView
    decreases m,
{
    MatchesView {
        args: recs_view(m.args@),
        sub: match m.subcommand {
            Some(b) => Some(Box::new(SubView { name: b.name@, matches: matches_view(b.matches) })),
            None => None,
        },
    }
}

impl View for ArgMatches {
    type V = MatchesView;

    open spec fn view(&self) -> MatchesView {
        matches_view(*self)
    }
}

/// How many times the record of `name` occurred; 0 where there is none.
pub open spec fn occurrences_spec(recs: Seq<MatchedView>, name: Seq<char>) -> nat {
    match find_rec(recs, name) {
        Some(j) => recs[j as int].positions.len(),
        None => 0,
    }
}

/// The values collected for `name`, where it has a record.
pub open spec fn values_spec(recs: Seq<MatchedView>, name: Seq<char>) -> Option<Seq<Seq<char>>> {
    match find_rec(recs, name) {
        Some(j) => Some(recs[j as int].values),
        None => None,
    }
}

impl ArgMatches {
    /// Whether the argument `name` was matched (or received its default value).
    pub fn is_present(&self, name: &str) -> (r: bool)
        ensures
            r == present(self@.args, name@),
    {
        let n = name.to_owned();
        lookup_rec(&self.args, &n).is_some()
    }

    /// How many times the argument `name` occurred.
    pub fn occurrences_of(&self, name: &str) -> (r: usize)
        ensures
            r == occurrences_spec(self@.args, name@),
    {
        let n = name.to_owned();
        match lookup_rec(&self.args, &n) {
            Some(j) => self.args[j].positions.len(),
            None => 0,
        }
    }

    /// All values collected for `name`, in order, where it was matched.
    pub fn values_of(&self, name: &str) -> (r: Option<Vec<String>>)
        ensures
            match r {
                Some(v) => values_spec(self@.args, name@) == Some(strs_view(v@)),
                None => values_spec(self@.args, name@) is None,
            },
    {
        let n = name.to_owned();
        match lookup_rec(&self.args, &n) {
            Some(j) => Some(copy_strs(&self.args[j].values)),
            None => None,
        }
    }

    /// The first value collected for `name`, where it has one.
    pub fn value_of(&self, name: &str) -> (r: Option<String>)
        ensures
            match r {
                Some(v) => values_spec(self@.args, name@) matches Some(vs) && vs.len() > 0
                    && vs[0] == v@,
                None => !(values_spec(self@.args, name@) matches Some(vs) && vs.len() > 0),
            },
    {
        let n = name.to_owned();
        match lookup_rec(&self.args, &n) {
            Some(j) => {
                if self.args[j].values.len() > 0 {
                    Some(self.args[j].values[0].clone())
                } else {
                    None
                }
            },
            None => None,
        }
    }

    /// The name of the subcommand matched directly below this node.
    pub fn subcommand_name(&self) -> (r: Option<String>)
        ensures
            match r {
                Some(s) => self@.sub matches Some(b) && b.name == s@,
                None => self@.sub is None,
            },
    {
        match &self.subcommand {
            Some(b) => Some(b.name.clone()),
            None => None,
        }
    }

    /// The result of the subcommand `name`, where it is the one matched below this node.
    pub fn subcommand_matches(&self, name: &str) -> (r: Option<&ArgMatches>)
        ensures
            match r {
                Some(m) => self@.sub matches Some(b) && b.name == name@ && b.matches == m@,
                None => !(self@.sub matches Some(b) && b.name == name@),
            },
    {
        match &self.subcommand {
            Some(b) => {
                let n = name.to_owned();
                if b.name == n {
                    Some(&b.matches)
                } else {
                    None
                }
            },
            None => None,
        }
    }
}

impl SubCommand {
    /// A subcommand node named `name`, with nothing defined in it.
    pub fn new(name: &str) -> (r: crate::app::App)
        ensures
            r.name@ == name@,
            r.args@.len() == 0,
            r.subcommands@.len() == 0,
            r.groups@.len() == 0,
            r.settings@.len() == 0,
            r.global_settings@.len() == 0,
    {
        crate::app::App::new(name)
    }

    /// The same as [`SubCommand::new`].
    pub fn with_name(name: &str) -> (r: crate::app::App)
        ensures
            r.name@ == name@,
            r.args@.len() == 0,
            r.subcommands@.len() == 0,
            r.groups@.len() == 0,
            r.settings@.len() == 0,
            r.global_settings@.len() == 0,
    {
        SubCommand::new(name)
    }
}

} // verus!
