use vstd::prelude::*;
use crate::text::strs_view;

verus! {

/// A condition under which a required argument may be left out: the argument `name` is
/// present, and, where `value` is given, one of its values equals it.
#[derive(Clone, Debug, PartialEq, Eq)]
pub struct ArgCondition {
    pub name: String,
    pub value: Option<String>,
}

/// The optional text held by an `Option<String>`.
pub open spec fn opt_view(o: Option<String>) -> Option<Seq<char>> {
    match o {
        Some(s) => Some(s@),
        None => None,
    }
}

/// The model of one condition: the argument's name and the value it must hold, if any.
pub open spec fn cond_view(c: ArgCondition) -> (Seq<char>, Option<Seq<char>>) {
    (c.name@, opt_view(c.value))
}

/// The models of a list of conditions.
pub open spec fn conds_view(v: Seq<ArgCondition>) -> Seq<(Seq<char>, Option<Seq<char>>)> {
    v.map_values(|c: ArgCondition| cond_view(c))
}

/// The model of an optional list of strings.
pub open spec fn opt_strs_view(o: Option<Vec<String>>) -> Option<Seq<Seq<char>>> {
    match o {
        Some(v) => Some(strs_view(v@)),
        None => None,
    }
}

/// One definable argument: a flag, an option that takes values, or a positional argument.
#[derive(Clone, Debug, PartialEq, Eq)]
pub struct Arg {
    pub name: String,
    pub short: Option<char>,
    pub long: Option<String>,
    /// Position among the positional arguments, counted from 1; `None` for flags and options.
    pub index: Option<usize>,
    pub takes_value: bool,
    pub min_values: usize,
    /// Most values per occurrence; `None` means unbounded.
    pub max_values: Option<usize>,
    pub delimiter: Option<char>,
    pub required: bool,
    pub multiple: bool,
    pub global: bool,
    pub conflicts: Vec<String>,
    pub requires: Vec<String>,
    pub required_unless: Vec<ArgCondition>,
    pub possible_values: Option<Vec<String>>,
    pub default_value: Option<String>,
}

/// The mathematical model of an [`Arg`].
pub struct ArgView {
    pub name: Seq<char>,
    pub short: Option<char>,
    pub long: Option<Seq<char>>,
    pub index: Option<usize>,
    pub takes_value: bool,
    pub min_values: usize,
    pub max_values: Option<usize>,
    pub delimiter: Option<char>,
    pub required: bool,
    pub multiple: bool,
    pub global: bool,
    pub conflicts: Seq<Seq<char>>,
    pub requires: Seq<Seq<char>>,
    pub required_unless: Seq<(Seq<char>, Option<Seq<char>>)>,
    pub possible_values: Option<Seq<Seq<char>>>,
    pub default_value: Option<Seq<char>>,
}

impl View for Arg {
    type V = ArgView;

    open spec fn view(&self) -> ArgView {
        ArgView {
            name: self.name@,
            short: self.short,
            long: opt_view(self.long),
            index: self.index,
            takes_value: self.takes_value,
            min_values: self.min_values,
            max_values: self.max_values,
            delimiter: self.delimiter,
            required: self.required,
            multiple: self.multiple,
            global: self.global,
            conflicts: strs_view(self.conflicts@),
            requires: strs_view(self.requires@),
            required_unless: conds_view(self.required_unless@),
            possible_values: opt_strs_view(self.possible_values),
            default_value: opt_view(self.default_value),
        }
    }
}

/// The models of a list of arguments.
pub open spec fn args_view(v: Seq<Arg>) -> Seq<ArgView> {
    v.map_values(|a: Arg| a@)
}

/// A named set of arguments that are matched together.
#[derive(Clone, Debug, PartialEq, Eq)]
pub struct ArgGroup {
    pub name: String,
    pub args: Vec<String>,
    /// Exactly one member (or, with `multiple`, at least one) must be present.
    pub required: bool,
    /// More than one member may be present.
    pub multiple: bool,
}

/// Copies an optional string.
pub fn copy_opt(o: &Option<String>) -> (r: Option<String>)
    ensures
        r == *o,
{
    match o {
        Some(s) => Some(s.clone()),
        None => None,
    }
}

/// Copies a list of strings.
pub fn copy_strs(v: &Vec<String>) -> (r: Vec<String>)
    ensures
        r@ == v@,
{
    let mut out: Vec<String> = Vec::new();
    let mut i: usize = 0;
    while i < v.len()
        invariant
            i <= v.len(),
            out@ == v@.take(i as int),
        decreases v.len() - i,
    {
        out.push(v[i].clone());
        proof {
            assert(v@.take(i + 1) =~= v@.take(i as int).push(v@[i as int]));
        }
        i += 1;
    }
    proof {
        assert(v@.take(v.len() as int) =~= v@);
    }
    out
}

/// Copies an optional list of strings.
pub fn copy_opt_strs(o: &Option<Vec<String>>) -> (r: Option<Vec<String>>)
    ensures
        opt_strs_view(r) == opt_strs_view(*o),
{
    match o {
        Some(v) => Some(copy_strs(v)),
        None => None,
    }
}

impl ArgCondition {
    /// Copies the condition.
    pub fn copy(&self) -> (r: ArgCondition)
        ensures
            r == *self,
    {
        ArgCondition { name: self.name.clone(), value: copy_opt(&self.value) }
    }
}

/// Copies a list of conditions.
pub fn copy_conds(v: &Vec<ArgCondition>) -> (r: Vec<ArgCondition>)
    ensures
        r@ == v@,
{
    let mut out: Vec<ArgCondition> = Vec::new();
    let mut i: usize = 0;
    while i < v.len()
        invariant
            i <= v.len(),
            out@ == v@.take(i as int),
        decreases v.len() - i,
    {
        out.push(v[i].copy());
        proof {
            assert(v@.take(i + 1) =~= v@.take(i as int).push(v@[i as int]));
        }
        i += 1;
    }
    proof {
        assert(v@.take(v.len() as int) =~= v@);
    }
    out
}

impl Arg {
    /// A flag named `n`: no short or long form yet, no values, optional.
    pub fn new(n: &str) -> (r: Arg)
        ensures
            r@.name == n@,
            r@.short is None,
            r@.long is None,
            r@.index is None,
            !r@.takes_value,
            r@.min_values == 1,
            r@.max_values == Some(1usize),
            r@.delimiter is None,
            !r@.required,
            !r@.multiple,
            !r@.global,
            r@.conflicts.len() == 0,
            r@.requires.len() == 0,
            r@.required_unless.len() == 0,
            r@.possible_values is None,
            r@.default_value is None,
    {
        let r = Arg {
            name: n.to_owned(),
            short: None,
            long: None,
            index: None,
            takes_value: false,
            min_values: 1,
            max_values: Some(1),
            delimiter: None,
            required: false,
            multiple: false,
            global: false,
            conflicts: Vec::new(),
            requires: Vec::new(),
            required_unless: Vec::new(),
            possible_values: None,
            default_value: None,
        };
        proof {
            assert(strs_view(r.conflicts@) =~= Seq::<Seq<char>>::empty());
            assert(strs_view(r.requires@) =~= Seq::<Seq<char>>::empty());
            assert(conds_view(r.required_unless@) =~= Seq::<(Seq<char>, Option<Seq<char>>)>::empty());
        }
        r
    }

    /// A copy of the argument with the same model.
    pub fn copy(&self) -> (r: Arg)
        ensures
            r@ == self@,
    {
        let r = Arg {
            name: self.name.clone(),
            short: self.short,
            long: copy_opt(&self.long),
            index: self.index,
            takes_value: self.takes_value,
            min_values: self.min_values,
            max_values: self.max_values,
            delimiter: self.delimiter,
            required: self.required,
            multiple: self.multiple,
            global: self.global,
            conflicts: copy_strs(&self.conflicts),
            requires: copy_strs(&self.requires),
            required_unless: copy_conds(&self.required_unless),
            possible_values: copy_opt_strs(&self.possible_values),
            default_value: copy_opt(&self.default_value),
        };
        r
    }
}

impl Arg {
    /// Sets the short form `-c`.
    pub fn short(self, c: char) -> (r: Arg)
        ensures
            r@ == (ArgView { short: Some(c), ..self@ }),
    {
        Arg { short: Some(c), ..self }
    }

    /// Sets the long form `--l`.
    pub fn long(self, l: &str) -> (r: Arg)
        ensures
            r@ == (ArgView { long: Some(l@), ..self@ }),
    {
        Arg { long: Some(l.to_owned()), ..self }
    }

    /// Makes the argument positional, at index `i` counted from 1.
    pub fn index(self, i: usize) -> (r: Arg)
        ensures
            r@ == (ArgView { index: Some(i), ..self@ }),
    {
        Arg { index: Some(i), ..self }
    }

    /// Sets whether the flag takes values.
    pub fn takes_value(self, b: bool) -> (r: Arg)
        ensures
            r@ == (ArgView { takes_value: b, ..self@ }),
    {
        Arg { takes_value: b, ..self }
    }

    /// Sets the fewest values per occurrence; the argument then takes values.
    pub fn min_values(self, n: usize) -> (r: Arg)
        ensures
            r@ == (ArgView { min_values: n, takes_value: true, ..self@ }),
    {
        Arg { min_values: n, takes_value: true, ..self }
    }

    /// Sets the most values per occurrence; the argument then takes values.
    pub fn max_values(self, n: usize) -> (r: Arg)
        ensures
            r@ == (ArgView { max_values: Some(n), takes_value: true, ..self@ }),
    {
        Arg { max_values: Some(n), takes_value: true, ..self }
    }

    /// Sets exactly how many values each occurrence takes.
    pub fn number_of_values(self, n: usize) -> (r: Arg)
        ensures
            r@ == (ArgView { min_values: n, max_values: Some(n), takes_value: true, ..self@ }),
    {
        Arg { min_values: n, max_values: Some(n), takes_value: true, ..self }
    }

    /// Lets an occurrence take any number of values (at least its fewest), or only one.
    pub fn multiple_values(self, b: bool) -> (r: Arg)
        ensures
            r@ == (ArgView {
                max_values: if b {
                    None
                } else {
                    Some(1usize)
                },
                takes_value: true,
                ..self@
            }),
    {
        Arg {
            max_values: if b {
                None
            } else {
                Some(1)
            },
            takes_value: true,
            ..self
        }
    }

    /// Splits each value token at `d`.
    pub fn value_delimiter(self, d: char) -> (r: Arg)
        ensures
            r@ == (ArgView { delimiter: Some(d), ..self@ }),
    {
        Arg { delimiter: Some(d), ..self }
    }

    /// Sets whether the argument must be present.
    pub fn required(self, b: bool) -> (r: Arg)
        ensures
            r@ == (ArgView { required: b, ..self@ }),
    {
        Arg { required: b, ..self }
    }

    /// Sets whether the argument may occur more than once.
    pub fn multiple(self, b: bool) -> (r: Arg)
        ensures
            r@ == (ArgView { multiple: b, ..self@ }),
    {
        Arg { multiple: b, ..self }
    }

    /// Sets whether the argument is visible in every subcommand below its node.
    pub fn global(self, b: bool) -> (r: Arg)
        ensures
            r@ == (ArgView { global: b, ..self@ }),
    {
        Arg { global: b, ..self }
    }

    /// Declares that this argument may not be present together with `name`.
    pub fn conflicts_with(self, name: &str) -> (r: Arg)
        ensures
            r@ == (ArgView { conflicts: self@.conflicts.push(name@), ..self@ }),
    {
        let mut me = self;
        me.conflicts.push(name.to_owned());
        proof {
            assert(strs_view(me.conflicts@) =~= self@.conflicts.push(name@));
        }
        me
    }

    /// Declares that this argument needs `name` to be present too.
    pub fn requires_arg(self, name: &str) -> (r: Arg)
        ensures
            r@ == (ArgView { requires: self@.requires.push(name@), ..self@ }),
    {
        let mut me = self;
        me.requires.push(name.to_owned());
        proof {
            assert(strs_view(me.requires@) =~= self@.requires.push(name@));
        }
        me
    }

    /// Excuses a required argument when `name` is present.
    pub fn required_unless(self, name: &str) -> (r: Arg)
        ensures
            r@ == (ArgView {
                required_unless: self@.required_unless.push((name@, None::<Seq<char>>)),
                ..self@
            }),
    {
        let mut me = self;
        me.required_unless.push(ArgCondition { name: name.to_owned(), value: None });
        proof {
            assert(conds_view(me.required_unless@) =~= self@.required_unless.push(
                (name@, None::<Seq<char>>),
            ));
        }
        me
    }

    /// Excuses a required argument when `name` is present with the value `val`.
    pub fn required_unless_eq(self, name: &str, val: &str) -> (r: Arg)
        ensures
            r@ == (ArgView {
                required_unless: self@.required_unless.push((name@, Some(val@))),
                ..self@
            }),
    {
        let mut me = self;
        me.required_unless.push(ArgCondition { name: name.to_owned(), value: Some(val.to_owned()) });
        proof {
            assert(conds_view(me.required_unless@) =~= self@.required_unless.push(
                (name@, Some(val@)),
            ));
        }
        me
    }

    /// Restricts the values to a closed set.
    pub fn possible_values(self, vals: &[&str]) -> (r: Arg)
        ensures
            r@ == (ArgView {
                possible_values: Some(vals@.map_values(|v: &str| v@)),
                ..self@
            }),
    {
        let mut out: Vec<String> = Vec::new();
        let mut k: usize = 0;
        while k < vals.len()
            invariant
                k <= vals.len(),
                strs_view(out@) == vals@.map_values(|v: &str| v@).take(k as int),
            decreases vals.len() - k,
        {
            let ghost before = out@;
            out.push(vals[k].to_owned());
            proof {
                let vv = vals@.map_values(|v: &str| v@);
                assert(strs_view(out@) =~= strs_view(before).push(vv[k as int]));
                assert(vv.take(k + 1) =~= vv.take(k as int).push(vv[k as int]));
            }
            k += 1;
        }
        proof {
            let vv = vals@.map_values(|v: &str| v@);
            assert(vv.take(vals.len() as int) =~= vv);
        }
        Arg { possible_values: Some(out), ..self }
    }

    /// Sets the value recorded when the argument is absent.
    pub fn default_value(self, v: &str) -> (r: Arg)
        ensures
            r@ == (ArgView { default_value: Some(v@), ..self@ }),
    {
        Arg { default_value: Some(v.to_owned()), ..self }
    }
}

impl ArgGroup {
    /// A group named `n` with no members, neither required nor permitting several.
    pub fn new(n: &str) -> (r: ArgGroup)
        ensures
            r.name@ == n@,
            r.args@.len() == 0,
            !r.required,
            !r.multiple,
    {
        ArgGroup { name: n.to_owned(), args: Vec::new(), required: false, multiple: false }
    }

    /// Adds the argument `name` to the group.
    pub fn arg(self, name: &str) -> (r: ArgGroup)
        ensures
            strs_view(r.args@) == strs_view(self.args@).push(name@),
            r == (ArgGroup { args: r.args, ..self }),
    {
        let mut me = self;
        me.args.push(name.to_owned());
        proof {
            assert(strs_view(me.args@) =~= strs_view(self.args@).push(name@));
        }
        me
    }

    /// Sets whether exactly one member (at least one, with `multiple`) must be present.
    pub fn required(self, b: bool) -> (r: ArgGroup)
        ensures
            r == (ArgGroup { required: b, ..self }),
    {
        ArgGroup { required: b, ..self }
    }

    /// Sets whether several members may be present together.
    pub fn multiple(self, b: bool) -> (r: ArgGroup)
        ensures
            r == (ArgGroup { multiple: b, ..self }),
    {
        ArgGroup { multiple: b, ..self }
    }
}

} // verus!
