use vstd::prelude::*;
use crate::arg::{ArgGroup, ArgView, args_view, copy_strs};
use crate::error::{ErrView, Error, ErrorKind};
use crate::matched::{MatchedArg, MatchedView, find_rec, lookup_rec, present, recs_view};
use crate::model::{Ctx, NodeCtx, mk_err};
use crate::text::strs_view;

verus! {

/// Whether the condition `cd` holds of the records.
pub open spec fn cond_holds(recs: Seq<MatchedView>, cd: (Seq<char>, Option<Seq<char>>)) -> bool {
    match find_rec(recs, cd.0) {
        None => false,
        Some(j) => match cd.1 {
            None => true,
            Some(v) => recs[j as int].values.contains(v),
        },
    }
}

/// Whether one of the conditions that excuse `a` from being required holds.
pub open spec fn unless_met(recs: Seq<MatchedView>, a: ArgView) -> bool {
    exists|q: int| 0 <= q < a.required_unless.len() && cond_holds(recs, #[trigger] a.required_unless[q])
}

/// The first required argument from `k` on that is absent and not excused.
pub open spec fn check_required_from(c: Ctx, recs: Seq<MatchedView>, k: int) -> Option<ErrView>
    decreases c.vis.len() - k,
{
    if k < 0 || k >= c.vis.len() {
        None
    } else {
        let a = c.vis[k];
        if a.required && !present(recs, a.name) && !unless_met(recs, a) {
            Some(mk_err(c, ErrorKind::MissingRequiredArgument, seq![a.name]))
        } else {
            check_required_from(c, recs, k + 1)
        }
    }
}

/// The members of `ms` that are present, in order.
pub open spec fn present_members(recs: Seq<MatchedView>, ms: Seq<Seq<char>>) -> Seq<Seq<char>>
    decreases ms.len(),
{
    if ms.len() == 0 {
        Seq::empty()
    } else {
        let p = present_members(recs, ms.drop_last());
        if present(recs, ms.last()) {
            p.push(ms.last())
        } else {
            p
        }
    }
}

/// What is wrong with the group `g`, if anything: a required group needs exactly one present
/// member, or at least one where it permits several.
pub open spec fn group_error(c: Ctx, g: ArgGroup, recs: Seq<MatchedView>) -> Option<ErrView> {
    if !g.required {
        None
    } else {
        let pm = present_members(recs, strs_view(g.args@));
        if pm.len() == 0 {
            Some(mk_err(c, ErrorKind::MissingRequiredArgument, seq![g.name@]))
        } else if pm.len() >= 2 && !g.multiple {
            Some(mk_err(c, ErrorKind::ArgumentConflict, seq![pm[0], pm[1]]))
        } else {
            None
        }
    }
}

/// The first violated group from `k` on.
pub open spec fn check_groups_from(c: Ctx, groups: Seq<ArgGroup>, recs: Seq<MatchedView>, k: int) -> Option<
    ErrView,
>
    decreases groups.len() - k,
{
    if k < 0 || k >= groups.len() {
        None
    } else {
        match group_error(c, groups[k], recs) {
            Some(e) => Some(e),
            None => check_groups_from(c, groups, recs, k + 1),
        }
    }
}

/// The first visible argument from `k` on named `name`.
pub open spec fn find_arg_from(vis: Seq<ArgView>, name: Seq<char>, k: int) -> Option<usize>
    decreases vis.len() - k,
{
    if k < 0 || k >= vis.len() {
        None
    } else if vis[k].name == name {
        Some(k as usize)
    } else {
        find_arg_from(vis, name, k + 1)
    }
}

/// The first of `names` from `q` on that is present (`want`) or absent (`!want`).
pub open spec fn first_with_from(recs: Seq<MatchedView>, names: Seq<Seq<char>>, want: bool, q: int) -> Option<
    usize,
>
    decreases names.len() - q,
{
    if q < 0 || q >= names.len() {
        None
    } else if present(recs, names[q]) == want {
        Some(q as usize)
    } else {
        first_with_from(recs, names, want, q + 1)
    }
}

/// The first present argument from record `j` on that conflicts with a present argument.
pub open spec fn check_conflicts_from(c: Ctx, recs: Seq<MatchedView>, j: int) -> Option<ErrView>
    decreases recs.len() - j,
{
    if j < 0 || j >= recs.len() {
        None
    } else {
        match find_arg_from(c.vis, recs[j].name, 0) {
            Some(k) => {
                let a = c.vis[k as int];
                match first_with_from(recs, a.conflicts, true, 0) {
                    Some(q) => Some(
                        mk_err(c, ErrorKind::ArgumentConflict, seq![a.name, a.conflicts[q as int]]),
                    ),
                    None => check_conflicts_from(c, recs, j + 1),
                }
            },
            None => check_conflicts_from(c, recs, j + 1),
        }
    }
}

/// The first present argument from record `j` on that requires an absent one.
pub open spec fn check_requires_from(c: Ctx, recs: Seq<MatchedView>, j: int) -> Option<ErrView>
    decreases recs.len() - j,
{
    if j < 0 || j >= recs.len() {
        None
    } else {
        match find_arg_from(c.vis, recs[j].name, 0) {
            Some(k) => {
                let a = c.vis[k as int];
                match first_with_from(recs, a.requires, false, 0) {
                    Some(q) => Some(
                        mk_err(
                            c,
                            ErrorKind::MissingRequiredArgument,
                            seq![a.requires[q as int], a.name],
                        ),
                    ),
                    None => check_requires_from(c, recs, j + 1),
                }
            },
            None => check_requires_from(c, recs, j + 1),
        }
    }
}

/// The first of `vals` from `q` on that is not among `allowed`.
pub open spec fn first_outside_from(vals: Seq<Seq<char>>, allowed: Seq<Seq<char>>, q: int) -> Option<usize>
    decreases vals.len() - q,
{
    if q < 0 || q >= vals.len() {
        None
    } else if !allowed.contains(vals[q]) {
        Some(q as usize)
    } else {
        first_outside_from(vals, allowed, q + 1)
    }
}

/// The first value from record `j` on that its argument's closed set of values lacks.
pub open spec fn check_values_from(c: Ctx, recs: Seq<MatchedView>, j: int) -> Option<ErrView>
    decreases recs.len() - j,
{
    if j < 0 || j >= recs.len() {
        None
    } else {
        match find_arg_from(c.vis, recs[j].name, 0) {
            Some(k) => match c.vis[k as int].possible_values {
                Some(pv) => match first_outside_from(recs[j].values, pv, 0) {
                    Some(q) => Some(
                        mk_err(
                            c,
                            ErrorKind::InvalidValue,
                            seq![recs[j].values[q as int]] + pv,
                        ),
                    ),
                    None => check_values_from(c, recs, j + 1),
                },
                None => check_values_from(c, recs, j + 1),
            },
            None => check_values_from(c, recs, j + 1),
        }
    }
}

/// The first violated constraint of a node, checked in this order: required arguments,
/// required groups, conflicts, requirements, closed sets of values.
pub open spec fn validate_spec(c: Ctx, groups: Seq<ArgGroup>, recs: Seq<MatchedView>) -> Option<ErrView> {
    match check_required_from(c, recs, 0) {
        Some(e) => Some(e),
        None => match check_groups_from(c, groups, recs, 0) {
            Some(e) => Some(e),
            None => match check_conflicts_from(c, recs, 0) {
                Some(e) => Some(e),
                None => match check_requires_from(c, recs, 0) {
                    Some(e) => Some(e),
                    None => check_values_from(c, recs, 0),
                },
            },
        },
    }
}

/// The model of an optional error.
pub open spec fn opt_err_view(o: Option<Error>) -> Option<ErrView> {
    match o {
        Some(e) => Some(e@),
        None => None,
    }
}

/// An error of `kind` about `info`, raised in the node of `c`.
pub fn make_err(c: &NodeCtx, kind: ErrorKind, info: Vec<String>) -> (r: Error)
    ensures
        r@ == mk_err(c@, kind, strs_view(info@)),
{
    Error { kind, info, usage: c.usage.clone() }
}

/// An empty list of strings.
pub fn no_info() -> (r: Vec<String>)
    ensures
        strs_view(r@) == Seq::<Seq<char>>::empty(),
{
    let v: Vec<String> = Vec::new();
    proof {
        assert(strs_view(v@) =~= Seq::<Seq<char>>::empty());
    }
    v
}

/// A list holding one string.
pub fn one(a: &String) -> (r: Vec<String>)
    ensures
        strs_view(r@) == seq![a@],
{
    let mut v: Vec<String> = Vec::new();
    v.push(a.clone());
    proof {
        assert(strs_view(v@) =~= seq![a@]);
    }
    v
}

/// A list holding two strings.
pub fn two(a: &String, b: &String) -> (r: Vec<String>)
    ensures
        strs_view(r@) == seq![a@, b@],
{
    let mut v: Vec<String> = Vec::new();
    v.push(a.clone());
    v.push(b.clone());
    proof {
        assert(strs_view(v@) =~= seq![a@, b@]);
    }
    v
}

/// Whether `v` holds `x`.
pub fn contains_str(v: &Vec<String>, x: &String) -> (r: bool)
    ensures
        r == strs_view(v@).contains(x@),
{
    let mut i: usize = 0;
    while i < v.len()
        invariant
            i <= v.len(),
            forall|q: int| 0 <= q < i ==> strs_view(v@)[q] != x@,
        decreases v.len() - i,
    {
        if v[i] == *x {
            proof {
                assert(strs_view(v@)[i as int] == x@);
            }
            return true;
        }
        i += 1;
    }
    false
}

fn cond_holds_exec(recs: &Vec<MatchedArg>, cd: &crate::arg::ArgCondition) -> (r: bool)
    ensures
        r == cond_holds(recs_view(recs@), crate::arg::cond_view(*cd)),
{
    match lookup_rec(recs, &cd.name) {
        None => false,
        Some(j) => match &cd.value {
            None => true,
            Some(v) => contains_str(&recs[j].values, v),
        },
    }
}

fn unless_met_exec(recs: &Vec<MatchedArg>, a: &crate::arg::Arg) -> (r: bool)
    ensures
        r == unless_met(recs_view(recs@), a@),
{
    let mut q: usize = 0;
    while q < a.required_unless.len()
        invariant
            q <= a.required_unless.len(),
            forall|p: int|
                0 <= p < q ==> !cond_holds(recs_view(recs@), #[trigger] a@.required_unless[p]),
        decreases a.required_unless.len() - q,
    {
        if cond_holds_exec(recs, &a.required_unless[q]) {
            proof {
                assert(cond_holds(recs_view(recs@), a@.required_unless[q as int]));
            }
            return true;
        }
        q += 1;
    }
    false
}

fn check_required(c: &NodeCtx, recs: &Vec<MatchedArg>) -> (r: Option<Error>)
    ensures
        opt_err_view(r) == check_required_from(c@, recs_view(recs@), 0),
{
    let mut k: usize = 0;
    while k < c.vis.len()
        invariant
            k <= c.vis.len(),
            check_required_from(c@, recs_view(recs@), 0) == check_required_from(
                c@,
                recs_view(recs@),
                k as int,
            ),
        decreases c.vis.len() - k,
    {
        let a = &c.vis[k];
        if a.required && lookup_rec(recs, &a.name).is_none() && !unless_met_exec(recs, a) {
            return Some(make_err(c, ErrorKind::MissingRequiredArgument, one(&a.name)));
        }
        k += 1;
    }
    None
}

fn present_members_exec(recs: &Vec<MatchedArg>, ms: &Vec<String>) -> (r: Vec<String>)
    ensures
        strs_view(r@) == present_members(recs_view(recs@), strs_view(ms@)),
{
    let mut out: Vec<String> = Vec::new();
    let mut q: usize = 0;
    proof {
        assert(strs_view(ms@).take(0) =~= Seq::<Seq<char>>::empty());
        assert(strs_view(out@) =~= Seq::<Seq<char>>::empty());
    }
    while q < ms.len()
        invariant
            q <= ms.len(),
            strs_view(out@) == present_members(recs_view(recs@), strs_view(ms@).take(q as int)),
        decreases ms.len() - q,
    {
        let ghost before = out@;
        if lookup_rec(recs, &ms[q]).is_some() {
            out.push(ms[q].clone());
        }
        proof {
            let s = strs_view(ms@);
            assert(s.take(q + 1).drop_last() =~= s.take(q as int));
            assert(s.take(q + 1).last() == ms@[q as int]@);
            if present(recs_view(recs@), ms@[q as int]@) {
                assert(strs_view(out@) =~= strs_view(before).push(ms@[q as int]@));
            } else {
                assert(strs_view(out@) =~= strs_view(before));
            }
        }
        q += 1;
    }
    proof {
        assert(strs_view(ms@).take(ms.len() as int) =~= strs_view(ms@));
    }
    out
}

fn group_error_exec(c: &NodeCtx, g: &ArgGroup, recs: &Vec<MatchedArg>) -> (r: Option<Error>)
    ensures
        opt_err_view(r) == group_error(c@, *g, recs_view(recs@)),
{
    if !g.required {
        return None;
    }
    let pm = present_members_exec(recs, &g.args);
    if pm.len() == 0 {
        Some(make_err(c, ErrorKind::MissingRequiredArgument, one(&g.name)))
    } else if pm.len() >= 2 && !g.multiple {
        Some(make_err(c, ErrorKind::ArgumentConflict, two(&pm[0], &pm[1])))
    } else {
        None
    }
}

fn check_groups(c: &NodeCtx, recs: &Vec<MatchedArg>) -> (r: Option<Error>)
    ensures
        opt_err_view(r) == check_groups_from(c@, c.node.groups@, recs_view(recs@), 0),
{
    let groups = &c.node.groups;
    let mut k: usize = 0;
    while k < groups.len()
        invariant
            k <= groups.len(),
            groups == &c.node.groups,
            check_groups_from(c@, groups@, recs_view(recs@), 0) == check_groups_from(
                c@,
                groups@,
                recs_view(recs@),
                k as int,
            ),
        decreases groups.len() - k,
    {
        let e = group_error_exec(c, &groups[k], recs);
        if e.is_some() {
            return e;
        }
        k += 1;
    }
    None
}

/// The first visible argument named `name`.
pub fn find_arg(vis: &Vec<crate::arg::Arg>, name: &String) -> (r: Option<usize>)
    ensures
        r == find_arg_from(args_view(vis@), name@, 0),
        r matches Some(k) ==> k < vis.len(),
{
    let mut k: usize = 0;
    while k < vis.len()
        invariant
            k <= vis.len(),
            find_arg_from(args_view(vis@), name@, 0) == find_arg_from(args_view(vis@), name@, k as int),
        decreases vis.len() - k,
    {
        if vis[k].name == *name {
            return Some(k);
        }
        k += 1;
    }
    None
}

fn first_with(recs: &Vec<MatchedArg>, names: &Vec<String>, want: bool) -> (r: Option<usize>)
    ensures
        r == first_with_from(recs_view(recs@), strs_view(names@), want, 0),
        r matches Some(q) ==> q < names.len(),
{
    let mut q: usize = 0;
    while q < names.len()
        invariant
            q <= names.len(),
            first_with_from(recs_view(recs@), strs_view(names@), want, 0) == first_with_from(
                recs_view(recs@),
                strs_view(names@),
                want,
                q as int,
            ),
        decreases names.len() - q,
    {
        if lookup_rec(recs, &names[q]).is_some() == want {
            return Some(q);
        }
        q += 1;
    }
    None
}

fn check_conflicts(c: &NodeCtx, recs: &Vec<MatchedArg>) -> (r: Option<Error>)
    ensures
        opt_err_view(r) == check_conflicts_from(c@, recs_view(recs@), 0),
{
    let mut j: usize = 0;
    while j < recs.len()
        invariant
            j <= recs.len(),
            check_conflicts_from(c@, recs_view(recs@), 0) == check_conflicts_from(
                c@,
                recs_view(recs@),
                j as int,
            ),
        decreases recs.len() - j,
    {
        match find_arg(&c.vis, &recs[j].name) {
            Some(k) => {
                let a = &c.vis[k];
                match first_with(recs, &a.conflicts, true) {
                    Some(q) => {
                        return Some(
                            make_err(c, ErrorKind::ArgumentConflict, two(&a.name, &a.conflicts[q])),
                        );
                    },
                    None => {},
                }
            },
            None => {},
        }
        j += 1;
    }
    None
}

fn check_requires(c: &NodeCtx, recs: &Vec<MatchedArg>) -> (r: Option<Error>)
    ensures
        opt_err_view(r) == check_requires_from(c@, recs_view(recs@), 0),
{
    let mut j: usize = 0;
    while j < recs.len()
        invariant
            j <= recs.len(),
            check_requires_from(c@, recs_view(recs@), 0) == check_requires_from(
                c@,
                recs_view(recs@),
                j as int,
            ),
        decreases recs.len() - j,
    {
        match find_arg(&c.vis, &recs[j].name) {
            Some(k) => {
                let a = &c.vis[k];
                match first_with(recs, &a.requires, false) {
                    Some(q) => {
                        return Some(
                            make_err(
                                c,
                                ErrorKind::MissingRequiredArgument,
                                two(&a.requires[q], &a.name),
                            ),
                        );
                    },
                    None => {},
                }
            },
            None => {},
        }
        j += 1;
    }
    None
}

fn first_outside(vals: &Vec<String>, allowed: &Vec<String>) -> (r: Option<usize>)
    ensures
        r == first_outside_from(strs_view(vals@), strs_view(allowed@), 0),
        r matches Some(q) ==> q < vals.len(),
{
    let mut q: usize = 0;
    while q < vals.len()
        invariant
            q <= vals.len(),
            first_outside_from(strs_view(vals@), strs_view(allowed@), 0) == first_outside_from(
                strs_view(vals@),
                strs_view(allowed@),
                q as int,
            ),
        decreases vals.len() - q,
    {
        if !contains_str(allowed, &vals[q]) {
            return Some(q);
        }
        q += 1;
    }
    None
}

fn check_values(c: &NodeCtx, recs: &Vec<MatchedArg>) -> (r: Option<Error>)
    ensures
        opt_err_view(r) == check_values_from(c@, recs_view(recs@), 0),
{
    let mut j: usize = 0;
    while j < recs.len()
        invariant
            j <= recs.len(),
            check_values_from(c@, recs_view(recs@), 0) == check_values_from(
                c@,
                recs_view(recs@),
                j as int,
            ),
        decreases recs.len() - j,
    {
        match find_arg(&c.vis, &recs[j].name) {
            Some(k) => match &c.vis[k].possible_values {
                Some(pv) => match first_outside(&recs[j].values, pv) {
                    Some(q) => {
                        let mut info = one(&recs[j].values[q]);
                        let ghost head = info@;
                        let mut rest = copy_strs(pv);
                        info.append(&mut rest);
                        proof {
                            assert(strs_view(info@) =~= strs_view(head) + strs_view(pv@));
                        }
                        return Some(make_err(c, ErrorKind::InvalidValue, info));
                    },
                    None => {},
                },
                None => {},
            },
            None => {},
        }
        j += 1;
    }
    None
}

/// Checks the records of a node against its constraints; the first violation wins.
pub fn validate(c: &NodeCtx, recs: &Vec<MatchedArg>) -> (r: Option<Error>)
    ensures
        opt_err_view(r) == validate_spec(c@, c.node.groups@, recs_view(recs@)),
{
    let e = check_required(c, recs);
    if e.is_some() {
        return e;
    }
    let e = check_groups(c, recs);
    if e.is_some() {
        return e;
    }
    let e = check_conflicts(c, recs);
    if e.is_some() {
        return e;
    }
    let e = check_requires(c, recs);
    if e.is_some() {
        return e;
    }
    check_values(c, recs)
}

} // verus!
