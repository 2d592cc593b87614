use vstd::prelude::*;
use crate::arg::{Arg, args_view, opt_view};
use crate::error::{Error, ErrorKind};
use crate::matched::{MatchedArg, MatchedView, lookup_rec, present, recs_view};
use crate::model::{
    Ctx, MState, NodeCtx, Step, add_to, add_vals, find_char_from, find_long_from, find_short_from,
    find_sub_from, finish_pending, flag_occurrence, cluster, long_token, new_rec, next_slot_from,
    occ_idx, pending_value, positional, state_ok, step, value_count, with_pos, init_state,
    lemma_cluster_no_enter, open_required_slot, open_occurrence,
};
use crate::settings::{AppSettings, contains_setting};
use crate::text::{char_at, char_count, slice_chars, strs_view, values_of_token};
use crate::validate::{contains_str, make_err, no_info, one, two};

verus! {

/// The state of matching one node, as executable data.
pub struct MatchState {
    pub recs: Vec<MatchedArg>,
    pub pending: Option<usize>,
    pub pcount: usize,
    pub sat: Option<usize>,
    pub term: bool,
}

impl View for MatchState {
    type V = MState;

    open spec fn view(&self) -> MState {
        MState {
            recs: recs_view(self.recs@),
            pending: self.pending,
            pcount: self.pcount,
            sat: self.sat,
            term: self.term,
        }
    }
}

/// The effect of one token, as executable data.
pub enum StepOut {
    Next,
    Enter(usize),
    Stop(Error),
}

/// The executable effect `r`, leaving the state `after`, agrees with the modelled effect
/// `s` of a token met in state `before`.
pub open spec fn step_agrees(c: Ctx, r: StepOut, after: MState, before: MState, s: Step) -> bool {
    match s {
        Step::Next(n) => r is Next && after == n && state_ok(c, after),
        Step::Enter(x) => r == StepOut::Enter(x) && after == before && x < c.subs.len(),
        Step::Stop(e) => r matches StepOut::Stop(er) && er@ == e,
    }
}

impl MatchState {
    /// The state at the start of a node.
    pub fn new() -> (r: MatchState)
        ensures
            r@ == init_state(),
    {
        let r = MatchState { recs: Vec::new(), pending: None, pcount: 0, sat: None, term: false };
        proof {
            assert(recs_view(r.recs@) =~= Seq::<MatchedView>::empty());
        }
        r
    }
}

fn fresh_rec(name: &String, pos: usize) -> (r: MatchedArg)
    ensures
        r@ == new_rec(name@, pos),
{
    let mut positions: Vec<usize> = Vec::new();
    positions.push(pos);
    let r = MatchedArg { name: name.clone(), positions, values: Vec::new(), value_occ: Vec::new() };
    proof {
        assert(r@.positions =~= seq![pos]);
        assert(r@.values =~= Seq::<Seq<char>>::empty());
        assert(r@.value_occ =~= Seq::<usize>::empty());
    }
    r
}

fn push_new_rec(recs: &mut Vec<MatchedArg>, name: &String, pos: usize)
    ensures
        recs_view(final(recs)@) == recs_view(old(recs)@).push(new_rec(name@, pos)),
{
    let r = fresh_rec(name, pos);
    recs.push(r);
    proof {
        assert(recs_view(final(recs)@) =~= recs_view(old(recs)@).push(new_rec(name@, pos)));
    }
}

fn replace_rec(recs: &mut Vec<MatchedArg>, j: usize, r: MatchedArg)
    requires
        j < old(recs)@.len(),
    ensures
        recs_view(final(recs)@) == recs_view(old(recs)@).update(j as int, r@),
{
    let _ = recs.remove(j);
    recs.insert(j, r);
    proof {
        assert(recs_view(final(recs)@) =~= recs_view(old(recs)@).update(j as int, r@));
    }
}

fn rec_with_pos(recs: &mut Vec<MatchedArg>, j: usize, pos: usize)
    requires
        j < old(recs)@.len(),
    ensures
        recs_view(final(recs)@) == recs_view(old(recs)@).update(
            j as int,
            with_pos(recs_view(old(recs)@)[j as int], pos),
        ),
{
    let mut r = recs.remove(j);
    proof {
        assert(r == old(recs)@[j as int]);
    }
    r.positions.push(pos);
    recs.insert(j, r);
    proof {
        assert(r@ =~= with_pos(recs_view(old(recs)@)[j as int], pos));
        assert(recs_view(final(recs)@) =~= recs_view(old(recs)@).update(
            j as int,
            with_pos(recs_view(old(recs)@)[j as int], pos),
        ));
    }
}

fn add_values(r: &mut MatchedArg, vals: &Vec<String>)
    ensures
        final(r)@ == add_vals(old(r)@, strs_view(vals@)),
{
    let occ: usize = if r.positions.len() == 0 {
        0
    } else {
        r.positions.len() - 1
    };
    let ghost r0 = r@;
    let mut q: usize = 0;
    while q < vals.len()
        invariant
            q <= vals.len(),
            occ == occ_idx(r0),
            r@.name == r0.name,
            r@.positions == r0.positions,
            r@.values == r0.values + strs_view(vals@).take(q as int),
            r@.value_occ == r0.value_occ + Seq::new(q as nat, |i: int| occ_idx(r0)),
        decreases vals.len() - q,
    {
        let ghost bv = r@.values;
        let ghost bo = r@.value_occ;
        r.values.push(vals[q].clone());
        r.value_occ.push(occ);
        proof {
            assert(strs_view(r.values@) =~= bv.push(vals@[q as int]@));
            assert(strs_view(vals@).take(q + 1) =~= strs_view(vals@).take(q as int).push(
                vals@[q as int]@,
            ));
            assert(r@.values =~= r0.values + strs_view(vals@).take(q + 1));
            assert(r@.value_occ =~= r0.value_occ + Seq::new((q + 1) as nat, |i: int| occ_idx(r0)));
        }
        q += 1;
    }
    proof {
        assert(strs_view(vals@).take(vals.len() as int) =~= strs_view(vals@));
        assert(r@ =~= add_vals(r0, strs_view(vals@)));
    }
}

fn add_to_exec(recs: &mut Vec<MatchedArg>, name: &String, vals: &Vec<String>)
    ensures
        recs_view(final(recs)@) == add_to(recs_view(old(recs)@), name@, strs_view(vals@)),
{
    match lookup_rec(recs, name) {
        Some(j) => {
            let mut r = recs.remove(j);
            proof {
                assert(r == old(recs)@[j as int]);
            }
            add_values(&mut r, vals);
            recs.insert(j, r);
            proof {
                assert(recs_view(final(recs)@) =~= recs_view(old(recs)@).update(
                    j as int,
                    add_vals(recs_view(old(recs)@)[j as int], strs_view(vals@)),
                ));
            }
        },
        None => {},
    }
}

fn open_occurrence_exec(c: &NodeCtx, recs: &mut Vec<MatchedArg>, a: &Arg, pos: usize) -> (r: Option<
    Error,
>)
    ensures
        match open_occurrence(c@, recs_view(old(recs)@), a@, pos) {
            Ok(rv) => r is None && recs_view(final(recs)@) == rv,
            Err(e) => r matches Some(er) && er@ == e,
        },
{
    match lookup_rec(recs, &a.name) {
        None => {
            push_new_rec(recs, &a.name, pos);
            None
        },
        Some(j) => {
            if a.multiple {
                rec_with_pos(recs, j, pos);
                None
            } else if contains_setting(&c.rs, AppSettings::AllArgsOverrideSelf) {
                let fresh = fresh_rec(&a.name, pos);
                replace_rec(recs, j, fresh);
                None
            } else {
                Some(make_err(c, ErrorKind::ArgumentConflict, two(&a.name, &a.name)))
            }
        },
    }
}

fn flag_occurrence_exec(
    c: &NodeCtx,
    st: &mut MatchState,
    k: usize,
    attached: Option<String>,
    pos: usize,
) -> (r: StepOut)
    requires
        k < c.vis.len(),
        state_ok(c@, old(st)@),
    ensures
        step_agrees(
            c@,
            r,
            final(st)@,
            old(st)@,
            flag_occurrence(c@, old(st)@, k, opt_view(attached), pos),
        ),
{
    let a = &c.vis[k];
    let help = "help".to_owned();
    let version = "version".to_owned();
    if a.name == help {
        return StepOut::Stop(make_err(c, ErrorKind::HelpRequested, no_info()));
    }
    if a.name == version {
        return StepOut::Stop(make_err(c, ErrorKind::VersionRequested, no_info()));
    }
    let e = open_occurrence_exec(c, &mut st.recs, a, pos);
    match e {
        Some(er) => {
            return StepOut::Stop(er);
        },
        None => {},
    }
    if !a.takes_value {
        match attached {
            Some(_) => StepOut::Stop(make_err(c, ErrorKind::TooManyValues, one(&a.name))),
            None => StepOut::Next,
        }
    } else {
        match attached {
            Some(v) => {
                let vals = values_of_token(&v, a.delimiter);
                if char_count(&v) == 0 || vals.len() < a.min_values {
                    StepOut::Stop(make_err(c, ErrorKind::TooFewValues, one(&a.name)))
                } else if match a.max_values {
                    Some(m) => vals.len() > m,
                    None => false,
                } {
                    StepOut::Stop(make_err(c, ErrorKind::TooManyValues, one(&a.name)))
                } else {
                    add_to_exec(&mut st.recs, &a.name, &vals);
                    StepOut::Next
                }
            },
            None => {
                if a.max_values == Some(0usize) {
                    if a.min_values > 0 {
                        StepOut::Stop(make_err(c, ErrorKind::TooFewValues, one(&a.name)))
                    } else {
                        StepOut::Next
                    }
                } else {
                    st.pending = Some(k);
                    st.pcount = 0;
                    StepOut::Next
                }
            },
        }
    }
}

/// The first visible argument whose short form is `ch`.
fn find_short(vis: &Vec<Arg>, ch: char) -> (r: Option<usize>)
    ensures
        r == find_short_from(args_view(vis@), ch, 0),
        r matches Some(k) ==> k < vis.len(),
{
    let mut k: usize = 0;
    while k < vis.len()
        invariant
            k <= vis.len(),
            find_short_from(args_view(vis@), ch, 0) == find_short_from(args_view(vis@), ch, k as int),
        decreases vis.len() - k,
    {
        if vis[k].short == Some(ch) {
            return Some(k);
        }
        k += 1;
    }
    None
}

/// The first visible argument whose long form is `l`.
fn find_long(vis: &Vec<Arg>, l: &String) -> (r: Option<usize>)
    ensures
        r == find_long_from(args_view(vis@), l@, 0),
        r matches Some(k) ==> k < vis.len(),
{
    let mut k: usize = 0;
    while k < vis.len()
        invariant
            k <= vis.len(),
            find_long_from(args_view(vis@), l@, 0) == find_long_from(args_view(vis@), l@, k as int),
        decreases vis.len() - k,
    {
        let hit = match &vis[k].long {
            Some(x) => *x == *l,
            None => false,
        };
        if hit {
            return Some(k);
        }
        k += 1;
    }
    None
}

/// The first subcommand that answers to `t`.
fn find_sub(subs: &Vec<crate::app::App>, t: &String) -> (r: Option<usize>)
    ensures
        r == find_sub_from(subs@, t@, 0),
        r matches Some(k) ==> k < subs.len(),
{
    let mut k: usize = 0;
    while k < subs.len()
        invariant
            k <= subs.len(),
            find_sub_from(subs@, t@, 0) == find_sub_from(subs@, t@, k as int),
        decreases subs.len() - k,
    {
        let s = &subs[k];
        if s.name == *t || contains_str(&s.aliases, t) || contains_str(&s.visible_aliases, t) {
            return Some(k);
        }
        k += 1;
    }
    None
}

/// The first occurrence of `ch` in `s`.
fn find_char(s: &String, ch: char) -> (r: Option<usize>)
    ensures
        r == find_char_from(s@, ch, 0),
        r matches Some(e) ==> e < s@.len(),
{
    let n = char_count(s);
    let mut k: usize = 0;
    while k < n
        invariant
            k <= n,
            n == s@.len(),
            find_char_from(s@, ch, 0) == find_char_from(s@, ch, k as int),
        decreases n - k,
    {
        if char_at(s, k) == ch {
            return Some(k);
        }
        k += 1;
    }
    None
}

/// The number of values recorded for `name`.
fn value_count_exec(recs: &Vec<MatchedArg>, name: &String) -> (r: usize)
    ensures
        r == value_count(recs_view(recs@), name@),
{
    match lookup_rec(recs, name) {
        Some(j) => recs[j].values.len(),
        None => 0,
    }
}

/// Whether a required positional argument has not received a value yet.
fn open_required_slot_exec(vis: &Vec<Arg>, recs: &Vec<MatchedArg>) -> (r: bool)
    ensures
        r == open_required_slot(args_view(vis@), recs_view(recs@)),
{
    let mut k: usize = 0;
    while k < vis.len()
        invariant
            k <= vis.len(),
            forall|q: int|
                0 <= q < k ==> !((#[trigger] args_view(vis@)[q]).index is Some && args_view(
                    vis@,
                )[q].required && !present(recs_view(recs@), args_view(vis@)[q].name)),
        decreases vis.len() - k,
    {
        let a = &vis[k];
        if a.index.is_some() && a.required && lookup_rec(recs, &a.name).is_none() {
            proof {
                assert(args_view(vis@)[k as int] == a@);
            }
            return true;
        }
        k += 1;
    }
    false
}

/// The positional argument with room for a value and the lowest index.
fn next_slot(vis: &Vec<Arg>, recs: &Vec<MatchedArg>) -> (r: Option<usize>)
    ensures
        r == next_slot_from(args_view(vis@), recs_view(recs@), 0, None),
        r matches Some(k) ==> k < vis.len(),
{
    let ghost av = args_view(vis@);
    let ghost rv = recs_view(recs@);
    let mut best: Option<usize> = None;
    let mut k: usize = 0;
    while k < vis.len()
        invariant
            k <= vis.len(),
            av == args_view(vis@),
            rv == recs_view(recs@),
            best matches Some(b) ==> b < k,
            next_slot_from(av, rv, 0, None) == next_slot_from(av, rv, k as int, best),
        decreases vis.len() - k,
    {
        let a = &vis[k];
        let better = match a.index {
            None => false,
            Some(ix) => {
                let full = match a.max_values {
                    None => false,
                    Some(m) => match lookup_rec(recs, &a.name) {
                        None => m == 0,
                        Some(j) => recs[j].values.len() >= m,
                    },
                };
                !full && match best {
                    None => true,
                    Some(b) => match vis[b].index {
                        Some(bx) => ix < bx,
                        None => true,
                    },
                }
            },
        };
        proof {
            assert(better == crate::model::better_slot(av, rv, k as int, best));
        }
        if better {
            best = Some(k);
        }
        k += 1;
    }
    best
}

pub(crate) fn finish_pending_exec(c: &NodeCtx, st: &mut MatchState) -> (r: Option<Error>)
    requires
        state_ok(c@, old(st)@),
    ensures
        match finish_pending(c@, old(st)@) {
            Ok(s) => r is None && final(st)@ == s && state_ok(c@, s),
            Err(e) => r matches Some(er) && er@ == e,
        },
{
    match st.pending {
        None => None,
        Some(k) => {
            if st.pcount < c.vis[k].min_values {
                Some(make_err(c, ErrorKind::TooFewValues, one(&c.vis[k].name)))
            } else {
                st.pending = None;
                st.pcount = 0;
                None
            }
        },
    }
}

fn cluster_exec(c: &NodeCtx, st: &mut MatchState, t: &String, pos: usize) -> (r: StepOut)
    requires
        state_ok(c@, old(st)@),
    ensures
        step_agrees(c@, r, final(st)@, old(st)@, cluster(c@, old(st)@, t@, 1, pos)),
{
    let n = char_count(t);
    let mut j: usize = 1;
    while j < n
        invariant
            1 <= j,
            n == t@.len(),
            state_ok(c@, st@),
            cluster(c@, old(st)@, t@, 1, pos) == cluster(c@, st@, t@, j as int, pos),
        decreases n - j,
    {
        let ch = char_at(t, j);
        match find_short(&c.vis, ch) {
            None => {
                return StepOut::Stop(make_err(c, ErrorKind::UnknownArgument, one(t)));
            },
            Some(k) => {
                if !c.vis[k].takes_value {
                    let r = flag_occurrence_exec(c, st, k, None, pos);
                    match r {
                        StepOut::Next => {},
                        _ => {
                            return r;
                        },
                    }
                } else {
                    let ghost rest = t@.subrange(j + 1, n as int);
                    if j + 1 == n {
                        return flag_occurrence_exec(c, st, k, None, pos);
                    }
                    let c1 = char_at(t, j + 1);
                    proof {
                        assert(rest[0] == c1);
                        assert(rest.subrange(1, rest.len() as int) =~= t@.subrange(j + 2, n as int));
                    }
                    let v = if c1 == '=' {
                        slice_chars(t, j + 2, n)
                    } else {
                        slice_chars(t, j + 1, n)
                    };
                    if char_count(&v) == 0 {
                        return StepOut::Stop(
                            make_err(c, ErrorKind::TooFewValues, one(&c.vis[k].name)),
                        );
                    }
                    return flag_occurrence_exec(c, st, k, Some(v), pos);
                }
            },
        }
        j += 1;
    }
    StepOut::Next
}

fn long_token_exec(c: &NodeCtx, st: &mut MatchState, t: &String, pos: usize) -> (r: StepOut)
    requires
        state_ok(c@, old(st)@),
        t@.len() >= 2,
    ensures
        step_agrees(c@, r, final(st)@, old(st)@, long_token(c@, old(st)@, t@, pos)),
{
    let n = char_count(t);
    let body = slice_chars(t, 2, n);
    let bl = char_count(&body);
    let l: String;
    let attached: Option<String>;
    match find_char(&body, '=') {
        Some(e) => {
            l = slice_chars(&body, 0, e);
            attached = Some(slice_chars(&body, e + 1, bl));
        },
        None => {
            l = body.clone();
            attached = None;
        },
    }
    match find_long(&c.vis, &l) {
        None => StepOut::Stop(make_err(c, ErrorKind::UnknownArgument, one(t))),
        Some(k) => flag_occurrence_exec(c, st, k, attached, pos),
    }
}

fn pending_value_exec(c: &NodeCtx, st: &mut MatchState, t: &String) -> (r: StepOut)
    requires
        state_ok(c@, old(st)@),
        old(st)@.pending is Some,
    ensures
        step_agrees(c@, r, final(st)@, old(st)@, pending_value(c@, old(st)@, t@)),
{
    let k = match st.pending {
        Some(k) => k,
        None => 0,
    };
    let a = &c.vis[k];
    let vals = values_of_token(t, a.delimiter);
    let over = match a.max_values {
        Some(m) => vals.len() > m || st.pcount > m - vals.len(),
        None => false,
    };
    if over {
        return StepOut::Stop(make_err(c, ErrorKind::TooManyValues, one(&a.name)));
    }
    add_to_exec(&mut st.recs, &a.name, &vals);
    let hit = match a.max_values {
        Some(m) => m - vals.len() == st.pcount,
        None => false,
    };
    if hit {
        st.pending = None;
        st.pcount = 0;
        st.sat = Some(k);
    } else {
        st.pcount = if st.pcount > usize::MAX - vals.len() {
            usize::MAX
        } else {
            st.pcount + vals.len()
        };
    }
    StepOut::Next
}

fn positional_exec(c: &NodeCtx, st: &mut MatchState, t: &String, pos: usize) -> (r: StepOut)
    requires
        state_ok(c@, old(st)@),
    ensures
        step_agrees(c@, r, final(st)@, old(st)@, positional(c@, old(st)@, t@, pos)),
{
    match next_slot(&c.vis, &st.recs) {
        None => match st.sat {
            Some(q) => StepOut::Stop(make_err(c, ErrorKind::TooManyValues, one(&c.vis[q].name))),
            None => StepOut::Stop(make_err(c, ErrorKind::UnknownArgument, one(t))),
        },
        Some(k) => {
            let a = &c.vis[k];
            let vals = values_of_token(t, a.delimiter);
            let have = value_count_exec(&st.recs, &a.name);
            let over = match a.max_values {
                Some(m) => vals.len() > m || have > m - vals.len(),
                None => false,
            };
            if over {
                return StepOut::Stop(make_err(c, ErrorKind::TooManyValues, one(&a.name)));
            }
            match lookup_rec(&st.recs, &a.name) {
                Some(j) => rec_with_pos(&mut st.recs, j, pos),
                None => push_new_rec(&mut st.recs, &a.name, pos),
            }
            add_to_exec(&mut st.recs, &a.name, &vals);
            st.sat = None;
            StepOut::Next
        },
    }
}

/// Applies the token `t`, found at the 1-based position `pos`, to the state of a node.
pub fn step_exec(c: &NodeCtx, st: &mut MatchState, t: &String, pos: usize) -> (r: StepOut)
    requires
        state_ok(c@, old(st)@),
    ensures
        step_agrees(c@, r, final(st)@, old(st)@, step(c@, old(st)@, t@, pos)),
{
    if st.term {
        return positional_exec(c, st, t, pos);
    }
    let n = char_count(t);
    if n == 2 && char_at(t, 0) == '-' && char_at(t, 1) == '-' {
        match finish_pending_exec(c, st) {
            Some(e) => StepOut::Stop(e),
            None => {
                st.term = true;
                st.sat = None;
                StepOut::Next
            },
        }
    } else if n >= 2 && char_at(t, 0) == '-' {
        match finish_pending_exec(c, st) {
            Some(e) => StepOut::Stop(e),
            None => {
                proof {
                    lemma_cluster_no_enter(c@, MState { sat: None, ..st@ }, t@, 1, pos);
                }
                st.sat = None;
                if char_at(t, 1) == '-' {
                    long_token_exec(c, st, t, pos)
                } else {
                    cluster_exec(c, st, t, pos)
                }
            },
        }
    } else if st.pending.is_some() {
        pending_value_exec(c, st, t)
    } else if *t == "help".to_owned() && c.node.subcommands.len() > 0 && !contains_setting(
        &c.rs,
        AppSettings::DisableHelpSubcommand,
    ) {
        StepOut::Stop(make_err(c, ErrorKind::HelpRequested, no_info()))
    } else {
        match find_sub(&c.node.subcommands, t) {
            Some(x) => if open_required_slot_exec(&c.vis, &st.recs) {
                positional_exec(c, st, t, pos)
            } else {
                StepOut::Enter(x)
            },
            None => positional_exec(c, st, t, pos),
        }
    }
}

} // verus!
