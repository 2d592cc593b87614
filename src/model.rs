use vstd::prelude::*;
use crate::app::App;
use crate::arg::{ArgView, args_view};
use crate::error::{ErrView, ErrorKind};
use crate::matched::{MatchedView, find_rec, present};
use crate::settings::{AppSettings, has_setting};
use crate::text::{token_values, strs_view};

verus! {

/// What the matcher of one node reads: the arguments visible there, the node's
/// subcommands, its resolved settings, and its usage line for error reports.
pub struct Ctx {
    pub vis: Seq<ArgView>,
    pub subs: Seq<App>,
    pub rs: Seq<AppSettings>,
    pub usage: Seq<char>,
}

/// The state of matching one node: the records so far; the option still taking values
/// from following tokens and how many it has; the option that just reached its most
/// values; and whether `--` was seen.
pub struct MState {
    pub recs: Seq<MatchedView>,
    pub pending: Option<usize>,
    pub pcount: usize,
    pub sat: Option<usize>,
    pub term: bool,
}

/// The effect of one token: a new state, descent into a subcommand, or an outcome that
/// ends the match.
pub enum Step {
    Next(MState),
    Enter(usize),
    Stop(ErrView),
}

/// Where the tokens of one node led: to their end, to a subcommand at a token index, or to
/// an outcome that ends the match.
pub enum Run {
    Done(MState),
    Enter(MState, int, usize),
    Fail(ErrView),
}

/// The state at the start of a node's tokens.
pub open spec fn init_state() -> MState {
    MState { recs: Seq::empty(), pending: None, pcount: 0, sat: None, term: false }
}

/// An error of `kind` about `info`, raised in the node of `c`.
pub open spec fn mk_err(c: Ctx, kind: ErrorKind, info: Seq<Seq<char>>) -> ErrView {
    ErrView { kind, info, usage: c.usage }
}

/// The pending option and the saturated option, where there are, are visible arguments.
pub open spec fn state_ok(c: Ctx, st: MState) -> bool {
    &&& (st.pending matches Some(k) ==> k < c.vis.len())
    &&& (st.sat matches Some(k) ==> k < c.vis.len())
}

/// The name of the argument whose occurrence asks for help.
pub open spec fn help_name() -> Seq<char> {
    "help"@
}

/// The name of the argument whose occurrence asks for the version.
pub open spec fn version_name() -> Seq<char> {
    "version"@
}

/// The first visible argument from `k` on whose long form is `l`.
pub open spec fn find_long_from(vis: Seq<ArgView>, l: Seq<char>, k: int) -> Option<usize>
    decreases vis.len() - k,
{
    if k < 0 || k >= vis.len() {
        None
    } else if vis[k].long == Some(l) {
        Some(k as usize)
    } else {
        find_long_from(vis, l, k + 1)
    }
}

/// The first visible argument from `k` on whose short form is `ch`.
pub open spec fn find_short_from(vis: Seq<ArgView>, ch: char, k: int) -> Option<usize>
    decreases vis.len() - k,
{
    if k < 0 || k >= vis.len() {
        None
    } else if vis[k].short == Some(ch) {
        Some(k as usize)
    } else {
        find_short_from(vis, ch, k + 1)
    }
}

/// Whether the node `s` answers to the name `t`, by its name or one of its aliases.
pub open spec fn answers_to(s: App, t: Seq<char>) -> bool {
    s.name@ == t || strs_view(s.aliases@).contains(t) || strs_view(s.visible_aliases@).contains(t)
}

/// The first subcommand from `k` on that answers to `t`.
pub open spec fn find_sub_from(subs: Seq<App>, t: Seq<char>, k: int) -> Option<usize>
    decreases subs.len() - k,
{
    if k < 0 || k >= subs.len() {
        None
    } else if answers_to(subs[k], t) {
        Some(k as usize)
    } else {
        find_sub_from(subs, t, k + 1)
    }
}

/// The first occurrence of `ch` in `s` from `k` on.
pub open spec fn find_char_from(s: Seq<char>, ch: char, k: int) -> Option<usize>
    decreases s.len() - k,
{
    if k < 0 || k >= s.len() {
        None
    } else if s[k] == ch {
        Some(k as usize)
    } else {
        find_char_from(s, ch, k + 1)
    }
}

/// Whether `n` values stay within the most that `a` takes.
pub open spec fn within_max(a: ArgView, n: int) -> bool {
    match a.max_values {
        Some(m) => n <= m,
        None => true,
    }
}

/// `a + b`, held at the largest `usize`.
pub open spec fn sat_add(a: usize, b: nat) -> usize {
    if a + b > usize::MAX {
        usize::MAX
    } else {
        (a + b) as usize
    }
}

/// The index of the latest occurrence of a record.
pub open spec fn occ_idx(r: MatchedView) -> usize {
    if r.positions.len() == 0 {
        0
    } else {
        (r.positions.len() - 1) as usize
    }
}

/// A record with one occurrence at `pos` and no values.
pub open spec fn new_rec(name: Seq<char>, pos: usize) -> MatchedView {
    MatchedView { name, positions: seq![pos], values: Seq::empty(), value_occ: Seq::empty() }
}

/// The record with one more occurrence at `pos`.
pub open spec fn with_pos(r: MatchedView, pos: usize) -> MatchedView {
    MatchedView { positions: r.positions.push(pos), ..r }
}

/// The record with `vals` added to its latest occurrence.
pub open spec fn add_vals(r: MatchedView, vals: Seq<Seq<char>>) -> MatchedView {
    MatchedView {
        values: r.values + vals,
        value_occ: r.value_occ + Seq::new(vals.len(), |i: int| occ_idx(r)),
        ..r
    }
}

/// The records with `vals` added to the latest occurrence of `name`.
pub open spec fn add_to(recs: Seq<MatchedView>, name: Seq<char>, vals: Seq<Seq<char>>) -> Seq<
    MatchedView,
> {
    match find_rec(recs, name) {
        Some(j) => recs.update(j as int, add_vals(recs[j as int], vals)),
        None => recs,
    }
}

/// Opens an occurrence of the flag or option `a` at `pos`.
pub open spec fn open_occurrence(c: Ctx, recs: Seq<MatchedView>, a: ArgView, pos: usize) -> Result<
    Seq<MatchedView>,
    ErrView,
> {
    match find_rec(recs, a.name) {
        None => Ok(recs.push(new_rec(a.name, pos))),
        Some(j) => if a.multiple {
            Ok(recs.update(j as int, with_pos(recs[j as int], pos)))
        } else if has_setting(c.rs, AppSettings::AllArgsOverrideSelf) {
            Ok(recs.update(j as int, new_rec(a.name, pos)))
        } else {
            Err(mk_err(c, ErrorKind::ArgumentConflict, seq![a.name, a.name]))
        },
    }
}

/// The flag or option `vis[k]` occurs at `pos`, with the value text attached to it in the
/// same token, if any.
pub open spec fn flag_occurrence(
    c: Ctx,
    st: MState,
    k: usize,
    attached: Option<Seq<char>>,
    pos: usize,
) -> Step {
    let a = c.vis[k as int];
    if a.name == help_name() {
        Step::Stop(mk_err(c, ErrorKind::HelpRequested, Seq::empty()))
    } else if a.name == version_name() {
        Step::Stop(mk_err(c, ErrorKind::VersionRequested, Seq::empty()))
    } else {
        match open_occurrence(c, st.recs, a, pos) {
            Err(e) => Step::Stop(e),
            Ok(recs) => if !a.takes_value {
                match attached {
                    Some(_) => Step::Stop(mk_err(c, ErrorKind::TooManyValues, seq![a.name])),
                    None => Step::Next(MState { recs, ..st }),
                }
            } else {
                match attached {
                    Some(v) => {
                        let vals = token_values(v, a.delimiter);
                        if v.len() == 0 || vals.len() < a.min_values {
                            Step::Stop(mk_err(c, ErrorKind::TooFewValues, seq![a.name]))
                        } else if !within_max(a, vals.len() as int) {
                            Step::Stop(mk_err(c, ErrorKind::TooManyValues, seq![a.name]))
                        } else {
                            Step::Next(MState { recs: add_to(recs, a.name, vals), ..st })
                        }
                    },
                    None => if a.max_values == Some(0usize) {
                        if a.min_values > 0 {
                            Step::Stop(mk_err(c, ErrorKind::TooFewValues, seq![a.name]))
                        } else {
                            Step::Next(MState { recs, ..st })
                        }
                    } else {
                        Step::Next(MState { recs, pending: Some(k), pcount: 0, ..st })
                    },
                }
            },
        }
    }
}

/// The short flags of a cluster `t`, from character `j` on.
pub open spec fn cluster(c: Ctx, st: MState, t: Seq<char>, j: int, pos: usize) -> Step
    decreases t.len() - j,
{
    if j < 0 || j >= t.len() {
        Step::Next(st)
    } else {
        match find_short_from(c.vis, t[j], 0) {
            None => Step::Stop(mk_err(c, ErrorKind::UnknownArgument, seq![t])),
            Some(k) => {
                let a = c.vis[k as int];
                if !a.takes_value {
                    match flag_occurrence(c, st, k, None, pos) {
                        Step::Next(s2) => cluster(c, s2, t, j + 1, pos),
                        other => other,
                    }
                } else {
                    let rest = t.subrange(j + 1, t.len() as int);
                    if rest.len() == 0 {
                        flag_occurrence(c, st, k, None, pos)
                    } else {
                        let v = if rest[0] == '=' {
                            rest.subrange(1, rest.len() as int)
                        } else {
                            rest
                        };
                        if v.len() == 0 {
                            Step::Stop(mk_err(c, ErrorKind::TooFewValues, seq![a.name]))
                        } else {
                            flag_occurrence(c, st, k, Some(v), pos)
                        }
                    }
                }
            },
        }
    }
}

/// A cluster never descends into a subcommand.
pub proof fn lemma_cluster_no_enter(c: Ctx, st: MState, t: Seq<char>, j: int, pos: usize)
    ensures
        !(cluster(c, st, t, j, pos) is Enter),
    decreases t.len() - j,
{
    if 0 <= j < t.len() {
        match find_short_from(c.vis, t[j], 0) {
            Some(k) => {
                if !c.vis[k as int].takes_value {
                    match flag_occurrence(c, st, k, None, pos) {
                        Step::Next(s2) => lemma_cluster_no_enter(c, s2, t, j + 1, pos),
                        _ => {},
                    }
                }
            },
            None => {},
        }
    }
}

/// A token `--name` or `--name=value`.
pub open spec fn long_token(c: Ctx, st: MState, t: Seq<char>, pos: usize) -> Step {
    let body = t.subrange(2, t.len() as int);
    let (l, attached) = match find_char_from(body, '=', 0) {
        Some(e) => (body.take(e as int), Some(body.subrange(e + 1, body.len() as int))),
        None => (body, None),
    };
    match find_long_from(c.vis, l, 0) {
        None => Step::Stop(mk_err(c, ErrorKind::UnknownArgument, seq![t])),
        Some(k) => flag_occurrence(c, st, k, attached, pos),
    }
}

/// A token taken as values by the pending option.
pub open spec fn pending_value(c: Ctx, st: MState, t: Seq<char>) -> Step {
    match st.pending {
        None => Step::Next(st),
        Some(k) => {
            let a = c.vis[k as int];
            let vals = token_values(t, a.delimiter);
            let n = st.pcount + vals.len();
            if !within_max(a, n as int) {
                Step::Stop(mk_err(c, ErrorKind::TooManyValues, seq![a.name]))
            } else {
                let recs = add_to(st.recs, a.name, vals);
                if a.max_values == Some(n as usize) {
                    Step::Next(MState { recs, pending: None, pcount: 0, sat: Some(k), ..st })
                } else {
                    Step::Next(MState { recs, pcount: sat_add(st.pcount, vals.len()), ..st })
                }
            }
        },
    }
}

/// Whether the positional argument `a` holds all the values it can.
pub open spec fn saturated(recs: Seq<MatchedView>, a: ArgView) -> bool {
    match a.max_values {
        None => false,
        Some(m) => match find_rec(recs, a.name) {
            None => m == 0,
            Some(j) => recs[j as int].values.len() >= m,
        },
    }
}

/// Whether `vis[k]` is a positional argument with room for a value and a lower index than
/// the one chosen so far.
pub open spec fn better_slot(vis: Seq<ArgView>, recs: Seq<MatchedView>, k: int, best: Option<usize>) -> bool {
    match vis[k].index {
        None => false,
        Some(ix) => !saturated(recs, vis[k]) && match best {
            None => true,
            Some(b) => match vis[b as int].index {
                Some(bx) => ix < bx,
                None => true,
            },
        },
    }
}

/// The positional argument with room for a value and the lowest index, scanning from `k`.
pub open spec fn next_slot_from(
    vis: Seq<ArgView>,
    recs: Seq<MatchedView>,
    k: int,
    best: Option<usize>,
) -> Option<usize>
    decreases vis.len() - k,
{
    if k < 0 || k >= vis.len() {
        best
    } else if better_slot(vis, recs, k, best) {
        next_slot_from(vis, recs, k + 1, Some(k as usize))
    } else {
        next_slot_from(vis, recs, k + 1, best)
    }
}

/// The number of values recorded for `name`.
pub open spec fn value_count(recs: Seq<MatchedView>, name: Seq<char>) -> nat {
    match find_rec(recs, name) {
        Some(j) => recs[j as int].values.len(),
        None => 0,
    }
}

/// A token given to the next positional argument with room for it.
pub open spec fn positional(c: Ctx, st: MState, t: Seq<char>, pos: usize) -> Step {
    match next_slot_from(c.vis, st.recs, 0, None) {
        None => match st.sat {
            Some(q) => Step::Stop(mk_err(c, ErrorKind::TooManyValues, seq![c.vis[q as int].name])),
            None => Step::Stop(mk_err(c, ErrorKind::UnknownArgument, seq![t])),
        },
        Some(k) => {
            let a = c.vis[k as int];
            let vals = token_values(t, a.delimiter);
            if !within_max(a, (value_count(st.recs, a.name) + vals.len()) as int) {
                Step::Stop(mk_err(c, ErrorKind::TooManyValues, seq![a.name]))
            } else {
                let recs1 = match find_rec(st.recs, a.name) {
                    Some(j) => st.recs.update(j as int, with_pos(st.recs[j as int], pos)),
                    None => st.recs.push(new_rec(a.name, pos)),
                };
                Step::Next(MState { recs: add_to(recs1, a.name, vals), sat: None, ..st })
            }
        },
    }
}

/// Ends the pending option: it must hold at least its fewest values.
pub open spec fn finish_pending(c: Ctx, st: MState) -> Result<MState, ErrView> {
    match st.pending {
        None => Ok(st),
        Some(k) => if st.pcount < c.vis[k as int].min_values {
            Err(mk_err(c, ErrorKind::TooFewValues, seq![c.vis[k as int].name]))
        } else {
            Ok(MState { pending: None, pcount: 0, ..st })
        },
    }
}

/// Whether a required positional argument has not received a value yet; while one has not,
/// a subcommand's name is taken as a value.
pub open spec fn open_required_slot(vis: Seq<ArgView>, recs: Seq<MatchedView>) -> bool {
    exists|k: int|
        0 <= k < vis.len() && (#[trigger] vis[k]).index is Some && vis[k].required && !present(
            recs,
            vis[k].name,
        )
}

/// Whether `t` is the terminator `--`.
pub open spec fn is_terminator(t: Seq<char>) -> bool {
    t.len() == 2 && t[0] == '-' && t[1] == '-'
}

/// Whether `t` reads as a flag: a dash and at least one more character.
pub open spec fn is_flag_like(t: Seq<char>) -> bool {
    t.len() >= 2 && t[0] == '-'
}

/// The effect of the token `t`, found at the 1-based position `pos`.
pub open spec fn step(c: Ctx, st: MState, t: Seq<char>, pos: usize) -> Step {
    if st.term {
        positional(c, st, t, pos)
    } else if is_terminator(t) {
        match finish_pending(c, st) {
            Err(e) => Step::Stop(e),
            Ok(s) => Step::Next(MState { term: true, sat: None, ..s }),
        }
    } else if is_flag_like(t) {
        match finish_pending(c, st) {
            Err(e) => Step::Stop(e),
            Ok(s0) => {
                let s = MState { sat: None, ..s0 };
                if t[1] == '-' {
                    long_token(c, s, t, pos)
                } else {
                    cluster(c, s, t, 1, pos)
                }
            },
        }
    } else if st.pending is Some {
        pending_value(c, st, t)
    } else if t == help_name() && c.subs.len() > 0 && !has_setting(
        c.rs,
        AppSettings::DisableHelpSubcommand,
    ) {
        Step::Stop(mk_err(c, ErrorKind::HelpRequested, Seq::empty()))
    } else {
        match find_sub_from(c.subs, t, 0) {
            Some(x) => if open_required_slot(c.vis, st.recs) {
                positional(c, st, t, pos)
            } else {
                Step::Enter(x)
            },
            None => positional(c, st, t, pos),
        }
    }
}

/// The tokens of one node from index `i` on, left to right.
pub open spec fn run(c: Ctx, toks: Seq<String>, i: int, st: MState) -> Run
    decreases toks.len() - i,
{
    if i < 0 || i >= toks.len() {
        Run::Done(st)
    } else {
        match step(c, st, toks[i]@, (i + 1) as usize) {
            Step::Next(s) => run(c, toks, i + 1, s),
            Step::Enter(x) => Run::Enter(st, i, x),
            Step::Stop(e) => Run::Fail(e),
        }
    }
}

/// A subcommand found by the search is one of the subcommands.
pub proof fn lemma_find_sub(subs: Seq<App>, t: Seq<char>, k: int)
    requires
        0 <= k,
    ensures
        find_sub_from(subs, t, k) matches Some(x) ==> x < subs.len(),
    decreases subs.len() - k,
{
    if k < subs.len() && !answers_to(subs[k], t) {
        lemma_find_sub(subs, t, k + 1);
    }
}

/// A descent found by `run` lies at or after where it started, into one of the node's
/// subcommands.
pub proof fn lemma_run_enter(c: Ctx, toks: Seq<String>, i: int, st: MState)
    requires
        0 <= i,
    ensures
        run(c, toks, i, st) matches Run::Enter(_, j, x) ==> i <= j < toks.len() && x
            < c.subs.len(),
    decreases toks.len() - i,
{
    if i < toks.len() {
        let t = toks[i]@;
        let pos = (i + 1) as usize;
        match step(c, st, t, pos) {
            Step::Next(s) => lemma_run_enter(c, toks, i + 1, s),
            Step::Enter(x) => {
                lemma_find_sub(c.subs, t, 0);
                match finish_pending(c, st) {
                    Ok(s0) => lemma_cluster_no_enter(c, MState { sat: None, ..s0 }, t, 1, pos),
                    Err(_) => {},
                }
            },
            _ => {},
        }
    }
}

/// The matcher's view of one node, as executable data.
pub struct NodeCtx<'a> {
    pub vis: Vec<crate::arg::Arg>,
    pub node: &'a App,
    pub rs: Vec<AppSettings>,
    pub usage: String,
}

impl<'a> View for NodeCtx<'a> {
    type V = Ctx;

    open spec fn view(&self) -> Ctx {
        Ctx { vis: args_view(self.vis@), subs: self.node.subcommands@, rs: self.rs@, usage: self.usage@ }
    }
}

} // verus!
