use vstd::prelude::*;
use crate::app::App;
use crate::arg::{Arg, ArgView, args_view};
use crate::error::{ErrView, Error, ErrorKind};
use crate::matched::{
    ArgMatches, MatchedArg, MatchedView, MatchesView, SubCommand, SubView, lookup_rec, present,
    recs_view,
};
use crate::matcher::{MatchState, StepOut, step_exec};
use crate::model::{Ctx, MState, NodeCtx, Run, init_state, lemma_run_enter, run, state_ok, finish_pending};
use crate::settings::{AppSettings, contains_setting, has_setting};
use crate::text::base_name_spec;
use crate::usage::{build_usage, usage_line};
use crate::validate::{make_err, no_info, validate, validate_spec};

verus! {

/// The `--help` / `-h` flag added to a node.
pub open spec fn builtin_help(node: App) -> ArgView {
    ArgView {
        name: "help"@,
        short: Some(
            match node.help_short {
                Some(ch) => ch,
                None => 'h',
            },
        ),
        long: Some("help"@),
        index: None,
        takes_value: false,
        min_values: 1,
        max_values: Some(1usize),
        delimiter: None,
        required: false,
        multiple: false,
        global: false,
        conflicts: Seq::empty(),
        requires: Seq::empty(),
        required_unless: Seq::empty(),
        possible_values: None,
        default_value: None,
    }
}

/// The `--version` / `-V` flag added to a node.
pub open spec fn builtin_version(node: App) -> ArgView {
    ArgView {
        name: "version"@,
        short: Some(
            match node.version_short {
                Some(ch) => ch,
                None => 'V',
            },
        ),
        long: Some("version"@),
        ..builtin_help(node)
    }
}

/// The flags that a node gets without declaring them, unless its settings turn them off.
pub open spec fn builtins(node: App, rs: Seq<AppSettings>) -> Seq<ArgView> {
    (if has_setting(rs, AppSettings::DisableHelpFlags) {
        Seq::empty()
    } else {
        seq![builtin_help(node)]
    }) + (if has_setting(rs, AppSettings::DisableVersion) {
        Seq::empty()
    } else {
        seq![builtin_version(node)]
    })
}

/// Whether one of `own` is named `name`.
pub open spec fn named_in(own: Seq<ArgView>, name: Seq<char>) -> bool {
    exists|k: int| 0 <= k < own.len() && (#[trigger] own[k]).name == name
}

/// The global arguments of a parent's visible set that a child with arguments `own` does
/// not shadow, in order.
pub open spec fn inherit(pvis: Seq<ArgView>, own: Seq<ArgView>) -> Seq<ArgView>
    decreases pvis.len(),
{
    if pvis.len() == 0 {
        Seq::empty()
    } else {
        let r = inherit(pvis.drop_last(), own);
        let g = pvis.last();
        if g.global && !named_in(own, g.name) {
            r.push(g)
        } else {
            r
        }
    }
}

/// The arguments visible in `node`: its own, then the inherited globals, then the built-in
/// flags.
pub open spec fn visible(node: App, pvis: Seq<ArgView>, rs: Seq<AppSettings>) -> Seq<ArgView> {
    args_view(node.args@) + inherit(pvis, args_view(node.args@)) + builtins(node, rs)
}

/// The settings in force in `node`: its own, its global ones, and those inherited.
pub open spec fn resolved(node: App, gset: Seq<AppSettings>) -> Seq<AppSettings> {
    node.settings@ + node.global_settings@ + gset
}

/// What the matcher of `node` reads.
pub open spec fn node_ctx(node: App, pvis: Seq<ArgView>, gset: Seq<AppSettings>, path: Seq<char>) -> Ctx {
    let rs = resolved(node, gset);
    let vis = visible(node, pvis, rs);
    Ctx { vis, subs: node.subcommands@, rs, usage: usage_line(node, vis, path) }
}

/// A record that holds a default value and no occurrence.
pub open spec fn default_rec(name: Seq<char>, d: Seq<char>) -> MatchedView {
    MatchedView { name, positions: Seq::empty(), values: seq![d], value_occ: seq![0usize] }
}

/// The records with a default record added for each absent argument that has a default.
pub open spec fn add_defaults(vis: Seq<ArgView>, recs: Seq<MatchedView>) -> Seq<MatchedView>
    decreases vis.len(),
{
    if vis.len() == 0 {
        recs
    } else {
        let r = add_defaults(vis.drop_last(), recs);
        let a = vis.last();
        match a.default_value {
            Some(d) => if !present(r, a.name) {
                r.push(default_rec(a.name, d))
            } else {
                r
            },
            None => r,
        }
    }
}

/// Whether `name` is a global argument visible in the node.
pub open spec fn is_global_in(vis: Seq<ArgView>, name: Seq<char>) -> bool {
    exists|k: int| 0 <= k < vis.len() && (#[trigger] vis[k]).name == name && vis[k].global
}

/// The node's records with the records handed down from its parent added, for each
/// global argument that the node did not match itself.
pub open spec fn merge_down(vis: Seq<ArgView>, own: Seq<MatchedView>, handed: Seq<MatchedView>) -> Seq<
    MatchedView,
>
    decreases handed.len(),
{
    if handed.len() == 0 {
        own
    } else {
        let m = merge_down(vis, own, handed.drop_last());
        let h = handed.last();
        if is_global_in(vis, h.name) && !present(m, h.name) {
            m.push(h)
        } else {
            m
        }
    }
}

/// Ends the tokens of a node: the pending option is closed, a required subcommand must have
/// come, the constraints are checked, and default values are filled in.
pub open spec fn close_node(c: Ctx, node: App, st: MState, has_sub: bool) -> Result<
    Seq<MatchedView>,
    ErrView,
> {
    match finish_pending(c, st) {
        Err(e) => Err(e),
        Ok(s) => if !has_sub && has_setting(c.rs, AppSettings::SubcommandRequired) {
            Err(crate::model::mk_err(c, ErrorKind::MissingSubcommand, Seq::empty()))
        } else {
            match validate_spec(c, node.groups@, s.recs) {
                Some(e) => Err(e),
                None => Ok(add_defaults(c.vis, s.recs)),
            }
        },
    }
}

/// Matches the tokens from index `i` on against `node`, whose parent sees `pvis`, with the
/// inherited global settings `gset`, called by `path`; `handed` holds the parent's records
/// when matched values are propagated downwards (`prop`).
pub open spec fn parse_node_spec(
    node: App,
    pvis: Seq<ArgView>,
    gset: Seq<AppSettings>,
    path: Seq<char>,
    toks: Seq<String>,
    i: int,
    handed: Seq<MatchedView>,
    prop: bool,
) -> Result<MatchesView, ErrView>
    decreases toks.len() - i,
    via parse_node_decreases
{
    let c = node_ctx(node, pvis, gset, path);
    let prop2 = prop || has_setting(c.rs, AppSettings::PropagateGlobalValuesDown);
    match run(c, toks, i, init_state()) {
        Run::Fail(e) => Err(e),
        Run::Done(st) => match close_node(c, node, st, false) {
            Err(e) => Err(e),
            Ok(recs) => Ok(MatchesView { args: merge_down(c.vis, recs, handed), sub: None }),
        },
        Run::Enter(st, j, x) => match close_node(c, node, st, true) {
            Err(e) => Err(e),
            Ok(recs) => {
                let mine = merge_down(c.vis, recs, handed);
                let child = node.subcommands@[x as int];
                match parse_node_spec(
                    child,
                    c.vis,
                    gset + node.global_settings@,
                    path + " "@ + child.name@,
                    toks,
                    j + 1,
                    if prop2 {
                        mine
                    } else {
                        Seq::empty()
                    },
                    prop2,
                ) {
                    Err(e) => Err(e),
                    Ok(m) => Ok(
                        MatchesView {
                            args: mine,
                            sub: Some(Box::new(SubView { name: child.name@, matches: m })),
                        },
                    ),
                }
            },
        },
    }
}

#[via_fn]
proof fn parse_node_decreases(
    node: App,
    pvis: Seq<ArgView>,
    gset: Seq<AppSettings>,
    path: Seq<char>,
    toks: Seq<String>,
    i: int,
    handed: Seq<MatchedView>,
    prop: bool,
) {
    if i >= 0 {
        lemma_run_enter(node_ctx(node, pvis, gset, path), toks, i, init_state());
    }
}

/// The model of the outcome of a match.
pub open spec fn res_view(r: Result<ArgMatches, Error>) -> Result<MatchesView, ErrView> {
    match r {
        Ok(m) => Ok(m@),
        Err(e) => Err(e@),
    }
}

fn append_settings(out: &mut Vec<AppSettings>, src: &Vec<AppSettings>)
    ensures
        final(out)@ == old(out)@ + src@,
{
    let mut k: usize = 0;
    while k < src.len()
        invariant
            k <= src.len(),
            out@ == old(out)@ + src@.take(k as int),
        decreases src.len() - k,
    {
        out.push(src[k]);
        proof {
            assert(src@.take(k + 1) =~= src@.take(k as int).push(src@[k as int]));
            assert(out@ =~= old(out)@ + src@.take(k + 1));
        }
        k += 1;
    }
    proof {
        assert(src@.take(src.len() as int) =~= src@);
    }
}

pub(crate) fn resolve_settings(node: &App, gset: &Vec<AppSettings>) -> (r: Vec<AppSettings>)
    ensures
        r@ == resolved(*node, gset@),
{
    let mut r: Vec<AppSettings> = Vec::new();
    append_settings(&mut r, &node.settings);
    append_settings(&mut r, &node.global_settings);
    append_settings(&mut r, gset);
    proof {
        assert(r@ =~= resolved(*node, gset@));
    }
    r
}

fn named_in_exec(own: &Vec<Arg>, name: &String) -> (r: bool)
    ensures
        r == named_in(args_view(own@), name@),
{
    let mut k: usize = 0;
    while k < own.len()
        invariant
            k <= own.len(),
            forall|q: int| 0 <= q < k ==> (#[trigger] args_view(own@)[q]).name != name@,
        decreases own.len() - k,
    {
        if own[k].name == *name {
            proof {
                assert(args_view(own@)[k as int].name == name@);
            }
            return true;
        }
        k += 1;
    }
    false
}

fn make_builtin(node: &App, name: &str, short: char) -> (r: Arg)
    ensures
        r@ == (ArgView { name: name@, short: Some(short), long: Some(name@), ..builtin_help(*node) }),
{
    let mut a = Arg::new(name);
    a.short = Some(short);
    a.long = Some(name.to_owned());
    proof {
        assert(a@.conflicts =~= Seq::<Seq<char>>::empty());
        assert(a@.requires =~= Seq::<Seq<char>>::empty());
        assert(a@.required_unless =~= Seq::<(Seq<char>, Option<Seq<char>>)>::empty());
    }
    a
}

fn push_copies(out: &mut Vec<Arg>, src: &Vec<Arg>)
    ensures
        args_view(final(out)@) == args_view(old(out)@) + args_view(src@),
{
    let mut k: usize = 0;
    while k < src.len()
        invariant
            k <= src.len(),
            args_view(out@) == args_view(old(out)@) + args_view(src@).take(k as int),
        decreases src.len() - k,
    {
        let ghost before = out@;
        out.push(src[k].copy());
        proof {
            assert(args_view(out@) =~= args_view(before).push(src@[k as int]@));
            assert(args_view(src@).take(k + 1) =~= args_view(src@).take(k as int).push(
                src@[k as int]@,
            ));
            assert(args_view(out@) =~= args_view(old(out)@) + args_view(src@).take(k + 1));
        }
        k += 1;
    }
    proof {
        assert(args_view(src@).take(src.len() as int) =~= args_view(src@));
    }
}

/// The arguments visible in `node`, whose parent sees `pvis`, under the settings `rs`.
pub(crate) fn visible_exec(node: &App, pvis: &Vec<Arg>, rs: &Vec<AppSettings>) -> (r: Vec<Arg>)
    ensures
        args_view(r@) == visible(*node, args_view(pvis@), rs@),
{
    let mut out: Vec<Arg> = Vec::new();
    proof {
        assert(args_view(out@) =~= Seq::<ArgView>::empty());
    }
    push_copies(&mut out, &node.args);
    let ghost own = args_view(node.args@);
    proof {
        assert(args_view(pvis@).take(0) =~= Seq::<ArgView>::empty());
        assert(args_view(out@) =~= own + inherit(args_view(pvis@).take(0), own));
    }
    let mut k: usize = 0;
    while k < pvis.len()
        invariant
            k <= pvis.len(),
            own == args_view(node.args@),
            args_view(out@) == own + inherit(args_view(pvis@).take(k as int), own),
        decreases pvis.len() - k,
    {
        let g = &pvis[k];
        let ghost before = out@;
        proof {
            assert(args_view(pvis@).take(k + 1).drop_last() =~= args_view(pvis@).take(k as int));
            assert(args_view(pvis@).take(k + 1).last() == g@);
        }
        if g.global && !named_in_exec(&node.args, &g.name) {
            out.push(g.copy());
            proof {
                assert(args_view(out@) =~= args_view(before).push(g@));
                assert(args_view(out@) =~= own + inherit(args_view(pvis@).take(k + 1), own));
            }
        }
        k += 1;
    }
    proof {
        assert(args_view(pvis@).take(pvis.len() as int) =~= args_view(pvis@));
    }
    if !contains_setting(rs, AppSettings::DisableHelpFlags) {
        let ghost before = out@;
        let h = make_builtin(node, "help", match node.help_short {
            Some(ch) => ch,
            None => 'h',
        });
        out.push(h);
        proof {
            assert(args_view(out@) =~= args_view(before).push(builtin_help(*node)));
        }
    }
    if !contains_setting(rs, AppSettings::DisableVersion) {
        let ghost before = out@;
        let v = make_builtin(node, "version", match node.version_short {
            Some(ch) => ch,
            None => 'V',
        });
        out.push(v);
        proof {
            assert(args_view(out@) =~= args_view(before).push(builtin_version(*node)));
        }
    }
    proof {
        assert(args_view(out@) =~= visible(*node, args_view(pvis@), rs@));
    }
    out
}

fn add_defaults_exec(vis: &Vec<Arg>, recs: &mut Vec<MatchedArg>)
    ensures
        recs_view(final(recs)@) == add_defaults(args_view(vis@), recs_view(old(recs)@)),
{
    let ghost r0 = recs_view(recs@);
    proof {
        assert(args_view(vis@).take(0) =~= Seq::<ArgView>::empty());
    }
    let mut k: usize = 0;
    while k < vis.len()
        invariant
            k <= vis.len(),
            r0 == recs_view(old(recs)@),
            recs_view(recs@) == add_defaults(args_view(vis@).take(k as int), r0),
        decreases vis.len() - k,
    {
        let a = &vis[k];
        let ghost before = recs@;
        proof {
            assert(args_view(vis@).take(k + 1).drop_last() =~= args_view(vis@).take(k as int));
            assert(args_view(vis@).take(k + 1).last() == a@);
        }
        match &a.default_value {
            Some(d) => {
                if lookup_rec(recs, &a.name).is_none() {
                    let mut values: Vec<String> = Vec::new();
                    values.push(d.clone());
                    let mut value_occ: Vec<usize> = Vec::new();
                    value_occ.push(0);
                    let r = MatchedArg { name: a.name.clone(), positions: Vec::new(), values, value_occ };
                    proof {
                        assert(r@.positions =~= Seq::<usize>::empty());
                        assert(r@.values =~= seq![d@]);
                        assert(r@.value_occ =~= seq![0usize]);
                    }
                    recs.push(r);
                    proof {
                        assert(recs_view(recs@) =~= recs_view(before).push(default_rec(a@.name, d@)));
                    }
                }
            },
            None => {},
        }
        k += 1;
    }
    proof {
        assert(args_view(vis@).take(vis.len() as int) =~= args_view(vis@));
    }
}

fn is_global_exec(vis: &Vec<Arg>, name: &String) -> (r: bool)
    ensures
        r == is_global_in(args_view(vis@), name@),
{
    let mut k: usize = 0;
    while k < vis.len()
        invariant
            k <= vis.len(),
            forall|q: int|
                0 <= q < k ==> !((#[trigger] args_view(vis@)[q]).name == name@ && args_view(
                    vis@,
                )[q].global),
        decreases vis.len() - k,
    {
        if vis[k].name == *name && vis[k].global {
            proof {
                assert(args_view(vis@)[k as int].name == name@);
            }
            return true;
        }
        k += 1;
    }
    false
}

fn merge_down_exec(vis: &Vec<Arg>, own: &mut Vec<MatchedArg>, handed: &Vec<MatchedArg>)
    ensures
        recs_view(final(own)@) == merge_down(
            args_view(vis@),
            recs_view(old(own)@),
            recs_view(handed@),
        ),
{
    let ghost o0 = recs_view(own@);
    proof {
        assert(recs_view(handed@).take(0) =~= Seq::<MatchedView>::empty());
    }
    let mut q: usize = 0;
    while q < handed.len()
        invariant
            q <= handed.len(),
            o0 == recs_view(old(own)@),
            recs_view(own@) == merge_down(args_view(vis@), o0, recs_view(handed@).take(q as int)),
        decreases handed.len() - q,
    {
        let h = &handed[q];
        let ghost before = own@;
        proof {
            assert(recs_view(handed@).take(q + 1).drop_last() =~= recs_view(handed@).take(q as int));
            assert(recs_view(handed@).take(q + 1).last() == h@);
        }
        if is_global_exec(vis, &h.name) && lookup_rec(own, &h.name).is_none() {
            own.push(h.copy());
            proof {
                assert(recs_view(own@) =~= recs_view(before).push(h@));
            }
        }
        q += 1;
    }
    proof {
        assert(recs_view(handed@).take(handed.len() as int) =~= recs_view(handed@));
    }
}

fn copy_recs(v: &Vec<MatchedArg>) -> (r: Vec<MatchedArg>)
    ensures
        recs_view(r@) == recs_view(v@),
{
    let mut out: Vec<MatchedArg> = Vec::new();
    let mut k: usize = 0;
    while k < v.len()
        invariant
            k <= v.len(),
            recs_view(out@) == recs_view(v@).take(k as int),
        decreases v.len() - k,
    {
        let ghost before = out@;
        out.push(v[k].copy());
        proof {
            assert(recs_view(out@) =~= recs_view(before).push(v@[k as int]@));
            assert(recs_view(v@).take(k + 1) =~= recs_view(v@).take(k as int).push(v@[k as int]@));
        }
        k += 1;
    }
    proof {
        assert(recs_view(v@).take(v.len() as int) =~= recs_view(v@));
    }
    out
}

fn close_node_exec(c: &NodeCtx, st: MatchState, has_sub: bool) -> (r: Result<Vec<MatchedArg>, Error>)
    requires
        state_ok(c@, st@),
    ensures
        match close_node(c@, *c.node, st@, has_sub) {
            Ok(rv) => r matches Ok(v) && recs_view(v@) == rv,
            Err(e) => r matches Err(er) && er@ == e,
        },
{
    let mut st = st;
    match crate::matcher::finish_pending_exec(c, &mut st) {
        Some(e) => {
            return Err(e);
        },
        None => {},
    }
    if !has_sub && contains_setting(&c.rs, AppSettings::SubcommandRequired) {
        return Err(make_err(c, ErrorKind::MissingSubcommand, no_info()));
    }
    match validate(c, &st.recs) {
        Some(e) => {
            return Err(e);
        },
        None => {},
    }
    let mut recs = st.recs;
    add_defaults_exec(&c.vis, &mut recs);
    Ok(recs)
}

/// Matches the tokens from index `i` on against `node`, whose parent sees `pvis`, with the
/// inherited global settings `gset`, called by `path`; `handed` holds the parent's records
/// when matched values are propagated downwards (`prop`).
pub fn parse_node(
    node: &App,
    pvis: &Vec<Arg>,
    gset: &Vec<AppSettings>,
    path: &String,
    toks: &Vec<String>,
    i: usize,
    handed: Vec<MatchedArg>,
    prop: bool,
) -> (r: Result<ArgMatches, Error>)
    requires
        i <= toks.len(),
    ensures
        res_view(r) == parse_node_spec(
            *node,
            args_view(pvis@),
            gset@,
            path@,
            toks@,
            i as int,
            recs_view(handed@),
            prop,
        ),
    decreases toks.len() - i,
{
    let rs = resolve_settings(node, gset);
    let vis = visible_exec(node, pvis, &rs);
    let usage = build_usage(node, &vis, path);
    let c = NodeCtx { vis, node, rs, usage };
    let ghost cv = node_ctx(*node, args_view(pvis@), gset@, path@);
    proof {
        assert(c@ == cv);
    }
    let prop2 = prop || contains_setting(&c.rs, AppSettings::PropagateGlobalValuesDown);
    let mut st = MatchState::new();
    let mut j: usize = i;
    while j < toks.len()
        invariant
            i <= j <= toks.len(),
            c@ == cv,
            cv == node_ctx(*node, args_view(pvis@), gset@, path@),
            prop2 == (prop || has_setting(cv.rs, AppSettings::PropagateGlobalValuesDown)),
            c.node == node,
            state_ok(cv, st@),
            run(cv, toks@, i as int, init_state()) == run(cv, toks@, j as int, st@),
        decreases toks.len() - j,
    {
        let ghost before = st@;
        let r = step_exec(&c, &mut st, &toks[j], j + 1);
        match r {
            StepOut::Next => {
                proof {
                    assert(run(cv, toks@, j as int, before) == run(cv, toks@, j + 1, st@));
                }
            },
            StepOut::Stop(e) => {
                proof {
                    assert(run(cv, toks@, j as int, before) == Run::Fail(e@));
                    assert(run(cv, toks@, i as int, init_state()) == Run::Fail(e@));
                }
                return Err(e);
            },
            StepOut::Enter(x) => {
                proof {
                    assert(run(cv, toks@, j as int, before) == Run::Enter(before, j as int, x));
                    assert(run(cv, toks@, i as int, init_state()) == Run::Enter(before, j as int, x));
                }
                let mine0 = match close_node_exec(&c, st, true) {
                    Err(e) => {
                        return Err(e);
                    },
                    Ok(v) => v,
                };
                let mut mine = mine0;
                merge_down_exec(&c.vis, &mut mine, &handed);
                let child = &node.subcommands[x];
                let mut cg: Vec<AppSettings> = Vec::new();
                append_settings(&mut cg, gset);
                append_settings(&mut cg, &node.global_settings);
                let cpath = path.clone().concat(" ").concat(child.name.as_str());
                let passed = if prop2 {
                    copy_recs(&mine)
                } else {
                    Vec::new()
                };
                proof {
                    assert(cg@ =~= gset@ + node.global_settings@);
                    if !prop2 {
                        assert(recs_view(passed@) =~= Seq::<MatchedView>::empty());
                    }
                }
                let sub = parse_node(child, &c.vis, &cg, &cpath, toks, j + 1, passed, prop2);
                return match sub {
                    Err(e) => Err(e),
                    Ok(m) => Ok(
                        ArgMatches {
                            args: mine,
                            subcommand: Some(Box::new(SubCommand { name: child.name.clone(), matches: m })),
                        },
                    ),
                };
            },
        }
        j += 1;
    }
    let mut mine = match close_node_exec(&c, st, false) {
        Err(e) => {
            return Err(e);
        },
        Ok(v) => v,
    };
    merge_down_exec(&c.vis, &mut mine, &handed);
    Ok(ArgMatches { args: mine, subcommand: None })
}

/// The first token of a program's arguments names the program, unless `NoBinaryName` is set.
pub open spec fn skips_bin(app: App, toks: Seq<String>) -> bool {
    !has_setting(app.settings@, AppSettings::NoBinaryName) && toks.len() > 0
}

/// The name by which `app` is called in usage lines.
pub open spec fn call_path(app: App, toks: Seq<String>) -> Seq<char> {
    if skips_bin(app, toks) {
        base_name_spec(toks[0]@)
    } else {
        match app.bin_name {
            Some(b) => b@,
            None => app.name@,
        }
    }
}

/// The outcome of matching a whole argument list against `app`.
pub open spec fn get_matches_spec(app: App, toks: Seq<String>) -> Result<MatchesView, ErrView> {
    parse_node_spec(
        app,
        Seq::empty(),
        Seq::empty(),
        call_path(app, toks),
        toks,
        if skips_bin(app, toks) {
            1
        } else {
            0
        },
        Seq::empty(),
        false,
    )
}

} // verus!
