use vstd::prelude::*;
use crate::app::App;
use crate::arg::{ArgGroup, ArgView};
use crate::error::{ErrView, ErrorKind};
use crate::matched::{MatchedView, find_rec_from, present};
use crate::model::{
    Ctx, MState, Run, Step, finish_pending, flag_occurrence, mk_err, open_occurrence,
    pending_value, positional, run, step, help_name, version_name, within_max, lemma_run_enter,
};
use crate::parser::{get_matches_spec, merge_down, is_global_in, inherit, named_in, parse_node_spec, node_ctx};
use crate::settings::AppSettings;
use crate::text::{join_spec, lemma_split_join, split_spec, strs_view, token_values};
use crate::validate::{group_error, present_members};

verus! {

/// A record of `name` is found exactly when some record from `j` on carries it.
pub proof fn lemma_present_iff(recs: Seq<MatchedView>, name: Seq<char>, j: int)
    requires
        0 <= j,
    ensures
        find_rec_from(recs, name, j) is Some <==> exists|q: int|
            j <= q < recs.len() && (#[trigger] recs[q]).name == name,
    decreases recs.len() - j,
{
    if j < recs.len() {
        lemma_present_iff(recs, name, j + 1);
        if recs[j].name != name {
            assert forall|q: int| j <= q < recs.len() && (#[trigger] recs[q]).name == name implies j
                + 1 <= q by {}
        }
    }
}

/// Adding a record keeps every name present and makes its own name present.
pub proof fn lemma_present_push(recs: Seq<MatchedView>, x: MatchedView, name: Seq<char>)
    ensures
        present(recs.push(x), name) <==> (present(recs, name) || x.name == name),
{
    lemma_present_iff(recs, name, 0);
    lemma_present_iff(recs.push(x), name, 0);
    if present(recs, name) {
        let q = choose|q: int| 0 <= q < recs.len() && (#[trigger] recs[q]).name == name;
        assert(recs.push(x)[q].name == name);
    }
    if x.name == name {
        assert(recs.push(x)[recs.len() as int].name == name);
    }
    if present(recs.push(x), name) && x.name != name {
        let q = choose|q: int| 0 <= q < recs.len() + 1 && (#[trigger] recs.push(x)[q]).name == name;
        assert(recs[q].name == name);
    }
}

/// Matching depends on the tokens' text alone.
proof fn lemma_run_views(c: Ctx, t1: Seq<String>, t2: Seq<String>, i: int, st: MState)
    requires
        strs_view(t1) == strs_view(t2),
    ensures
        run(c, t1, i, st) == run(c, t2, i, st),
    decreases t1.len() - i,
{
    assert(t1.len() == strs_view(t1).len());
    assert(t2.len() == strs_view(t2).len());
    if 0 <= i < t1.len() {
        assert(strs_view(t1)[i] == t1[i]@);
        assert(strs_view(t2)[i] == t2[i]@);
        match step(c, st, t1[i]@, (i + 1) as usize) {
            Step::Next(s) => lemma_run_views(c, t1, t2, i + 1, s),
            _ => {},
        }
    }
}

/// Matching a node depends on the tokens' text alone.
proof fn lemma_parse_views(
    node: App,
    pvis: Seq<ArgView>,
    gset: Seq<AppSettings>,
    path: Seq<char>,
    t1: Seq<String>,
    t2: Seq<String>,
    i: int,
    handed: Seq<MatchedView>,
    prop: bool,
)
    requires
        strs_view(t1) == strs_view(t2),
        0 <= i,
    ensures
        parse_node_spec(node, pvis, gset, path, t1, i, handed, prop) == parse_node_spec(
            node,
            pvis,
            gset,
            path,
            t2,
            i,
            handed,
            prop,
        ),
    decreases t1.len() - i,
{
    let c = node_ctx(node, pvis, gset, path);
    lemma_run_views(c, t1, t2, i, crate::model::init_state());
    lemma_run_enter(c, t1, i, crate::model::init_state());
    match run(c, t1, i, crate::model::init_state()) {
        Run::Enter(st, j, x) => {
            let child = node.subcommands@[x as int];
            let prop2 = prop || crate::settings::has_setting(
                c.rs,
                AppSettings::PropagateGlobalValuesDown,
            );
            match crate::parser::close_node(c, node, st, true) {
                Ok(recs) => {
                    let mine = merge_down(c.vis, recs, handed);
                    lemma_parse_views(
                        child,
                        c.vis,
                        gset + node.global_settings@,
                        path + " "@ + child.name@,
                        t1,
                        t2,
                        j + 1,
                        if prop2 {
                            mine
                        } else {
                            Seq::empty()
                        },
                        prop2,
                    );
                },
                Err(_) => {},
            }
        },
        _ => {},
    }
}

/// Matching is deterministic: two argument lists with the same text, matched against the
/// same definition tree, give equal results or equal errors.
pub proof fn law_deterministic(app: App, t1: Seq<String>, t2: Seq<String>)
    requires
        strs_view(t1) == strs_view(t2),
    ensures
        get_matches_spec(app, t1) == get_matches_spec(app, t2),
{
    assert(t1.len() == strs_view(t1).len());
    assert(t2.len() == strs_view(t2).len());
    if t1.len() > 0 {
        assert(strs_view(t1)[0] == t1[0]@);
        assert(strs_view(t2)[0] == t2[0]@);
    }
    let skip: int = if crate::parser::skips_bin(app, t1) {
        1
    } else {
        0
    };
    lemma_parse_views(
        app,
        Seq::empty(),
        Seq::empty(),
        crate::parser::call_path(app, t1),
        t1,
        t2,
        skip,
        Seq::empty(),
        false,
    );
}

/// The present members of a group are exactly its members that are present.
pub proof fn lemma_present_members(recs: Seq<MatchedView>, ms: Seq<Seq<char>>)
    ensures
        forall|m: Seq<char>|
            present_members(recs, ms).contains(m) <==> (ms.contains(m) && present(recs, m)),
    decreases ms.len(),
{
    if ms.len() > 0 {
        let p = ms.drop_last();
        lemma_present_members(recs, p);
        assert forall|m: Seq<char>|
            present_members(recs, ms).contains(m) <==> (ms.contains(m) && present(recs, m)) by {
            if ms.contains(m) && m != ms.last() {
                let k = choose|k: int| 0 <= k < ms.len() && ms[k] == m;
                assert(k < ms.len() - 1);
                assert(p[k] == m);
            }
            if p.contains(m) {
                let k = choose|k: int| 0 <= k < p.len() && p[k] == m;
                assert(ms[k] == m);
            }
            if m == ms.last() {
                assert(ms[ms.len() - 1] == m);
            }
            let pm = present_members(recs, p);
            if present(recs, ms.last()) {
                assert(pm.push(ms.last())[pm.len() as int] == ms.last());
                if pm.contains(m) {
                    let k = choose|k: int| 0 <= k < pm.len() && pm[k] == m;
                    assert(pm.push(ms.last())[k] == m);
                }
                if pm.push(ms.last()).contains(m) && m != ms.last() {
                    let k = choose|k: int| 0 <= k < pm.len() + 1 && pm.push(ms.last())[k] == m;
                    assert(pm[k] == m);
                }
            }
        }
    }
}

/// A required, exclusive group is satisfied by exactly one present member: with none it
/// fails naming the group, with two or more it fails as a conflict between the first two.
pub proof fn law_required_group(c: Ctx, g: ArgGroup, recs: Seq<MatchedView>)
    requires
        g.required,
        !g.multiple,
    ensures
        ({
            let pm = present_members(recs, strs_view(g.args@));
            &&& pm.len() == 1 ==> group_error(c, g, recs) is None
            &&& pm.len() == 0 ==> group_error(c, g, recs) == Some(
                mk_err(c, ErrorKind::MissingRequiredArgument, seq![g.name@]),
            )
            &&& pm.len() >= 2 ==> group_error(c, g, recs) == Some(
                mk_err(c, ErrorKind::ArgumentConflict, seq![pm[0], pm[1]]),
            )
            &&& forall|m: Seq<char>|
                pm.contains(m) <==> (strs_view(g.args@).contains(m) && present(recs, m))
        }),
{
    lemma_present_members(recs, strs_view(g.args@));
}

/// In a node whose required arguments are all there and whose one group is required and
/// exclusive, checking fails naming the group when no member is present, fails as a conflict
/// when two or more are, and otherwise goes on to the remaining checks.
pub proof fn law_required_group_checked(c: Ctx, g: ArgGroup, recs: Seq<MatchedView>)
    requires
        g.required,
        !g.multiple,
        crate::validate::check_required_from(c, recs, 0) is None,
    ensures
        ({
            let pm = present_members(recs, strs_view(g.args@));
            let v = crate::validate::validate_spec(c, seq![g], recs);
            &&& pm.len() == 0 ==> v == Some(
                mk_err(c, ErrorKind::MissingRequiredArgument, seq![g.name@]),
            )
            &&& pm.len() >= 2 ==> v == Some(
                mk_err(c, ErrorKind::ArgumentConflict, seq![pm[0], pm[1]]),
            )
            &&& pm.len() == 1 ==> v == crate::validate::validate_spec(c, Seq::empty(), recs)
        }),
{
    assert(crate::validate::check_groups_from(c, seq![g], recs, 1) is None);
    assert(crate::validate::check_groups_from(c, Seq::<ArgGroup>::empty(), recs, 0) is None);
}

/// Arity bounds are inclusive for values attached to an option in its own token: fewer than
/// its fewest values fail, more than its most fail, any number in between is accepted.
pub proof fn law_arity_attached(c: Ctx, st: MState, k: usize, v: Seq<char>, pos: usize)
    requires
        k < c.vis.len(),
        c.vis[k as int].takes_value,
        c.vis[k as int].name != help_name(),
        c.vis[k as int].name != version_name(),
        open_occurrence(c, st.recs, c.vis[k as int], pos) is Ok,
        v.len() > 0,
    ensures
        ({
            let a = c.vis[k as int];
            let n = token_values(v, a.delimiter).len();
            &&& n < a.min_values ==> flag_occurrence(c, st, k, Some(v), pos) == Step::Stop(
                mk_err(c, ErrorKind::TooFewValues, seq![a.name]),
            )
            &&& (n >= a.min_values && !within_max(a, n as int)) ==> flag_occurrence(
                c,
                st,
                k,
                Some(v),
                pos,
            ) == Step::Stop(mk_err(c, ErrorKind::TooManyValues, seq![a.name]))
            &&& (n >= a.min_values && within_max(a, n as int)) ==> flag_occurrence(
                c,
                st,
                k,
                Some(v),
                pos,
            ) is Next
        }),
{
}

/// Arity bounds are inclusive for values taken from following tokens: a value that would
/// pass the most fails, and closing the option with fewer than its fewest values fails.
pub proof fn law_arity_pending(c: Ctx, st: MState, t: Seq<char>)
    requires
        st.pending matches Some(k) && k < c.vis.len(),
    ensures
        ({
            let k = st.pending->Some_0;
            let a = c.vis[k as int];
            let n = st.pcount + token_values(t, a.delimiter).len();
            &&& !within_max(a, n) ==> pending_value(c, st, t) == Step::Stop(
                mk_err(c, ErrorKind::TooManyValues, seq![a.name]),
            )
            &&& within_max(a, n) ==> pending_value(c, st, t) is Next
            &&& st.pcount < a.min_values ==> finish_pending(c, st) == Err::<MState, ErrView>(
                mk_err(c, ErrorKind::TooFewValues, seq![a.name]),
            )
            &&& st.pcount >= a.min_values ==> finish_pending(c, st) is Ok
        }),
{
}

/// Splitting on a delimiter undoes joining: pieces without the delimiter, joined with it
/// into one token, split back into the same pieces.
pub proof fn law_split_join(vs: Seq<Seq<char>>, d: char)
    requires
        vs.len() >= 1,
        forall|i: int| 0 <= i < vs.len() ==> !(#[trigger] vs[i]).contains(d),
    ensures
        split_spec(join_spec(vs, d), d) == vs,
        token_values(join_spec(vs, d), Some(d)) == vs,
{
    lemma_split_join(vs, d);
}

/// After the terminator `--`, every token is a positional value, even one that spells a
/// known flag, and the terminator stays in force.
pub proof fn law_after_terminator(c: Ctx, st: MState, t: Seq<char>, pos: usize)
    requires
        st.term,
    ensures
        step(c, st, t, pos) == positional(c, st, t, pos),
        step(c, st, t, pos) matches Step::Next(s) ==> s.term,
{
}

/// The terminator `--` switches on positional-only matching.
pub proof fn law_terminator(c: Ctx, st: MState, pos: usize)
    requires
        !st.term,
        finish_pending(c, st) is Ok,
    ensures
        step(c, st, seq!['-', '-'], pos) matches Step::Next(s) && s.term,
{
}

/// With propagation, a global argument matched above a subcommand and not matched in it
/// appears in the subcommand's records.
pub proof fn law_propagation(
    vis: Seq<ArgView>,
    own: Seq<MatchedView>,
    handed: Seq<MatchedView>,
    name: Seq<char>,
)
    requires
        is_global_in(vis, name),
        present(handed, name),
    ensures
        present(merge_down(vis, own, handed), name),
    decreases handed.len(),
{
    lemma_present_iff(handed, name, 0);
    let h = handed.last();
    let m = merge_down(vis, own, handed.drop_last());
    if h.name == name {
        lemma_present_push(m, h, name);
    } else {
        let q = choose|q: int| 0 <= q < handed.len() && (#[trigger] handed[q]).name == name;
        assert(handed.drop_last()[q].name == name);
        lemma_present_iff(handed.drop_last(), name, 0);
        law_propagation(vis, own, handed.drop_last(), name);
        lemma_present_push(m, h, name);
    }
}

/// Without propagation nothing is handed down, and a subcommand keeps its own records.
pub proof fn law_no_propagation(vis: Seq<ArgView>, own: Seq<MatchedView>)
    ensures
        merge_down(vis, own, Seq::empty()) == own,
{
}

/// A global argument of the parent that the child does not shadow is visible in the child.
pub proof fn law_global_inherited(pvis: Seq<ArgView>, own: Seq<ArgView>, k: int)
    requires
        0 <= k < pvis.len(),
        pvis[k].global,
        !named_in(own, pvis[k].name),
    ensures
        inherit(pvis, own).contains(pvis[k]),
    decreases pvis.len(),
{
    let r = inherit(pvis.drop_last(), own);
    if k == pvis.len() - 1 {
        assert(r.push(pvis[k])[r.len() as int] == pvis[k]);
    } else {
        assert(pvis.drop_last()[k] == pvis[k]);
        law_global_inherited(pvis.drop_last(), own, k);
        let q = choose|q: int| 0 <= q < r.len() && r[q] == pvis[k];
        if pvis.last().global && !named_in(own, pvis.last().name) {
            assert(r.push(pvis.last())[q] == pvis[k]);
        }
    }
}

/// With propagation on, a global argument of a node that its subcommands do not redefine,
/// present in the node's result, is present in the result of the subcommand matched below.
pub proof fn law_propagation_parse(
    node: App,
    pvis: Seq<ArgView>,
    gset: Seq<AppSettings>,
    path: Seq<char>,
    toks: Seq<String>,
    i: int,
    handed: Seq<MatchedView>,
    prop: bool,
    name: Seq<char>,
)
    requires
        0 <= i,
        prop || crate::settings::has_setting(
            crate::parser::resolved(node, gset),
            AppSettings::PropagateGlobalValuesDown,
        ),
        exists|k: int|
            0 <= k < node.args@.len() && (#[trigger] node.args@[k])@.name == name
                && node.args@[k]@.global,
        forall|x: int|
            0 <= x < node.subcommands@.len() ==> !named_in(
                crate::arg::args_view((#[trigger] node.subcommands@[x]).args@),
                name,
            ),
        parse_node_spec(node, pvis, gset, path, toks, i, handed, prop) matches Ok(m) && present(
            m.args,
            name,
        ),
    ensures
        parse_node_spec(node, pvis, gset, path, toks, i, handed, prop) matches Ok(m) && (
        m.sub matches Some(s) ==> present(s.matches.args, name)),
{
    let c = node_ctx(node, pvis, gset, path);
    let prop2 = prop || crate::settings::has_setting(c.rs, AppSettings::PropagateGlobalValuesDown);
    lemma_run_enter(c, toks, i, crate::model::init_state());
    match run(c, toks, i, crate::model::init_state()) {
        Run::Enter(st, j, x) => {
            match crate::parser::close_node(c, node, st, true) {
                Ok(recs) => {
                    let mine = merge_down(c.vis, recs, handed);
                    let child = node.subcommands@[x as int];
                    let gset2 = gset + node.global_settings@;
                    let path2 = path + " "@ + child.name@;
                    let c2 = node_ctx(child, c.vis, gset2, path2);
                    let own2 = crate::arg::args_view(child.args@);
                    let k = choose|k: int|
                        0 <= k < node.args@.len() && (#[trigger] node.args@[k])@.name == name
                            && node.args@[k]@.global;
                    assert(c.vis[k] == node.args@[k]@);
                    assert(!named_in(own2, name));
                    law_global_inherited(c.vis, own2, k);
                    let inh = inherit(c.vis, own2);
                    let q = choose|q: int| 0 <= q < inh.len() && inh[q] == c.vis[k];
                    assert(c2.vis[own2.len() + q] == c.vis[k]);
                    assert(is_global_in(c2.vis, name));
                    assert(prop2);
                    lemma_run_enter(c2, toks, j + 1, crate::model::init_state());
                    match run(c2, toks, j + 1, crate::model::init_state()) {
                        Run::Done(st2) => {
                            match crate::parser::close_node(c2, child, st2, false) {
                                Ok(recs2) => {
                                    law_propagation(c2.vis, recs2, mine, name);
                                    assert(parse_node_spec(child, c.vis, gset2, path2, toks, j + 1, mine, prop2)
                                        matches Ok(m2) && m2.args == merge_down(c2.vis, recs2, mine));
                                },
                                Err(_) => {},
                            }
                        },
                        Run::Enter(st2, j2, x2) => {
                            match crate::parser::close_node(c2, child, st2, true) {
                                Ok(recs2) => {
                                    law_propagation(c2.vis, recs2, mine, name);
                                    assert(parse_node_spec(child, c.vis, gset2, path2, toks, j + 1, mine, prop2)
                                        matches Ok(m2) ==> m2.args == merge_down(c2.vis, recs2, mine));
                                },
                                Err(_) => {},
                            }
                        },
                        Run::Fail(_) => {},
                    }
                },
                Err(_) => {},
            }
        },
        _ => {},
    }
}

} // verus!
