use vstd::prelude::*;
use crate::app::App;
use crate::arg::{Arg, ArgGroup, ArgView, args_view};
use crate::parser::{named_in, resolve_settings, resolved, visible, visible_exec};
use crate::settings::AppSettings;

verus! {

/// No two visible arguments share a name.
pub open spec fn names_unique(vis: Seq<ArgView>) -> bool {
    forall|i: int, j: int|
        0 <= i < j < vis.len() ==> (#[trigger] vis[i]).name != (#[trigger] vis[j]).name
}

/// The number of positional arguments among the first `k`.
pub open spec fn positional_count(vis: Seq<ArgView>, k: int) -> nat
    decreases k,
{
    if k <= 0 {
        0
    } else {
        positional_count(vis, k - 1) + if vis[k - 1].index is Some {
            1nat
        } else {
            0nat
        }
    }
}

/// Positional indices run from 1 without gaps or repeats, and only the positional argument
/// with the highest index may take unboundedly many values.
pub open spec fn positions_ok(vis: Seq<ArgView>) -> bool {
    let n = positional_count(vis, vis.len() as int);
    &&& forall|i: int|
        0 <= i < vis.len() ==> ((#[trigger] vis[i]).index matches Some(ix) ==> 1 <= ix <= n)
    &&& forall|i: int, j: int|
        0 <= i < j < vis.len() ==> ((#[trigger] vis[i]).index is Some ==> (#[trigger] vis[j]).index
            != vis[i].index)
    &&& forall|i: int|
        0 <= i < vis.len() ==> ((#[trigger] vis[i]).index is Some && vis[i].max_values is None
            ==> vis[i].index == Some(n as usize))
}

/// Every member of every group is a visible argument.
pub open spec fn members_defined(vis: Seq<ArgView>, groups: Seq<ArgGroup>) -> bool {
    forall|g: int, m: int|
        0 <= g < groups.len() && 0 <= m < groups[g].args@.len() ==> named_in(
            vis,
            (#[trigger] groups[g].args@[m])@,
        )
}

/// The invariants of one node whose visible arguments are `vis`.
pub open spec fn node_ok(vis: Seq<ArgView>, groups: Seq<ArgGroup>) -> bool {
    names_unique(vis) && positions_ok(vis) && members_defined(vis, groups)
}

/// The invariants of `node` and of every node below it; `pvis` is what its parent sees and
/// `gset` the global settings it inherits.
pub open spec fn tree_ok(node: App, pvis: Seq<ArgView>, gset: Seq<AppSettings>) -> bool
    decreases node, node.subcommands@.len() + 1,
{
    let vis = visible(node, pvis, resolved(node, gset));
    node_ok(vis, node.groups@) && subs_ok(node, vis, gset + node.global_settings@, 0)
}

/// The invariants of the subcommands of `node` from the `k`-th on.
pub open spec fn subs_ok(node: App, vis: Seq<ArgView>, gset: Seq<AppSettings>, k: int) -> bool
    decreases node, node.subcommands@.len() - k,
{
    if k < 0 || k >= node.subcommands@.len() {
        true
    } else {
        tree_ok(node.subcommands@[k], vis, gset) && subs_ok(node, vis, gset, k + 1)
    }
}

fn names_unique_exec(vis: &Vec<Arg>) -> (r: bool)
    ensures
        r == names_unique(args_view(vis@)),
{
    let ghost av = args_view(vis@);
    let mut i: usize = 0;
    while i < vis.len()
        invariant
            i <= vis.len(),
            av == args_view(vis@),
            forall|p: int, q: int| 0 <= p < q < av.len() && p < i ==> (#[trigger] av[p]).name != (
            #[trigger] av[q]).name,
        decreases vis.len() - i,
    {
        let mut j: usize = i + 1;
        while j < vis.len()
            invariant
                i < vis.len(),
                i + 1 <= j <= vis.len(),
                av == args_view(vis@),
                forall|p: int, q: int| 0 <= p < q < av.len() && p < i ==> (#[trigger] av[p]).name != (
                #[trigger] av[q]).name,
                forall|q: int| i < q < j ==> av[i as int].name != (#[trigger] av[q]).name,
            decreases vis.len() - j,
        {
            if vis[i].name == vis[j].name {
                proof {
                    assert(av[i as int].name == av[j as int].name);
                }
                return false;
            }
            j += 1;
        }
        i += 1;
    }
    true
}

fn positions_ok_exec(vis: &Vec<Arg>) -> (r: bool)
    ensures
        r == positions_ok(args_view(vis@)),
{
    let ghost av = args_view(vis@);
    let mut n: usize = 0;
    let mut k: usize = 0;
    while k < vis.len()
        invariant
            k <= vis.len(),
            av == args_view(vis@),
            n == positional_count(av, k as int),
            n <= k,
        decreases vis.len() - k,
    {
        if vis[k].index.is_some() {
            n += 1;
        }
        k += 1;
    }
    let mut i: usize = 0;
    while i < vis.len()
        invariant
            i <= vis.len(),
            av == args_view(vis@),
            n == positional_count(av, av.len() as int),
            forall|p: int|
                0 <= p < i ==> ((#[trigger] av[p]).index matches Some(ix) ==> 1 <= ix <= n),
            forall|p: int|
                0 <= p < i ==> ((#[trigger] av[p]).index is Some && av[p].max_values is None
                    ==> av[p].index == Some(n)),
            forall|p: int, q: int|
                0 <= p < q < av.len() && p < i ==> ((#[trigger] av[p]).index is Some ==> (
                #[trigger] av[q]).index != av[p].index),
        decreases vis.len() - i,
    {
        match vis[i].index {
            Some(ix) => {
                if ix < 1 || ix > n {
                    return false;
                }
                if vis[i].max_values.is_none() && ix != n {
                    return false;
                }
                let mut j: usize = i + 1;
                while j < vis.len()
                    invariant
                        i < vis.len(),
                        i + 1 <= j <= vis.len(),
                        av == args_view(vis@),
                        av[i as int].index == Some(ix),
                        forall|q: int| i < q < j ==> (#[trigger] av[q]).index != Some(ix),
                    decreases vis.len() - j,
                {
                    if vis[j].index == Some(ix) {
                        proof {
                            assert(av[j as int].index == av[i as int].index);
                        }
                        return false;
                    }
                    j += 1;
                }
            },
            None => {},
        }
        i += 1;
    }
    true
}

fn members_defined_exec(vis: &Vec<Arg>, groups: &Vec<ArgGroup>) -> (r: bool)
    ensures
        r == members_defined(args_view(vis@), groups@),
{
    let ghost av = args_view(vis@);
    let mut g: usize = 0;
    while g < groups.len()
        invariant
            g <= groups.len(),
            av == args_view(vis@),
            forall|p: int, m: int|
                0 <= p < g && 0 <= m < groups@[p].args@.len() ==> named_in(
                    av,
                    (#[trigger] groups@[p].args@[m])@,
                ),
        decreases groups.len() - g,
    {
        let ms = &groups[g].args;
        let mut m: usize = 0;
        while m < ms.len()
            invariant
                g < groups.len(),
                m <= ms.len(),
                ms == &groups@[g as int].args,
                av == args_view(vis@),
                forall|p: int, q: int|
                    0 <= p < g && 0 <= q < groups@[p].args@.len() ==> named_in(
                        av,
                        (#[trigger] groups@[p].args@[q])@,
                    ),
                forall|q: int| 0 <= q < m ==> named_in(av, (#[trigger] ms@[q])@),
            decreases ms.len() - m,
        {
            let mut found = false;
            let mut k: usize = 0;
            while k < vis.len()
                invariant
                    k <= vis.len(),
                    m < ms.len(),
                    av == args_view(vis@),
                    found ==> named_in(av, ms@[m as int]@),
                    !found ==> forall|q: int| 0 <= q < k ==> (#[trigger] av[q]).name != ms@[m as int]@,
                decreases vis.len() - k,
            {
                if !found && vis[k].name == ms[m] {
                    proof {
                        assert(av[k as int].name == ms@[m as int]@);
                    }
                    found = true;
                }
                k += 1;
            }
            if !found {
                proof {
                    assert(!named_in(av, ms@[m as int]@));
                    assert(!named_in(av, (groups@[g as int].args@[m as int])@));
                }
                return false;
            }
            m += 1;
        }
        g += 1;
    }
    true
}

impl App {
    fn tree_check(&self, pvis: &Vec<Arg>, gset: &Vec<AppSettings>) -> (r: bool)
        ensures
            r == tree_ok(*self, args_view(pvis@), gset@),
        decreases *self, self.subcommands@.len() + 1,
    {
        let rs = resolve_settings(self, gset);
        let vis = visible_exec(self, pvis, &rs);
        if !(names_unique_exec(&vis) && positions_ok_exec(&vis) && members_defined_exec(
            &vis,
            &self.groups,
        )) {
            return false;
        }
        let mut cg: Vec<AppSettings> = Vec::new();
        let mut k: usize = 0;
        while k < gset.len()
            invariant
                k <= gset.len(),
                cg@ == gset@.take(k as int),
            decreases gset.len() - k,
        {
            cg.push(gset[k]);
            proof {
                assert(gset@.take(k + 1) =~= gset@.take(k as int).push(gset@[k as int]));
            }
            k += 1;
        }
        let mut q: usize = 0;
        while q < self.global_settings.len()
            invariant
                q <= self.global_settings.len(),
                cg@ == gset@ + self.global_settings@.take(q as int),
            decreases self.global_settings.len() - q,
        {
            cg.push(self.global_settings[q]);
            proof {
                assert(self.global_settings@.take(q + 1) =~= self.global_settings@.take(q as int).push(
                    self.global_settings@[q as int],
                ));
                assert(cg@ =~= gset@ + self.global_settings@.take(q + 1));
            }
            q += 1;
        }
        proof {
            assert(gset@.take(gset.len() as int) =~= gset@);
            assert(self.global_settings@.take(self.global_settings.len() as int)
                =~= self.global_settings@);
        }
        self.subs_check(&vis, &cg, 0)
    }

    fn subs_check(&self, vis: &Vec<Arg>, gset: &Vec<AppSettings>, k: usize) -> (r: bool)
        requires
            k <= self.subcommands@.len(),
        ensures
            r == subs_ok(*self, args_view(vis@), gset@, k as int),
        decreases *self, self.subcommands@.len() - k,
    {
        if k >= self.subcommands.len() {
            return true;
        }
        let s = &self.subcommands[k];
        proof {
            assert(decreases_to!(*self => self.subcommands@[k as int]));
        }
        s.tree_check(vis, gset) && self.subs_check(vis, gset, k + 1)
    }

    /// Whether the tree below this node keeps the invariants that matching assumes: in each
    /// node's visible arguments, names are unique, positional indices run from 1 without
    /// gaps or repeats, only the last positional argument is unbounded, and every group
    /// member is defined.
    pub fn is_well_formed(&self) -> (r: bool)
        ensures
            r == tree_ok(*self, Seq::empty(), Seq::empty()),
    {
        let pvis: Vec<Arg> = Vec::new();
        let gset: Vec<AppSettings> = Vec::new();
        proof {
            assert(args_view(pvis@) =~= Seq::<ArgView>::empty());
            assert(gset@ =~= Seq::<AppSettings>::empty());
        }
        self.tree_check(&pvis, &gset)
    }
}

} // verus!
