use vstd::prelude::*;
use crate::app::App;
use crate::arg::{Arg, ArgView, args_view};

verus! {

/// Relies on `String::push`: the character is appended at the end.
#[verifier::external_body]
fn push_char(s: &mut String, c: char)
    ensures
        final(s)@ == old(s)@.push(c),
{
    s.push(c)
}

/// How a flag or option is written in a usage line.
pub open spec fn flag_text(a: ArgView) -> Seq<char> {
    let head = match a.long {
        Some(l) => "--"@ + l,
        None => match a.short {
            Some(ch) => "-"@.push(ch),
            None => a.name,
        },
    };
    if a.takes_value {
        head + " <"@ + a.name + ">"@
    } else {
        head
    }
}

/// The part of the usage line for `a` among the required (`req`) or optional flags.
pub open spec fn flag_part(a: ArgView, req: bool) -> Seq<char> {
    if a.index is Some || a.required != req {
        Seq::empty()
    } else if req {
        " "@ + flag_text(a)
    } else {
        " ["@ + flag_text(a) + "]"@
    }
}

/// The required (`req`) or optional flags of `vis`, in declaration order.
pub open spec fn flags_usage(vis: Seq<ArgView>, req: bool) -> Seq<char>
    decreases vis.len(),
{
    if vis.len() == 0 {
        Seq::empty()
    } else {
        flags_usage(vis.drop_last(), req) + flag_part(vis.last(), req)
    }
}

/// The first argument from `k` on whose positional index is `ix`.
pub open spec fn find_index_from(vis: Seq<ArgView>, ix: usize, k: int) -> Option<usize>
    decreases vis.len() - k,
{
    if k < 0 || k >= vis.len() {
        None
    } else if vis[k].index == Some(ix) {
        Some(k as usize)
    } else {
        find_index_from(vis, ix, k + 1)
    }
}

/// The part of the usage line for the positional argument of index `m`.
pub open spec fn pos_part(vis: Seq<ArgView>, m: usize) -> Seq<char> {
    match find_index_from(vis, m, 0) {
        None => Seq::empty(),
        Some(q) => {
            let a = vis[q as int];
            let base = if a.required {
                " <"@ + a.name + ">"@
            } else {
                " ["@ + a.name + "]"@
            };
            if a.max_values is None {
                base + "..."@
            } else {
                base
            }
        },
    }
}

/// The positional arguments of indices 1 to `m`, in index order.
pub open spec fn pos_usage(vis: Seq<ArgView>, m: nat) -> Seq<char>
    decreases m,
{
    if m == 0 {
        Seq::empty()
    } else {
        pos_usage(vis, (m - 1) as nat) + pos_part(vis, m as usize)
    }
}

/// The usage line of `node` whose visible arguments are `vis`, called by `path`.
pub open spec fn usage_line(node: App, vis: Seq<ArgView>, path: Seq<char>) -> Seq<char> {
    match node.override_usage {
        Some(u) => u@,
        None => path + flags_usage(vis, true) + flags_usage(vis, false) + pos_usage(
            vis,
            vis.len(),
        ) + if node.subcommands@.len() > 0 {
            " [SUBCOMMAND]"@
        } else {
            Seq::empty()
        },
    }
}

/// Appends how `a` is written in a usage line.
fn append_flag_text(out: &mut String, a: &Arg)
    ensures
        final(out)@ == old(out)@ + flag_text(a@),
{
    match &a.long {
        Some(l) => {
            out.append("--");
            out.append(l.as_str());
        },
        None => match a.short {
            Some(ch) => {
                let ghost before = out@;
                out.append("-");
                push_char(out, ch);
                proof {
                    assert(out@ =~= before + "-"@.push(ch));
                }
            },
            None => out.append(a.name.as_str()),
        },
    }
    if a.takes_value {
        out.append(" <");
        out.append(a.name.as_str());
        out.append(">");
    }
    proof {
        assert(final(out)@ =~= old(out)@ + flag_text(a@));
    }
}

/// Appends the required (`req`) or optional flags of `vis`.
fn append_flags(out: &mut String, vis: &Vec<Arg>, req: bool)
    ensures
        final(out)@ == old(out)@ + flags_usage(args_view(vis@), req),
{
    let mut k: usize = 0;
    while k < vis.len()
        invariant
            k <= vis.len(),
            out@ == old(out)@ + flags_usage(args_view(vis@).take(k as int), req),
        decreases vis.len() - k,
    {
        let ghost before = out@;
        let a = &vis[k];
        if a.index.is_none() && a.required == req {
            if req {
                out.append(" ");
                append_flag_text(out, a);
            } else {
                out.append(" [");
                append_flag_text(out, a);
                out.append("]");
            }
        }
        proof {
            let vs = args_view(vis@);
            assert(vs.take(k + 1).drop_last() =~= vs.take(k as int));
            assert(vs.take(k + 1).last() == a@);
            assert(out@ =~= before + flag_part(a@, req));
        }
        k += 1;
    }
    proof {
        assert(args_view(vis@).take(vis.len() as int) =~= args_view(vis@));
    }
}

/// The first argument from `k` on whose positional index is `ix`.
fn index_of_position(vis: &Vec<Arg>, ix: usize) -> (r: Option<usize>)
    ensures
        r == find_index_from(args_view(vis@), ix, 0),
        r matches Some(q) ==> q < vis.len(),
{
    let mut k: usize = 0;
    while k < vis.len()
        invariant
            k <= vis.len(),
            find_index_from(args_view(vis@), ix, 0) == find_index_from(args_view(vis@), ix, k as int),
        decreases vis.len() - k,
    {
        if vis[k].index == Some(ix) {
            return Some(k);
        }
        k += 1;
    }
    None
}

/// Appends the positional arguments of `vis` in index order.
fn append_positionals(out: &mut String, vis: &Vec<Arg>)
    ensures
        final(out)@ == old(out)@ + pos_usage(args_view(vis@), vis@.len()),
{
    let mut m: usize = 0;
    while m < vis.len()
        invariant
            m <= vis.len(),
            out@ == old(out)@ + pos_usage(args_view(vis@), m as nat),
        decreases vis.len() - m,
    {
        let ghost before = out@;
        match index_of_position(vis, m + 1) {
            None => {},
            Some(q) => {
                let a = &vis[q];
                if a.required {
                    out.append(" <");
                    out.append(a.name.as_str());
                    out.append(">");
                } else {
                    out.append(" [");
                    out.append(a.name.as_str());
                    out.append("]");
                }
                if a.max_values.is_none() {
                    out.append("...");
                }
            },
        }
        proof {
            assert(out@ =~= before + pos_part(args_view(vis@), (m + 1) as usize));
        }
        m += 1;
    }
}

/// Builds the usage line of `node`, whose visible arguments are `vis`, called by `path`.
pub fn build_usage(node: &App, vis: &Vec<Arg>, path: &String) -> (r: String)
    ensures
        r@ == usage_line(*node, args_view(vis@), path@),
{
    match &node.override_usage {
        Some(u) => u.clone(),
        None => {
            let mut out = path.clone();
            append_flags(&mut out, vis, true);
            append_flags(&mut out, vis, false);
            append_positionals(&mut out, vis);
            if node.subcommands.len() > 0 {
                out.append(" [SUBCOMMAND]");
            }
            proof {
                assert(out@ =~= usage_line(*node, args_view(vis@), path@));
            }
            out
        },
    }
}

} // verus!
