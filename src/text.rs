use vstd::prelude::*;

verus! {

/// The character sequences held by a list of strings.
pub open spec fn strs_view(v: Seq<String>) -> Seq<Seq<char>> {
    v.map_values(|s: String| s@)
}

/// The pieces of `s` between occurrences of `d`, left to right; `s` with no `d` is one piece.
pub open spec fn split_spec(s: Seq<char>, d: char) -> Seq<Seq<char>>
    decreases s.len(),
{
    if s.len() == 0 {
        seq![Seq::<char>::empty()]
    } else {
        let r = split_spec(s.drop_last(), d);
        if s.last() == d {
            r.push(Seq::<char>::empty())
        } else {
            r.drop_last().push(r.last().push(s.last()))
        }
    }
}

/// The pieces of `vs` written one after another with `d` between neighbours.
pub open spec fn join_spec(vs: Seq<Seq<char>>, d: char) -> Seq<char>
    decreases vs.len(),
{
    if vs.len() == 0 {
        Seq::<char>::empty()
    } else if vs.len() == 1 {
        vs[0]
    } else {
        join_spec(vs.drop_last(), d) + seq![d] + vs.last()
    }
}

/// The values that one token supplies: split on the delimiter where there is one.
pub open spec fn token_values(t: Seq<char>, delim: Option<char>) -> Seq<Seq<char>> {
    match delim {
        Some(d) => split_spec(t, d),
        None => seq![t],
    }
}

/// A sequence without the delimiter is a single piece.
pub proof fn lemma_split_without_delim(s: Seq<char>, d: char)
    requires
        !s.contains(d),
    ensures
        split_spec(s, d) == seq![s],
    decreases s.len(),
{
    if s.len() == 0 {
        assert(s =~= Seq::<char>::empty());
    } else {
        let p = s.drop_last();
        assert(!p.contains(d)) by {
            if p.contains(d) {
                let k = choose|k: int| 0 <= k < p.len() && p[k] == d;
                assert(s[k] == d);
            }
        }
        lemma_split_without_delim(p, d);
        assert(s[s.len() - 1] != d);
        assert(p.push(s.last()) =~= s);
        assert(split_spec(s, d) =~= seq![s]);
    }
}

/// Appending a delimiter and a delimiter-free piece appends exactly that piece.
pub proof fn lemma_split_append(a: Seq<char>, b: Seq<char>, d: char)
    requires
        !b.contains(d),
    ensures
        split_spec(a + seq![d] + b, d) == split_spec(a, d).push(b),
    decreases b.len(),
{
    if b.len() == 0 {
        assert(b =~= Seq::<char>::empty());
        assert(a + seq![d] + b =~= a.push(d));
        assert((a.push(d)).drop_last() =~= a);
    } else {
        let b1 = b.drop_last();
        assert(!b1.contains(d)) by {
            if b1.contains(d) {
                let k = choose|k: int| 0 <= k < b1.len() && b1[k] == d;
                assert(b[k] == d);
            }
        }
        lemma_split_append(a, b1, d);
        let s = a + seq![d] + b;
        assert(s.drop_last() =~= a + seq![d] + b1);
        assert(s.last() == b.last());
        assert(b[b.len() - 1] != d);
        assert(b1.push(b.last()) =~= b);
        let r = split_spec(a + seq![d] + b1, d);
        assert(r == split_spec(a, d).push(b1));
        assert(r.drop_last() =~= split_spec(a, d));
        assert(split_spec(s, d) =~= split_spec(a, d).push(b));
    }
}

/// Splitting a joined list of delimiter-free pieces gives the pieces back.
pub proof fn lemma_split_join(vs: Seq<Seq<char>>, d: char)
    requires
        vs.len() >= 1,
        forall|i: int| 0 <= i < vs.len() ==> !(#[trigger] vs[i]).contains(d),
    ensures
        split_spec(join_spec(vs, d), d) == vs,
    decreases vs.len(),
{
    if vs.len() == 1 {
        lemma_split_without_delim(vs[0], d);
        assert(seq![vs[0]] =~= vs);
    } else {
        let p = vs.drop_last();
        assert forall|i: int| 0 <= i < p.len() implies !(#[trigger] p[i]).contains(d) by {
            assert(p[i] == vs[i]);
        }
        lemma_split_join(p, d);
        assert(!vs.last().contains(d)) by {
            assert(vs[vs.len() - 1] == vs.last());
        }
        lemma_split_append(join_spec(p, d), vs.last(), d);
        assert(p.push(vs.last()) =~= vs);
    }
}

/// Copies the characters of `s` from `from` up to `to`.
pub fn slice_chars(s: &String, from: usize, to: usize) -> (r: String)
    requires
        from <= to <= s@.len(),
    ensures
        r@ == s@.subrange(from as int, to as int),
{
    s.as_str().substring_char(from, to).to_owned()
}

/// Number of characters of `s`.
pub fn char_count(s: &String) -> (r: usize)
    ensures
        r == s@.len(),
{
    s.as_str().unicode_len()
}

/// The character of `s` at `i`.
pub fn char_at(s: &String, i: usize) -> (r: char)
    requires
        i < s@.len(),
    ensures
        r == s@[i as int],
{
    s.as_str().get_char(i)
}

/// Splits `s` at each occurrence of `d`.
pub fn split_on(s: &String, d: char) -> (r: Vec<String>)
    ensures
        strs_view(r@) == split_spec(s@, d),
{
    let n = char_count(s);
    let mut out: Vec<String> = Vec::new();
    let mut start: usize = 0;
    let mut i: usize = 0;
    proof {
        assert(s@.take(0) =~= Seq::<char>::empty());
        assert(strs_view(out@) =~= Seq::<Seq<char>>::empty());
        assert(s@.subrange(0, 0) =~= Seq::<char>::empty());
    }
    while i < n
        invariant
            start <= i <= n,
            n == s@.len(),
            split_spec(s@.take(i as int), d) == strs_view(out@).push(
                s@.subrange(start as int, i as int),
            ),
        decreases n - i,
    {
        let c = char_at(s, i);
        proof {
            assert(s@.take(i + 1).drop_last() =~= s@.take(i as int));
            assert(s@.take(i + 1).last() == c);
        }
        if c == d {
            let piece = slice_chars(s, start, i);
            let ghost before = out@;
            out.push(piece);
            proof {
                assert(strs_view(out@) =~= strs_view(before).push(piece@));
                assert(s@.subrange((i + 1) as int, (i + 1) as int) =~= Seq::<char>::empty());
            }
            start = i + 1;
        } else {
            proof {
                assert(s@.subrange(start as int, i as int).push(c) =~= s@.subrange(
                    start as int,
                    i + 1,
                ));
            }
        }
        i += 1;
    }
    let last = slice_chars(s, start, n);
    let ghost before = out@;
    out.push(last);
    proof {
        assert(strs_view(out@) =~= strs_view(before).push(last@));
        assert(s@.take(n as int) =~= s@);
    }
    out
}

/// The values that the token `t` supplies under `delim`.
pub fn values_of_token(t: &String, delim: Option<char>) -> (r: Vec<String>)
    ensures
        strs_view(r@) == token_values(t@, delim),
{
    match delim {
        Some(d) => split_on(t, d),
        None => {
            let mut v: Vec<String> = Vec::new();
            v.push(t.clone());
            proof {
                assert(strs_view(v@) =~= seq![t@]);
            }
            v
        },
    }
}

/// The part of a path after its last `/`.
pub open spec fn base_name_spec(p: Seq<char>) -> Seq<char>
    decreases p.len(),
{
    if p.len() == 0 {
        p
    } else if p.last() == '/' {
        Seq::<char>::empty()
    } else {
        base_name_spec(p.drop_last()).push(p.last())
    }
}

/// Removes the directories from a program path.
pub fn base_name(p: &String) -> (r: String)
    ensures
        r@ == base_name_spec(p@),
{
    let n = char_count(p);
    let mut start: usize = 0;
    let mut i: usize = 0;
    proof {
        assert(p@.take(0) =~= Seq::<char>::empty());
        assert(p@.subrange(0, 0) =~= Seq::<char>::empty());
    }
    while i < n
        invariant
            start <= i <= n,
            n == p@.len(),
            base_name_spec(p@.take(i as int)) == p@.subrange(start as int, i as int),
        decreases n - i,
    {
        let c = char_at(p, i);
        proof {
            assert(p@.take(i + 1).drop_last() =~= p@.take(i as int));
            assert(p@.take(i + 1).last() == c);
            assert(p@.subrange(start as int, i as int).push(c) =~= p@.subrange(
                start as int,
                i + 1,
            ));
            assert(p@.subrange((i + 1) as int, (i + 1) as int) =~= Seq::<char>::empty());
        }
        if c == '/' {
            start = i + 1;
        }
        i += 1;
    }
    proof {
        assert(p@.take(n as int) =~= p@);
    }
    slice_chars(p, start, n)
}

} // verus!
