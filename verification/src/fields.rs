//! Splitting a byte line into comma-separated fields, and what that
//! means for a line assembled from comma-free fields.  Both wire
//! directions and the log layout are comma-delimited, so the decoder,
//! the broadcaster and the logger all speak in terms of these fields.

use vstd::prelude::*;

use crate::sample::copy_bytes;

verus! {

/// Position of the first comma of `s`, `-1` when `s` has none.
pub open spec fn find_comma(s: Seq<u8>) -> int
    decreases s.len(),
{
    if s.len() == 0 {
        -1
    } else if s[0] == 44 {
        0
    } else {
        let r = find_comma(s.skip(1));
        if r < 0 {
            -1
        } else {
            r + 1
        }
    }
}

/// `find_comma` returns `-1` exactly when `s` has no comma, and
/// otherwise the position of the first one.
pub proof fn lemma_find_comma(s: Seq<u8>)
    ensures
        find_comma(s) == -1 ==> forall|j: int| 0 <= j < s.len() ==> s[j] != 44,
        find_comma(s) >= 0 ==> find_comma(s) < s.len() && s[find_comma(s)] == 44 && forall|j: int|
            0 <= j < find_comma(s) ==> s[j] != 44,
    decreases s.len(),
{
    if s.len() == 0 {
    } else if s[0] == 44 {
    } else {
        lemma_find_comma(s.skip(1));
        let r = find_comma(s.skip(1));
        if r == -1 {
            assert forall|j: int| 0 <= j < s.len() implies s[j] != 44 by {
                if j > 0 {
                    assert(s.skip(1)[j - 1] == s[j]);
                }
            }
        } else {
            assert(s.skip(1)[r] == s[r + 1]);
            assert forall|j: int| 0 <= j < r + 1 implies s[j] != 44 by {
                if j > 0 {
                    assert(s.skip(1)[j - 1] == s[j]);
                }
            }
        }
    }
}

/// Fields of `s` split on every comma, in order; empty fields are kept,
/// and a line without commas is one field.
pub open spec fn split_commas(s: Seq<u8>) -> Seq<Seq<u8>>
    decreases s.len(),
{
    let i = find_comma(s);
    if i < 0 || i >= s.len() {
        seq![s]
    } else {
        seq![s.take(i)] + split_commas(s.skip(i + 1))
    }
}

/// A comma-free byte string is a single field.
pub proof fn lemma_split_no_comma(p: Seq<u8>)
    requires
        forall|j: int| 0 <= j < p.len() ==> p[j] != 44,
    ensures
        split_commas(p) == seq![p],
{
    lemma_find_comma(p);
    if find_comma(p) >= 0 {
        assert(p[find_comma(p)] == 44);
    }
}

/// Putting a comma after a comma-free field prepends that field to the
/// split of whatever follows.
pub proof fn lemma_split_concat(p: Seq<u8>, t: Seq<u8>)
    requires
        forall|j: int| 0 <= j < p.len() ==> p[j] != 44,
    ensures
        split_commas(p + seq![44u8] + t) == seq![p] + split_commas(t),
{
    let s = p + seq![44u8] + t;
    lemma_find_comma(s);
    let i = find_comma(s);
    assert(s[p.len() as int] == 44);
    if i == -1 {
        assert(s[p.len() as int] != 44);
    }
    if i < p.len() {
        assert(s[i] == p[i]);
    }
    if i > p.len() {
        assert(s[p.len() as int] != 44);
    }
    assert(i == p.len());
    assert(s.take(i) =~= p);
    assert(s.skip(i + 1) =~= t);
}

/// Fields assembled into one line with a comma between each pair.
pub open spec fn join_commas(fs: Seq<Seq<u8>>) -> Seq<u8>
    decreases fs.len(),
{
    if fs.len() == 0 {
        Seq::empty()
    } else if fs.len() == 1 {
        fs[0]
    } else {
        fs[0] + seq![44u8] + join_commas(fs.skip(1))
    }
}

/// Joining one more field appends a comma and that field.
pub proof fn lemma_join_push(fs: Seq<Seq<u8>>, f: Seq<u8>)
    requires
        fs.len() >= 1,
    ensures
        join_commas(fs.push(f)) == join_commas(fs) + seq![44u8] + f,
    decreases fs.len(),
{
    let grown = fs.push(f);
    if fs.len() == 1 {
        assert(grown.skip(1) =~= seq![f]);
        assert(join_commas(grown.skip(1)) == f);
    } else {
        lemma_join_push(fs.skip(1), f);
        assert(grown.skip(1) =~= fs.skip(1).push(f));
        assert(join_commas(grown) == fs[0] + seq![44u8] + (join_commas(fs.skip(1)) + seq![44u8]
            + f));
        assert(fs[0] + seq![44u8] + (join_commas(fs.skip(1)) + seq![44u8] + f) =~= (fs[0]
            + seq![44u8] + join_commas(fs.skip(1))) + seq![44u8] + f);
    }
}

/// Splitting a line joined from comma-free fields recovers exactly
/// those fields.
pub proof fn lemma_split_join(fs: Seq<Seq<u8>>)
    requires
        fs.len() >= 1,
        forall|k: int, j: int| 0 <= k < fs.len() && 0 <= j < fs[k].len() ==> #[trigger] fs[k][j]
            != 44,
    ensures
        split_commas(join_commas(fs)) == fs,
    decreases fs.len(),
{
    if fs.len() == 1 {
        lemma_split_no_comma(fs[0]);
        assert(seq![fs[0]] =~= fs);
    } else {
        lemma_split_join(fs.skip(1));
        lemma_split_concat(fs[0], join_commas(fs.skip(1)));
        assert(seq![fs[0]] + fs.skip(1) =~= fs);
    }
}

/// Joins fields into one comma-separated line.
pub fn join_line(fields: &Vec<Vec<u8>>) -> (r: Vec<u8>)
    requires
        fields@.len() >= 1,
    ensures
        r@ == join_commas(byte_views(fields@)),
{
    let ghost views = byte_views(fields@);
    let mut r = copy_bytes(fields[0].as_slice());
    proof {
        assert(views.take(1) =~= seq![views[0]]);
    }
    let mut k: usize = 1;
    while k < fields.len()
        invariant
            1 <= k <= fields@.len(),
            views == byte_views(fields@),
            r@ == join_commas(views.take(k as int)),
        decreases fields@.len() - k,
    {
        r.push(44);
        let mut f = copy_bytes(fields[k].as_slice());
        r.append(&mut f);
        proof {
            lemma_join_push(views.take(k as int), views[k as int]);
            assert(views.take(k as int).push(views[k as int]) =~= views.take(k + 1));
        }
        k += 1;
    }
    proof {
        assert(views.take(views.len() as int) =~= views);
    }
    r
}

/// The views of a sequence of byte vectors.
pub open spec fn byte_views(r: Seq<Vec<u8>>) -> Seq<Seq<u8>> {
    r.map_values(|v: Vec<u8>| v@)
}

/// Splits a line on every comma.  The returned fields are exactly
/// `split_commas` of the line, in order.
pub fn split_line(s: &[u8]) -> (r: Vec<Vec<u8>>)
    ensures
        byte_views(r@) == split_commas(s@),
        r@.len() == split_commas(s@).len(),
        forall|k: int| 0 <= k < r@.len() ==> r@[k]@ == split_commas(s@)[k],
{
    let mut out: Vec<Vec<u8>> = Vec::new();
    let mut cur: Vec<u8> = Vec::new();
    let mut i: usize = 0;
    proof {
        assert(cur@ + s@.skip(0) =~= s@);
        assert(byte_views(out@) + split_commas(s@) =~= split_commas(s@));
    }
    while i < s.len()
        invariant
            i <= s@.len(),
            forall|j: int| 0 <= j < cur@.len() ==> cur@[j] != 44,
            split_commas(s@) == byte_views(out@) + split_commas(cur@ + s@.skip(i as int)),
        decreases s@.len() - i,
    {
        let b = s[i];
        if b == 44 {
            let ghost out_old = out@;
            let ghost cur_old = cur@;
            proof {
                assert(cur_old + s@.skip(i as int) =~= cur_old + seq![44u8] + s@.skip(i + 1));
                lemma_split_concat(cur_old, s@.skip(i + 1));
            }
            out.push(cur);
            cur = Vec::new();
            proof {
                assert(byte_views(out@) =~= byte_views(out_old).push(cur_old));
                assert(cur@ + s@.skip(i + 1) =~= s@.skip(i + 1));
                assert(byte_views(out@) + split_commas(s@.skip(i + 1)) =~= byte_views(out_old)
                    + (seq![cur_old] + split_commas(s@.skip(i + 1))));
            }
        } else {
            let ghost cur_old = cur@;
            cur.push(b);
            proof {
                assert(cur_old + s@.skip(i as int) =~= cur@ + s@.skip(i + 1));
            }
        }
        i += 1;
    }
    proof {
        assert(cur@ + s@.skip(i as int) =~= cur@);
        lemma_split_no_comma(cur@);
    }
    let ghost out_old = out@;
    let ghost cur_old = cur@;
    out.push(cur);
    proof {
        assert(byte_views(out@) =~= byte_views(out_old).push(cur_old));
        assert(byte_views(out@) =~= split_commas(s@));
    }
    out
}

} // verus!
