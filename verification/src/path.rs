//! Object-key paths: splitting a storage key on its `/` delimiter.

use vstd::prelude::*;

verus! {

/// The segments of `s` split on `sep`.  A separator at either end, or two
/// adjacent ones, yields an empty segment; a string without separators is
/// a single segment, so there is always at least one.
pub open spec fn split_on(s: Seq<char>, sep: char) -> Seq<Seq<char>>
    decreases s.len(),
{
    if s.len() == 0 {
        seq![Seq::<char>::empty()]
    } else {
        let rest = split_on(s.drop_last(), sep);
        if s.last() == sep {
            rest.push(Seq::<char>::empty())
        } else {
            rest.update(rest.len() - 1, rest.last().push(s.last()))
        }
    }
}

pub proof fn lemma_split_on_len(s: Seq<char>, sep: char)
    ensures
        split_on(s, sep).len() >= 1,
    decreases s.len(),
{
    if s.len() > 0 {
        lemma_split_on_len(s.drop_last(), sep);
    }
}

/// Split a key on the `/` delimiter into its path segments.  For a
/// directory-style key, which ends in the delimiter, the final empty
/// segment is dropped.
pub fn parse_path(path: &str, dir: bool) -> (r: Vec<String>)
    ensures
        ({
            let parts = split_on(path@, '/');
            r@.map_values(|s: String| s@) == if dir {
                parts.drop_last()
            } else {
                parts
            }
        }),
{
    let n = path.unicode_len();
    let mut segs: Vec<String> = Vec::new();
    let mut start: usize = 0;
    let mut i: usize = 0;
    proof {
        assert(path@.take(0) =~= Seq::<char>::empty());
        assert(split_on(path@.take(0), '/') =~= seq![Seq::<char>::empty()]);
        assert(path@.subrange(0, 0) =~= Seq::<char>::empty());
        assert(segs@.map_values(|s: String| s@).push(path@.subrange(0, 0)) =~= seq![
            Seq::<char>::empty(),
        ]);
    }
    while i < n
        invariant
            start <= i <= n,
            n == path@.len(),
            split_on(path@.take(i as int), '/') =~= segs@.map_values(|s: String| s@).push(
                path@.subrange(start as int, i as int),
            ),
        decreases n - i,
    {
        let ghost pre = path@.take(i as int);
        let c = path.get_char(i);
        if c == '/' {
            let piece = path.substring_char(start, i).to_owned();
            segs.push(piece);
            start = i + 1;
        }
        i = i + 1;
        proof {
            assert(path@.take(i as int).drop_last() =~= pre);
            assert(path@.take(i as int).last() == path@[i - 1]);
            if c == '/' {
                assert(split_on(path@.take(i as int), '/') =~= split_on(pre, '/').push(
                    Seq::<char>::empty(),
                ));
                assert(path@.subrange(start as int, i as int) =~= Seq::<char>::empty());
                assert(segs@.map_values(|s: String| s@) =~= split_on(pre, '/'));
            } else {
                let prev = split_on(pre, '/');
                lemma_split_on_len(pre, '/');
                assert(split_on(path@.take(i as int), '/') =~= prev.update(
                    prev.len() - 1,
                    prev.last().push(path@[i - 1]),
                ));
                assert(prev.last() == path@.subrange(start as int, i - 1));
                assert(path@.subrange(start as int, i - 1).push(path@[i - 1]) =~= path@.subrange(
                    start as int,
                    i as int,
                ));
                assert(split_on(path@.take(i as int), '/') =~= segs@.map_values(
                    |s: String| s@,
                ).push(path@.subrange(start as int, i as int)));
            }
        }
    }
    proof {
        assert(path@.take(n as int) =~= path@);
    }
    let piece = path.substring_char(start, n).to_owned();
    segs.push(piece);
    proof {
        assert(segs@.map_values(|s: String| s@) =~= split_on(path@, '/'));
    }
    if dir {
        segs.pop();
        proof {
            assert(segs@.map_values(|s: String| s@) =~= split_on(path@, '/').drop_last());
        }
    }
    segs
}

} // verus!
