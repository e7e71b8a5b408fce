//! Small verified utilities: saturation, decimal digit counting and
//! right-justified decimal labels for the line-number gutter.

use vstd::prelude::*;

verus! {

/// Clamp a mathematical size to what a `usize` can hold.
pub open spec fn sat_usize(n: nat) -> nat {
    if n > usize::MAX as nat {
        usize::MAX as nat
    } else {
        n
    }
}

/// `10 ^ k`.
pub open spec fn pow10(k: nat) -> nat
    decreases k,
{
    if k == 0 {
        1
    } else {
        10 * pow10((k - 1) as nat)
    }
}

/// Number of decimal digits of `n`; one digit for `0`.
pub open spec fn digit_count(n: nat) -> nat
    decreases n,
{
    if n < 10 {
        1
    } else {
        1 + digit_count(n / 10)
    }
}

pub proof fn lemma_digit_count_pos(n: nat)
    ensures
        digit_count(n) >= 1,
    decreases n,
{
    if n >= 10 {
        lemma_digit_count_pos(n / 10);
    }
}

pub proof fn lemma_digit_count_bound(n: nat, k: nat)
    requires
        k >= 1,
        n < pow10(k),
    ensures
        digit_count(n) <= k,
    decreases k,
{
    if n >= 10 {
        assert(pow10(k) == 10 * pow10((k - 1) as nat));
        assert(n / 10 < pow10((k - 1) as nat));
        lemma_digit_count_bound(n / 10, (k - 1) as nat);
    }
}

/// Any value a `usize` can hold has at most twenty decimal digits.
pub proof fn lemma_digit_count_usize(n: nat)
    requires
        n <= usize::MAX as nat,
    ensures
        1 <= digit_count(n) <= 20,
{
    lemma_digit_count_pos(n);
    assert(pow10(20) == 100000000000000000000) by {
        reveal_with_fuel(pow10, 21);
    }
    assert(n < pow10(20));
    lemma_digit_count_bound(n, 20);
}

/// The number of decimal digits needed to print `n`.
pub fn digits(n: usize) -> (r: usize)
    ensures
        r == digit_count(n as nat),
        1 <= r <= 20,
{
    proof {
        lemma_digit_count_usize(n as nat);
    }
    let mut d: usize = 1;
    let mut m: usize = n;
    while m >= 10
        invariant
            1 <= d,
            digit_count(n as nat) <= 20,
            digit_count(n as nat) == d - 1 + digit_count(m as nat),
            digit_count(m as nat) >= 1,
        decreases m,
    {
        proof {
            lemma_digit_count_pos((m / 10) as nat);
        }
        m = m / 10;
        d = d + 1;
    }
    d
}

/// The character for one decimal digit.
pub open spec fn digit_char(d: nat) -> char {
    if d == 0 {
        '0'
    } else if d == 1 {
        '1'
    } else if d == 2 {
        '2'
    } else if d == 3 {
        '3'
    } else if d == 4 {
        '4'
    } else if d == 5 {
        '5'
    } else if d == 6 {
        '6'
    } else if d == 7 {
        '7'
    } else if d == 8 {
        '8'
    } else {
        '9'
    }
}

/// The decimal rendering of `n`, most significant digit first.
pub open spec fn dec_chars(n: nat) -> Seq<char>
    decreases n,
{
    if n < 10 {
        seq![digit_char(n)]
    } else {
        dec_chars(n / 10).push(digit_char(n % 10))
    }
}

/// A run of `k` spaces.
pub open spec fn spaces(k: nat) -> Seq<char> {
    Seq::new(k, |i: int| ' ')
}

/// The decimal rendering of `n`, right-justified with spaces to `width`
/// characters; never truncated.
pub open spec fn number_label(n: nat, width: nat) -> Seq<char> {
    let d = dec_chars(n);
    if d.len() >= width {
        d
    } else {
        spaces((width - d.len()) as nat) + d
    }
}

fn append_digit(s: &mut String, dg: usize)
    requires
        dg < 10,
    ensures
        final(s)@ == old(s)@.push(digit_char(dg as nat)),
{
    proof {
        reveal_strlit("0");
        reveal_strlit("1");
        reveal_strlit("2");
        reveal_strlit("3");
        reveal_strlit("4");
        reveal_strlit("5");
        reveal_strlit("6");
        reveal_strlit("7");
        reveal_strlit("8");
        reveal_strlit("9");
    }
    if dg == 0 {
        s.append("0");
    } else if dg == 1 {
        s.append("1");
    } else if dg == 2 {
        s.append("2");
    } else if dg == 3 {
        s.append("3");
    } else if dg == 4 {
        s.append("4");
    } else if dg == 5 {
        s.append("5");
    } else if dg == 6 {
        s.append("6");
    } else if dg == 7 {
        s.append("7");
    } else if dg == 8 {
        s.append("8");
    } else {
        s.append("9");
    }
    proof {
        assert(s@ =~= old(s)@.push(digit_char(dg as nat)));
    }
}

/// Render `n` in decimal, right-justified with spaces to `width` columns.
pub fn format_line_number(n: usize, width: usize) -> (r: String)
    ensures
        r@ == number_label(n as nat, width as nat),
{
    // least significant digit first
    let mut rev: Vec<usize> = Vec::new();
    let mut m: usize = n;
    rev.push(m % 10);
    m = m / 10;
    while m > 0
        invariant
            rev@.len() >= 1,
            forall|i: int| 0 <= i < rev@.len() ==> rev@[i] < 10,
            dec_chars(n as nat) == if m > 0 {
                dec_chars(m as nat) + Seq::new(rev@.len(), |i: int| digit_char(rev@[rev@.len() - 1 - i] as nat))
            } else {
                Seq::new(rev@.len(), |i: int| digit_char(rev@[rev@.len() - 1 - i] as nat))
            },
        decreases m,
    {
        let ghost prev = rev@;
        rev.push(m % 10);
        proof {
            let cur = Seq::new(rev@.len(), |i: int| digit_char(rev@[rev@.len() - 1 - i] as nat));
            let old_part = Seq::new(prev.len(), |i: int| digit_char(prev[prev.len() - 1 - i] as nat));
            assert(cur =~= seq![digit_char((m % 10) as nat)] + old_part);
            if m >= 10 {
                assert(dec_chars(m as nat) == dec_chars((m / 10) as nat).push(digit_char((m % 10) as nat)));
                assert(dec_chars((m / 10) as nat) + cur =~= dec_chars(m as nat) + old_part);
            } else {
                assert(dec_chars(m as nat) =~= seq![digit_char((m % 10) as nat)]);
                assert(cur =~= dec_chars(m as nat) + old_part);
            }
        }
        m = m / 10;
    }
    let dlen = rev.len();
    let ghost dec = dec_chars(n as nat);
    proof {
        assert(dec.len() == dlen);
    }
    let mut s = String::new();
    proof {
        reveal_strlit(" ");
    }
    let mut p: usize = dlen;
    while p < width
        invariant
            dlen <= p,
            p <= width || p == dlen,
            s@ =~= spaces((p - dlen) as nat),
        decreases width - p,
    {
        proof {
            reveal_strlit(" ");
        }
        s.append(" ");
        proof {
            assert(s@ =~= spaces((p + 1 - dlen) as nat));
        }
        p = p + 1;
    }
    let ghost pad = s@;
    // most significant digit first
    let mut j: usize = dlen;
    while j > 0
        invariant
            j <= dlen,
            dlen == rev@.len(),
            forall|i: int| 0 <= i < rev@.len() ==> rev@[i] < 10,
            dec =~= Seq::new(rev@.len(), |i: int| digit_char(rev@[rev@.len() - 1 - i] as nat)),
            s@ =~= pad + dec.take(dlen - j),
        decreases j,
    {
        j = j - 1;
        append_digit(&mut s, rev[j]);
        proof {
            assert(dec[dlen - j - 1] == digit_char(rev@[j as int] as nat));
            assert(s@ =~= pad + dec.take(dlen - j));
        }
    }
    proof {
        assert(dec.take(dlen as int) =~= dec);
        if dlen >= width {
            assert(pad =~= Seq::<char>::empty());
            assert(s@ =~= number_label(n as nat, width as nat));
        } else {
            assert(s@ =~= number_label(n as nat, width as nat));
        }
    }
    s
}

/// `parts` joined with `delim` between adjacent parts.
pub open spec fn join_with(parts: Seq<Seq<char>>, delim: Seq<char>) -> Seq<char>
    decreases parts.len(),
{
    if parts.len() == 0 {
        Seq::empty()
    } else if parts.len() == 1 {
        parts[0]
    } else {
        join_with(parts.drop_last(), delim) + delim + parts.last()
    }
}

/// Greedy grouping, from item `i` on with the open group `cur`: each item
/// joins the open group while the joined width stays within `max_width`,
/// otherwise it starts a new group.  A single item wider than `max_width`
/// still forms a group of its own.
pub open spec fn greedy_groups_from(
    items: Seq<Seq<char>>,
    i: int,
    cur: Seq<Seq<char>>,
    max_width: nat,
    delim: Seq<char>,
) -> Seq<Seq<Seq<char>>>
    decreases items.len() - i,
{
    if i < 0 || i >= items.len() {
        if cur.len() == 0 {
            Seq::empty()
        } else {
            seq![cur]
        }
    } else if cur.len() == 0 {
        greedy_groups_from(items, i + 1, seq![items[i]], max_width, delim)
    } else if join_with(cur.push(items[i]), delim).len() <= max_width {
        greedy_groups_from(items, i + 1, cur.push(items[i]), max_width, delim)
    } else {
        seq![cur] + greedy_groups_from(items, i + 1, seq![items[i]], max_width, delim)
    }
}

/// The greedy grouping of `items` under `max_width`, using `delim` between
/// the members of a group.
pub open spec fn greedy_groups(items: Seq<Seq<char>>, max_width: nat, delim: Seq<char>) -> Seq<
    Seq<Seq<char>>,
> {
    greedy_groups_from(items, 0, Seq::empty(), max_width, delim)
}

/// Group strings so that each group, joined with `delimiter`, fits within
/// `max_width` characters; a string that alone exceeds the width forms its
/// own group.
#[verifier::loop_isolation(false)]
pub fn group_strings_to_fit_width(strings: &Vec<String>, max_width: usize, delimiter: &str) -> (r:
    Vec<Vec<String>>)
    ensures
        r@.map_values(|g: Vec<String>| g@.map_values(|s: String| s@)) == greedy_groups(
            strings@.map_values(|s: String| s@),
            max_width as nat,
            delimiter@,
        ),
{
    let ghost items = strings@.map_values(|s: String| s@);
    let ghost delim = delimiter@;
    let dl = delimiter.unicode_len();
    let mut groups: Vec<Vec<String>> = Vec::new();
    let mut cur: Vec<String> = Vec::new();
    let mut cur_w: usize = 0;
    let mut i: usize = 0;
    while i < strings.len()
        invariant
            i <= strings@.len(),
            cur_w == join_with(cur@.map_values(|s: String| s@), delim).len(),
            cur_w <= max_width || cur@.len() <= 1,
            greedy_groups(items, max_width as nat, delim) == groups@.map_values(
                |g: Vec<String>| g@.map_values(|s: String| s@),
            ) + greedy_groups_from(
                items,
                i as int,
                cur@.map_values(|s: String| s@),
                max_width as nat,
                delim,
            ),
        decreases strings@.len() - i,
    {
        let ghost cur_view = cur@.map_values(|s: String| s@);
        let s = &strings[i];
        let sl = s.as_str().unicode_len();
        if cur.len() == 0 {
            cur.push(s.clone());
            cur_w = sl;
            proof {
                assert(cur@.map_values(|x: String| x@) =~= seq![items[i as int]]);
                assert(join_with(seq![items[i as int]], delim) =~= items[i as int]);
            }
        } else {
            proof {
                assert(cur_view.push(items[i as int]).drop_last() =~= cur_view);
                assert(join_with(cur_view.push(items[i as int]), delim) =~= join_with(
                    cur_view,
                    delim,
                ) + delim + items[i as int]);
            }
            if sl <= max_width && dl <= max_width - sl && cur_w <= max_width - sl - dl {
                cur.push(s.clone());
                cur_w = cur_w + dl + sl;
                proof {
                    assert(cur@.map_values(|x: String| x@) =~= cur_view.push(items[i as int]));
                }
            } else {
                let ghost gmap = groups@.map_values(|g: Vec<String>| g@.map_values(|s2: String| s2@));
                groups.push(cur);
                cur = Vec::new();
                cur.push(s.clone());
                cur_w = sl;
                proof {
                    assert(groups@.map_values(|g: Vec<String>| g@.map_values(|s2: String| s2@))
                        =~= gmap.push(cur_view));
                    assert(gmap.push(cur_view) =~= gmap + seq![cur_view]);
                    assert(cur@.map_values(|x: String| x@) =~= seq![items[i as int]]);
                    assert(join_with(seq![items[i as int]], delim) =~= items[i as int]);
                }
            }
        }
        i = i + 1;
    }
    let ghost gmap = groups@.map_values(|g: Vec<String>| g@.map_values(|s2: String| s2@));
    let ghost cur_view = cur@.map_values(|s2: String| s2@);
    if cur.len() > 0 {
        groups.push(cur);
        proof {
            assert(groups@.map_values(|g: Vec<String>| g@.map_values(|s2: String| s2@))
                =~= gmap.push(cur_view));
            assert(gmap.push(cur_view) =~= gmap + seq![cur_view]);
        }
    } else {
        proof {
            assert(cur_view =~= Seq::<Seq<char>>::empty());
            assert(gmap + Seq::<Seq<Seq<char>>>::empty() =~= gmap);
        }
    }
    groups
}

/// `s` without its leading run of `c`.
pub open spec fn strip_leading(s: Seq<char>, c: char) -> Seq<char>
    decreases s.len(),
{
    if s.len() > 0 && s[0] == c {
        strip_leading(s.drop_first(), c)
    } else {
        s
    }
}

/// `s` without its trailing run of `c`.
pub open spec fn strip_trailing(s: Seq<char>, c: char) -> Seq<char>
    decreases s.len(),
{
    if s.len() > 0 && s.last() == c {
        strip_trailing(s.drop_last(), c)
    } else {
        s
    }
}

/// `s` with every leading and trailing double quote removed.
pub open spec fn trimmed_quotes(s: Seq<char>) -> Seq<char> {
    strip_trailing(strip_leading(s, '"'), '"')
}

/// Strip the double quotes that wrap a value such as an entity tag.
pub fn trim_quotes(s: &str) -> (r: String)
    ensures
        r@ == trimmed_quotes(s@),
{
    let n = s.unicode_len();
    let mut a: usize = 0;
    proof {
        assert(s@.skip(0) =~= s@);
    }
    while a < n && s.get_char(a) == '"'
        invariant
            a <= n,
            n == s@.len(),
            strip_leading(s@, '"') == strip_leading(s@.skip(a as int), '"'),
        decreases n - a,
    {
        proof {
            assert(s@.skip(a as int)[0] == s@[a as int]);
            assert(s@.skip(a as int).drop_first() =~= s@.skip(a + 1 as int));
        }
        a = a + 1;
    }
    proof {
        if a < n {
            assert(strip_leading(s@.skip(a as int), '"') == s@.skip(a as int));
        } else {
            assert(s@.skip(a as int) =~= Seq::<char>::empty());
        }
    }
    let mut b: usize = n;
    proof {
        assert(s@.subrange(a as int, n as int) =~= s@.skip(a as int));
    }
    while b > a && s.get_char(b - 1) == '"'
        invariant
            a <= b <= n,
            n == s@.len(),
            strip_trailing(s@.skip(a as int), '"') == strip_trailing(
                s@.subrange(a as int, b as int),
                '"',
            ),
        decreases b,
    {
        proof {
            assert(s@.subrange(a as int, b as int).last() == s@[b - 1]);
            assert(s@.subrange(a as int, b as int).drop_last() =~= s@.subrange(
                a as int,
                b - 1 as int,
            ));
        }
        b = b - 1;
    }
    proof {
        assert(strip_trailing(s@.subrange(a as int, b as int), '"') == s@.subrange(
            a as int,
            b as int,
        ));
    }
    s.substring_char(a, b).to_owned()
}

} // verus!
