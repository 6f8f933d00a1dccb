//! Splitting strings at a separator character, with the facts the parsers rely on.
use vstd::prelude::*;

verus! {

/// `s` cut at every `sep`; a string without `sep` is a single part.
pub open spec fn split_on(s: Seq<char>, sep: char) -> Seq<Seq<char>>
    decreases s.len(),
{
    if s.len() == 0 {
        seq![Seq::<char>::empty()]
    } else {
        let r = split_on(s.drop_last(), sep);
        if s.last() == sep {
            r.push(Seq::<char>::empty())
        } else {
            r.update(r.len() - 1, r.last().push(s.last()))
        }
    }
}

pub proof fn lemma_split_nonempty(s: Seq<char>, sep: char)
    ensures
        split_on(s, sep).len() >= 1,
    decreases s.len(),
{
    if s.len() > 0 {
        lemma_split_nonempty(s.drop_last(), sep);
    }
}

/// One more character of input: the parts of the longer prefix.
pub proof fn lemma_split_step(s: Seq<char>, sep: char, i: int)
    requires
        0 <= i < s.len(),
    ensures
        split_on(s.take(i), sep).len() >= 1,
        s[i] == sep ==> split_on(s.take(i + 1), sep) == split_on(s.take(i), sep).push(
            Seq::<char>::empty(),
        ),
        s[i] != sep ==> split_on(s.take(i + 1), sep) == split_on(s.take(i), sep).update(
            split_on(s.take(i), sep).len() - 1,
            split_on(s.take(i), sep).last().push(s[i]),
        ),
{
    lemma_split_nonempty(s.take(i), sep);
    assert(s.take(i + 1).drop_last() =~= s.take(i));
    assert(s.take(i + 1).last() == s[i]);
}

/// A part that is complete in a prefix of `s` (not its last part) keeps its index and its
/// contents in every longer prefix.
pub proof fn lemma_split_prefix_stable(s: Seq<char>, sep: char, i: int, j: int, k: int)
    requires
        0 <= i <= j <= s.len(),
        0 <= k < split_on(s.take(i), sep).len() - 1,
    ensures
        k < split_on(s.take(j), sep).len() - 1,
        split_on(s.take(j), sep)[k] == split_on(s.take(i), sep)[k],
    decreases j - i,
{
    if i < j {
        lemma_split_prefix_stable(s, sep, i, j - 1, k);
        lemma_split_step(s, sep, j - 1);
    } else {
        assert(s.take(i) =~= s.take(j));
    }
}

/// The bounds of part `k` of `s.take(end)` cut at `sep`, when that part exists.
pub fn split_field(s: &str, end: usize, sep: char, k: usize) -> (r: Option<(usize, usize)>)
    requires
        end <= s@.len(),
    ensures
        r is Some <==> k < split_on(s@.take(end as int), sep).len(),
        r matches Some((a, b)) ==> a <= b <= end && s@.subrange(a as int, b as int) == split_on(
            s@.take(end as int),
            sep,
        )[k as int],
{
    let mut count: usize = 0;
    let mut start: usize = 0;
    let mut i: usize = 0;
    assert(s@.take(0) =~= Seq::<char>::empty());
    while i < end
        invariant
            start <= i <= end,
            end <= s@.len(),
            count <= k,
            count + 1 == split_on(s@.take(i as int), sep).len(),
            split_on(s@.take(i as int), sep).last() =~= s@.subrange(start as int, i as int),
        decreases end - i,
    {
        let c = s.get_char(i);
        proof {
            lemma_split_step(s@, sep, i as int);
        }
        if c == sep {
            if count == k {
                proof {
                    lemma_split_prefix_stable(s@, sep, i + 1, end as int, k as int);
                    let p = split_on(s@.take(i + 1), sep);
                    assert(p[k as int] == split_on(s@.take(i as int), sep).last());
                }
                return Some((start, i));
            }
            count = count + 1;
            start = i + 1;
            assert(s@.subrange(start as int, i + 1) =~= Seq::<char>::empty());
        } else {
            assert(s@.subrange(start as int, i + 1) =~= s@.subrange(start as int, i as int).push(
                c,
            ));
        }
        i = i + 1;
    }
    if count == k {
        Some((start, end))
    } else {
        None
    }
}

/// The part after the last `/` of `s`.
pub fn last_component(s: &str) -> (r: String)
    ensures
        r@ == split_on(s@, '/').last(),
{
    let n = s.unicode_len();
    let mut start: usize = 0;
    let mut i: usize = 0;
    assert(s@.take(0) =~= Seq::<char>::empty());
    while i < n
        invariant
            start <= i <= n,
            n == s@.len(),
            split_on(s@.take(i as int), '/').len() >= 1,
            split_on(s@.take(i as int), '/').last() =~= s@.subrange(start as int, i as int),
        decreases n - i,
    {
        let c = s.get_char(i);
        proof {
            lemma_split_step(s@, '/', i as int);
        }
        if c == '/' {
            start = i + 1;
            assert(s@.subrange(start as int, i + 1) =~= Seq::<char>::empty());
        } else {
            assert(s@.subrange(start as int, i + 1) =~= s@.subrange(start as int, i as int).push(
                c,
            ));
        }
        i = i + 1;
    }
    assert(s@.take(n as int) =~= s@);
    String::from_str(s.substring_char(start, n))
}

/// Whether `s` begins with `prefix`.
pub fn has_prefix(s: &str, prefix: &str) -> (r: bool)
    ensures
        r == (prefix@.len() <= s@.len() && s@.take(prefix@.len() as int) == prefix@),
{
    let n = s.unicode_len();
    let m = prefix.unicode_len();
    if m > n {
        return false;
    }
    let mut i: usize = 0;
    while i < m
        invariant
            i <= m <= n,
            n == s@.len(),
            m == prefix@.len(),
            forall|j: int| 0 <= j < i ==> s@[j] == prefix@[j],
        decreases m - i,
    {
        if s.get_char(i) != prefix.get_char(i) {
            assert(s@.take(m as int)[i as int] != prefix@[i as int]);
            return false;
        }
        i = i + 1;
    }
    assert(s@.take(m as int) =~= prefix@);
    true
}

/// `s` with every occurrence of `from` replaced by `to`, scanning left to right without
/// overlaps, as `str::replace` does for a non-empty pattern.
pub open spec fn replace_spec(s: Seq<char>, from: Seq<char>, to: Seq<char>) -> Seq<char>
    decreases s.len(),
{
    if from.len() == 0 || s.len() < from.len() {
        s
    } else if s.take(from.len() as int) == from {
        to + replace_spec(s.skip(from.len() as int), from, to)
    } else {
        seq![s[0]] + replace_spec(s.drop_first(), from, to)
    }
}

/// Whether `from` occurs in `s` at index `i`.
pub fn occurs_at(s: &str, n: usize, i: usize, from: &str, m: usize) -> (r: bool)
    requires
        n == s@.len(),
        m == from@.len(),
        i <= n,
    ensures
        r == (m <= n - i && s@.skip(i as int).take(m as int) == from@),
{
    if m > n - i {
        return false;
    }
    let mut j: usize = 0;
    while j < m
        invariant
            j <= m,
            m <= n - i,
            n == s@.len(),
            m == from@.len(),
            forall|k: int| 0 <= k < j ==> s@[i + k] == from@[k],
        decreases m - j,
    {
        if s.get_char(i + j) != from.get_char(j) {
            assert(s@.skip(i as int).take(m as int)[j as int] != from@[j as int]);
            return false;
        }
        j = j + 1;
    }
    assert(s@.skip(i as int).take(m as int) =~= from@);
    true
}

/// Replaces every occurrence of the non-empty `from` in `s` by `to`.
pub fn replace_all(s: &str, from: &str, to: &str) -> (r: String)
    requires
        from@.len() > 0,
    ensures
        r@ == replace_spec(s@, from@, to@),
{
    let n = s.unicode_len();
    let m = from.unicode_len();
    let mut out = String::new();
    let mut i: usize = 0;
    assert(s@.skip(0) =~= s@);
    while i < n
        invariant
            i <= n,
            n == s@.len(),
            m == from@.len(),
            m > 0,
            out@ + replace_spec(s@.skip(i as int), from@, to@) == replace_spec(s@, from@, to@),
        decreases n - i,
    {
        let ghost rest = s@.skip(i as int);
        if occurs_at(s, n, i, from, m) {
            proof {
                assert(rest.skip(m as int) =~= s@.skip(i + m));
                assert(out@ + (to@ + replace_spec(rest.skip(m as int), from@, to@)) =~= (out@
                    + to@) + replace_spec(rest.skip(m as int), from@, to@));
            }
            out = out.concat(to);
            i = i + m;
        } else {
            let c = s.substring_char(i, i + 1);
            proof {
                assert(c@ =~= seq![rest[0]]);
                assert(rest.drop_first() =~= s@.skip(i + 1));
                assert(out@ + (c@ + replace_spec(rest.drop_first(), from@, to@)) =~= (out@ + c@)
                    + replace_spec(rest.drop_first(), from@, to@));
            }
            out = out.concat(c);
            i = i + 1;
        }
    }
    assert(s@.skip(n as int) =~= Seq::<char>::empty());
    assert(out@ + Seq::<char>::empty() =~= out@);
    out
}


pub open spec fn parts_view(v: Seq<String>) -> Seq<Seq<char>> {
    v.map_values(|x: String| x@)
}

/// `s` cut at every `sep`.
pub fn split_all(s: &str, sep: char) -> (r: Vec<String>)
    ensures
        parts_view(r@) == split_on(s@, sep),
{
    let n = s.unicode_len();
    let mut parts: Vec<String> = Vec::new();
    let mut start: usize = 0;
    let mut i: usize = 0;
    assert(s@.take(0) =~= Seq::<char>::empty());
    assert(parts_view(parts@).push(s@.subrange(0, 0)) =~= split_on(s@.take(0), sep));
    while i < n
        invariant
            start <= i <= n,
            n == s@.len(),
            parts_view(parts@).push(s@.subrange(start as int, i as int)) == split_on(
                s@.take(i as int),
                sep,
            ),
        decreases n - i,
    {
        let c = s.get_char(i);
        proof {
            lemma_split_step(s@, sep, i as int);
        }
        let ghost before = parts_view(parts@);
        let ghost old_start = start;
        if c == sep {
            let part = String::from_str(s.substring_char(start, i));
            parts.push(part);
            start = i + 1;
            assert(parts_view(parts@) =~= before.push(s@.subrange(old_start as int, i as int)));
            assert(s@.subrange(start as int, i + 1) =~= Seq::<char>::empty());
            assert(parts_view(parts@).push(s@.subrange(start as int, i + 1)) =~= split_on(
                s@.take(i + 1),
                sep,
            ));
        } else {
            assert(s@.subrange(start as int, i + 1) =~= s@.subrange(start as int, i as int).push(c));
            assert(parts_view(parts@).push(s@.subrange(start as int, i + 1)) =~= split_on(
                s@.take(i + 1),
                sep,
            ));
        }
        i = i + 1;
    }
    let ghost before = parts_view(parts@);
    parts.push(String::from_str(s.substring_char(start, n)));
    assert(s@.take(n as int) =~= s@);
    assert(parts_view(parts@) =~= before.push(s@.subrange(start as int, n as int)));
    parts
}

/// A path component that normalization keeps: not empty and not `.`.
pub open spec fn is_kept_part(c: Seq<char>) -> bool {
    c.len() > 0 && c != seq!['.']
}

pub open spec fn kept_parts(parts: Seq<Seq<char>>) -> Seq<Seq<char>>
    decreases parts.len(),
{
    if parts.len() == 0 {
        Seq::empty()
    } else {
        let r = kept_parts(parts.drop_last());
        if is_kept_part(parts.last()) {
            r.push(parts.last())
        } else {
            r
        }
    }
}

/// The normalized form of a relative path: its `/`-separated components without empty and
/// `.` ones, so that repeated, leading `./` and trailing separators do not count.
pub open spec fn path_components(s: Seq<char>) -> Seq<Seq<char>> {
    kept_parts(split_on(s, '/'))
}

fn is_kept_component(c: &String) -> (r: bool)
    ensures
        r == is_kept_part(c@),
{
    let n = c.as_str().unicode_len();
    if n == 0 {
        return false;
    }
    if n == 1 && c.as_str().get_char(0) == '.' {
        assert(c@ =~= seq!['.']);
        return false;
    }
    if n == 1 {
        assert(c@[0] != seq!['.'][0]);
    }
    true
}

/// The normalized components of the path `s`.
pub fn normalized_components(s: &str) -> (r: Vec<String>)
    ensures
        parts_view(r@) == path_components(s@),
{
    let parts = split_all(s, '/');
    let ghost pv = parts_view(parts@);
    let mut out: Vec<String> = Vec::new();
    let mut i: usize = 0;
    assert(pv.take(0) =~= Seq::<Seq<char>>::empty());
    assert(parts_view(out@) =~= Seq::<Seq<char>>::empty());
    while i < parts.len()
        invariant
            i <= parts@.len(),
            pv == parts_view(parts@),
            parts_view(out@) == kept_parts(pv.take(i as int)),
        decreases parts.len() - i,
    {
        assert(pv.take(i + 1).drop_last() =~= pv.take(i as int));
        assert(pv.take(i + 1).last() == parts@[i as int]@);
        if is_kept_component(&parts[i]) {
            let ghost before = parts_view(out@);
            out.push(parts[i].clone());
            assert(parts_view(out@) =~= before.push(parts@[i as int]@));
        }
        i = i + 1;
    }
    assert(pv.take(parts@.len() as int) =~= pv);
    out
}

/// Whether `a` and `b` are the same path once normalized.
pub fn same_path(a: &str, b: &str) -> (r: bool)
    ensures
        r == (path_components(a@) == path_components(b@)),
{
    let ca = normalized_components(a);
    let cb = normalized_components(b);
    if ca.len() != cb.len() {
        assert(parts_view(ca@).len() != parts_view(cb@).len());
        return false;
    }
    let mut i: usize = 0;
    while i < ca.len()
        invariant
            i <= ca@.len(),
            ca@.len() == cb@.len(),
            parts_view(ca@) == path_components(a@),
            parts_view(cb@) == path_components(b@),
            forall|j: int| 0 <= j < i ==> ca@[j]@ == cb@[j]@,
        decreases ca.len() - i,
    {
        if ca[i] != cb[i] {
            assert(parts_view(ca@)[i as int] != parts_view(cb@)[i as int]);
            return false;
        }
        i = i + 1;
    }
    assert(parts_view(ca@) =~= parts_view(cb@));
    true
}

/// A relative path that stays below the directory it is joined to: not empty, not starting
/// with `/`, and without a `..` component.
pub open spec fn is_safe_relative(p: Seq<char>) -> bool {
    &&& p.len() > 0
    &&& p[0] != '/'
    &&& forall|k: int| 0 <= k < split_on(p, '/').len() ==> #[trigger] split_on(p, '/')[k] != seq!['.', '.']
}

/// Whether `p` is a relative path that stays below the directory it is joined to.
pub fn safe_relative(p: &str) -> (r: bool)
    ensures
        r == is_safe_relative(p@),
{
    let n = p.unicode_len();
    if n == 0 || p.get_char(0) == '/' {
        return false;
    }
    let parts = split_all(p, '/');
    let ghost pv = parts_view(parts@);
    let mut i: usize = 0;
    while i < parts.len()
        invariant
            i <= parts@.len(),
            pv == parts_view(parts@),
            pv == split_on(p@, '/'),
            forall|k: int| 0 <= k < i ==> pv[k] != seq!['.', '.'],
        decreases parts.len() - i,
    {
        let c = parts[i].as_str();
        assert(pv[i as int] == c@);
        let m = c.unicode_len();
        if m == 2 && c.get_char(0) == '.' && c.get_char(1) == '.' {
            assert(c@ =~= seq!['.', '.']);
            return false;
        }
        if m == 2 {
            assert(c@[0] != '.' || c@[1] != '.');
        }
        assert(c@ != seq!['.', '.']) by {
            if m != 2 {
                assert(c@.len() != seq!['.', '.'].len());
            }
        }
        i = i + 1;
    }
    true
}


/// A string without `sep` is one part.
pub proof fn lemma_split_without_sep(x: Seq<char>, sep: char)
    requires
        forall|i: int| 0 <= i < x.len() ==> x[i] != sep,
    ensures
        split_on(x, sep) == seq![x],
    decreases x.len(),
{
    if x.len() > 0 {
        let p = x.drop_last();
        assert forall|i: int| 0 <= i < p.len() implies p[i] != sep by {
            assert(p[i] == x[i]);
        }
        lemma_split_without_sep(p, sep);
        assert(x.last() != sep);
        assert(p.push(x.last()) =~= x);
        assert(seq![p].update(0, p.push(x.last())) =~= seq![x]);
    } else {
        assert(x =~= Seq::<char>::empty());
    }
}

/// Cutting `x`, a separator and `y`, where `x` has no separator: `x`, then the parts of `y`.
pub proof fn lemma_split_after_first(x: Seq<char>, y: Seq<char>, sep: char)
    requires
        forall|i: int| 0 <= i < x.len() ==> x[i] != sep,
    ensures
        split_on(x + seq![sep] + y, sep) == seq![x] + split_on(y, sep),
    decreases y.len(),
{
    let s = x + seq![sep] + y;
    if y.len() == 0 {
        lemma_split_without_sep(x, sep);
        assert(s.drop_last() =~= x);
        assert(s.last() == sep);
        assert(seq![x].push(Seq::<char>::empty()) =~= seq![x] + seq![Seq::<char>::empty()]);
    } else {
        let y0 = y.drop_last();
        lemma_split_after_first(x, y0, sep);
        lemma_split_nonempty(y0, sep);
        assert(s.drop_last() =~= x + seq![sep] + y0);
        assert(s.last() == y.last());
        let r = split_on(y0, sep);
        if y.last() == sep {
            assert((seq![x] + r).push(Seq::<char>::empty()) =~= seq![x] + r.push(
                Seq::<char>::empty(),
            ));
        } else {
            assert((seq![x] + r).update(r.len() as int, r.last().push(y.last())) =~= seq![x]
                + r.update(r.len() - 1, r.last().push(y.last())));
        }
    }
}

} // verus!
