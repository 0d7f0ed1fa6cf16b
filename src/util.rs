use vstd::prelude::*;
use vstd::multiset::Multiset;
use vstd::seq_lib::to_multiset_build;
use vstd::seq_lib::to_multiset_insert;

verus! {

/// Length of `s` once trailing CR and LF bytes are removed.
pub open spec fn trimmed_newline_len(s: Seq<u8>) -> nat
    decreases s.len(),
{
    if s.len() > 0 && (s.last() == 10u8 || s.last() == 13u8) {
        trimmed_newline_len(s.drop_last())
    } else {
        s.len()
    }
}

/// Number of leading space bytes of `s`.
pub open spec fn leading_spaces(s: Seq<u8>) -> nat
    decreases s.len(),
{
    if s.len() > 0 && s[0] == 32u8 {
        1 + leading_spaces(s.drop_first())
    } else {
        0
    }
}

/// Length of `s` once trailing space and NUL bytes are removed.
pub open spec fn trailing_kept_len(s: Seq<u8>) -> nat
    decreases s.len(),
{
    if s.len() > 0 && (s.last() == 32u8 || s.last() == 0u8) {
        trailing_kept_len(s.drop_last())
    } else {
        s.len()
    }
}

/// `s` without its leading spaces and its trailing spaces and NULs.
pub open spec fn trim_spaces_spec(s: Seq<u8>) -> Seq<u8> {
    let rest = s.skip(leading_spaces(s) as int);
    rest.take(trailing_kept_len(rest) as int)
}

/// Index of the first space in `s`, if any.
pub open spec fn first_space(s: Seq<u8>) -> Option<nat>
    decreases s.len(),
{
    if s.len() == 0 {
        None
    } else if s[0] == 32u8 {
        Some(0)
    } else {
        match first_space(s.drop_first()) {
            Some(i) => Some(i + 1),
            None => None,
        }
    }
}

/// Strict lexicographic order on byte strings (a proper prefix comes first).
pub open spec fn lex_lt(a: Seq<u8>, b: Seq<u8>) -> bool
    decreases a.len(),
{
    if a.len() == 0 {
        b.len() > 0
    } else if b.len() == 0 {
        false
    } else if a[0] != b[0] {
        a[0] < b[0]
    } else {
        lex_lt(a.drop_first(), b.drop_first())
    }
}

/// Every element is no greater than the ones after it.
pub open spec fn sorted_names(s: Seq<Seq<u8>>) -> bool {
    forall|i: int, j: int| 0 <= i < j < s.len() ==> !lex_lt(#[trigger] s[j], #[trigger] s[i])
}

/// Decimal digits of `n`, most significant first, without leading zeros.
pub open spec fn decimal_spec(n: nat) -> Seq<u8>
    decreases n,
{
    if n < 10 {
        seq![(48 + n) as u8]
    } else {
        decimal_spec(n / 10).push((48 + n % 10) as u8)
    }
}

pub proof fn lemma_lex_irreflexive(a: Seq<u8>)
    ensures
        !lex_lt(a, a),
    decreases a.len(),
{
    if a.len() > 0 {
        lemma_lex_irreflexive(a.drop_first());
    }
}

pub proof fn lemma_lex_transitive(a: Seq<u8>, b: Seq<u8>, c: Seq<u8>)
    requires
        lex_lt(a, b),
        lex_lt(b, c),
    ensures
        lex_lt(a, c),
    decreases a.len(),
{
    if a.len() > 0 && b.len() > 0 && c.len() > 0 && a[0] == b[0] && b[0] == c[0] {
        lemma_lex_transitive(a.drop_first(), b.drop_first(), c.drop_first());
    }
}

pub proof fn lemma_lex_total(a: Seq<u8>, b: Seq<u8>)
    requires
        !lex_lt(a, b),
        !lex_lt(b, a),
    ensures
        a == b,
    decreases a.len(),
{
    if a.len() > 0 && b.len() > 0 {
        lemma_lex_total(a.drop_first(), b.drop_first());
        assert(a =~= seq![a[0]] + a.drop_first());
        assert(b =~= seq![b[0]] + b.drop_first());
    } else {
        assert(a =~= b);
    }
}

/// Byte-wise equality of two slices.
pub fn bytes_equal(a: &[u8], b: &[u8]) -> (r: bool)
    ensures
        r == (a@ == b@),
{
    if a.len() != b.len() {
        return false;
    }
    let mut i: usize = 0;
    while i < a.len()
        invariant
            a@.len() == b@.len(),
            i <= a@.len(),
            forall|k: int| 0 <= k < i ==> a@[k] == b@[k],
        decreases a@.len() - i,
    {
        if a[i] != b[i] {
            return false;
        }
        i += 1;
    }
    proof {
        assert(a@ =~= b@);
    }
    true
}

/// `buf` without its trailing CR and LF bytes.
pub fn trim_newline(buf: &[u8]) -> (r: &[u8])
    ensures
        r@ == buf@.take(trimmed_newline_len(buf@) as int),
{
    let mut end: usize = buf.len();
    proof {
        assert(buf@.take(end as int) =~= buf@);
    }
    while end > 0 && (buf[end - 1] == 10u8 || buf[end - 1] == 13u8)
        invariant
            end <= buf@.len(),
            trimmed_newline_len(buf@.take(end as int)) == trimmed_newline_len(buf@),
        decreases end,
    {
        assert(buf@.take(end as int).drop_last() =~= buf@.take(end - 1));
        end -= 1;
    }
    proof {
        assert(buf@.take(end as int).len() == end);
    }
    vstd::slice::slice_subrange(buf, 0, end)
}

/// `s` without leading spaces and without trailing spaces or NUL bytes.
pub fn trim_spaces(s: &[u8]) -> (r: &[u8])
    ensures
        r@ == trim_spaces_spec(s@),
{
    let mut start: usize = 0;
    proof {
        assert(s@.skip(0) =~= s@);
    }
    while start < s.len() && s[start] == 32u8
        invariant
            start <= s@.len(),
            start + leading_spaces(s@.skip(start as int)) == leading_spaces(s@),
        decreases s@.len() - start,
    {
        assert(s@.skip(start as int).drop_first() =~= s@.skip(start + 1));
        start += 1;
    }
    proof {
        assert(leading_spaces(s@.skip(start as int)) == 0);
    }
    let ghost rest = s@.skip(start as int);
    let mut end: usize = s.len();
    proof {
        assert(rest.take(end - start) =~= rest);
    }
    while end > start && (s[end - 1] == 32u8 || s[end - 1] == 0u8)
        invariant
            start <= end <= s@.len(),
            rest == s@.skip(start as int),
            trailing_kept_len(rest.take(end - start)) == trailing_kept_len(rest),
        decreases end,
    {
        assert(rest.take(end - start).drop_last() =~= rest.take(end - 1 - start));
        end -= 1;
    }
    proof {
        assert(rest.take(end - start).len() == end - start);
        assert(trailing_kept_len(rest) == end - start);
        assert(s@.subrange(start as int, end as int) =~= rest.take(end - start));
    }
    vstd::slice::slice_subrange(s, start, end)
}

/// Splits `input` at its first space: the word before it and everything after it.
/// Without a space the whole input is the word and the rest is empty.
pub fn split_first_word(input: &[u8]) -> (r: (&[u8], &[u8]))
    ensures
        match first_space(input@) {
            Some(i) => r.0@ == input@.take(i as int) && r.1@ == input@.skip(i + 1 as int),
            None => r.0@ == input@ && r.1@.len() == 0,
        },
{
    let mut i: usize = 0;
    proof {
        assert(input@.skip(0) =~= input@);
    }
    while i < input.len()
        invariant
            i <= input@.len(),
            forall|k: int| 0 <= k < i ==> input@[k] != 32u8,
            first_space(input@) == (match first_space(input@.skip(i as int)) {
                Some(j) => Some((j + i) as nat),
                None => None::<nat>,
            }),
        decreases input@.len() - i,
    {
        assert(input@.skip(i as int).drop_first() =~= input@.skip(i + 1));
        if input[i] == 32u8 {
            let word = vstd::slice::slice_subrange(input, 0, i);
            let rest = vstd::slice::slice_subrange(input, i + 1, input.len());
            proof {
                assert(rest@ =~= input@.skip(i + 1));
            }
            return (word, rest);
        }
        i += 1;
    }
    proof {
        assert(input@.skip(i as int).len() == 0);
    }
    let rest = vstd::slice::slice_subrange(input, input.len(), input.len());
    (input, rest)
}

/// `a` comes strictly before `b` in byte-wise lexicographic order.
pub fn bytes_less_than(a: &[u8], b: &[u8]) -> (r: bool)
    ensures
        r == lex_lt(a@, b@),
{
    let min_len: usize = if a.len() < b.len() { a.len() } else { b.len() };
    let mut i: usize = 0;
    proof {
        assert(a@.skip(0) =~= a@);
        assert(b@.skip(0) =~= b@);
    }
    while i < min_len
        invariant
            min_len as int == if a@.len() < b@.len() { a@.len() } else { b@.len() },
            i <= min_len,
            lex_lt(a@, b@) == lex_lt(a@.skip(i as int), b@.skip(i as int)),
        decreases min_len - i,
    {
        assert(a@.skip(i as int).drop_first() =~= a@.skip(i + 1));
        assert(b@.skip(i as int).drop_first() =~= b@.skip(i + 1));
        if a[i] < b[i] {
            return true;
        } else if a[i] > b[i] {
            return false;
        }
        i += 1;
    }
    a.len() < b.len()
}

/// Sorts names in byte-wise lexicographic order, keeping the same names.
pub fn sort_entries(entries: &mut Vec<Vec<u8>>)
    ensures
        sorted_names(final(entries).deep_view()),
        final(entries)@.to_multiset() == old(entries)@.to_multiset(),
{
    broadcast use vstd::seq_lib::group_to_multiset_ensures, vstd::multiset::group_multiset_properties;

    let ghost orig = entries@;
    let mut result: Vec<Vec<u8>> = Vec::new();
    proof {
        assert(result@.to_multiset() =~= Multiset::empty());
        assert(Multiset::<Vec<u8>>::empty().add(entries@.to_multiset()) =~= entries@.to_multiset());
    }
    while entries.len() > 0
        invariant
            sorted_names(result.deep_view()),
            result@.to_multiset().add(entries@.to_multiset()) == orig.to_multiset(),
        decreases entries@.len(),
    {
        let ghost before = entries@;
        let x = entries.pop().unwrap();
        proof {
            assert(before =~= entries@.push(x));
            to_multiset_build(entries@, x);
        }
        let mut p: usize = 0;
        while p < result.len() && bytes_less_than(result[p].as_slice(), x.as_slice())
            invariant
                p <= result@.len(),
                forall|k: int| 0 <= k < p ==> lex_lt(#[trigger] result@[k]@, x@),
            decreases result@.len() - p,
        {
            p += 1;
        }
        let ghost r0 = result.deep_view();
        proof {
            assert forall|k: int| 0 <= k < r0.len() implies r0[k] == result@[k]@ by {}
            if p < result@.len() {
                assert(!lex_lt(r0[p as int], x@));
            }
            assert forall|i: int, j: int|
                0 <= i < j < r0.len() + 1 implies !lex_lt(
                #[trigger] r0.insert(p as int, x@)[j],
                #[trigger] r0.insert(p as int, x@)[i],
            ) by {
                let s = r0.insert(p as int, x@);
                if i < p && j == p {
                    assert(lex_lt(result@[i]@, x@));
                    if lex_lt(x@, r0[i]) {
                        lemma_lex_transitive(x@, r0[i], x@);
                        lemma_lex_irreflexive(x@);
                    }
                } else if i == p && j > p {
                    let y = r0[j - 1];
                    if lex_lt(y, x@) && j - 1 > p {
                        assert(!lex_lt(y, r0[p as int]));
                        if !lex_lt(r0[p as int], y) {
                            lemma_lex_total(y, r0[p as int]);
                        } else {
                            lemma_lex_transitive(r0[p as int], y, x@);
                        }
                    }
                } else if i < p && j > p {
                    assert(s[i] == r0[i]);
                    assert(s[j] == r0[j - 1]);
                } else if j < p {
                    assert(s[i] == r0[i]);
                } else {
                    assert(s[i] == r0[i - 1]);
                }
            }
            to_multiset_insert(result@, p as int, x);
        }
        let ghost r_before = result@;
        result.insert(p, x);
        proof {
            assert forall|k: int| 0 <= k < result@.len() implies result.deep_view()[k] == r0.insert(
                p as int,
                x@,
            )[k] by {
                if k < p {
                    assert(result@[k] == r_before[k]);
                } else if k > p {
                    assert(result@[k] == r_before[k - 1]);
                }
            }
            assert(result.deep_view() =~= r0.insert(p as int, x@));
        }
    }
    proof {
        assert(entries@.to_multiset() =~= Multiset::empty());
    }
    *entries = result;
}

/// Decimal text of `n`.
pub fn decimal_text(n: u64) -> (r: Vec<u8>)
    ensures
        r@ == decimal_spec(n as nat),
    decreases n,
{
    if n < 10 {
        let mut v: Vec<u8> = Vec::new();
        v.push((48 + n) as u8);
        proof {
            assert(v@ =~= seq![(48 + n) as u8]);
        }
        v
    } else {
        let mut v = decimal_text(n / 10);
        v.push((48 + n % 10) as u8);
        v
    }
}

} // verus!
