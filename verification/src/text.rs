use vstd::prelude::*;
use vstd::string::StrSliceExecFns;

verus! {

/// `c` with an ASCII capital letter turned into its small letter.
pub open spec fn ascii_lower_char(c: char) -> char {
    if 'A' <= c && c <= 'Z' {
        ((c as u32) + 32) as char
    } else {
        c
    }
}

/// `s` with every ASCII capital letter turned into its small letter.
pub open spec fn ascii_lower(s: Seq<char>) -> Seq<char> {
    s.map_values(|c: char| ascii_lower_char(c))
}

/// `str::to_ascii_lowercase` from std: a copy of `s` in which the ASCII
/// letters 'A' to 'Z' are replaced by 'a' to 'z' and every other character
/// is kept.
#[verifier::external_body]
pub(crate) fn to_ascii_lowercase(s: &str) -> (r: String)
    ensures
        r@ == ascii_lower(s@),
{
    s.to_ascii_lowercase()
}

/// Whether two strings hold the same characters.
pub fn str_equal(a: &str, b: &str) -> (r: bool)
    ensures
        r == (a@ == b@),
{
    String::from_str(a) == String::from_str(b)
}

/// `s` begins with `prefix`.
pub open spec fn has_prefix(s: Seq<char>, prefix: Seq<char>) -> bool {
    prefix.len() <= s.len() && s.subrange(0, prefix.len() as int) == prefix
}

/// Whether `s` begins with `prefix`.
pub fn starts_with(s: &str, prefix: &str) -> (r: bool)
    ensures
        r == has_prefix(s@, prefix@),
{
    let n = prefix.unicode_len();
    let m = s.unicode_len();
    if n > m {
        return false;
    }
    let mut i: usize = 0;
    while i < n
        invariant
            n == prefix@.len(),
            m == s@.len(),
            n <= m,
            i <= n,
            forall|j: int| 0 <= j < i ==> s@[j] == prefix@[j],
        decreases n - i,
    {
        if s.get_char(i) != prefix.get_char(i) {
            assert(s@.subrange(0, n as int)[i as int] != prefix@[i as int]);
            return false;
        }
        i += 1;
    }
    assert(s@.subrange(0, n as int) =~= prefix@);
    true
}

/// `a` comes before `b`, or equals it, in the order of their characters.
pub open spec fn lex_le(a: Seq<char>, b: Seq<char>) -> bool
    decreases a.len(),
{
    if a.len() == 0 {
        true
    } else if b.len() == 0 {
        false
    } else if a[0] != b[0] {
        (a[0] as int) < (b[0] as int)
    } else {
        lex_le(a.drop_first(), b.drop_first())
    }
}

/// Whether `a` comes before `b`, or equals it, in the order of their
/// characters.
pub fn lex_at_most(a: &str, b: &str) -> (r: bool)
    ensures
        r == lex_le(a@, b@),
{
    let n = a.unicode_len();
    let m = b.unicode_len();
    let mut i: usize = 0;
    assert(a@.skip(0) =~= a@);
    assert(b@.skip(0) =~= b@);
    while i < n && i < m
        invariant
            n == a@.len(),
            m == b@.len(),
            i <= n,
            i <= m,
            lex_le(a@, b@) == lex_le(a@.skip(i as int), b@.skip(i as int)),
        decreases n - i,
    {
        let ca = a.get_char(i);
        let cb = b.get_char(i);
        assert(a@.skip(i as int)[0] == ca);
        assert(b@.skip(i as int)[0] == cb);
        if ca != cb {
            return (ca as u32) < (cb as u32);
        }
        assert(a@.skip(i as int).drop_first() =~= a@.skip(i + 1));
        assert(b@.skip(i as int).drop_first() =~= b@.skip(i + 1));
        i += 1;
    }
    i == n
}

/// `lex_le` is total.
pub proof fn lemma_lex_le_total(a: Seq<char>, b: Seq<char>)
    ensures
        lex_le(a, b) || lex_le(b, a),
    decreases a.len(),
{
    if a.len() > 0 && b.len() > 0 {
        if a[0] == b[0] {
            lemma_lex_le_total(a.drop_first(), b.drop_first());
        } else {
            assert(a[0] as int != b[0] as int);
        }
    }
}

/// `lex_le` is transitive.
pub proof fn lemma_lex_le_trans(a: Seq<char>, b: Seq<char>, c: Seq<char>)
    requires
        lex_le(a, b),
        lex_le(b, c),
    ensures
        lex_le(a, c),
    decreases a.len(),
{
    if a.len() > 0 && b.len() > 0 && c.len() > 0 && a[0] == b[0] && b[0] == c[0] {
        lemma_lex_le_trans(a.drop_first(), b.drop_first(), c.drop_first());
    }
}

/// `s` is in ascending order of characters.
pub open spec fn sorted_strings(s: Seq<Seq<char>>) -> bool {
    forall|i: int, j: int| 0 <= i < j < s.len() ==> lex_le(#[trigger] s[i], #[trigger] s[j])
}

/// The character sequences of a list of strings.
pub open spec fn strings_view(v: Seq<String>) -> Seq<Seq<char>> {
    v.map_values(|s: String| s@)
}

/// A copy of `keys` in ascending order of characters.
pub fn sorted_keys(keys: &Vec<String>) -> (r: Vec<String>)
    ensures
        sorted_strings(strings_view(r@)),
        strings_view(r@).to_multiset() == strings_view(keys@).to_multiset(),
{
    let mut out: Vec<String> = Vec::new();
    let mut i: usize = 0;
    proof {
        assert(strings_view(keys@.take(0)) =~= Seq::<Seq<char>>::empty());
        assert(strings_view(out@) =~= Seq::<Seq<char>>::empty());
    }
    while i < keys.len()
        invariant
            i <= keys.len(),
            sorted_strings(strings_view(out@)),
            strings_view(out@).to_multiset() == strings_view(keys@.take(i as int)).to_multiset(),
        decreases keys.len() - i,
    {
        let k = keys[i].clone();
        let mut p: usize = 0;
        while p < out.len()
            invariant
                p <= out.len(),
                i < keys.len(),
                k@ == keys@[i as int]@,
                forall|q: int| 0 <= q < p ==> lex_le(#[trigger] out@[q]@, k@),
            ensures
                p <= out.len(),
                forall|q: int| 0 <= q < p ==> lex_le(#[trigger] out@[q]@, k@),
                p == out.len() || !lex_le(out@[p as int]@, k@),
            decreases out.len() - p,
        {
            if !lex_at_most(out[p].as_str(), k.as_str()) {
                break;
            }
            p += 1;
        }
        let ghost before = strings_view(out@);
        let ghost kv = k@;
        out.insert(p, k);
        proof {
            let after = strings_view(out@);
            assert(after =~= before.insert(p as int, kv));
            assert forall|a: int, b: int| 0 <= a < b < after.len() implies lex_le(#[trigger] after[a], #[trigger] after[b]) by {
                if a != p && b != p {
                    let a0 = if a < p { a } else { a - 1 };
                    let b0 = if b < p { b } else { b - 1 };
                    assert(after[a] == before[a0]);
                    assert(after[b] == before[b0]);
                } else if b == p {
                    assert(after[a] == before[a]);
                } else {
                    assert(after[b] == before[b - 1]);
                    lemma_lex_le_total(kv, before[p as int]);
                    if b - 1 > p {
                        lemma_lex_le_trans(kv, before[p as int], before[b - 1]);
                    }
                }
            }
            assert(keys@.take(i + 1) =~= keys@.take(i as int).push(keys@[i as int]));
            assert(strings_view(keys@.take(i + 1)) =~= strings_view(keys@.take(i as int)).push(kv));
            vstd::seq_lib::to_multiset_insert(before, p as int, kv);
            vstd::seq_lib::to_multiset_build(strings_view(keys@.take(i as int)), kv);
        }
        i += 1;
    }
    proof {
        assert(keys@.take(keys@.len() as int) =~= keys@);
    }
    out
}

} // verus!
