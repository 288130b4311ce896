//! Lexicographic ordering and sorting for the listings the supervisor's
//! embedder shows: script names in alphabetical order and installed runtime
//! versions in descending numeric order.

use vstd::prelude::*;
use vstd::multiset::Multiset;
use vstd::relations::sorted_by;
use vstd::seq_lib::group_to_multiset_ensures;
use vstd::string::StrSliceExecFns;

verus! {

/// Lexicographic order on integer sequences: a proper prefix comes first,
/// otherwise the first differing position decides.
pub open spec fn lex_le(a: Seq<int>, b: Seq<int>) -> bool
    decreases a.len(),
{
    if a.len() == 0 {
        true
    } else if b.len() == 0 {
        false
    } else if a[0] == b[0] {
        lex_le(a.skip(1), b.skip(1))
    } else {
        a[0] < b[0]
    }
}

/// `lex_le` relates every pair, one way or the other.
pub proof fn lemma_lex_le_total(a: Seq<int>, b: Seq<int>)
    ensures
        lex_le(a, b) || lex_le(b, a),
    decreases a.len(),
{
    if a.len() == 0 || b.len() == 0 {
    } else if a[0] == b[0] {
        lemma_lex_le_total(a.skip(1), b.skip(1));
    }
}

/// `lex_le` is transitive.
pub proof fn lemma_lex_le_trans(a: Seq<int>, b: Seq<int>, c: Seq<int>)
    requires
        lex_le(a, b),
        lex_le(b, c),
    ensures
        lex_le(a, c),
    decreases a.len(),
{
    if a.len() == 0 {
    } else if b.len() == 0 {
    } else if c.len() == 0 {
    } else {
        if a[0] == b[0] && b[0] == c[0] {
            lemma_lex_le_trans(a.skip(1), b.skip(1), c.skip(1));
        }
    }
}

/// `lex_le(a, b)` is decided at the first position where the sequences
/// differ; with no such position the shorter is first.
pub proof fn lemma_lex_le_at(a: Seq<int>, b: Seq<int>, i: int)
    requires
        0 <= i <= a.len(),
        i <= b.len(),
        forall|j: int| 0 <= j < i ==> a[j] == b[j],
    ensures
        i == a.len() ==> lex_le(a, b),
        i == b.len() && i < a.len() ==> !lex_le(a, b),
        i < a.len() && i < b.len() && a[i] < b[i] ==> lex_le(a, b),
        i < a.len() && i < b.len() && a[i] > b[i] ==> !lex_le(a, b),
    decreases i,
{
    if i == 0 {
    } else {
        assert(a.len() > 0 && b.len() > 0 && a[0] == b[0]);
        assert(forall|j: int| 0 <= j < i - 1 ==> a.skip(1)[j] == b.skip(1)[j]);
        lemma_lex_le_at(a.skip(1), b.skip(1), i - 1);
    }
}

/// The character codes of a string, as the integers `lex_le` orders.
pub open spec fn char_codes(s: Seq<char>) -> Seq<int> {
    s.map_values(|c: char| c as int)
}

/// Alphabetical (code-point lexicographic) order on strings.
pub open spec fn str_le_spec(a: Seq<char>, b: Seq<char>) -> bool {
    lex_le(char_codes(a), char_codes(b))
}

/// Compares two strings alphabetically by code point.
pub fn str_le(a: &str, b: &str) -> (r: bool)
    ensures
        r == str_le_spec(a@, b@),
{
    let a_len = a.unicode_len();
    let b_len = b.unicode_len();
    let mut i: usize = 0;
    loop
        invariant
            a_len == a@.len(),
            b_len == b@.len(),
            i <= a_len,
            i <= b_len,
            forall|j: int| 0 <= j < i ==> char_codes(a@)[j] == char_codes(b@)[j],
        decreases a_len - i,
    {
        if i >= a_len {
            proof {
                lemma_lex_le_at(char_codes(a@), char_codes(b@), i as int);
            }
            return true;
        }
        if i >= b_len {
            proof {
                lemma_lex_le_at(char_codes(a@), char_codes(b@), i as int);
            }
            return false;
        }
        let ca = a.get_char(i) as u32;
        let cb = b.get_char(i) as u32;
        if ca != cb {
            proof {
                lemma_lex_le_at(char_codes(a@), char_codes(b@), i as int);
            }
            return ca < cb;
        }
        i = i + 1;
    }
}

/// Alphabetical order as a relation on owned strings.
pub open spec fn string_leq() -> spec_fn(String, String) -> bool {
    |a: String, b: String| str_le_spec(a@, b@)
}

/// Sorts script names alphabetically: the result is sorted and holds
/// exactly the same strings, multiplicity included.
pub fn sort_strings(v: Vec<String>) -> (r: Vec<String>)
    ensures
        sorted_by(r@, string_leq()),
        r@.to_multiset() == v@.to_multiset(),
{
    broadcast use group_to_multiset_ensures;
    broadcast use vstd::multiset::group_multiset_axioms;
    broadcast use vstd::multiset::lemma_multiset_empty_len;

    let mut rest = v;
    let mut out: Vec<String> = Vec::new();
    while rest.len() > 0
        invariant
            sorted_by(out@, string_leq()),
            out@.to_multiset().add(rest@.to_multiset()) =~= v@.to_multiset(),
            forall|x: int, y: int|
                0 <= x < out@.len() && 0 <= y < rest@.len() ==> #[trigger] str_le_spec(
                    out@[x]@,
                    rest@[y]@,
                ),
        decreases rest@.len(),
    {
        proof {
            lemma_lex_le_total(char_codes(rest@[0]@), char_codes(rest@[0]@));
        }
        let mut m: usize = 0;
        let mut i: usize = 1;
        while i < rest.len()
            invariant
                m < i <= rest@.len(),
                forall|j: int| 0 <= j < i ==> str_le_spec(rest@[m as int]@, rest@[j]@),
            decreases rest@.len() - i,
        {
            if str_le(rest[i].as_str(), rest[m].as_str()) {
                proof {
                    assert forall|j: int| 0 <= j < i + 1 implies str_le_spec(
                        rest@[i as int]@,
                        rest@[j]@,
                    ) by {
                        if j < i {
                            lemma_lex_le_trans(
                                char_codes(rest@[i as int]@),
                                char_codes(rest@[m as int]@),
                                char_codes(rest@[j]@),
                            );
                        } else {
                            lemma_lex_le_total(
                                char_codes(rest@[i as int]@),
                                char_codes(rest@[i as int]@),
                            );
                        }
                    }
                }
                m = i;
            } else {
                proof {
                    lemma_lex_le_total(
                        char_codes(rest@[i as int]@),
                        char_codes(rest@[m as int]@),
                    );
                    assert(str_le_spec(rest@[m as int]@, rest@[i as int]@));
                }
            }
            i = i + 1;
        }
        proof {
            rest@.remove_ensures(m as int);
        }
        let ghost old_out = out@;
        let ghost old_rest = rest@;
        let x = rest.remove(m);
        out.push(x);
        proof {
            assert(rest@ == old_rest.remove(m as int));
            assert(out@ == old_out.push(x));
            vstd::seq_lib::to_multiset_remove(old_rest, m as int);
            vstd::seq_lib::to_multiset_build(old_out, x);
            assert(old_rest[m as int] == x);
            assert(old_rest.contains(x));
            old_rest.to_multiset_ensures();
            assert(old_rest.to_multiset().count(x) > 0);
            assert(sorted_by(out@, string_leq())) by {
                assert forall|p: int, q: int|
                    0 <= p < q < out@.len() implies #[trigger] string_leq()(out@[p], out@[q]) by {
                    if q < out@.len() - 1 {
                        assert(string_leq()(old_out[p], old_out[q]));
                    } else {
                        assert(out@[q] == x);
                        assert(str_le_spec(old_out[p]@, old_rest[m as int]@));
                    }
                }
            }
            assert(out@.to_multiset().add(rest@.to_multiset()) =~= v@.to_multiset());
            assert forall|a: int, b: int|
                0 <= a < out@.len() && 0 <= b < rest@.len() implies #[trigger] str_le_spec(
                out@[a]@,
                rest@[b]@,
            ) by {
                let sb: int = if b < m as int {
                    b
                } else {
                    b + 1
                };
                assert(rest@[b] == old_rest[sb]);
                if a < out@.len() - 1 {
                    assert(str_le_spec(old_out[a]@, old_rest[sb]@));
                } else {
                    assert(out@[a] == x);
                    assert(str_le_spec(old_rest[m as int]@, old_rest[sb]@));
                }
            }
        }
    }
    proof {
        assert(rest@.to_multiset().len() == 0);
        assert(rest@.to_multiset() =~= Multiset::<String>::empty());
        assert(out@.to_multiset().add(rest@.to_multiset()) =~= out@.to_multiset());
    }
    out
}

} // verus!
