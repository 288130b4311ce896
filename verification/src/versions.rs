//! Numeric version keys for installed runtime versions: a tag such as
//! `v20.1.0` is stripped of its leading `v`s, split on dots, and each
//! component read as a number (a component that is not a number, or does
//! not fit in 32 bits, counts as zero). The version list is shown newest
//! first: sorted descending by key.

use vstd::prelude::*;
use vstd::multiset::Multiset;
use vstd::relations::sorted_by;
use vstd::seq_lib::group_to_multiset_ensures;
use vstd::string::StrSliceExecFns;
use vstd::string::StringExecFns;

use crate::model::NodeVersion;
use crate::order::lemma_lex_le_at;
use crate::order::lemma_lex_le_total;
use crate::order::lemma_lex_le_trans;
use crate::order::lex_le;

verus! {

/// `c` is an ASCII digit.
pub open spec fn is_digit(c: char) -> bool {
    48 <= c as int && c as int <= 57
}

/// The number the digit string `s` denotes.
pub open spec fn digits_val(s: Seq<char>) -> int
    decreases s.len(),
{
    if s.len() == 0 {
        0
    } else {
        digits_val(s.drop_last()) * 10 + (s.last() as int - 48)
    }
}

/// `s` is a non-empty string of digits.
pub open spec fn is_number(s: Seq<char>) -> bool {
    s.len() > 0 && (forall|i: int| 0 <= i < s.len() ==> is_digit(s[i]))
}

/// The numeric value of one dot-separated component: its digits' value when
/// `s` is a number that fits in 32 bits, else zero.
pub open spec fn component_val(s: Seq<char>) -> int {
    if is_number(s) && digits_val(s) <= u32::MAX as int {
        digits_val(s)
    } else {
        0
    }
}

proof fn lemma_digits_val_nonneg(s: Seq<char>)
    requires
        forall|i: int| 0 <= i < s.len() ==> is_digit(s[i]),
    ensures
        digits_val(s) >= 0,
    decreases s.len(),
{
    if s.len() > 0 {
        assert(forall|i: int| 0 <= i < s.len() - 1 ==> s.drop_last()[i] == s[i]);
        lemma_digits_val_nonneg(s.drop_last());
    }
}

proof fn lemma_digits_val_monotone(s: Seq<char>, j: int)
    requires
        forall|i: int| 0 <= i < s.len() ==> is_digit(s[i]),
        0 <= j <= s.len(),
    ensures
        digits_val(s) >= digits_val(s.subrange(0, j)),
    decreases s.len() - j,
{
    if j == s.len() {
        assert(s.subrange(0, j) =~= s);
    } else {
        lemma_digits_val_monotone(s, j + 1);
        let t = s.subrange(0, j + 1);
        assert(t.drop_last() =~= s.subrange(0, j));
        assert(t.last() == s[j]);
        assert(forall|i: int| 0 <= i < s.subrange(0, j).len() ==> is_digit(s.subrange(0, j)[i]));
        lemma_digits_val_nonneg(s.subrange(0, j));
        assert(digits_val(t) == digits_val(s.subrange(0, j)) * 10 + (s[j] as int - 48));
        assert(digits_val(t) >= digits_val(s.subrange(0, j)));
    }
}

/// Reads one component as a 32-bit number; anything else reads as zero.
pub fn parse_component(s: &str) -> (r: u32)
    ensures
        r as int == component_val(s@),
{
    let len = s.unicode_len();
    if len == 0 {
        return 0;
    }
    let mut val: u32 = 0;
    let mut ok = true;
    let mut i: usize = 0;
    while i < len
        invariant
            len == s@.len(),
            0 < len,
            i <= len,
            ok ==> forall|j: int| 0 <= j < i ==> is_digit(s@[j]),
            ok ==> val as int == digits_val(s@.subrange(0, i as int)),
            !ok ==> !(is_number(s@) && digits_val(s@) <= u32::MAX as int),
        decreases len - i,
    {
        let c = s.get_char(i) as u32;
        if ok {
            if c < 48 || c > 57 {
                ok = false;
                proof {
                    assert(!is_digit(s@[i as int]));
                    assert(!is_number(s@));
                }
            } else {
                let d = c - 48;
                if val > (u32::MAX - d) / 10 {
                    ok = false;
                    proof {
                        if is_number(s@) {
                            assert(val * 10 + d > u32::MAX) by (nonlinear_arith)
                                requires
                                    val > (u32::MAX - d) / 10,
                                    d <= 9,
                            ;
                            let t = s@.subrange(0, i + 1);
                            assert(t.drop_last() =~= s@.subrange(0, i as int));
                            assert(t.last() == s@[i as int]);
                            assert(digits_val(t) == val * 10 + d);
                            lemma_digits_val_monotone(s@, i + 1);
                            assert(digits_val(s@) > u32::MAX as int);
                        }
                    }
                } else {
                    proof {
                        assert(val * 10 + d <= u32::MAX) by (nonlinear_arith)
                            requires
                                val <= (u32::MAX - d) / 10,
                                d <= 9,
                        ;
                        let t = s@.subrange(0, i + 1);
                        assert(t.drop_last() =~= s@.subrange(0, i as int));
                        assert(t.last() == s@[i as int]);
                    }
                    val = val * 10 + d;
                }
            }
        }
        i = i + 1;
    }
    if ok {
        proof {
            assert(s@.subrange(0, len as int) =~= s@);
            assert(is_number(s@));
        }
        val
    } else {
        0
    }
}

/// Position of the first dot in `s`, or `s.len()` when it has none.
pub open spec fn first_dot(s: Seq<char>) -> nat
    decreases s.len(),
{
    if s.len() == 0 {
        0
    } else if s[0] == '.' {
        0
    } else {
        1 + first_dot(s.skip(1))
    }
}

proof fn lemma_first_dot_at(s: Seq<char>, i: int)
    requires
        0 <= i <= s.len(),
        i < s.len() ==> s[i] == '.',
        forall|j: int| 0 <= j < i ==> s[j] != '.',
        i == s.len() ==> forall|j: int| 0 <= j < s.len() ==> s[j] != '.',
    ensures
        first_dot(s) == i,
    decreases s.len(),
{
    if s.len() == 0 {
    } else if s[0] == '.' {
        assert(i == 0);
    } else {
        assert(i >= 1);
        assert(forall|j: int| 0 <= j < s.len() - 1 ==> s.skip(1)[j] == s[j + 1]);
        lemma_first_dot_at(s.skip(1), i - 1);
    }
}

/// The dot-separated components of `s`; a string without a dot is one
/// component, so the empty string is one empty component.
pub open spec fn components(s: Seq<char>) -> Seq<Seq<char>>
    decreases s.len(),
{
    let i = first_dot(s);
    if i >= s.len() {
        seq![s]
    } else {
        seq![s.subrange(0, i as int)] + components(s.skip(i as int + 1))
    }
}

/// `s` with every leading `v` removed.
pub open spec fn strip_leading_vs(s: Seq<char>) -> Seq<char>
    decreases s.len(),
{
    if s.len() > 0 && s[0] == 'v' {
        strip_leading_vs(s.skip(1))
    } else {
        s
    }
}

/// The numeric key of a version tag: leading `v`s stripped, split on dots,
/// each component read as a number.
pub open spec fn version_key(tag: Seq<char>) -> Seq<int> {
    components(strip_leading_vs(tag)).map_values(|c: Seq<char>| component_val(c))
}

/// Parses a version tag into its numeric key.
pub fn parse_version(tag: &str) -> (r: Vec<u32>)
    ensures
        r@.map_values(|x: u32| x as int) == version_key(tag@),
{
    let len = tag.unicode_len();
    proof {
        assert(tag@.skip(0) =~= tag@);
    }
    let mut start: usize = 0;
    while start < len && tag.get_char(start) == 'v'
        invariant
            len == tag@.len(),
            start <= len,
            strip_leading_vs(tag@) == strip_leading_vs(tag@.skip(start as int)),
        decreases len - start,
    {
        proof {
            assert(tag@.skip(start as int)[0] == 'v');
            assert(tag@.skip(start as int).skip(1) =~= tag@.skip(start + 1));
        }
        start = start + 1;
    }
    let ghost stripped = tag@.skip(start as int);
    proof {
        assert(strip_leading_vs(tag@) == stripped);
    }

    let mut r: Vec<u32> = Vec::new();
    let mut seg_start: usize = start;
    let mut i: usize = start;
    while i < len
        invariant
            len == tag@.len(),
            start <= seg_start <= i <= len,
            stripped == tag@.skip(start as int),
            forall|j: int| seg_start <= j < i ==> tag@[j] != '.',
            components(stripped).map_values(|c: Seq<char>| component_val(c)) =~= r@.map_values(
                |x: u32| x as int,
            ) + components(tag@.skip(seg_start as int)).map_values(
                |c: Seq<char>| component_val(c),
            ),
        decreases len - i,
    {
        if tag.get_char(i) == '.' {
            let ghost old_r = r@;
            let ghost rem = tag@.skip(seg_start as int);
            let piece = tag.substring_char(seg_start, i);
            let val = parse_component(piece);
            r.push(val);
            proof {
                assert(forall|j: int|
                    0 <= j < rem.len() ==> rem[j] == tag@[seg_start + j]);
                lemma_first_dot_at(rem, i - seg_start as int);
                assert(components(rem) == seq![rem.subrange(0, i - seg_start as int)]
                    + components(rem.skip(i - seg_start as int + 1)));
                assert(rem.subrange(0, i - seg_start as int) =~= piece@);
                assert(rem.skip(i - seg_start as int + 1) =~= tag@.skip(i + 1));
                assert(r@.map_values(|x: u32| x as int) =~= old_r.map_values(|x: u32| x as int)
                    + seq![val as int]);
                assert((seq![rem.subrange(0, i - seg_start as int)] + components(
                    tag@.skip(i + 1),
                )).map_values(|c: Seq<char>| component_val(c)) =~= seq![component_val(piece@)]
                    + components(tag@.skip(i + 1)).map_values(|c: Seq<char>| component_val(c)));
            }
            seg_start = i + 1;
        }
        i = i + 1;
    }
    let ghost old_r = r@;
    let ghost rem = tag@.skip(seg_start as int);
    let piece = tag.substring_char(seg_start, len);
    let val = parse_component(piece);
    r.push(val);
    proof {
        assert(forall|j: int| 0 <= j < rem.len() ==> rem[j] == tag@[seg_start + j]);
        lemma_first_dot_at(rem, rem.len() as int);
        assert(components(rem) == seq![rem]);
        assert(rem =~= piece@);
        assert(r@.map_values(|x: u32| x as int) =~= old_r.map_values(|x: u32| x as int)
            + seq![val as int]);
        assert(seq![rem].map_values(|c: Seq<char>| component_val(c)) =~= seq![
            component_val(piece@),
        ]);
        assert(r@.map_values(|x: u32| x as int) =~= version_key(tag@));
    }
    r
}

/// Lexicographic comparison of two numeric keys.
fn lex_le_keys(a: &Vec<u32>, b: &Vec<u32>) -> (r: bool)
    ensures
        r == lex_le(
            a@.map_values(|x: u32| x as int),
            b@.map_values(|x: u32| x as int),
        ),
{
    let ghost ga = a@.map_values(|x: u32| x as int);
    let ghost gb = b@.map_values(|x: u32| x as int);
    let mut i: usize = 0;
    loop
        invariant
            ga == a@.map_values(|x: u32| x as int),
            gb == b@.map_values(|x: u32| x as int),
            i <= a@.len(),
            i <= b@.len(),
            forall|j: int| 0 <= j < i ==> ga[j] == gb[j],
        decreases a@.len() - i,
    {
        if i >= a.len() {
            proof {
                lemma_lex_le_at(ga, gb, i as int);
            }
            return true;
        }
        if i >= b.len() {
            proof {
                lemma_lex_le_at(ga, gb, i as int);
            }
            return false;
        }
        let ca = a[i];
        let cb = b[i];
        if ca != cb {
            proof {
                lemma_lex_le_at(ga, gb, i as int);
            }
            return ca < cb;
        }
        i = i + 1;
    }
}

/// The newest-first order the version list is shown in: descending by
/// numeric key.
pub open spec fn version_order() -> spec_fn(NodeVersion, NodeVersion) -> bool {
    |a: NodeVersion, b: NodeVersion| lex_le(version_key(b.version@), version_key(a.version@))
}

/// Does `a` sort before `b` in the newest-first version list?
pub fn version_before(a: &NodeVersion, b: &NodeVersion) -> (r: bool)
    ensures
        r == version_order()(*a, *b),
{
    let ka = parse_version(a.version.as_str());
    let kb = parse_version(b.version.as_str());
    lex_le_keys(&kb, &ka)
}

/// Sorts installed versions newest first: the result is sorted descending
/// by numeric key and holds exactly the given versions, multiplicity
/// included.
pub fn sort_node_versions(v: Vec<NodeVersion>) -> (r: Vec<NodeVersion>)
    ensures
        sorted_by(r@, version_order()),
        r@.to_multiset() == v@.to_multiset(),
{
    broadcast use group_to_multiset_ensures;
    broadcast use vstd::multiset::group_multiset_axioms;
    broadcast use vstd::multiset::lemma_multiset_empty_len;

    let mut rest = v;
    let mut out: Vec<NodeVersion> = Vec::new();
    while rest.len() > 0
        invariant
            sorted_by(out@, version_order()),
            out@.to_multiset().add(rest@.to_multiset()) =~= v@.to_multiset(),
            forall|x: int, y: int|
                0 <= x < out@.len() && 0 <= y < rest@.len() ==> #[trigger] version_order()(
                    out@[x],
                    rest@[y],
                ),
        decreases rest@.len(),
    {
        proof {
            lemma_lex_le_total(
                version_key(rest@[0].version@),
                version_key(rest@[0].version@),
            );
        }
        let mut m: usize = 0;
        let mut i: usize = 1;
        while i < rest.len()
            invariant
                m < i <= rest@.len(),
                forall|j: int| 0 <= j < i ==> version_order()(rest@[m as int], rest@[j]),
            decreases rest@.len() - i,
        {
            if version_before(&rest[i], &rest[m]) {
                proof {
                    assert forall|j: int| 0 <= j < i + 1 implies version_order()(
                        rest@[i as int],
                        rest@[j],
                    ) by {
                        if j < i {
                            lemma_lex_le_trans(
                                version_key(rest@[j].version@),
                                version_key(rest@[m as int].version@),
                                version_key(rest@[i as int].version@),
                            );
                        } else {
                            lemma_lex_le_total(
                                version_key(rest@[i as int].version@),
                                version_key(rest@[i as int].version@),
                            );
                        }
                    }
                }
                m = i;
            } else {
                proof {
                    lemma_lex_le_total(
                        version_key(rest@[i as int].version@),
                        version_key(rest@[m as int].version@),
                    );
                    assert(version_order()(rest@[m as int], rest@[i as int]));
                }
            }
            i = i + 1;
        }
        proof {
            rest@.remove_ensures(m as int);
        }
        let ghost old_out = out@;
        let ghost old_rest = rest@;
        let x = rest.remove(m);
        out.push(x);
        proof {
            assert(rest@ == old_rest.remove(m as int));
            assert(out@ == old_out.push(x));
            vstd::seq_lib::to_multiset_remove(old_rest, m as int);
            vstd::seq_lib::to_multiset_build(old_out, x);
            assert(old_rest[m as int] == x);
            assert(old_rest.contains(x));
            old_rest.to_multiset_ensures();
            assert(old_rest.to_multiset().count(x) > 0);
            assert(sorted_by(out@, version_order())) by {
                assert forall|p: int, q: int|
                    0 <= p < q < out@.len() implies #[trigger] version_order()(
                    out@[p],
                    out@[q],
                ) by {
                    if q < out@.len() - 1 {
                        assert(version_order()(old_out[p], old_out[q]));
                    } else {
                        assert(out@[q] == x);
                        assert(version_order()(old_out[p], old_rest[m as int]));
                    }
                }
            }
            assert(out@.to_multiset().add(rest@.to_multiset()) =~= v@.to_multiset());
            assert forall|a: int, b: int|
                0 <= a < out@.len() && 0 <= b < rest@.len() implies #[trigger] version_order()(
                out@[a],
                rest@[b],
            ) by {
                let sb: int = if b < m as int {
                    b
                } else {
                    b + 1
                };
                assert(rest@[b] == old_rest[sb]);
                if a < out@.len() - 1 {
                    assert(version_order()(old_out[a], old_rest[sb]));
                } else {
                    assert(out@[a] == x);
                    assert(version_order()(old_rest[m as int], old_rest[sb]));
                }
            }
        }
    }
    proof {
        assert(rest@.to_multiset().len() == 0);
        assert(rest@.to_multiset() =~= Multiset::<NodeVersion>::empty());
        assert(out@.to_multiset().add(rest@.to_multiset()) =~= out@.to_multiset());
    }
    out
}

/// The tag a probed runtime version is shown under: the probe's trimmed
/// first output line, given a leading `v` when it lacks one.
pub open spec fn v_tagged(s: Seq<char>) -> Seq<char> {
    if s.len() > 0 && s[0] == 'v' {
        s
    } else {
        "v"@ + s
    }
}

/// Prefixes the tag with `v` unless it already starts with one.
pub fn ensure_v_prefix(s: &str) -> (r: String)
    ensures
        r@ == v_tagged(s@),
{
    if s.unicode_len() > 0 && s.get_char(0) == 'v' {
        s.to_owned()
    } else {
        let mut out = String::from_str("v");
        out.append(s);
        out
    }
}

} // verus!
