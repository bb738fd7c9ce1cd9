//! Byte-wise lexicographic order of strings (the order of `str`'s `Ord`),
//! and sorting by it.
use vstd::prelude::*;
use vstd::string::StringSliceAdditionalSpecFns;

verus! {

/// `a` sorts before or equal to `b`, byte by byte, a prefix first.
pub open spec fn bytes_le(a: Seq<u8>, b: Seq<u8>) -> bool
    decreases a.len(),
{
    if a.len() == 0 {
        true
    } else if b.len() == 0 {
        false
    } else if a[0] != b[0] {
        a[0] < b[0]
    } else {
        bytes_le(a.drop_first(), b.drop_first())
    }
}

/// `a` sorts before or equal to `b` by their UTF-8 bytes.
pub open spec fn str_le(a: &str, b: &str) -> bool {
    bytes_le(a.spec_bytes(), b.spec_bytes())
}

/// Every string of `s` sorts before or equal to every later one.
pub open spec fn sorted_strs(s: Seq<&'static str>) -> bool {
    forall|i: int, j: int| 0 <= i < j < s.len() ==> str_le(s[i], s[j])
}

/// Any two byte strings are ordered one way or the other.
pub proof fn lemma_bytes_le_total(a: Seq<u8>, b: Seq<u8>)
    ensures
        bytes_le(a, b) || bytes_le(b, a),
    decreases a.len(),
{
    if a.len() > 0 && b.len() > 0 && a[0] == b[0] {
        lemma_bytes_le_total(a.drop_first(), b.drop_first());
    }
}

/// The byte order is transitive.
pub proof fn lemma_bytes_le_transitive(a: Seq<u8>, b: Seq<u8>, c: Seq<u8>)
    requires
        bytes_le(a, b),
        bytes_le(b, c),
    ensures
        bytes_le(a, c),
    decreases a.len(),
{
    if a.len() > 0 && b.len() > 0 && c.len() > 0 && a[0] == b[0] && b[0] == c[0] {
        lemma_bytes_le_transitive(a.drop_first(), b.drop_first(), c.drop_first());
    }
}

fn bytes_le_from(a: &[u8], b: &[u8], i: usize) -> (r: bool)
    requires
        i <= a@.len(),
        i <= b@.len(),
    ensures
        r == bytes_le(a@.skip(i as int), b@.skip(i as int)),
    decreases a@.len() - i,
{
    if i == a.len() {
        proof {
            assert(a@.skip(i as int).len() == 0);
        }
        true
    } else if i == b.len() {
        proof {
            assert(b@.skip(i as int).len() == 0);
        }
        false
    } else {
        proof {
            assert(a@.skip(i as int)[0] == a@[i as int]);
            assert(b@.skip(i as int)[0] == b@[i as int]);
            assert(a@.skip(i as int).drop_first() =~= a@.skip(i + 1));
            assert(b@.skip(i as int).drop_first() =~= b@.skip(i + 1));
        }
        if a[i] != b[i] {
            a[i] < b[i]
        } else {
            bytes_le_from(a, b, i + 1)
        }
    }
}

/// Whether `a` sorts before or equal to `b` by their UTF-8 bytes.
pub fn str_le_exec(a: &str, b: &str) -> (r: bool)
    ensures
        r == str_le(a, b),
{
    let ab = a.as_bytes();
    let bb = b.as_bytes();
    proof {
        assert(ab@.skip(0) =~= ab@);
        assert(bb@.skip(0) =~= bb@);
    }
    bytes_le_from(ab, bb, 0)
}

/// Sorts strings by their UTF-8 bytes; equal strings keep their order.
pub fn sort_strs(input: &Vec<&'static str>) -> (out: Vec<&'static str>)
    ensures
        sorted_strs(out@),
        out@.to_multiset() == input@.to_multiset(),
{
    let mut out: Vec<&'static str> = Vec::new();
    let mut i: usize = 0;
    proof {
        assert(input@.take(0) =~= Seq::<&'static str>::empty());
        assert(out@ =~= Seq::<&'static str>::empty());
    }
    while i < input.len()
        invariant
            i <= input@.len(),
            sorted_strs(out@),
            out@.to_multiset() == input@.take(i as int).to_multiset(),
        decreases input@.len() - i,
    {
        let x = input[i];
        let mut p: usize = 0;
        let mut found = false;
        while !found && p < out.len()
            invariant
                p <= out@.len(),
                forall|k: int| 0 <= k < p ==> str_le(#[trigger] out@[k], x),
                found ==> p < out@.len() && !str_le(out@[p as int], x),
            decreases out@.len() - p + (if found { 0int } else { 1int }),
        {
            if str_le_exec(out[p], x) {
                p = p + 1;
            } else {
                found = true;
            }
        }
        let ghost old_out = out@;
        proof {
            if p < old_out.len() {
                lemma_bytes_le_total(old_out[p as int].spec_bytes(), x.spec_bytes());
            }
        }
        out.insert(p, x);
        proof {
            let n = out@;
            assert(n == old_out.insert(p as int, x));
            assert forall|a: int, b: int| 0 <= a < b < n.len() implies str_le(n[a], n[b]) by {
                if b < p {
                    assert(n[a] == old_out[a] && n[b] == old_out[b]);
                } else if b == p {
                    assert(n[a] == old_out[a]);
                } else if a == p {
                    assert(n[b] == old_out[b - 1]);
                    if b - 1 > p {
                        assert(str_le(old_out[p as int], old_out[b - 1]));
                        lemma_bytes_le_transitive(
                            x.spec_bytes(),
                            old_out[p as int].spec_bytes(),
                            old_out[b - 1].spec_bytes(),
                        );
                    }
                } else if a < p {
                    assert(n[a] == old_out[a] && n[b] == old_out[b - 1]);
                    assert(str_le(old_out[a], x));
                    if b - 1 == p {
                        lemma_bytes_le_transitive(
                            old_out[a].spec_bytes(),
                            x.spec_bytes(),
                            old_out[p as int].spec_bytes(),
                        );
                    } else {
                        assert(str_le(old_out[a], old_out[b - 1]));
                    }
                } else {
                    assert(n[a] == old_out[a - 1] && n[b] == old_out[b - 1]);
                }
            }
            vstd::seq_lib::to_multiset_insert(old_out, p as int, x);
            assert(input@.take(i + 1) =~= input@.take(i as int).push(x));
            vstd::seq_lib::to_multiset_build(input@.take(i as int), x);
        }
        i = i + 1;
    }
    proof {
        assert(input@.take(input@.len() as int) =~= input@);
    }
    out
}

} // verus!
