use vstd::prelude::*;

verus! {

/// Lexicographic order on byte strings: `a` sorts strictly before `b`.
/// On UTF-8 text this is the order of `str`'s `Ord`.
pub open spec fn bytes_lt(a: Seq<u8>, b: Seq<u8>) -> bool {
    exists|k: int|
        #![trigger a.take(k)]
        0 <= k <= a.len() && k <= b.len() && a.take(k) == b.take(k) && ((k < a.len() && k
            < b.len() && a[k] < b[k]) || (k == a.len() && k < b.len()))
}

/// The byte order is transitive.
pub proof fn lemma_bytes_lt_transitive(a: Seq<u8>, b: Seq<u8>, c: Seq<u8>)
    requires
        bytes_lt(a, b),
        bytes_lt(b, c),
    ensures
        bytes_lt(a, c),
{
    let k1 = choose|k: int|
        #![trigger a.take(k)]
        0 <= k <= a.len() && k <= b.len() && a.take(k) == b.take(k) && ((k < a.len() && k
            < b.len() && a[k] < b[k]) || (k == a.len() && k < b.len()));
    let k2 = choose|k: int|
        #![trigger b.take(k)]
        0 <= k <= b.len() && k <= c.len() && b.take(k) == c.take(k) && ((k < b.len() && k
            < c.len() && b[k] < c[k]) || (k == b.len() && k < c.len()));
    let m = if k1 < k2 {
        k1
    } else {
        k2
    };
    assert forall|i: int| 0 <= i < m implies a[i] == c[i] by {
        assert(a.take(k1)[i] == b.take(k1)[i]);
        assert(b.take(k2)[i] == c.take(k2)[i]);
    }
    assert(a.take(m) =~= c.take(m));
    if k1 < k2 {
        assert(b.take(k2)[k1] == c.take(k2)[k1]);
    } else if k2 < k1 {
        assert(a.take(k1)[k2] == b.take(k1)[k2]);
    }
    assert(0 <= m <= a.len() && m <= c.len() && a.take(m) == c.take(m) && ((m < a.len() && m
        < c.len() && a[m] < c[m]) || (m == a.len() && m < c.len())));
}

/// Text order on strings: the order of their UTF-8 encodings.
pub open spec fn str_lt(a: Seq<char>, b: Seq<char>) -> bool {
    bytes_lt(vstd::utf8::encode_utf8(a), vstd::utf8::encode_utf8(b))
}

/// No string sorts before itself.
pub proof fn lemma_str_lt_irreflexive(a: Seq<char>)
    ensures
        !str_lt(a, a),
{
}

/// The text order is transitive.
pub proof fn lemma_str_lt_transitive(a: Seq<char>, b: Seq<char>, c: Seq<char>)
    requires
        str_lt(a, b),
        str_lt(b, c),
    ensures
        str_lt(a, c),
{
    lemma_bytes_lt_transitive(
        vstd::utf8::encode_utf8(a),
        vstd::utf8::encode_utf8(b),
        vstd::utf8::encode_utf8(c),
    );
}

/// Whether `a` sorts strictly before `b`, byte by byte.
pub fn less_than(a: &String, b: &String) -> (r: bool)
    ensures
        r == str_lt(a@, b@),
{
    let x = a.as_str().as_bytes();
    let y = b.as_str().as_bytes();
    let ghost sa = x@;
    let ghost sb = y@;
    let mut i: usize = 0;
    while i < x.len() && i < y.len() && x[i] == y[i]
        invariant
            x@ == sa,
            y@ == sb,
            0 <= i <= sa.len(),
            i <= sb.len(),
            forall|j: int| 0 <= j < i ==> sa[j] == sb[j],
        decreases x.len() - i,
    {
        i = i + 1;
    }
    assert(sa.take(i as int) =~= sb.take(i as int));
    if i < x.len() && i < y.len() {
        if x[i] < y[i] {
            true
        } else {
            proof {
                assert forall|k: int|
                    #![trigger sa.take(k)]
                    0 <= k <= sa.len() && k <= sb.len() && sa.take(k) == sb.take(k) implies !((k
                        < sa.len() && k < sb.len() && sa[k] < sb[k]) || (k == sa.len() && k
                        < sb.len())) by {
                    if k > i {
                        assert(sa.take(k)[i as int] == sb.take(k)[i as int]);
                    }
                }
            }
            false
        }
    } else if i == x.len() && i < y.len() {
        true
    } else {
        proof {
            assert forall|k: int|
                #![trigger sa.take(k)]
                0 <= k <= sa.len() && k <= sb.len() && sa.take(k) == sb.take(k) implies !((k
                    < sa.len() && k < sb.len() && sa[k] < sb[k]) || (k == sa.len() && k
                    < sb.len())) by {
                if k < i {
                    assert(sa[k] == sb[k]);
                }
            }
        }
        false
    }
}

} // verus!
