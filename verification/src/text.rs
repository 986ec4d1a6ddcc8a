//! Comparison and order of texts.
use vstd::prelude::*;
use vstd::utf8::*;

verus! {

/// Whether two texts hold the same characters.
pub fn same_text(a: &str, b: &str) -> (r: bool)
    ensures
        r == (a@ == b@),
{
    let x: String = a.to_owned();
    let y: String = b.to_owned();
    x == y
}

/// Whether `a` is earlier than `b` because of position `n`: up to there they
/// agree, and there `a` ends or has the smaller byte.
pub open spec fn earlier_at(a: Seq<u8>, b: Seq<u8>, n: int) -> bool {
    &&& 0 <= n <= a.len()
    &&& n < b.len()
    &&& a.take(n) =~= b.take(n)
    &&& n < a.len() ==> a[n] < b[n]
}

/// The order of a dictionary on sequences of bytes.
pub open spec fn bytes_earlier(a: Seq<u8>, b: Seq<u8>) -> bool {
    exists|n: int| earlier_at(a, b, n)
}

/// The order of a dictionary on texts, by their bytes.
pub open spec fn earlier(a: Seq<char>, b: Seq<char>) -> bool {
    bytes_earlier(encode_utf8(a), encode_utf8(b))
}

/// Whether one text is earlier than another.
pub fn text_earlier(a: &str, b: &str) -> (r: bool)
    ensures
        r == earlier(a@, b@),
{
    let x: &[u8] = a.as_bytes();
    let y: &[u8] = b.as_bytes();
    let mut i: usize = 0;
    while i < x.len() && i < y.len() && x[i] == y[i]
        invariant
            i <= x@.len(),
            i <= y@.len(),
            forall|k: int| 0 <= k < i ==> x@[k] == y@[k],
        decreases x@.len() - i,
    {
        i += 1;
    }
    let r: bool = i < y.len() && (i == x.len() || x[i] < y[i]);
    proof {
        assert(x@.take(i as int) =~= y@.take(i as int));
        if r {
            assert(earlier_at(x@, y@, i as int));
        } else {
            assert forall|n: int| !earlier_at(x@, y@, n) by {
                if earlier_at(x@, y@, n) {
                    if n < i {
                        assert(x@[n] == y@[n]);
                    } else if n > i {
                        assert(x@.take(n)[i as int] == y@.take(n)[i as int]);
                    }
                }
            }
        }
    }
    r
}

/// No text is earlier than itself.
pub proof fn order_is_strict(a: Seq<char>)
    ensures
        !earlier(a, a),
{
}

/// The order is transitive.
pub proof fn order_is_transitive(a: Seq<char>, b: Seq<char>, c: Seq<char>)
    requires
        earlier(a, b),
        earlier(b, c),
    ensures
        earlier(a, c),
{
    let x = encode_utf8(a);
    let y = encode_utf8(b);
    let z = encode_utf8(c);
    let n = choose|n: int| earlier_at(x, y, n);
    let m = choose|m: int| earlier_at(y, z, m);
    let k = if n < m {
        n
    } else {
        m
    };
    assert forall|i: int| 0 <= i < k implies x[i] == z[i] by {
        assert(x.take(n)[i] == y.take(n)[i]);
        assert(y.take(m)[i] == z.take(m)[i]);
    }
    assert(x.take(k) =~= z.take(k));
    if n < m {
        assert(y.take(m)[n] == z.take(m)[n]);
    } else if m < n {
        assert(x.take(n)[m] == y.take(n)[m]);
    }
    assert(earlier_at(x, z, k));
}

/// Of two different texts one is earlier.
pub proof fn order_is_total(a: Seq<char>, b: Seq<char>)
    ensures
        a == b || earlier(a, b) || earlier(b, a),
{
    let x = encode_utf8(a);
    let y = encode_utf8(b);
    if x == y {
        encode_utf8_decode_utf8(a);
        encode_utf8_decode_utf8(b);
    } else {
        lemma_bytes_total(x, y, 0);
    }
}

proof fn lemma_bytes_total(x: Seq<u8>, y: Seq<u8>, n: int)
    requires
        x != y,
        0 <= n <= x.len(),
        n <= y.len(),
        x.take(n) =~= y.take(n),
    ensures
        bytes_earlier(x, y) || bytes_earlier(y, x),
    decreases x.len() - n,
{
    if n == x.len() {
        if n < y.len() {
            assert(earlier_at(x, y, n));
        } else {
            assert(x.take(n) =~= x && y.take(n) =~= y);
        }
    } else if n == y.len() {
        assert(earlier_at(y, x, n));
    } else if x[n] != y[n] {
        if x[n] < y[n] {
            assert(earlier_at(x, y, n));
        } else {
            assert(earlier_at(y, x, n));
        }
    } else {
        assert forall|i: int| 0 <= i < n + 1 implies x[i] == y[i] by {
            if i < n {
                assert(x.take(n)[i] == y.take(n)[i]);
            }
        }
        assert(x.take(n + 1) =~= y.take(n + 1));
        lemma_bytes_total(x, y, n + 1);
    }
}

} // verus!
