//! Text and byte helpers: decimal numbers, bounded logs, JSON arrays and
//! frame markers.
use vstd::prelude::*;
use vstd::string::StringExecFns;

verus! {

/// The character of a decimal digit.
pub open spec fn digit_char(d: nat) -> char {
    seq!['0', '1', '2', '3', '4', '5', '6', '7', '8', '9'][d as int]
}

/// The decimal writing of `n`, without sign or leading zeros.
pub open spec fn decimal(n: nat) -> Seq<char>
    decreases n,
{
    if n < 10 {
        seq![digit_char(n)]
    } else {
        decimal(n / 10).push(digit_char(n % 10))
    }
}

/// Relies on the standard library's `Display` of `u64` (through `to_string`),
/// which writes the number in decimal.
#[verifier::external_body]
pub(crate) fn decimal_text(n: u64) -> (r: String)
    ensures
        r@ == decimal(n as nat),
{
    n.to_string()
}

/// `s` with `suffix` written after it.
pub fn joined(s: &str, suffix: &str) -> (r: String)
    ensures
        r@ == s@ + suffix@,
{
    let mut r = s.to_owned();
    r.append(suffix);
    r
}

/// Keeps the first `n` items of `v`.
pub fn keep_first<T>(v: &mut Vec<T>, n: usize)
    ensures
        final(v)@ == if old(v)@.len() <= n {
            old(v)@
        } else {
            old(v)@.subrange(0, n as int)
        },
{
    v.truncate(n);
}

/// The last `n` items of `s`, or all of them when there are fewer.
pub open spec fn last_items<T>(s: Seq<T>, n: nat) -> Seq<T> {
    if s.len() <= n {
        s
    } else {
        s.subrange(s.len() - n, s.len() as int)
    }
}

/// Keeps the last `n` items of `v`, in their order.
pub fn keep_last<T>(v: &mut Vec<T>, n: usize)
    ensures
        final(v)@ == last_items(old(v)@, n as nat),
{
    let len = v.len();
    if len > n {
        let tail = v.split_off(len - n);
        *v = tail;
    }
}

/// The items joined by commas.
pub open spec fn comma_joined(items: Seq<Seq<char>>) -> Seq<char>
    decreases items.len(),
{
    if items.len() == 0 {
        Seq::empty()
    } else if items.len() == 1 {
        items[0]
    } else {
        comma_joined(items.drop_last()) + seq![','] + items.last()
    }
}

/// The JSON array whose elements are the given JSON texts.
pub open spec fn json_array_of(items: Seq<Seq<char>>) -> Seq<char> {
    seq!['['] + comma_joined(items) + seq![']']
}

/// Writes the JSON texts as one JSON array: `[a,b,c]`, or `[]`.
pub fn json_array(items: &Vec<String>) -> (r: String)
    ensures
        r@ == json_array_of(items@.map_values(|s: String| s@)),
{
    let ghost views = items@.map_values(|s: String| s@);
    let mut body = String::new();
    let mut i: usize = 0;
    while i < items.len()
        invariant
            i <= items.len(),
            views == items@.map_values(|s: String| s@),
            body@ == comma_joined(views.subrange(0, i as int)),
        decreases items.len() - i,
    {
        let ghost prev = body@;
        if i > 0 {
            body.append(",");
        }
        body.append(items[i].as_str());
        proof {
            reveal_strlit(",");
            assert(views[i as int] == items@[i as int]@);
            let next = views.subrange(0, i + 1);
            assert(next.drop_last() =~= views.subrange(0, i as int));
            assert(next.last() == items@[i as int]@);
            if i == 0 {
                assert(next.len() == 1);
                assert(body@ =~= next[0]);
            } else {
                assert(body@ =~= prev + seq![','] + items@[i as int]@);
            }
        }
        i = i + 1;
    }
    assert(views.subrange(0, items.len() as int) =~= views);
    let mut r = String::new();
    r.append("[");
    r.append(body.as_str());
    r.append("]");
    proof {
        reveal_strlit("[");
        reveal_strlit("]");
    }
    r
}

/// Whether `marker` occurs in `b` at position `i`.
pub open spec fn occurs_at(b: Seq<u8>, marker: Seq<u8>, i: int) -> bool {
    0 <= i && i + marker.len() <= b.len() && b.subrange(i, i + marker.len()) == marker
}

/// The position of the last occurrence of `marker` in `buf`, if any.
pub fn last_marker(buf: &Vec<u8>, marker: &Vec<u8>) -> (r: Option<usize>)
    requires
        marker@.len() > 0,
    ensures
        r matches Some(p) ==> occurs_at(buf@, marker@, p as int)
            && forall|q: int| p < q ==> !occurs_at(buf@, marker@, q),
        r is None ==> forall|q: int| !occurs_at(buf@, marker@, q),
{
    let m = marker.len();
    if buf.len() < m {
        return None;
    }
    let mut i: usize = buf.len() - m + 1;
    while i > 0
        invariant
            i <= buf.len() - m + 1,
            m == marker@.len(),
            m <= buf.len(),
            forall|q: int| i <= q ==> !occurs_at(buf@, marker@, q),
        decreases i,
    {
        let p = i - 1;
        let mut j: usize = 0;
        let mut same = true;
        while j < m
            invariant
                j <= m,
                p + m <= buf.len(),
                m == marker@.len(),
                same == (forall|k: int| 0 <= k < j ==> buf@[p + k] == marker@[k]),
            decreases m - j,
        {
            if buf[p + j] != marker[j] {
                same = false;
            }
            j = j + 1;
        }
        if same {
            assert(buf@.subrange(p as int, p + m) =~= marker@);
            return Some(p);
        }
        assert(!occurs_at(buf@, marker@, p as int)) by {
            if occurs_at(buf@, marker@, p as int) {
                assert forall|k: int| 0 <= k < m implies buf@[p + k] == marker@[k] by {
                    assert(buf@.subrange(p as int, p + m)[k] == buf@[p + k]);
                }
            }
        }
        i = p;
    }
    None
}

/// Cuts `buf` at the last occurrence of `marker`; leaves it whole when the
/// marker does not occur.
pub fn strip_trailing_marker(buf: &mut Vec<u8>, marker: &Vec<u8>)
    requires
        marker@.len() > 0,
    ensures
        match last_marker_spec(old(buf)@, marker@) {
            Some(p) => final(buf)@ == old(buf)@.subrange(0, p),
            None => final(buf)@ == old(buf)@,
        },
{
    match last_marker(buf, marker) {
        Some(p) => {
            proof { lemma_last_marker_unique(buf@, marker@, p as int); }
            buf.truncate(p);
        },
        None => {},
    }
}

/// The last position at which `marker` occurs in `b`.
pub open spec fn last_marker_spec(b: Seq<u8>, marker: Seq<u8>) -> Option<int> {
    if exists|p: int| occurs_at(b, marker, p) {
        Some(choose|p: int| occurs_at(b, marker, p) && forall|q: int| p < q ==> !occurs_at(b, marker, q))
    } else {
        None
    }
}

proof fn lemma_last_marker_unique(b: Seq<u8>, marker: Seq<u8>, p: int)
    requires
        occurs_at(b, marker, p),
        forall|q: int| p < q ==> !occurs_at(b, marker, q),
    ensures
        last_marker_spec(b, marker) == Some(p),
{
    let c = choose|x: int| occurs_at(b, marker, x) && forall|q: int| x < q ==> !occurs_at(b, marker, q);
    assert(occurs_at(b, marker, c) && forall|q: int| c < q ==> !occurs_at(b, marker, q));
    if c < p {
        assert(!occurs_at(b, marker, p));
    } else if p < c {
        assert(!occurs_at(b, marker, c));
    }
}

} // verus!
