//! Query-string parameter lookup: a query is a `&`-separated list of
//! `key=value` pairs, and a parameter counts as present only when its key
//! appears exactly once and both key and value decode cleanly.
use vstd::prelude::*;

use crate::encoding::{dec, decode_range};

verus! {

/// Index of the first occurrence of a character, or -1 when it is absent.
pub open spec fn find_char(s: Seq<char>, c: char) -> int
    decreases s.len(),
{
    if s.len() == 0 {
        -1
    } else if s[0] == c {
        0
    } else if find_char(s.drop_first(), c) < 0 {
        -1
    } else {
        find_char(s.drop_first(), c) + 1
    }
}

pub proof fn lemma_find_char(s: Seq<char>, c: char)
    ensures
        find_char(s, c) >= 0 ==> find_char(s, c) < s.len() && s[find_char(s, c)] == c && (forall|
            j: int,
        |
            0 <= j < find_char(s, c) ==> s[j] != c),
        find_char(s, c) < 0 ==> (forall|j: int| 0 <= j < s.len() ==> s[j] != c),
    decreases s.len(),
{
    if s.len() == 0 {
    } else if s[0] == c {
    } else {
        let t = s.drop_first();
        lemma_find_char(t, c);
        if find_char(t, c) >= 0 {
            let k = find_char(t, c);
            assert(s[k + 1] == t[k]);
            assert forall|j: int| 0 <= j < k + 1 implies s[j] != c by {
                if j > 0 {
                    assert(t[j - 1] == s[j]);
                }
            }
        } else {
            assert forall|j: int| 0 <= j < s.len() implies s[j] != c by {
                if j > 0 {
                    assert(t[j - 1] == s[j]);
                }
            }
        }
    }
}

pub proof fn lemma_find_char_unique(s: Seq<char>, c: char, k: int)
    requires
        0 <= k < s.len(),
        s[k] == c,
        forall|j: int| 0 <= j < k ==> s[j] != c,
    ensures
        find_char(s, c) == k,
    decreases s.len(),
{
    if k == 0 {
    } else {
        let t = s.drop_first();
        assert(s[0] != c);
        assert(t[k - 1] == s[k]);
        assert forall|j: int| 0 <= j < k - 1 implies t[j] != c by {
            assert(t[j] == s[j + 1]);
        }
        lemma_find_char_unique(t, c, k - 1);
    }
}

/// The first `&`-separated segment of a query.
pub open spec fn seg_of(q: Seq<char>) -> Seq<char> {
    if find_char(q, '&') < 0 {
        q
    } else {
        q.take(find_char(q, '&'))
    }
}

/// Whether segments follow the first one.
pub open spec fn has_rest(q: Seq<char>) -> bool {
    find_char(q, '&') >= 0
}

/// The query after its first segment and separator.
pub open spec fn rest_of(q: Seq<char>) -> Seq<char>
    recommends
        has_rest(q),
{
    q.skip(find_char(q, '&') + 1)
}

/// The decoded key of one segment: everything before the first `=`.
pub open spec fn key_of_seg(p: Seq<char>) -> Option<Seq<char>> {
    if find_char(p, '=') < 0 {
        dec(p)
    } else {
        dec(p.take(find_char(p, '=')))
    }
}

/// The still-encoded value of one segment: everything after the first `=`,
/// empty when the segment has no `=`.
pub open spec fn rawval_of_seg(p: Seq<char>) -> Seq<char> {
    if find_char(p, '=') < 0 {
        Seq::empty()
    } else {
        p.skip(find_char(p, '=') + 1)
    }
}

/// How many segments of the query carry the given decoded key.
pub open spec fn count_key(q: Seq<char>, k: Seq<char>) -> nat
    decreases q.len(),
    via count_key_dec
{
    let here: nat = if key_of_seg(seg_of(q)) == Some(k) {
        1nat
    } else {
        0nat
    };
    if !has_rest(q) {
        here
    } else {
        here + count_key(rest_of(q), k)
    }
}

#[via_fn]
proof fn count_key_dec(q: Seq<char>, k: Seq<char>) {
    lemma_find_char(q, '&');
}

/// The raw value of the first segment carrying the given key.
pub open spec fn first_rawval(q: Seq<char>, k: Seq<char>) -> Seq<char>
    decreases q.len(),
    via first_rawval_dec
{
    if key_of_seg(seg_of(q)) == Some(k) {
        rawval_of_seg(seg_of(q))
    } else if !has_rest(q) {
        Seq::empty()
    } else {
        first_rawval(rest_of(q), k)
    }
}

#[via_fn]
proof fn first_rawval_dec(q: Seq<char>, k: Seq<char>) {
    lemma_find_char(q, '&');
}

/// The decoded value of a query parameter: present only when its key appears
/// exactly once and the value decodes; `None` where the key is absent,
/// repeated, or its value malformed.
pub open spec fn param_of(q: Seq<char>, k: Seq<char>) -> Option<Seq<char>> {
    if count_key(q, k) == 1 {
        dec(first_rawval(q, k))
    } else {
        None
    }
}

/// First occurrence of a character within `[lo, hi)` of a buffer.
pub fn find_in_range(s: &Vec<char>, lo: usize, hi: usize, c: char) -> (r: Option<usize>)
    requires
        lo <= hi <= s@.len(),
    ensures
        match r {
            Some(k) => lo <= k < hi && s@[k as int] == c && (forall|j: int|
                lo <= j < k ==> s@[j] != c),
            None => forall|j: int| lo <= j < hi ==> s@[j] != c,
        },
{
    let mut i: usize = lo;
    while i < hi
        invariant
            lo <= i <= hi <= s@.len(),
            forall|j: int| lo <= j < i ==> s@[j] != c,
        decreases hi - i,
    {
        if s[i] == c {
            return Some(i);
        }
        i = i + 1;
    }
    None
}

pub fn chars_eq(a: &Vec<char>, b: &Vec<char>) -> (r: bool)
    ensures
        r == (a@ == b@),
{
    if a.len() != b.len() {
        return false;
    }
    let mut i: usize = 0;
    while i < a.len()
        invariant
            i <= a@.len(),
            a@.len() == b@.len(),
            forall|j: int| 0 <= j < i ==> a@[j] == b@[j],
        decreases a@.len() - i,
    {
        if a[i] != b[i] {
            return false;
        }
        i = i + 1;
    }
    proof {
        assert(a@ =~= b@);
    }
    true
}

/// Where, and how often, a key occurs from a position to the end of a query.
enum KeyHits {
    Absent,
    Once(usize, usize),
    Repeated,
}

/// Scans the `&`-separated segments of `s[pos..]` for the given decoded key.
fn scan_key(s: &Vec<char>, pos: usize, key: &Vec<char>) -> (f: KeyHits)
    requires
        pos <= s@.len(),
    ensures
        match f {
            KeyHits::Absent => count_key(s@.subrange(pos as int, s@.len() as int), key@) == 0,
            KeyHits::Once(lo, hi) => {
                &&& count_key(s@.subrange(pos as int, s@.len() as int), key@) == 1
                &&& lo <= hi <= s@.len()
                &&& first_rawval(s@.subrange(pos as int, s@.len() as int), key@) == s@.subrange(
                    lo as int,
                    hi as int,
                )
            },
            KeyHits::Repeated => count_key(s@.subrange(pos as int, s@.len() as int), key@) >= 2,
        },
    decreases s@.len() - pos,
{
    let ghost rem = s@.subrange(pos as int, s@.len() as int);
    let len = s.len();
    let amp = find_in_range(s, pos, len, '&');
    let seg_end: usize = match amp {
        Some(a) => a,
        None => len,
    };
    proof {
        match amp {
            Some(a) => {
                assert(rem[a - pos] == s@[a as int]);
                assert forall|j: int| 0 <= j < a - pos implies rem[j] != '&' by {
                    assert(rem[j] == s@[pos + j]);
                }
                lemma_find_char_unique(rem, '&', a - pos);
            },
            None => {
                lemma_find_char(rem, '&');
                if find_char(rem, '&') >= 0 {
                    let k = find_char(rem, '&');
                    assert(rem[k] == s@[pos + k]);
                }
            },
        }
        assert(seg_of(rem) =~= s@.subrange(pos as int, seg_end as int));
    }
    let ghost seg = seg_of(rem);
    let eq = find_in_range(s, pos, seg_end, '=');
    let key_end: usize = match eq {
        Some(e) => e,
        None => seg_end,
    };
    proof {
        match eq {
            Some(e) => {
                assert(seg[e - pos] == s@[e as int]);
                assert forall|j: int| 0 <= j < e - pos implies seg[j] != '=' by {
                    assert(seg[j] == s@[pos + j]);
                }
                lemma_find_char_unique(seg, '=', e - pos);
            },
            None => {
                lemma_find_char(seg, '=');
                if find_char(seg, '=') >= 0 {
                    let k = find_char(seg, '=');
                    assert(seg[k] == s@[pos + k]);
                }
            },
        }
    }
    let kd = decode_range(s, pos, key_end);
    let here = match kd {
        Some(kv) => chars_eq(&kv, key),
        None => false,
    };
    proof {
        match eq {
            Some(e) => {
                assert(seg.take(find_char(seg, '=')) =~= s@.subrange(pos as int, key_end as int));
            },
            None => {
                assert(seg =~= s@.subrange(pos as int, key_end as int));
            },
        }
        assert(here == (key_of_seg(seg) == Some(key@)));
    }
    let val_lo: usize = match eq {
        Some(e) => e + 1,
        None => seg_end,
    };
    proof {
        match eq {
            Some(e) => {
                assert(seg.skip(find_char(seg, '=') + 1) =~= s@.subrange(
                    val_lo as int,
                    seg_end as int,
                ));
            },
            None => {
                assert(rawval_of_seg(seg) =~= s@.subrange(val_lo as int, seg_end as int));
            },
        }
        assert(rawval_of_seg(seg) == s@.subrange(val_lo as int, seg_end as int));
    }
    match amp {
        None => {
            proof {
                assert(!has_rest(rem));
            }
            if here {
                KeyHits::Once(val_lo, seg_end)
            } else {
                KeyHits::Absent
            }
        },
        Some(a) => {
            proof {
                assert(rest_of(rem) =~= s@.subrange(a as int + 1, s@.len() as int));
            }
            let sub = scan_key(s, a + 1, key);
            if here {
                match sub {
                    KeyHits::Absent => KeyHits::Once(val_lo, seg_end),
                    _ => KeyHits::Repeated,
                }
            } else {
                sub
            }
        },
    }
}

/// Extracts a query parameter's decoded value, exactly as `param_of`
/// describes: `None` where the key is absent, repeated, or malformed.
pub fn extract_param(s: &Vec<char>, key: &Vec<char>) -> (r: Option<Vec<char>>)
    ensures
        match r {
            Some(v) => param_of(s@, key@) == Some(v@),
            None => param_of(s@, key@) is None,
        },
{
    proof {
        assert(s@.subrange(0, s@.len() as int) =~= s@);
    }
    match scan_key(s, 0, key) {
        KeyHits::Once(lo, hi) => decode_range(s, lo, hi),
        _ => None,
    }
}

} // verus!
