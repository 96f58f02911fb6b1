//! Parsing a request's query text into key-value pairs.
//!
//! The text is split on `&` into segments, up to the first empty
//! segment, which ends the parse and drops what follows. Each segment
//! contributes one pair: the bytes before its first `=` and the bytes
//! between its first and second `=` (anything after a second `=` in a
//! segment is dropped). A non-empty segment without `=` has no value
//! to give, and the whole parse is refused.

use vstd::prelude::*;

verus! {

/// The byte that separates pairs: `&`.
pub const PAIR_SEP: u8 = 38;

/// The byte that separates a key from its value: `=`.
pub const KEY_SEP: u8 = 61;

/// The position of the first occurrence of `b` at or after `i`, or
/// the length of `s` if there is none.
pub open spec fn find_from(s: Seq<u8>, i: int, b: u8) -> int
    decreases s.len() - i,
{
    if i < 0 || i >= s.len() {
        s.len() as int
    } else if s[i] == b {
        i
    } else {
        find_from(s, i + 1, b)
    }
}

proof fn lemma_find_from_range(s: Seq<u8>, i: int, b: u8)
    requires
        0 <= i <= s.len(),
    ensures
        i <= find_from(s, i, b) <= s.len(),
    decreases s.len() - i,
{
    if i < s.len() && s[i] != b {
        lemma_find_from_range(s, i + 1, b);
    }
}

/// Whether the parse starting at `i` can complete: every segment
/// before the stopping point carries a `=`.
pub open spec fn wf_query_from(s: Seq<u8>, i: int) -> bool
    decreases s.len() - i + 1,
    via wf_query_from_decreases
{
    if i < 0 || i >= s.len() {
        true
    } else {
        let j = find_from(s, i, PAIR_SEP);
        if j == i {
            true
        } else {
            find_from(s, i, KEY_SEP) < j && wf_query_from(s, j + 1)
        }
    }
}

#[via_fn]
proof fn wf_query_from_decreases(s: Seq<u8>, i: int) {
    if 0 <= i < s.len() {
        lemma_find_from_range(s, i, PAIR_SEP);
    }
}

/// The pairs parsed from the query text, starting at `i`.
pub open spec fn spec_parse_from(s: Seq<u8>, i: int) -> Seq<(Seq<u8>, Seq<u8>)>
    decreases s.len() - i + 1,
    via spec_parse_from_decreases
{
    if i < 0 || i >= s.len() {
        Seq::<(Seq<u8>, Seq<u8>)>::empty()
    } else {
        let j = find_from(s, i, PAIR_SEP);
        if j == i {
            Seq::<(Seq<u8>, Seq<u8>)>::empty()
        } else {
            let e = find_from(s, i, KEY_SEP);
            if e >= j {
                Seq::<(Seq<u8>, Seq<u8>)>::empty()
            } else {
                let e2 = find_from(s, e + 1, KEY_SEP);
                let vend = if e2 < j {
                    e2
                } else {
                    j
                };
                seq![(s.subrange(i, e), s.subrange(e + 1, vend))] + spec_parse_from(s, j + 1)
            }
        }
    }
}

#[via_fn]
proof fn spec_parse_from_decreases(s: Seq<u8>, i: int) {
    if 0 <= i < s.len() {
        lemma_find_from_range(s, i, PAIR_SEP);
    }
}

/// Whether the parsed pairs render the parse's mathematical result:
/// same pairs, in order, key and value alike.
pub open spec fn pairs_match(
    pairs: Seq<(Vec<u8>, Vec<u8>)>,
    parsed: Seq<(Seq<u8>, Seq<u8>)>,
) -> bool {
    &&& pairs.len() == parsed.len()
    &&& forall|k: int|
        0 <= k < pairs.len() ==> (#[trigger] pairs[k]).0@ == parsed[k].0 && pairs[k].1@
            == parsed[k].1
}

fn find_byte(q: &Vec<u8>, from: usize, b: u8) -> (r: usize)
    requires
        from <= q@.len(),
    ensures
        r == find_from(q@, from as int, b),
    decreases q@.len() - from,
{
    let mut i: usize = from;
    while i < q.len()
        invariant
            from <= i <= q@.len(),
            find_from(q@, from as int, b) == find_from(q@, i as int, b),
        decreases q@.len() - i,
    {
        if q[i] == b {
            return i;
        }
        i = i + 1;
    }
    i
}

fn copy_range(q: &Vec<u8>, from: usize, to: usize) -> (r: Vec<u8>)
    requires
        from <= to <= q@.len(),
    ensures
        r@ == q@.subrange(from as int, to as int),
{
    let mut r: Vec<u8> = Vec::new();
    let mut i: usize = from;
    while i < to
        invariant
            from <= i <= to <= q@.len(),
            r@ == q@.subrange(from as int, i as int),
        decreases to - i,
    {
        r.push(q[i]);
        proof {
            assert(q@.subrange(from as int, i + 1 as int) =~= q@.subrange(
                from as int,
                i as int,
            ).push(q@[i as int]));
        }
        i = i + 1;
    }
    r
}

/// Parses a query text into its key-value pairs. The parse succeeds
/// exactly on well-formed text, and then returns exactly the pairs the
/// parse describes; a non-empty segment without `=` refuses the whole
/// text.
pub fn parse_query(q: &Vec<u8>) -> (r: Option<Vec<(Vec<u8>, Vec<u8>)>>)
    ensures
        r is Some <==> wf_query_from(q@, 0),
        r matches Some(pairs) ==> pairs_match(pairs@, spec_parse_from(q@, 0)),
{
    parse_from(q, 0)
}

fn parse_from(q: &Vec<u8>, i: usize) -> (r: Option<Vec<(Vec<u8>, Vec<u8>)>>)
    requires
        i <= q@.len(),
    ensures
        r is Some <==> wf_query_from(q@, i as int),
        r matches Some(pairs) ==> pairs_match(pairs@, spec_parse_from(q@, i as int)),
    decreases q@.len() - i,
{
    if i >= q.len() {
        return Some(Vec::new());
    }
    let j = find_byte(q, i, PAIR_SEP);
    proof {
        lemma_find_from_range(q@, i as int, PAIR_SEP);
    }
    if j == i {
        return Some(Vec::new());
    }
    let e = find_byte(q, i, KEY_SEP);
    proof {
        lemma_find_from_range(q@, i as int, KEY_SEP);
    }
    if e >= j {
        return None;
    }
    let e2 = find_byte(q, e + 1, KEY_SEP);
    proof {
        lemma_find_from_range(q@, e + 1 as int, KEY_SEP);
    }
    let vend = if e2 < j {
        e2
    } else {
        j
    };
    let key = copy_range(q, i, e);
    let value = copy_range(q, e + 1, vend);
    let mut pairs = if j == q.len() {
        proof {
            assert(wf_query_from(q@, j + 1 as int));
            assert(spec_parse_from(q@, j + 1 as int) =~= Seq::<(Seq<u8>, Seq<u8>)>::empty());
        }
        Vec::new()
    } else {
        match parse_from(q, j + 1) {
            Some(rest) => rest,
            None => {
                return None;
            },
        }
    };
    let ghost tail = pairs@;
    pairs.insert(0, (key, value));
    proof {
        let parsed = spec_parse_from(q@, i as int);
        assert(pairs@ =~= seq![(key, value)] + tail);
        assert(parsed == seq![(q@.subrange(i as int, e as int), q@.subrange(
            e + 1 as int,
            vend as int,
        ))] + spec_parse_from(q@, j + 1 as int));
        assert forall|k: int| 0 <= k < pairs@.len() implies (#[trigger] pairs@[k]).0@
            == parsed[k].0 && pairs@[k].1@ == parsed[k].1 by {
            if k > 0 {
                assert(pairs@[k] == tail[k - 1]);
                assert(parsed[k] == spec_parse_from(q@, j + 1 as int)[k - 1]);
            }
        }
    }
    Some(pairs)
}

} // verus!
