//! Values that every part of the library shares.

use vstd::prelude::*;

verus! {

/// The largest page that a list query returns.
pub const MAX_QUERY_LIMIT: u32 = 100;

/// The page size of a list query that names none.
pub const DEFAULT_QUERY_LIMIT: u32 = 50;

/// The direction in which a list query walks its keys.
#[derive(Clone, Copy, Debug, PartialEq, Eq, Structural)]
pub enum OrderBy {
    Asc,
    Desc,
}

/// The block in which an operation runs: its height and its time in seconds.
#[derive(Clone, Copy, Debug, PartialEq, Eq, Structural)]
pub struct BlockInfo {
    pub height: u64,
    pub time: u64,
}

/// The page size that a list query uses for the limit it was given.
pub open spec fn spec_page_limit(limit: Option<u32>) -> nat {
    match limit {
        Some(l) => if l < MAX_QUERY_LIMIT { l as nat } else { MAX_QUERY_LIMIT as nat },
        None => DEFAULT_QUERY_LIMIT as nat,
    }
}

/// The page size for a requested limit: the default where none is given,
/// never more than the maximum.
pub fn page_limit(limit: Option<u32>) -> (r: usize)
    ensures
        r == spec_page_limit(limit),
        r <= MAX_QUERY_LIMIT,
{
    match limit {
        Some(l) => if l < MAX_QUERY_LIMIT { l as usize } else { MAX_QUERY_LIMIT as usize },
        None => DEFAULT_QUERY_LIMIT as usize,
    }
}

/// The direction of a list query that names none: downwards.
pub open spec fn spec_order(order_by: Option<OrderBy>) -> OrderBy {
    match order_by {
        Some(OrderBy::Asc) => OrderBy::Asc,
        _ => OrderBy::Desc,
    }
}

/// The direction of a list query.
pub fn order(order_by: Option<OrderBy>) -> (r: OrderBy)
    ensures
        r == spec_order(order_by),
{
    match order_by {
        Some(OrderBy::Asc) => OrderBy::Asc,
        _ => OrderBy::Desc,
    }
}

/// The first `limit` places from `from` upwards at which `mask` is set, in
/// rising order.
pub open spec fn spec_page_asc(mask: Seq<bool>, from: int, limit: nat) -> Seq<usize>
    decreases mask.len() - from,
{
    if from < 0 || from >= mask.len() || limit == 0 {
        Seq::empty()
    } else if mask[from] {
        seq![from as usize] + spec_page_asc(mask, from + 1, (limit - 1) as nat)
    } else {
        spec_page_asc(mask, from + 1, limit)
    }
}

/// The first `limit` places below `below`, downwards, at which `mask` is
/// set, in falling order.
pub open spec fn spec_page_desc(mask: Seq<bool>, below: int, limit: nat) -> Seq<usize>
    decreases below,
{
    if below <= 0 || below > mask.len() || limit == 0 {
        Seq::empty()
    } else if mask[below - 1] {
        seq![(below - 1) as usize] + spec_page_desc(mask, below - 1, (limit - 1) as nat)
    } else {
        spec_page_desc(mask, below - 1, limit)
    }
}

/// The page of a list query: the first `limit` places at which `mask` is
/// set, walking in the direction `order`.
pub open spec fn spec_page(mask: Seq<bool>, order: OrderBy, limit: nat) -> Seq<usize> {
    match order {
        OrderBy::Asc => spec_page_asc(mask, 0, limit),
        OrderBy::Desc => spec_page_desc(mask, mask.len() as int, limit),
    }
}

/// A rising page holds places at which the mask is set, in strictly rising
/// order from `from` on, `limit` at most; and it passes over no set place:
/// a set place from `from` on that is missing lies beyond a full page.
pub proof fn lemma_page_asc(mask: Seq<bool>, from: int, limit: nat)
    requires
        0 <= from,
        mask.len() <= usize::MAX,
    ensures
        spec_page_asc(mask, from, limit).len() <= limit,
        forall|k: int|
            0 <= k < spec_page_asc(mask, from, limit).len() ==> from <= (#[trigger] spec_page_asc(mask, from, limit)[k])
                < mask.len() && mask[spec_page_asc(mask, from, limit)[k] as int],
        forall|j: int, k: int|
            0 <= j < k < spec_page_asc(mask, from, limit).len() ==> (#[trigger] spec_page_asc(mask, from, limit)[j]) < (
            #[trigger] spec_page_asc(mask, from, limit)[k]),
        forall|i: int|
            from <= i < mask.len() && mask[i] && !spec_page_asc(mask, from, limit).contains(i as usize) ==> {
                &&& spec_page_asc(mask, from, limit).len() == limit
                &&& limit > 0 ==> spec_page_asc(mask, from, limit).last() < i
            },
    decreases mask.len() - from,
{
    let page = spec_page_asc(mask, from, limit);
    if from >= mask.len() || limit == 0 {
    } else if mask[from] {
        let rest = spec_page_asc(mask, from + 1, (limit - 1) as nat);
        lemma_page_asc(mask, from + 1, (limit - 1) as nat);
        assert(page[0] == from as usize);
        assert forall|k: int| 0 <= k < page.len() implies from <= (#[trigger] page[k]) < mask.len() && mask[page[k] as int] by {
            if k > 0 {
                assert(page[k] == rest[k - 1]);
            }
        }
        assert forall|j: int, k: int| 0 <= j < k < page.len() implies (#[trigger] page[j]) < (#[trigger] page[k]) by {
            assert(page[k] == rest[k - 1]);
            if j > 0 {
                assert(page[j] == rest[j - 1]);
            }
        }
        assert forall|i: int| from <= i < mask.len() && mask[i] && !page.contains(i as usize) implies page.len()
            == limit && (limit > 0 ==> page.last() < i) by {
            assert(i != from) by {
                if i == from {
                    assert(page[0] == i as usize);
                }
            }
            assert(!rest.contains(i as usize)) by {
                if rest.contains(i as usize) {
                    let k = choose|k: int| 0 <= k < rest.len() && rest[k] == i as usize;
                    assert(page[k + 1] == i as usize);
                }
            }
            if rest.len() > 0 {
                assert(page.last() == rest.last());
            }
        }
    } else {
        lemma_page_asc(mask, from + 1, limit);
    }
}

/// A falling page holds places at which the mask is set, in strictly
/// falling order below `below`, `limit` at most; and it passes over no set
/// place: a set place below `below` that is missing lies beyond a full page.
pub proof fn lemma_page_desc(mask: Seq<bool>, below: int, limit: nat)
    requires
        below <= mask.len(),
        mask.len() <= usize::MAX,
    ensures
        spec_page_desc(mask, below, limit).len() <= limit,
        forall|k: int|
            0 <= k < spec_page_desc(mask, below, limit).len() ==> 0 <= (#[trigger] spec_page_desc(mask, below, limit)[k])
                < below && mask[spec_page_desc(mask, below, limit)[k] as int],
        forall|j: int, k: int|
            0 <= j < k < spec_page_desc(mask, below, limit).len() ==> (#[trigger] spec_page_desc(mask, below, limit)[j]) > (
            #[trigger] spec_page_desc(mask, below, limit)[k]),
        forall|i: int|
            0 <= i < below && mask[i] && !spec_page_desc(mask, below, limit).contains(i as usize) ==> {
                &&& spec_page_desc(mask, below, limit).len() == limit
                &&& limit > 0 ==> spec_page_desc(mask, below, limit).last() > i
            },
    decreases below,
{
    let page = spec_page_desc(mask, below, limit);
    if below <= 0 || limit == 0 {
    } else if mask[below - 1] {
        let rest = spec_page_desc(mask, below - 1, (limit - 1) as nat);
        lemma_page_desc(mask, below - 1, (limit - 1) as nat);
        assert(page[0] == (below - 1) as usize);
        assert forall|k: int| 0 <= k < page.len() implies 0 <= (#[trigger] page[k]) < below && mask[page[k] as int] by {
            if k > 0 {
                assert(page[k] == rest[k - 1]);
            }
        }
        assert forall|j: int, k: int| 0 <= j < k < page.len() implies (#[trigger] page[j]) > (#[trigger] page[k]) by {
            assert(page[k] == rest[k - 1]);
            if j > 0 {
                assert(page[j] == rest[j - 1]);
            }
        }
        assert forall|i: int| 0 <= i < below && mask[i] && !page.contains(i as usize) implies page.len() == limit && (
        limit > 0 ==> page.last() > i) by {
            assert(i != below - 1) by {
                if i == below - 1 {
                    assert(page[0] == i as usize);
                }
            }
            assert(!rest.contains(i as usize)) by {
                if rest.contains(i as usize) {
                    let k = choose|k: int| 0 <= k < rest.len() && rest[k] == i as usize;
                    assert(page[k + 1] == i as usize);
                }
            }
            if rest.len() > 0 {
                assert(page.last() == rest.last());
            }
        }
    } else {
        lemma_page_desc(mask, below - 1, limit);
    }
}

/// Every place of a page is a place of the mask at which the mask is set.
pub proof fn lemma_page_within(mask: Seq<bool>, order: OrderBy, limit: nat)
    requires
        mask.len() <= usize::MAX,
    ensures
        forall|k: int|
            0 <= k < spec_page(mask, order, limit).len() ==> (#[trigger] spec_page(mask, order, limit)[k]) < mask.len()
                && mask[spec_page(mask, order, limit)[k] as int],
{
    lemma_page_asc(mask, 0, limit);
    lemma_page_desc(mask, mask.len() as int, limit);
}

/// The page of a list query over the places at which `mask` is set.
pub fn page(mask: &Vec<bool>, order: OrderBy, limit: usize) -> (r: Vec<usize>)
    ensures
        r@ == spec_page(mask@, order, limit as nat),
        forall|k: int| 0 <= k < r.len() ==> (#[trigger] r[k]) < mask.len() && mask[r[k] as int],
        r.len() <= limit,
{
    let mut out: Vec<usize> = Vec::new();
    match order {
        OrderBy::Asc => {
            let mut from: usize = 0;
            while from < mask.len() && out.len() < limit
                invariant
                    from <= mask.len(),
                    out.len() <= limit,
                    out@ + spec_page_asc(mask@, from as int, (limit - out.len()) as nat) == spec_page_asc(
                        mask@,
                        0,
                        limit as nat,
                    ),
                    forall|k: int| 0 <= k < out.len() ==> (#[trigger] out[k]) < mask.len() && mask[out[k] as int],
                decreases mask.len() - from,
            {
                if mask[from] {
                    proof {
                        let rest = spec_page_asc(mask@, from + 1, (limit - out.len() - 1) as nat);
                        assert(out@.push(from) + rest =~= out@ + (seq![from] + rest));
                    }
                    out.push(from);
                }
                from += 1;
            }
            proof {
                assert(spec_page_asc(mask@, from as int, (limit - out.len()) as nat) =~= Seq::<usize>::empty());
                assert(out@ + Seq::<usize>::empty() =~= out@);
            }
        },
        OrderBy::Desc => {
            let mut below: usize = mask.len();
            while below > 0 && out.len() < limit
                invariant
                    below <= mask.len(),
                    out.len() <= limit,
                    out@ + spec_page_desc(mask@, below as int, (limit - out.len()) as nat) == spec_page_desc(
                        mask@,
                        mask.len() as int,
                        limit as nat,
                    ),
                    forall|k: int| 0 <= k < out.len() ==> (#[trigger] out[k]) < mask.len() && mask[out[k] as int],
                decreases below,
            {
                if mask[below - 1] {
                    proof {
                        let rest = spec_page_desc(mask@, below - 1, (limit - out.len() - 1) as nat);
                        assert(out@.push((below - 1) as usize) + rest =~= out@ + (seq![(below - 1) as usize] + rest));
                    }
                    out.push(below - 1);
                }
                below -= 1;
            }
            proof {
                assert(spec_page_desc(mask@, below as int, (limit - out.len()) as nat) =~= Seq::<usize>::empty());
                assert(out@ + Seq::<usize>::empty() =~= out@);
            }
        },
    }
    out
}

/// The order of keys in the store: byte by byte, and a key before every key
/// that it starts.
pub open spec fn key_lt(a: Seq<u8>, b: Seq<u8>) -> bool
    decreases a.len(),
{
    if b.len() == 0 {
        false
    } else if a.len() == 0 {
        true
    } else if a[0] != b[0] {
        a[0] < b[0]
    } else {
        key_lt(a.skip(1), b.skip(1))
    }
}

/// Of two keys one stands before the other, or they are the same key; and
/// never both stand before each other.
pub proof fn lemma_key_lt_total(a: Seq<u8>, b: Seq<u8>)
    ensures
        key_lt(a, b) || key_lt(b, a) || a == b,
        !(key_lt(a, b) && key_lt(b, a)),
        a == b ==> !key_lt(a, b),
    decreases a.len(),
{
    if a.len() == 0 || b.len() == 0 {
        if a.len() == 0 && b.len() == 0 {
            assert(a =~= b);
        }
    } else if a[0] == b[0] {
        lemma_key_lt_total(a.skip(1), b.skip(1));
        if a.skip(1) == b.skip(1) {
            assert forall|i: int| 0 <= i < a.len() implies a[i] == b[i] by {
                if i > 0 {
                    assert(a.skip(1)[i - 1] == a[i]);
                    assert(b.skip(1)[i - 1] == b[i]);
                }
            }
            assert(a.len() == a.skip(1).len() + 1);
            assert(b.len() == b.skip(1).len() + 1);
            assert(a =~= b);
        }
        if a == b {
            assert(a.skip(1) == b.skip(1));
        }
    }
}

/// A key that stands before a second, which stands before a third, stands
/// before the third.
pub proof fn lemma_key_lt_transitive(a: Seq<u8>, b: Seq<u8>, c: Seq<u8>)
    requires
        key_lt(a, b),
        key_lt(b, c),
    ensures
        key_lt(a, c),
    decreases a.len(),
{
    if a.len() > 0 && a[0] == b[0] && b[0] == c[0] {
        lemma_key_lt_transitive(a.skip(1), b.skip(1), c.skip(1));
    }
}

/// Whether the key `a` stands before the key `b`.
pub fn key_less(a: &[u8], b: &[u8]) -> (r: bool)
    ensures
        r == key_lt(a@, b@),
{
    let mut i: usize = 0;
    proof {
        assert(a@.skip(0) =~= a@);
        assert(b@.skip(0) =~= b@);
    }
    while i < a.len() && i < b.len()
        invariant
            i <= a.len(),
            i <= b.len(),
            key_lt(a@, b@) == key_lt(a@.skip(i as int), b@.skip(i as int)),
        decreases a.len() - i,
    {
        proof {
            assert(a@.skip(i as int)[0] == a@[i as int]);
            assert(b@.skip(i as int)[0] == b@[i as int]);
            assert(a@.skip(i as int).skip(1) =~= a@.skip(i + 1));
            assert(b@.skip(i as int).skip(1) =~= b@.skip(i + 1));
        }
        if a[i] != b[i] {
            return a[i] < b[i];
        }
        i += 1;
    }
    proof {
        assert(a@.skip(i as int).len() == a@.len() - i);
        assert(b@.skip(i as int).len() == b@.len() - i);
    }
    i < b.len()
}

/// Whether a key lies behind the cursor `start_after` of a list query that
/// walks in the direction `order`: above it when walking up, below it when
/// walking down. Without a cursor every key does.
pub open spec fn spec_after_cursor(key: u64, start_after: Option<u64>, order: OrderBy) -> bool {
    match start_after {
        None => true,
        Some(cursor) => match order {
            OrderBy::Asc => key > cursor,
            OrderBy::Desc => key < cursor,
        },
    }
}

/// Whether a key lies behind the cursor of a list query.
pub fn after_cursor(key: u64, start_after: Option<u64>, order: OrderBy) -> (r: bool)
    ensures
        r == spec_after_cursor(key, start_after, order),
{
    match start_after {
        None => true,
        Some(cursor) => match order {
            OrderBy::Asc => key > cursor,
            OrderBy::Desc => key < cursor,
        },
    }
}

/// The value of an attribute.
#[derive(Clone, Debug, PartialEq)]
pub enum AttributeValue {
    Text(String),
    Number(u128),
}

/// A pair of a key and a value that describes what a command did.
#[derive(Clone, Debug, PartialEq)]
pub struct Attribute {
    pub key: String,
    pub value: AttributeValue,
}

/// Whether the attribute has the key and, as its value, the text.
pub open spec fn is_text(attribute: Attribute, key: Seq<char>, value: Seq<char>) -> bool {
    &&& attribute.key@ == key
    &&& attribute.value is Text
    &&& attribute.value->Text_0@ == value
}

/// Whether the attribute has the key and, as its value, the number.
pub open spec fn is_number(attribute: Attribute, key: Seq<char>, value: u128) -> bool {
    &&& attribute.key@ == key
    &&& attribute.value == AttributeValue::Number(value)
}

/// An attribute with a text value.
pub fn attr(key: &str, value: &str) -> (r: Attribute)
    ensures
        is_text(r, key@, value@),
{
    Attribute { key: key.to_string(), value: AttributeValue::Text(value.to_string()) }
}

/// An attribute with a number as its value.
pub fn attr_number(key: &str, value: u128) -> (r: Attribute)
    ensures
        is_number(r, key@, value),
{
    Attribute { key: key.to_string(), value: AttributeValue::Number(value) }
}

} // verus!
