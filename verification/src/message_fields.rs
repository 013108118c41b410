//! How a message's fields get their tags and their encoding order, and the
//! check that no tag is used twice in a message or a oneof.
use vstd::prelude::*;

use crate::debug::{fmt_decimal, spec_decimal};
use crate::text::concat_str;

verus! {

/// The largest of some tags, zero for none.
pub open spec fn seq_max(s: Seq<u32>) -> nat
    decreases s.len(),
{
    if s.len() == 0 {
        0
    } else {
        let m = seq_max(s.drop_last());
        if s.last() > m {
            s.last() as nat
        } else {
            m
        }
    }
}

/// Counting on from each field's largest tag stays within `u32`: no field
/// ends with the tag `u32::MAX`, past which the next tag would not fit.
pub open spec fn counting_fits(declared: Seq<Vec<u32>>) -> bool {
    forall|i: int| 0 <= i < declared.len() ==> #[trigger] seq_max(assigned_tags(declared, i)) < u32::MAX
}

/// The tag given to the field at `i` that declares none: one past the
/// largest tag of the field before it, or 1 for the first field.
pub open spec fn next_tag(declared: Seq<Vec<u32>>, i: int) -> nat
    decreases i, 0int,
{
    if i <= 0 {
        1
    } else {
        seq_max(assigned_tags(declared, i - 1)) + 1
    }
}

/// The tags of the field at `i`: those it declares, or else the next tag.
pub open spec fn assigned_tags(declared: Seq<Vec<u32>>, i: int) -> Seq<u32>
    decreases i, 1int,
{
    if declared[i]@.len() > 0 {
        declared[i]@
    } else {
        seq![next_tag(declared, i) as u32]
    }
}

/// The largest of some tags bounds each of them, and is one of them.
proof fn lemma_seq_max(s: Seq<u32>)
    ensures
        forall|k: int| 0 <= k < s.len() ==> s[k] <= seq_max(s),
        s.len() > 0 ==> exists|k: int| 0 <= k < s.len() && s[k] == seq_max(s),
    decreases s.len(),
{
    if s.len() > 0 {
        lemma_seq_max(s.drop_last());
        assert forall|k: int| 0 <= k < s.len() implies s[k] <= seq_max(s) by {
            if k < s.len() - 1 {
                assert(s[k] == s.drop_last()[k]);
            }
        }
        if s.last() <= seq_max(s.drop_last()) && s.len() > 1 {
            let k = choose|k: int|
                0 <= k < s.drop_last().len() && s.drop_last()[k] == seq_max(s.drop_last());
            assert(s[k] == s.drop_last()[k]);
        }
    }
}

/// The largest of a vector's elements.
fn max_of(v: &Vec<u32>) -> (r: u32)
    ensures
        r == seq_max(v@),
{
    let mut m: u32 = 0;
    let mut k: usize = 0;
    while k < v.len()
        invariant
            k <= v@.len(),
            m == seq_max(v@.take(k as int)),
        decreases v@.len() - k,
    {
        assert(v@.take(k + 1).drop_last() =~= v@.take(k as int));
        if v[k] > m {
            m = v[k];
        }
        k = k + 1;
    }
    assert(v@.take(v@.len() as int) =~= v@);
    m
}

/// Gives every field its tags: those it declares, or else one past the
/// largest tag of the field before it (1 for the first field).
pub fn assign_tags(declared: &Vec<Vec<u32>>) -> (r: Vec<Vec<u32>>)
    requires
        counting_fits(declared@),
    ensures
        r@.len() == declared@.len(),
        forall|i: int| 0 <= i < r@.len() ==> (#[trigger] r@[i])@ == assigned_tags(declared@, i),
{
    let mut out: Vec<Vec<u32>> = Vec::new();
    let mut next: u32 = 1;
    let mut i: usize = 0;
    while i < declared.len()
        invariant
            i <= declared@.len(),
            counting_fits(declared@),
            out@.len() == i,
            forall|k: int| 0 <= k < i ==> (#[trigger] out@[k])@ == assigned_tags(declared@, k),
            next == next_tag(declared@, i as int),
        decreases declared@.len() - i,
    {
        proof {
            if i > 0 {
                assert(seq_max(assigned_tags(declared@, i - 1)) < u32::MAX);
            }
        }
        let tags: Vec<u32> = if declared[i].len() > 0 {
            declared[i].clone()
        } else {
            let mut v: Vec<u32> = Vec::new();
            v.push(next);
            v
        };
        assert(tags@ == assigned_tags(declared@, i as int));
        let m = max_of(&tags);
        assert(seq_max(assigned_tags(declared@, i as int)) < u32::MAX);
        next = m + 1;
        out.push(tags);
        i = i + 1;
    }
    out
}

/// Whether index `a` comes before index `b` when fields are ordered by
/// their smallest tags, ties kept in declaration order.
pub open spec fn before(keys: Seq<u32>, a: usize, b: usize) -> bool {
    keys[a as int] < keys[b as int] || (keys[a as int] == keys[b as int] && a < b)
}

/// Whether `order` lists indices below `n` in increasing order of
/// `before`.
pub open spec fn ordered_by_key(keys: Seq<u32>, order: Seq<usize>) -> bool {
    &&& forall|i: int| 0 <= i < order.len() ==> (#[trigger] order[i]) < keys.len()
    &&& forall|i: int, j: int|
        0 <= i < j < order.len() ==> before(keys, #[trigger] order[i], #[trigger] order[j])
}

/// The indices of `keys`, sorted by key; indices of equal keys stay in
/// increasing order.
pub fn order_by_key(keys: &[u32]) -> (r: Vec<usize>)
    ensures
        r@.len() == keys@.len(),
        ordered_by_key(keys@, r@),
        r@.no_duplicates(),
        forall|i: usize| i < keys@.len() ==> r@.contains(i),
{
    let mut order: Vec<usize> = Vec::new();
    let mut k: usize = 0;
    while k < keys.len()
        invariant
            k <= keys@.len(),
            order@.len() == k,
            forall|i: int| 0 <= i < order@.len() ==> (#[trigger] order@[i]) < k,
            ordered_by_key(keys@, order@),
            forall|j: usize| j < k ==> order@.contains(j),
        decreases keys@.len() - k,
    {
        let key = keys[k];
        let mut p: usize = 0;
        while p < order.len() && keys[order[p]] <= key
            invariant
                p <= order@.len(),
                order@.len() == k,
                k < keys@.len(),
                key == keys@[k as int],
                forall|i: int| 0 <= i < order@.len() ==> (#[trigger] order@[i]) < k,
                ordered_by_key(keys@, order@),
                forall|i: int| 0 <= i < p ==> keys@[(#[trigger] order@[i]) as int] <= key,
            decreases order@.len() - p,
        {
            p = p + 1;
        }
        let ghost old_order = order@;
        assert forall|i: int| p <= i < old_order.len() implies keys@[(
        #[trigger] old_order[i]) as int] > key by {
            if i > p {
                assert(before(keys@, old_order[p as int], old_order[i]));
            }
        }
        order.insert(p, k);
        assert forall|i: int, j: int| 0 <= i < j < order@.len() implies before(
            keys@,
            #[trigger] order@[i],
            #[trigger] order@[j],
        ) by {
            if j < p {
                assert(order@[i] == old_order[i] && order@[j] == old_order[j]);
            } else if j == p {
                assert(order@[i] == old_order[i]);
            } else if i == p {
                assert(order@[j] == old_order[j - 1]);
            } else if i < p {
                assert(order@[i] == old_order[i] && order@[j] == old_order[j - 1]);
            } else {
                assert(order@[i] == old_order[i - 1] && order@[j] == old_order[j - 1]);
            }
        }
        assert forall|j: usize| j < k + 1 implies order@.contains(j) by {
            if j == k {
                assert(order@[p as int] == k);
            } else {
                assert(old_order.contains(j));
                let x = choose|x: int| 0 <= x < old_order.len() && old_order[x] == j;
                if x < p {
                    assert(order@[x] == j);
                } else {
                    assert(order@[x + 1] == j);
                }
            }
        }
        assert forall|i: int| 0 <= i < order@.len() implies (#[trigger] order@[i]) < k + 1 by {
            if i < p {
                assert(order@[i] == old_order[i]);
            } else if i > p {
                assert(order@[i] == old_order[i - 1]);
            }
        }
        k = k + 1;
    }
    assert forall|i: int, j: int| 0 <= i < order@.len() && 0 <= j < order@.len() && i != j implies order@[i]
        != order@[j] by {
        if i < j {
            assert(before(keys@, order@[i], order@[j]));
        } else {
            assert(before(keys@, order@[j], order@[i]));
        }
    }
    order
}

/// The tags of the fields listed by `order`, one field after another.
pub open spec fn flatten_tags(tags: Seq<Vec<u32>>, order: Seq<usize>) -> Seq<u32>
    decreases order.len(),
{
    if order.len() == 0 {
        Seq::empty()
    } else {
        flatten_tags(tags, order.drop_last()) + tags[order.last() as int]@
    }
}

/// Whether the element at `j` is the first one that repeats an earlier
/// element.
pub open spec fn first_repeat_at(s: Seq<u32>, j: int) -> bool {
    &&& 0 <= j < s.len()
    &&& s.take(j).contains(s[j])
    &&& s.take(j).no_duplicates()
}

/// Calls `itertools::Itertools::duplicates` on the elements of a slice and
/// takes the first element it yields. That adaptor yields an element when
/// it meets it for the second time, so this is the first element equal to
/// an earlier one, and `None` where all differ.
#[verifier::external_body]
fn first_duplicate(s: &[u32]) -> (r: Option<u32>)
    ensures
        r is None <==> s@.no_duplicates(),
        r matches Some(t) ==> exists|j: int| first_repeat_at(s@, j) && s@[j] == t,
{
    itertools::Itertools::duplicates(s.iter()).next().copied()
}

/// Why a message or a oneof was refused: a tag that two fields or two
/// variants share.
#[derive(Debug, Clone, Copy, PartialEq, Eq, Structural)]
pub enum TagError {
    DuplicateFieldTag(u32),
    DuplicateVariantTag(u32),
}

/// The smallest of the tags of each field.
pub open spec fn seq_min(s: Seq<u32>) -> u32
    recommends
        s.len() > 0,
    decreases s.len(),
{
    if s.len() <= 1 {
        s[0]
    } else {
        let m = seq_min(s.drop_last());
        if s.last() < m {
            s.last()
        } else {
            m
        }
    }
}

/// The smallest element of a nonempty vector.
fn min_of(v: &Vec<u32>) -> (r: u32)
    requires
        v@.len() > 0,
    ensures
        r == seq_min(v@),
{
    let mut m: u32 = v[0];
    let mut k: usize = 1;
    assert(v@.take(1).len() == 1);
    while k < v.len()
        invariant
            1 <= k <= v@.len(),
            m == seq_min(v@.take(k as int)),
        decreases v@.len() - k,
    {
        assert(v@.take(k + 1).drop_last() =~= v@.take(k as int));
        if v[k] < m {
            m = v[k];
        }
        k = k + 1;
    }
    assert(v@.take(v@.len() as int) =~= v@);
    m
}

/// The smallest tag of each field.
pub open spec fn min_tags(tags: Seq<Vec<u32>>) -> Seq<u32> {
    Seq::new(tags.len(), |i: int| seq_min(tags[i]@))
}

/// Orders a message's fields by their smallest tag, ties in declaration
/// order, which is the order they are encoded in; refused where two fields
/// share a tag, naming the first tag met twice when the fields' tags are
/// read in that order.
pub fn check_message_tags(tags: &Vec<Vec<u32>>) -> (r: Result<Vec<usize>, TagError>)
    requires
        forall|i: int| 0 <= i < tags@.len() ==> (#[trigger] tags@[i])@.len() > 0,
    ensures
        match r {
            Ok(order) => order@.len() == tags@.len() && ordered_by_key(min_tags(tags@), order@)
                && order@.no_duplicates() && flatten_tags(tags@, order@).no_duplicates(),
            Err(TagError::DuplicateFieldTag(t)) => exists|order: Seq<usize>|
                order.len() == tags@.len() && ordered_by_key(min_tags(tags@), order)
                    && exists|j: int|
                    first_repeat_at(flatten_tags(tags@, order), j) && flatten_tags(tags@, order)[j]
                        == t,
            Err(TagError::DuplicateVariantTag(_)) => false,
        },
{
    let mut keys: Vec<u32> = Vec::new();
    let mut i: usize = 0;
    while i < tags.len()
        invariant
            i <= tags@.len(),
            forall|k: int| 0 <= k < tags@.len() ==> (#[trigger] tags@[k])@.len() > 0,
            keys@ == min_tags(tags@).take(i as int),
        decreases tags@.len() - i,
    {
        let m = min_of(&tags[i]);
        keys.push(m);
        assert(keys@ =~= min_tags(tags@).take(i + 1));
        i = i + 1;
    }
    assert(keys@ =~= min_tags(tags@));
    let order = order_by_key(keys.as_slice());
    let mut flat: Vec<u32> = Vec::new();
    let mut k: usize = 0;
    while k < order.len()
        invariant
            k <= order@.len(),
            order@.len() == tags@.len(),
            forall|x: int| 0 <= x < order@.len() ==> (#[trigger] order@[x]) < tags@.len(),
            flat@ == flatten_tags(tags@, order@.take(k as int)),
        decreases order@.len() - k,
    {
        let t = &tags[order[k]];
        let mut x: usize = 0;
        let ghost base = flat@;
        while x < t.len()
            invariant
                x <= t@.len(),
                flat@ == base + t@.take(x as int),
            decreases t@.len() - x,
        {
            flat.push(t[x]);
            assert(flat@ =~= base + t@.take(x + 1));
            x = x + 1;
        }
        assert(order@.take(k + 1).drop_last() =~= order@.take(k as int));
        assert(t@.take(t@.len() as int) =~= t@);
        assert(flat@ =~= flatten_tags(tags@, order@.take(k + 1)));
        k = k + 1;
    }
    assert(order@.take(order@.len() as int) =~= order@);
    match first_duplicate(flat.as_slice()) {
        Some(t) => Err(TagError::DuplicateFieldTag(t)),
        None => Ok(order),
    }
}

/// Refuses a oneof where two variants share a tag, naming the first tag
/// met twice in declaration order.
pub fn check_oneof_tags(tags: &[u32]) -> (r: Result<(), TagError>)
    ensures
        r is Ok <==> tags@.no_duplicates(),
        r matches Err(e) ==> exists|j: int|
            first_repeat_at(tags@, j) && e == TagError::DuplicateVariantTag(tags@[j]),
{
    match first_duplicate(tags) {
        Some(t) => Err(TagError::DuplicateVariantTag(t)),
        None => Ok(()),
    }
}

/// The message of a tag error for the message or oneof named `name`.
pub open spec fn spec_tag_error_text(name: Seq<char>, e: TagError) -> Seq<char> {
    match e {
        TagError::DuplicateFieldTag(t) => "message "@ + name + " has multiple fields with tag "@
            + spec_decimal(t as int),
        TagError::DuplicateVariantTag(t) => "invalid oneof "@ + name
            + ": multiple variants have tag "@ + spec_decimal(t as int),
    }
}

/// The text that reports a tag error for the message or oneof named
/// `name`.
pub fn tag_error_text(name: &str, e: TagError) -> (r: String)
    ensures
        r@ == spec_tag_error_text(name@, e),
{
    match e {
        TagError::DuplicateFieldTag(t) => {
            let a = concat_str("message ", name);
            let b = concat_str(a.as_str(), " has multiple fields with tag ");
            let d = fmt_decimal(t as i64);
            concat_str(b.as_str(), d.as_str())
        },
        TagError::DuplicateVariantTag(t) => {
            let a = concat_str("invalid oneof ", name);
            let b = concat_str(a.as_str(), ": multiple variants have tag ");
            let d = fmt_decimal(t as i64);
            concat_str(b.as_str(), d.as_str())
        },
    }
}

} // verus!
