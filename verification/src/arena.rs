//! The arena that decoded strings, bytes and collections live in, and the
//! sorted map that decoded map fields become.
use vstd::prelude::*;

use bumpalo::Bump;
use vstd::string::StringSliceAdditionalSpecFns;

verus! {

#[verifier::external_type_specification]
#[verifier::external_body]
pub struct ExBump<const MIN_ALIGN: usize>(Bump<MIN_ALIGN>);

/// An arena allocator for decoded messages: a bump allocator from which all
/// strings, bytes and slices of a decode are allocated, and which frees them
/// all at once.
pub struct Arena {
    bump: Bump,
}

impl Arena {
    /// Creates an arena; calls `bumpalo::Bump::new`.
    #[verifier::external_body]
    pub fn new() -> (r: Arena) {
        Arena { bump: Bump::new() }
    }

    /// Creates an arena whose first chunk holds at least `capacity` bytes;
    /// calls `bumpalo::Bump::with_capacity`.
    #[verifier::external_body]
    pub fn with_capacity(capacity: usize) -> (r: Arena) {
        Arena { bump: Bump::with_capacity(capacity) }
    }

    /// Copies a string into the arena; calls `bumpalo::Bump::alloc_str`,
    /// which returns a copy of the string.
    #[verifier::external_body]
    pub fn alloc_str<'a>(&'a self, s: &str) -> (r: &'a str)
        ensures
            r@ == s@,
            r.spec_bytes() == s.spec_bytes(),
    {
        self.bump.alloc_str(s)
    }

    /// Copies bytes into the arena; calls `bumpalo::Bump::alloc_slice_copy`,
    /// which returns a copy of the slice.
    #[verifier::external_body]
    pub fn alloc_bytes<'a>(&'a self, bytes: &[u8]) -> (r: &'a [u8])
        ensures
            r@ == bytes@,
    {
        self.bump.alloc_slice_copy(bytes)
    }

    /// Copies a slice into the arena; calls `bumpalo::Bump::alloc_slice_copy`,
    /// which returns a copy of the slice.
    #[verifier::external_body]
    pub fn alloc_slice_copy<'a, T: Copy>(&'a self, slice: &[T]) -> (r: &'a [T])
        ensures
            r@ == slice@,
    {
        self.bump.alloc_slice_copy(slice)
    }

    /// Moves the contents of a vector into the arena.
    pub fn alloc_vec<'a, T: Copy>(&'a self, vec: Vec<T>) -> (r: &'a [T])
        ensures
            r@ == vec@,
    {
        self.alloc_slice_copy(vec.as_slice())
    }

    /// Copies strings into the arena and returns a slice of the copies, also
    /// in the arena.
    pub fn alloc_string_vec<'a>(&'a self, vec: Vec<String>) -> (r: &'a [&'a str])
        ensures
            r@.len() == vec@.len(),
            forall|i: int| 0 <= i < vec@.len() ==> (#[trigger] r@[i])@ == vec@[i]@,
    {
        let mut strs: Vec<&'a str> = Vec::new();
        let mut i: usize = 0;
        while i < vec.len()
            invariant
                i <= vec@.len(),
                strs@.len() == i,
                forall|j: int| 0 <= j < i ==> (#[trigger] strs@[j])@ == vec@[j]@,
            decreases vec@.len() - i,
        {
            let s = self.alloc_str(vec[i].as_str());
            strs.push(s);
            i = i + 1;
        }
        self.alloc_slice_copy(strs.as_slice())
    }

    /// Allocates `len` copies of `value` in the arena; calls
    /// `bumpalo::Bump::alloc_slice_fill_copy`, which fills a new slice with
    /// the value.
    #[verifier::external_body]
    pub fn alloc_slice_fill_copy<'a, T: Copy>(&'a self, len: usize, value: T) -> (r: &'a [T])
        ensures
            r@ == Seq::new(len as nat, |i: int| value),
    {
        self.bump.alloc_slice_fill_copy(len, value)
    }

    /// Allocates `len` default values in the arena; calls
    /// `bumpalo::Bump::alloc_slice_fill_default`. Only the length is stated:
    /// what `T::default` gives is up to `T`.
    #[verifier::external_body]
    pub fn alloc_slice_fill_default<'a, T: Default + Copy>(&'a self, len: usize) -> (r: &'a [T])
        ensures
            r@.len() == len,
    {
        self.bump.alloc_slice_fill_default(len)
    }

    /// Moves the values of a vector into a slice in the arena, in order;
    /// calls `bumpalo::Bump::alloc_slice_fill_iter` with the vector's
    /// iterator.
    #[verifier::external_body]
    pub fn alloc_slice_fill_iter<'a, T>(&'a self, values: Vec<T>) -> (r: &'a [T])
        ensures
            r@ == values@,
    {
        self.bump.alloc_slice_fill_iter(values)
    }

    /// Moves a value into the arena; calls `bumpalo::Bump::alloc`, which
    /// returns a reference to the moved value.
    #[verifier::external_body]
    pub fn alloc_value<'a, T>(&'a self, value: T) -> (r: &'a T)
        ensures
            *r == value,
    {
        self.bump.alloc(value)
    }

    /// Frees everything allocated from the arena, keeping its memory for
    /// reuse; calls `bumpalo::Bump::reset`.
    #[verifier::external_body]
    pub fn reset(&mut self) {
        self.bump.reset();
    }

    /// The bytes the arena has taken from the system allocator; calls
    /// `bumpalo::Bump::allocated_bytes`. Nothing is stated of the number,
    /// which depends on the allocator's chunk sizes.
    #[verifier::external_body]
    pub fn allocated_bytes(&self) -> (r: usize) {
        self.bump.allocated_bytes()
    }
}

impl Default for Arena {
    fn default() -> (r: Arena) {
        Arena::new()
    }
}

/// How one key compares with another.
#[derive(Debug, Clone, Copy, PartialEq, Eq, Structural)]
pub enum KeyOrder {
    Less,
    Equal,
    Greater,
}

/// Lexicographic comparison of two sequences of integers: by their first
/// difference, and a proper prefix first.
pub open spec fn lex_order(a: Seq<int>, b: Seq<int>) -> KeyOrder
    decreases a.len(),
{
    if a.len() == 0 {
        if b.len() == 0 {
            KeyOrder::Equal
        } else {
            KeyOrder::Less
        }
    } else if b.len() == 0 {
        KeyOrder::Greater
    } else if a[0] < b[0] {
        KeyOrder::Less
    } else if a[0] > b[0] {
        KeyOrder::Greater
    } else {
        lex_order(a.skip(1), b.skip(1))
    }
}

/// Two sequences compare equal exactly when they are equal.
pub proof fn lemma_lex_equal(a: Seq<int>, b: Seq<int>)
    ensures
        (lex_order(a, b) == KeyOrder::Equal) <==> (a == b),
    decreases a.len(),
{
    if a.len() > 0 && b.len() > 0 && a[0] == b[0] {
        lemma_lex_equal(a.skip(1), b.skip(1));
        if a.skip(1) == b.skip(1) {
            assert(a =~= seq![a[0]] + a.skip(1));
            assert(b =~= seq![b[0]] + b.skip(1));
        }
    } else if a.len() == 0 && b.len() == 0 {
        assert(a =~= b);
    }
}

/// Swapping the sequences swaps less and greater.
pub proof fn lemma_lex_flip(a: Seq<int>, b: Seq<int>)
    ensures
        (lex_order(a, b) == KeyOrder::Less) <==> (lex_order(b, a) == KeyOrder::Greater),
    decreases a.len(),
{
    if a.len() > 0 && b.len() > 0 && a[0] == b[0] {
        lemma_lex_flip(a.skip(1), b.skip(1));
    }
}

/// Lexicographic order is transitive.
pub proof fn lemma_lex_less_trans(a: Seq<int>, b: Seq<int>, c: Seq<int>)
    requires
        lex_order(a, b) == KeyOrder::Less,
        lex_order(b, c) == KeyOrder::Less,
    ensures
        lex_order(a, c) == KeyOrder::Less,
    decreases a.len(),
{
    if a.len() > 0 && c.len() > 0 && a[0] == b[0] && b[0] == c[0] {
        lemma_lex_less_trans(a.skip(1), b.skip(1), c.skip(1));
    }
}

/// A key type of an `ArenaMap`, ordered as its sequence of integers is in
/// lexicographic order.
pub trait MapKey: Sized {
    /// The key as a sequence of integers, whose lexicographic order is the
    /// key's order.
    spec fn key_seq(&self) -> Seq<int>;

    /// How `self` compares with `other`.
    fn compare_key(&self, other: &Self) -> (r: KeyOrder)
        ensures
            r == lex_order(self.key_seq(), other.key_seq()),
    ;
}

/// Bytes as integers.
pub open spec fn byte_ints(b: Seq<u8>) -> Seq<int> {
    b.map_values(|x: u8| x as int)
}

/// Compares two byte strings lexicographically, as `Ord` on `[u8]` does.
fn compare_bytes(a: &[u8], b: &[u8]) -> (r: KeyOrder)
    ensures
        r == lex_order(byte_ints(a@), byte_ints(b@)),
{
    let ghost x = byte_ints(a@);
    let ghost y = byte_ints(b@);
    let mut i: usize = 0;
    assert(x.skip(0) =~= x);
    assert(y.skip(0) =~= y);
    while i < a.len() && i < b.len()
        invariant
            i <= a@.len(),
            i <= b@.len(),
            x == byte_ints(a@),
            y == byte_ints(b@),
            lex_order(x, y) == lex_order(x.skip(i as int), y.skip(i as int)),
        decreases a@.len() - i,
    {
        assert(x.skip(i as int)[0] == a@[i as int] as int);
        assert(y.skip(i as int)[0] == b@[i as int] as int);
        if a[i] < b[i] {
            return KeyOrder::Less;
        }
        if a[i] > b[i] {
            return KeyOrder::Greater;
        }
        assert(x.skip(i as int).skip(1) =~= x.skip(i + 1));
        assert(y.skip(i as int).skip(1) =~= y.skip(i + 1));
        i = i + 1;
    }
    if a.len() == b.len() {
        KeyOrder::Equal
    } else if i == a.len() {
        KeyOrder::Less
    } else {
        KeyOrder::Greater
    }
}

impl<'a> MapKey for &'a str {
    /// The UTF-8 bytes of the string: `str` orders by them.
    open spec fn key_seq(&self) -> Seq<int> {
        byte_ints((*self).spec_bytes())
    }

    fn compare_key(&self, other: &Self) -> (r: KeyOrder) {
        compare_bytes(self.as_bytes(), other.as_bytes())
    }
}

/// Two strings have the same key sequence exactly when they hold the same
/// characters.
pub proof fn lemma_str_key_seq(a: &str, b: &str)
    ensures
        (a.key_seq() == b.key_seq()) <==> (a@ == b@),
{
    if a.key_seq() == b.key_seq() {
        let x = a.spec_bytes();
        let y = b.spec_bytes();
        assert(x.len() == a.key_seq().len());
        assert forall|i: int| 0 <= i < x.len() implies x[i] == y[i] by {
            assert(a.key_seq()[i] == x[i] as int);
            assert(b.key_seq()[i] == y[i] as int);
        }
        assert(x =~= y);
        vstd::utf8::encode_utf8_decode_utf8(a@);
        vstd::utf8::encode_utf8_decode_utf8(b@);
    }
}

impl<'a> MapKey for &'a [u8] {
    open spec fn key_seq(&self) -> Seq<int> {
        byte_ints((*self)@)
    }

    fn compare_key(&self, other: &Self) -> (r: KeyOrder) {
        compare_bytes(*self, *other)
    }
}

impl MapKey for i32 {
    open spec fn key_seq(&self) -> Seq<int> {
        seq![*self as int]
    }

    fn compare_key(&self, other: &Self) -> (r: KeyOrder) {
        proof {
            reveal_with_fuel(lex_order, 2);
        }
        if *self < *other {
            KeyOrder::Less
        } else if *self > *other {
            KeyOrder::Greater
        } else {
            KeyOrder::Equal
        }
    }
}

impl MapKey for i64 {
    open spec fn key_seq(&self) -> Seq<int> {
        seq![*self as int]
    }

    fn compare_key(&self, other: &Self) -> (r: KeyOrder) {
        proof {
            reveal_with_fuel(lex_order, 2);
        }
        if *self < *other {
            KeyOrder::Less
        } else if *self > *other {
            KeyOrder::Greater
        } else {
            KeyOrder::Equal
        }
    }
}

impl MapKey for u32 {
    open spec fn key_seq(&self) -> Seq<int> {
        seq![*self as int]
    }

    fn compare_key(&self, other: &Self) -> (r: KeyOrder) {
        proof {
            reveal_with_fuel(lex_order, 2);
        }
        if *self < *other {
            KeyOrder::Less
        } else if *self > *other {
            KeyOrder::Greater
        } else {
            KeyOrder::Equal
        }
    }
}

impl MapKey for u64 {
    open spec fn key_seq(&self) -> Seq<int> {
        seq![*self as int]
    }

    fn compare_key(&self, other: &Self) -> (r: KeyOrder) {
        proof {
            reveal_with_fuel(lex_order, 2);
        }
        if *self < *other {
            KeyOrder::Less
        } else if *self > *other {
            KeyOrder::Greater
        } else {
            KeyOrder::Equal
        }
    }
}

impl MapKey for bool {
    /// `false` before `true`.
    open spec fn key_seq(&self) -> Seq<int> {
        seq![if *self { 1int } else { 0int }]
    }

    fn compare_key(&self, other: &Self) -> (r: KeyOrder) {
        proof {
            reveal_with_fuel(lex_order, 2);
        }
        if *self == *other {
            KeyOrder::Equal
        } else if *other {
            KeyOrder::Less
        } else {
            KeyOrder::Greater
        }
    }
}

/// Whether the keys of `entries` strictly increase.
pub open spec fn keys_strictly_sorted<K: MapKey, V>(entries: Seq<(K, V)>) -> bool {
    forall|i: int, j: int|
        0 <= i < j < entries.len() ==> lex_order(
            (#[trigger] entries[i]).0.key_seq(),
            (#[trigger] entries[j]).0.key_seq(),
        ) == KeyOrder::Less
}

/// An immutable map over a slice of entries sorted by key, looked up by
/// binary search.
#[derive(Clone, Copy)]
pub struct ArenaMap<'arena, K, V> {
    entries: &'arena [(K, V)],
}

impl<'arena, K, V> ArenaMap<'arena, K, V> {
    /// The entries of the map, in slice order.
    pub closed spec fn entries(self) -> Seq<(K, V)> {
        self.entries@
    }

    /// A map over `entries`, which lookups expect sorted by key.
    pub fn new(entries: &'arena [(K, V)]) -> (r: Self)
        ensures
            r.entries() == entries@,
    {
        ArenaMap { entries }
    }

    /// The number of entries.
    pub fn len(&self) -> (r: usize)
        ensures
            r == self.entries().len(),
    {
        self.entries.len()
    }

    /// Whether there are no entries.
    pub fn is_empty(&self) -> (r: bool)
        ensures
            r == (self.entries().len() == 0),
    {
        self.entries.len() == 0
    }

    /// The entries, as key and value references in slice order.
    pub fn iter(&self) -> (r: Vec<(&'arena K, &'arena V)>)
        ensures
            r@.len() == self.entries().len(),
            forall|i: int|
                0 <= i < r@.len() ==> *(#[trigger] r@[i]).0 == self.entries()[i].0 && *r@[i].1
                    == self.entries()[i].1,
    {
        let entries: &'arena [(K, V)] = self.entries;
        let mut out: Vec<(&'arena K, &'arena V)> = Vec::new();
        let mut i: usize = 0;
        while i < entries.len()
            invariant
                i <= entries@.len(),
                entries@ == self.entries(),
                out@.len() == i,
                forall|j: int|
                    0 <= j < i ==> *(#[trigger] out@[j]).0 == entries@[j].0 && *out@[j].1
                        == entries@[j].1,
            decreases entries@.len() - i,
        {
            let entry: &'arena (K, V) = &entries[i];
            out.push((&entry.0, &entry.1));
            i = i + 1;
        }
        out
    }

    /// The keys, in slice order.
    pub fn keys(&self) -> (r: Vec<&'arena K>)
        ensures
            r@.len() == self.entries().len(),
            forall|i: int| 0 <= i < r@.len() ==> *(#[trigger] r@[i]) == self.entries()[i].0,
    {
        let entries: &'arena [(K, V)] = self.entries;
        let mut out: Vec<&'arena K> = Vec::new();
        let mut i: usize = 0;
        while i < entries.len()
            invariant
                i <= entries@.len(),
                entries@ == self.entries(),
                out@.len() == i,
                forall|j: int| 0 <= j < i ==> *(#[trigger] out@[j]) == entries@[j].0,
            decreases entries@.len() - i,
        {
            let entry: &'arena (K, V) = &entries[i];
            out.push(&entry.0);
            i = i + 1;
        }
        out
    }

    /// The values, in slice order.
    pub fn values(&self) -> (r: Vec<&'arena V>)
        ensures
            r@.len() == self.entries().len(),
            forall|i: int| 0 <= i < r@.len() ==> *(#[trigger] r@[i]) == self.entries()[i].1,
    {
        let entries: &'arena [(K, V)] = self.entries;
        let mut out: Vec<&'arena V> = Vec::new();
        let mut i: usize = 0;
        while i < entries.len()
            invariant
                i <= entries@.len(),
                entries@ == self.entries(),
                out@.len() == i,
                forall|j: int| 0 <= j < i ==> *(#[trigger] out@[j]) == entries@[j].1,
            decreases entries@.len() - i,
        {
            let entry: &'arena (K, V) = &entries[i];
            out.push(&entry.1);
            i = i + 1;
        }
        out
    }

    /// The slice of entries.
    pub fn as_slice(&self) -> (r: &'arena [(K, V)])
        ensures
            r@ == self.entries(),
    {
        self.entries
    }
}

/// The position of an entry whose key compares equal to `key`, found by
/// binary search over entries that are meant to be sorted by key.
fn search_key<K: MapKey, V>(entries: &[(K, V)], key: &K) -> (r: Option<usize>)
    ensures
        r matches Some(i) ==> i < entries@.len() && entries@[i as int].0.key_seq() == key.key_seq(),
        keys_strictly_sorted(entries@) ==> (r is None <==> forall|i: int|
            0 <= i < entries@.len() ==> (#[trigger] entries@[i]).0.key_seq() != key.key_seq()),
{
    let mut lo: usize = 0;
    let mut hi: usize = entries.len();
    let ghost sorted = keys_strictly_sorted(entries@);
    while lo < hi
        invariant
            lo <= hi <= entries@.len(),
            sorted == keys_strictly_sorted(entries@),
            sorted ==> forall|i: int|
                0 <= i < lo ==> lex_order((#[trigger] entries@[i]).0.key_seq(), key.key_seq())
                    == KeyOrder::Less,
            sorted ==> forall|i: int|
                hi <= i < entries@.len() ==> lex_order(
                    (#[trigger] entries@[i]).0.key_seq(),
                    key.key_seq(),
                ) == KeyOrder::Greater,
        decreases hi - lo,
    {
        let mid = lo + (hi - lo) / 2;
        let entry = &entries[mid];
        match entry.0.compare_key(key) {
            KeyOrder::Less => {
                proof {
                    if sorted {
                        lemma_less_prefix::<K, V>(entries@, key, mid as int);
                    }
                }
                lo = mid + 1;
            },
            KeyOrder::Greater => {
                proof {
                    if sorted {
                        lemma_greater_suffix::<K, V>(entries@, key, mid as int);
                    }
                }
                hi = mid;
            },
            KeyOrder::Equal => {
                proof {
                    lemma_lex_equal(entry.0.key_seq(), key.key_seq());
                }
                return Some(mid);
            },
        }
    }
    proof {
        if sorted {
            assert forall|i: int| 0 <= i < entries@.len() implies (
            #[trigger] entries@[i]).0.key_seq() != key.key_seq() by {
                lemma_lex_equal(entries@[i].0.key_seq(), key.key_seq());
            }
        }
    }
    None
}

/// In sorted entries, at most one key equals `key`.
proof fn lemma_equal_key_unique<K: MapKey, V>(entries: Seq<(K, V)>, key: &K)
    requires
        keys_strictly_sorted(entries),
    ensures
        forall|i: int, j: int|
            0 <= i < entries.len() && 0 <= j < entries.len() && (#[trigger] entries[i]).0.key_seq()
                == key.key_seq() && (#[trigger] entries[j]).0.key_seq() == key.key_seq() ==> i == j,
{
    assert forall|i: int, j: int|
        0 <= i < entries.len() && 0 <= j < entries.len() && (#[trigger] entries[i]).0.key_seq()
            == key.key_seq() && (#[trigger] entries[j]).0.key_seq() == key.key_seq() implies i
        == j by {
        if i != j {
            let (a, b) = if i < j {
                (i, j)
            } else {
                (j, i)
            };
            assert(lex_order(entries[a].0.key_seq(), entries[b].0.key_seq()) == KeyOrder::Less);
            lemma_lex_equal(entries[a].0.key_seq(), entries[b].0.key_seq());
        }
    }
}

/// In sorted entries, every key up to one less than `key` is less too.
proof fn lemma_less_prefix<K: MapKey, V>(entries: Seq<(K, V)>, key: &K, m: int)
    requires
        keys_strictly_sorted(entries),
        0 <= m < entries.len(),
        lex_order(entries[m].0.key_seq(), key.key_seq()) == KeyOrder::Less,
    ensures
        forall|i: int|
            0 <= i <= m ==> lex_order((#[trigger] entries[i]).0.key_seq(), key.key_seq())
                == KeyOrder::Less,
{
    assert forall|i: int| 0 <= i <= m implies lex_order(
        (#[trigger] entries[i]).0.key_seq(),
        key.key_seq(),
    ) == KeyOrder::Less by {
        if i < m {
            lemma_lex_less_trans(entries[i].0.key_seq(), entries[m].0.key_seq(), key.key_seq());
        }
    }
}

/// In sorted entries, every key from one greater than `key` on is greater
/// too.
proof fn lemma_greater_suffix<K: MapKey, V>(entries: Seq<(K, V)>, key: &K, m: int)
    requires
        keys_strictly_sorted(entries),
        0 <= m < entries.len(),
        lex_order(entries[m].0.key_seq(), key.key_seq()) == KeyOrder::Greater,
    ensures
        forall|i: int|
            m <= i < entries.len() ==> lex_order((#[trigger] entries[i]).0.key_seq(), key.key_seq())
                == KeyOrder::Greater,
{
    assert forall|i: int| m <= i < entries.len() implies lex_order(
        (#[trigger] entries[i]).0.key_seq(),
        key.key_seq(),
    ) == KeyOrder::Greater by {
        if m < i {
            lemma_lex_flip(entries[m].0.key_seq(), key.key_seq());
            lemma_lex_flip(key.key_seq(), entries[m].0.key_seq());
            lemma_lex_less_trans(key.key_seq(), entries[m].0.key_seq(), entries[i].0.key_seq());
            lemma_lex_flip(key.key_seq(), entries[i].0.key_seq());
            lemma_lex_flip(entries[i].0.key_seq(), key.key_seq());
        }
    }
}

impl<'arena, K: MapKey, V> ArenaMap<'arena, K, V> {
    /// The value of the entry whose key equals `key`, found by binary
    /// search; complete when the entries are sorted by key.
    pub fn get(&self, key: &K) -> (r: Option<&'arena V>)
        ensures
            r matches Some(v) ==> exists|i: int|
                0 <= i < self.entries().len() && (#[trigger] self.entries()[i]).0.key_seq()
                    == key.key_seq() && *v == self.entries()[i].1,
            keys_strictly_sorted(self.entries()) ==> (r is None <==> forall|i: int|
                0 <= i < self.entries().len() ==> (#[trigger] self.entries()[i]).0.key_seq()
                    != key.key_seq()),
            keys_strictly_sorted(self.entries()) ==> forall|i: int|
                0 <= i < self.entries().len() && (#[trigger] self.entries()[i]).0.key_seq()
                    == key.key_seq() ==> r == Some(&self.entries()[i].1),
    {
        let entries: &'arena [(K, V)] = self.entries;
        proof {
            if keys_strictly_sorted(entries@) {
                lemma_equal_key_unique::<K, V>(entries@, key);
            }
        }
        match search_key(entries, key) {
            Some(idx) => {
                let entry: &'arena (K, V) = &entries[idx];
                assert(self.entries()[idx as int] == *entry);
                Some(&entry.1)
            },
            None => None,
        }
    }

    /// Whether an entry's key equals `key`, found by binary search; complete
    /// when the entries are sorted by key.
    pub fn contains_key(&self, key: &K) -> (r: bool)
        ensures
            r ==> exists|i: int|
                0 <= i < self.entries().len() && (#[trigger] self.entries()[i]).0.key_seq()
                    == key.key_seq(),
            keys_strictly_sorted(self.entries()) ==> (r <==> exists|i: int|
                0 <= i < self.entries().len() && (#[trigger] self.entries()[i]).0.key_seq()
                    == key.key_seq()),
    {
        search_key(self.entries, key).is_some()
    }
}

impl<'arena, K, V> Default for ArenaMap<'arena, K, V> {
    fn default() -> (r: Self)
        ensures
            r.entries().len() == 0,
    {
        ArenaMap { entries: &[] }
    }
}

/// A conversion that allocates the converted value's data in an arena.
pub trait ArenaFrom<'arena, T>: Sized {
    /// Converts `value`, allocating from `arena`.
    fn arena_from(value: T, arena: &'arena Arena) -> Self;
}

/// The conversion of `ArenaFrom`, called on the value to convert.
pub trait ArenaInto<'arena, T> {
    /// Converts `self`, allocating from `arena`.
    fn arena_into(self, arena: &'arena Arena) -> T;
}

impl<'arena, T, U> ArenaInto<'arena, U> for T where U: ArenaFrom<'arena, T> {
    fn arena_into(self, arena: &'arena Arena) -> (r: U)
        ensures
            call_ensures(U::arena_from, (self, arena), r),
    {
        U::arena_from(self, arena)
    }
}

impl<'arena> ArenaFrom<'arena, String> for &'arena str {
    /// Copies an owned string into the arena.
    fn arena_from(value: String, arena: &'arena Arena) -> (r: &'arena str)
        ensures
            r@ == value@,
    {
        arena.alloc_str(value.as_str())
    }
}

impl<'arena> ArenaFrom<'arena, Vec<u8>> for &'arena [u8] {
    /// Copies owned bytes into the arena.
    fn arena_from(value: Vec<u8>, arena: &'arena Arena) -> (r: &'arena [u8])
        ensures
            r@ == value@,
    {
        arena.alloc_bytes(value.as_slice())
    }
}

} // verus!
