use vstd::prelude::*;

verus! {

/// The byte that separates the prefix from the suffix.
pub const SEPARATOR: u8 = 95;

/// Longest prefix, in bytes.
pub const MAX_PREFIX_LEN: usize = 8;

/// Longest suffix, in bytes.
pub const MAX_SUFFIX_LEN: usize = 22;

/// `[A-Za-z0-9]`.
pub open spec fn is_alnum(b: u8) -> bool {
    (48 <= b && b <= 57) || (65 <= b && b <= 90) || (97 <= b && b <= 122)
}

pub open spec fn all_alnum(s: Seq<u8>) -> bool {
    forall|i: int| 0 <= i < s.len() ==> is_alnum(#[trigger] s[i])
}

/// `^[A-Za-z0-9]{1,8}$`
pub open spec fn valid_prefix(p: Seq<u8>) -> bool {
    1 <= p.len() <= MAX_PREFIX_LEN && all_alnum(p)
}

/// `^[A-Za-z0-9]{1,22}$`
pub open spec fn valid_suffix(s: Seq<u8>) -> bool {
    1 <= s.len() <= MAX_SUFFIX_LEN && all_alnum(s)
}

/// `s` reads as a prefix, the separator at index `i`, then a suffix.
pub open spec fn valid_id_at(s: Seq<u8>, i: int) -> bool {
    &&& 0 <= i < s.len()
    &&& s[i] == SEPARATOR
    &&& valid_prefix(s.take(i))
    &&& valid_suffix(s.skip(i + 1))
}

/// `^[A-Za-z0-9]{1,8}_[A-Za-z0-9]{1,22}$`
pub open spec fn valid_id(s: Seq<u8>) -> bool {
    exists|i: int| valid_id_at(s, i)
}

/// Index of the separator in a valid identifier.
pub open spec fn separator_index(s: Seq<u8>) -> int {
    choose|i: int| valid_id_at(s, i)
}

/// The prefix of a valid identifier.
pub open spec fn id_prefix(s: Seq<u8>) -> Seq<u8> {
    s.take(separator_index(s))
}

/// The suffix of a valid identifier.
pub open spec fn id_suffix(s: Seq<u8>) -> Seq<u8> {
    s.skip(separator_index(s) + 1)
}

/// The bytes of `p`, the separator, then the bytes of `s`.
pub open spec fn join_id(p: Seq<u8>, s: Seq<u8>) -> Seq<u8> {
    p + seq![SEPARATOR] + s
}

/// A valid identifier has one separator only where a prefix may end, so the
/// split is unique.
pub proof fn lemma_separator_unique(s: Seq<u8>, i: int, j: int)
    requires
        valid_id_at(s, i),
        valid_id_at(s, j),
    ensures
        i == j,
{
    if i < j {
        assert(s.take(j)[i] == s[i]);
    } else if j < i {
        assert(s.take(i)[j] == s[j]);
    }
}

/// The separator of a valid identifier is the one at `i`.
pub proof fn lemma_separator_index(s: Seq<u8>, i: int)
    requires
        valid_id_at(s, i),
    ensures
        valid_id(s),
        separator_index(s) == i,
        id_prefix(s) == s.take(i),
        id_suffix(s) == s.skip(i + 1),
{
    assert(valid_id_at(s, i));
    let k = separator_index(s);
    lemma_separator_unique(s, i, k);
}

/// A valid identifier is its prefix joined to its suffix, and both parts are
/// valid.
pub proof fn lemma_id_parts(s: Seq<u8>)
    requires
        valid_id(s),
    ensures
        valid_id_at(s, separator_index(s)),
        valid_prefix(id_prefix(s)),
        valid_suffix(id_suffix(s)),
        join_id(id_prefix(s), id_suffix(s)) == s,
        3 <= s.len() <= MAX_PREFIX_LEN + 1 + MAX_SUFFIX_LEN,
{
    let i = separator_index(s);
    assert(valid_id_at(s, i));
    assert(join_id(s.take(i), s.skip(i + 1)) =~= s);
}

/// Joining a valid prefix and a valid suffix gives a valid identifier whose
/// parts are those two.
pub proof fn lemma_join_valid(p: Seq<u8>, s: Seq<u8>)
    requires
        valid_prefix(p),
        valid_suffix(s),
    ensures
        valid_id(join_id(p, s)),
        id_prefix(join_id(p, s)) == p,
        id_suffix(join_id(p, s)) == s,
{
    let j = join_id(p, s);
    let i = p.len() as int;
    assert(j.take(i) =~= p);
    assert(j.skip(i + 1) =~= s);
    assert(j[i] == SEPARATOR);
    lemma_separator_index(j, i);
}

pub fn is_alnum_byte(b: u8) -> (r: bool)
    ensures
        r == is_alnum(b),
{
    (48 <= b && b <= 57) || (65 <= b && b <= 90) || (97 <= b && b <= 122)
}

/// Whether every byte of `b[start..end]` is alphanumeric.
fn alnum_run(b: &[u8], start: usize, end: usize) -> (r: bool)
    requires
        start <= end <= b@.len(),
    ensures
        r == all_alnum(b@.subrange(start as int, end as int)),
{
    let mut i = start;
    while i < end
        invariant
            start <= i <= end <= b@.len(),
            all_alnum(b@.subrange(start as int, i as int)),
        decreases end - i,
    {
        if !is_alnum_byte(b[i]) {
            assert(b@.subrange(start as int, end as int)[i - start] == b@[i as int]);
            return false;
        }
        assert(b@.subrange(start as int, i + 1) =~= b@.subrange(start as int, i as int).push(b@[i as int]));
        i = i + 1;
    }
    true
}

/// The index of the first separator in `b`, if there is one.
pub fn find_separator(b: &[u8]) -> (r: Option<usize>)
    ensures
        match r {
            Some(i) => i < b@.len() && b@[i as int] == SEPARATOR && forall|k: int|
                0 <= k < i ==> b@[k] != SEPARATOR,
            None => forall|k: int| 0 <= k < b@.len() ==> b@[k] != SEPARATOR,
        },
{
    let mut i: usize = 0;
    while i < b.len()
        invariant
            i <= b@.len(),
            forall|k: int| 0 <= k < i ==> b@[k] != SEPARATOR,
        decreases b@.len() - i,
    {
        if b[i] == SEPARATOR {
            return Some(i);
        }
        i = i + 1;
    }
    None
}

/// Lexicographic order of byte strings: the first differing byte decides, and
/// a proper prefix comes first.
pub open spec fn byte_order(a: Seq<u8>, b: Seq<u8>) -> core::cmp::Ordering
    decreases a.len(),
{
    if a.len() == 0 {
        if b.len() == 0 {
            core::cmp::Ordering::Equal
        } else {
            core::cmp::Ordering::Less
        }
    } else if b.len() == 0 {
        core::cmp::Ordering::Greater
    } else if a[0] < b[0] {
        core::cmp::Ordering::Less
    } else if a[0] > b[0] {
        core::cmp::Ordering::Greater
    } else {
        byte_order(a.skip(1), b.skip(1))
    }
}

/// Compares `a` and `b` lexicographically.
pub fn compare_bytes(a: &[u8], b: &[u8]) -> (r: core::cmp::Ordering)
    ensures
        r == byte_order(a@, b@),
{
    let mut i: usize = 0;
    assert(a@.skip(0) =~= a@);
    assert(b@.skip(0) =~= b@);
    while i < a.len() && i < b.len()
        invariant
            i <= a@.len(),
            i <= b@.len(),
            byte_order(a@, b@) == byte_order(a@.skip(i as int), b@.skip(i as int)),
        decreases a@.len() - i,
    {
        if a[i] < b[i] {
            return core::cmp::Ordering::Less;
        }
        if a[i] > b[i] {
            return core::cmp::Ordering::Greater;
        }
        assert(a@.skip(i as int).skip(1) =~= a@.skip(i + 1));
        assert(b@.skip(i as int).skip(1) =~= b@.skip(i + 1));
        i = i + 1;
    }
    if a.len() == b.len() {
        core::cmp::Ordering::Equal
    } else if i == a.len() {
        core::cmp::Ordering::Less
    } else {
        core::cmp::Ordering::Greater
    }
}

/// Whether `a` and `b` hold the same bytes.
pub fn bytes_equal(a: &[u8], b: &[u8]) -> (r: bool)
    ensures
        r == (a@ == b@),
{
    if a.len() != b.len() {
        return false;
    }
    let mut i: usize = 0;
    while i < a.len()
        invariant
            a@.len() == b@.len(),
            i <= a@.len(),
            forall|k: int| 0 <= k < i ==> a@[k] == b@[k],
        decreases a@.len() - i,
    {
        if a[i] != b[i] {
            return false;
        }
        i = i + 1;
    }
    assert(a@ =~= b@);
    true
}

/// Checks `b` against `^[A-Za-z0-9]{1,8}$`, the grammar of a prefix.
pub fn is_valid_prefix_text(b: &[u8]) -> (r: bool)
    ensures
        r == valid_prefix(b@),
{
    if b.len() < 1 || b.len() > MAX_PREFIX_LEN {
        return false;
    }
    let r = alnum_run(b, 0, b.len());
    assert(b@.subrange(0, b@.len() as int) =~= b@);
    r
}

/// Checks `b` against `^[A-Za-z0-9]{1,8}_[A-Za-z0-9]{1,22}$`, the grammar of
/// an identifier.
pub fn is_valid_identifier(b: &[u8]) -> (r: bool)
    ensures
        r == valid_id(b@),
{
    let s = Ghost(b@);
    match find_separator(b) {
        None => {
            proof {
                if valid_id(s@) {
                    let i = separator_index(s@);
                    assert(valid_id_at(s@, i));
                }
            }
            false
        },
        Some(i) => {
            let n = b.len();
            let ok = 1 <= i && i <= MAX_PREFIX_LEN && n - (i + 1) >= 1 && n - (i + 1)
                <= MAX_SUFFIX_LEN && alnum_run(b, 0, i) && alnum_run(b, i + 1, n);
            proof {
                assert(b@.take(i as int) =~= b@.subrange(0, i as int));
                assert(b@.skip(i + 1) =~= b@.subrange(i + 1, n as int));
                if ok {
                    assert(valid_id_at(s@, i as int));
                }
                if valid_id(s@) {
                    let j = separator_index(s@);
                    assert(valid_id_at(s@, j));
                    if j < i {
                    } else if i < j {
                        assert(s@.take(j)[i as int] == s@[i as int]);
                    }
                    assert(j == i);
                }
            }
            ok
        },
    }
}

} // verus!
