//! Cache keys: byte strings assembled from compiler options and program
//! contents, hashed with BLAKE3.

use vstd::prelude::*;
use vstd::utf8::encode_utf8;

verus! {

broadcast use vstd::seq_lib::to_multiset_insert;

/// What `blake3::hash` gives for `input`: the 32-byte BLAKE3 digest, which
/// depends on the input alone.
pub uninterp spec fn blake3_digest(input: Seq<u8>) -> Seq<u8>;

/// `blake3::hash`: the BLAKE3 digest of `input`, which its documentation
/// states is the same as feeding the bytes to a `Hasher` in any number of
/// `update` calls.
#[verifier::external_body]
pub(crate) fn blake3_hash(input: &Vec<u8>) -> (r: [u8; 32])
    ensures
        r@ == blake3_digest(input@),
{
    *blake3::hash(input.as_slice()).as_bytes()
}

/// The four little-endian bytes of `x`.
pub open spec fn le_u32(x: u32) -> Seq<u8> {
    seq![
        (x & 0xffu32) as u8,
        ((x >> 8u32) & 0xffu32) as u8,
        ((x >> 16u32) & 0xffu32) as u8,
        ((x >> 24u32) & 0xffu32) as u8,
    ]
}

/// The UTF-8 bytes of a string's characters.
pub open spec fn utf8(s: Seq<char>) -> Seq<u8> {
    encode_utf8(s)
}

/// Appends the little-endian bytes of `x`.
pub fn push_u32_le(out: &mut Vec<u8>, x: u32)
    ensures
        final(out)@ == old(out)@ + le_u32(x),
{
    out.push((x & 0xffu32) as u8);
    out.push(((x >> 8u32) & 0xffu32) as u8);
    out.push(((x >> 16u32) & 0xffu32) as u8);
    out.push(((x >> 24u32) & 0xffu32) as u8);
    proof {
        assert(out@ =~= old(out)@ + le_u32(x));
    }
}

/// Appends `bytes`.
pub fn push_bytes(out: &mut Vec<u8>, bytes: &[u8])
    ensures
        final(out)@ == old(out)@ + bytes@,
{
    let mut i: usize = 0;
    while i < bytes.len()
        invariant
            i <= bytes@.len(),
            out@ == old(out)@ + bytes@.subrange(0, i as int),
        decreases bytes.len() - i,
    {
        out.push(bytes[i]);
        i = i + 1;
        proof {
            assert(out@ =~= old(out)@ + bytes@.subrange(0, i as int));
        }
    }
    proof {
        assert(bytes@.subrange(0, i as int) =~= bytes@);
    }
}

/// Appends the UTF-8 bytes of `s`.
pub fn push_str_bytes(out: &mut Vec<u8>, s: &str)
    ensures
        final(out)@ == old(out)@ + utf8(s@),
{
    push_bytes(out, s.as_bytes());
}

/// `a` comes before or equals `b` in lexicographic byte order.
pub open spec fn bytes_le(a: Seq<u8>, b: Seq<u8>) -> bool
    decreases a.len(),
{
    if a.len() == 0 {
        true
    } else if b.len() == 0 {
        false
    } else if a[0] != b[0] {
        a[0] < b[0]
    } else {
        bytes_le(a.drop_first(), b.drop_first())
    }
}

/// Lexicographic byte order is total.
pub proof fn lemma_bytes_le_total(a: Seq<u8>, b: Seq<u8>)
    ensures
        bytes_le(a, b) || bytes_le(b, a),
    decreases a.len(),
{
    if a.len() > 0 && b.len() > 0 && a[0] == b[0] {
        lemma_bytes_le_total(a.drop_first(), b.drop_first());
    }
}

/// Lexicographic byte order is transitive.
pub proof fn lemma_bytes_le_transitive(a: Seq<u8>, b: Seq<u8>, c: Seq<u8>)
    requires
        bytes_le(a, b),
        bytes_le(b, c),
    ensures
        bytes_le(a, c),
    decreases a.len(),
{
    if a.len() > 0 && b.len() > 0 && c.len() > 0 && a[0] == b[0] && b[0] == c[0] {
        lemma_bytes_le_transitive(a.drop_first(), b.drop_first(), c.drop_first());
    }
}

/// Every element comes before or equals every later one.
pub open spec fn bytes_sorted(s: Seq<Seq<u8>>) -> bool {
    forall|i: int, j: int| 0 <= i < j < s.len() ==> bytes_le(#[trigger] s[i], #[trigger] s[j])
}

/// Whether `a` comes strictly before `b` in lexicographic byte order.
pub fn bytes_less(a: &[u8], b: &[u8]) -> (r: bool)
    ensures
        r == !bytes_le(b@, a@),
{
    let mut i: usize = 0;
    proof {
        assert(a@.skip(0) =~= a@);
        assert(b@.skip(0) =~= b@);
    }
    while i < a.len() && i < b.len()
        invariant
            i <= a@.len(),
            i <= b@.len(),
            a@.subrange(0, i as int) == b@.subrange(0, i as int),
            bytes_le(b@, a@) == bytes_le(b@.skip(i as int), a@.skip(i as int)),
        decreases a.len() - i,
    {
        proof {
            assert(b@.skip(i as int)[0] == b@[i as int]);
            assert(a@.skip(i as int)[0] == a@[i as int]);
            assert(b@.skip(i as int).drop_first() =~= b@.skip(i as int + 1));
            assert(a@.skip(i as int).drop_first() =~= a@.skip(i as int + 1));
        }
        if a[i] != b[i] {
            return a[i] < b[i];
        }
        i = i + 1;
        proof {
            assert(a@.subrange(0, i as int) =~= b@.subrange(0, i as int));
        }
    }
    i < b.len()
}

/// The views of a list of byte vectors.
pub open spec fn byte_views(v: Seq<Vec<u8>>) -> Seq<Seq<u8>> {
    v.map_values(|b: Vec<u8>| b@)
}

/// Inserting `x` where everything before is at most `x` and everything
/// after is above it keeps a sorted list sorted.
proof fn lemma_insert_sorted(before: Seq<Seq<u8>>, p: int, x: Seq<u8>)
    requires
        bytes_sorted(before),
        0 <= p <= before.len(),
        forall|q: int| 0 <= q < p ==> bytes_le(#[trigger] before[q], x),
        p < before.len() ==> !bytes_le(before[p], x),
    ensures
        bytes_sorted(before.insert(p, x)),
{
    let after = before.insert(p, x);
    if p < before.len() {
        lemma_bytes_le_total(before[p], x);
    }
    assert forall|i: int, j: int| 0 <= i < j < after.len() implies bytes_le(
        #[trigger] after[i],
        #[trigger] after[j],
    ) by {
        if j < p {
        } else if j == p {
        } else if i < p {
            assert(after[j] == before[j - 1]);
        } else if i == p {
            assert(after[j] == before[j - 1]);
            if j - 1 > p {
                lemma_bytes_le_transitive(x, before[p], before[j - 1]);
            }
        } else {
            assert(after[i] == before[i - 1]);
            assert(after[j] == before[j - 1]);
        }
    }
}

/// The byte strings of `names` in lexicographic order.
pub fn sort_byte_strings(names: Vec<Vec<u8>>) -> (r: Vec<Vec<u8>>)
    ensures
        bytes_sorted(byte_views(r@)),
        byte_views(r@).to_multiset() == byte_views(names@).to_multiset(),
{
    broadcast use vstd::seq_lib::to_multiset_build;
    broadcast use vstd::seq_lib::to_multiset_len;
    broadcast use vstd::multiset::group_multiset_axioms;
    broadcast use vstd::multiset::lemma_multiset_empty_len;

    let mut out: Vec<Vec<u8>> = Vec::new();
    let mut rest = names;
    proof {
        assert(byte_views(out@).len() == 0);
        assert(byte_views(out@).to_multiset().len() == 0);
        assert(byte_views(out@).to_multiset() =~= vstd::multiset::Multiset::empty());
        assert(byte_views(names@).to_multiset() =~= byte_views(out@).to_multiset().add(
            byte_views(rest@).to_multiset(),
        ));
    }
    while rest.len() > 0
        invariant
            bytes_sorted(byte_views(out@)),
            byte_views(names@).to_multiset() == byte_views(out@).to_multiset().add(
                byte_views(rest@).to_multiset(),
            ),
        decreases rest.len(),
    {
        let ghost old_rest = rest@;
        let x = rest.pop().unwrap();
        proof {
            assert(old_rest =~= rest@.push(x));
            assert(byte_views(old_rest) =~= byte_views(rest@).push(x@));
        }
        let mut p: usize = 0;
        while p < out.len() && !bytes_less(x.as_slice(), out[p].as_slice())
            invariant
                p <= out@.len(),
                forall|q: int| 0 <= q < p ==> bytes_le(#[trigger] byte_views(out@)[q], x@),
            decreases out.len() - p,
        {
            p = p + 1;
        }
        let ghost before = byte_views(out@);
        out.insert(p, x);
        proof {
            assert(byte_views(out@) =~= before.insert(p as int, x@));
            lemma_insert_sorted(before, p as int, x@);
            assert(byte_views(out@).to_multiset() == before.to_multiset().insert(x@));
            assert(old_rest =~= rest@.push(x));
            assert(byte_views(old_rest) =~= byte_views(rest@).push(x@));
            vstd::seq_lib::to_multiset_build(byte_views(rest@), x@);
            assert(byte_views(old_rest).to_multiset() == byte_views(rest@).to_multiset().insert(x@));
            assert(byte_views(names@).to_multiset() =~= byte_views(out@).to_multiset().add(
                byte_views(rest@).to_multiset(),
            ));
        }
    }
    proof {
        assert(byte_views(rest@).len() == 0);
        assert(byte_views(rest@).to_multiset().len() == 0);
        assert(byte_views(rest@).to_multiset() =~= vstd::multiset::Multiset::empty());
        assert(byte_views(out@).to_multiset() =~= byte_views(out@).to_multiset().add(
            byte_views(rest@).to_multiset(),
        ));
    }
    out
}

/// Sorting decides the order of a module's dependencies: two sorted lists of
/// the same paths are the same list, so the content hash does not depend on
/// the order in which the compiler reports the dependencies.
pub proof fn lemma_sorted_paths_unique(a: Seq<Seq<u8>>, b: Seq<Seq<u8>>)
    requires
        bytes_sorted(a),
        bytes_sorted(b),
        a.to_multiset() == b.to_multiset(),
    ensures
        a == b,
{
    let leq = |x: Seq<u8>, y: Seq<u8>| bytes_le(x, y);
    assert forall|x: Seq<u8>| #[trigger] leq(x, x) by {
        lemma_bytes_le_reflexive(x);
    }
    assert forall|x: Seq<u8>, y: Seq<u8>| #[trigger] leq(x, y) && #[trigger] leq(y, x) implies x == y by {
        lemma_bytes_le_antisymmetric(x, y);
    }
    assert forall|x: Seq<u8>, y: Seq<u8>, z: Seq<u8>| #[trigger] leq(x, y) && #[trigger] leq(y, z) implies leq(x, z) by {
        lemma_bytes_le_transitive(x, y, z);
    }
    assert forall|x: Seq<u8>, y: Seq<u8>| #[trigger] leq(x, y) || #[trigger] leq(y, x) by {
        lemma_bytes_le_total(x, y);
    }
    assert(vstd::relations::total_ordering(leq));
    assert(vstd::relations::sorted_by(a, leq));
    assert(vstd::relations::sorted_by(b, leq));
    vstd::seq_lib::lemma_sorted_unique(a, b, leq);
}

/// The bytes of `parts` one after the other.
pub open spec fn concat_bytes(parts: Seq<Seq<u8>>) -> Seq<u8>
    decreases parts.len(),
{
    if parts.len() == 0 {
        Seq::empty()
    } else {
        concat_bytes(parts.drop_last()) + parts.last()
    }
}

/// What a module's content hash digests: the main source, the number of
/// dependencies as a little-endian `u32`, then each dependency in turn.
/// Each part is a file's contents, or its path where the file could not be
/// read.
pub open spec fn content_preimage(main: Seq<u8>, dependencies: Seq<Seq<u8>>) -> Seq<u8> {
    main + le_u32(dependencies.len() as u32) + concat_bytes(dependencies)
}

/// The content hash of a module from its main source and its dependencies,
/// the latter in the order of their sorted paths.
pub fn module_content_hash(main: &Vec<u8>, dependencies: &Vec<Vec<u8>>) -> (r: [u8; 32])
    ensures
        r@ == blake3_digest(content_preimage(main@, byte_views(dependencies@))),
{
    let mut preimage: Vec<u8> = Vec::new();
    push_bytes(&mut preimage, main.as_slice());
    push_u32_le(&mut preimage, dependencies.len() as u32);
    let ghost head = preimage@;
    let mut i: usize = 0;
    while i < dependencies.len()
        invariant
            i <= dependencies@.len(),
            preimage@ == head + concat_bytes(byte_views(dependencies@).take(i as int)),
        decreases dependencies.len() - i,
    {
        proof {
            assert(byte_views(dependencies@).take(i as int + 1).drop_last() =~= byte_views(
                dependencies@,
            ).take(i as int));
        }
        push_bytes(&mut preimage, dependencies[i].as_slice());
        i = i + 1;
        proof {
            assert(preimage@ =~= head + concat_bytes(byte_views(dependencies@).take(i as int)));
        }
    }
    proof {
        assert(byte_views(dependencies@).take(i as int) =~= byte_views(dependencies@));
    }
    blake3_hash(&preimage)
}

/// Lexicographic byte order is reflexive.
pub proof fn lemma_bytes_le_reflexive(a: Seq<u8>)
    ensures
        bytes_le(a, a),
    decreases a.len(),
{
    if a.len() > 0 {
        lemma_bytes_le_reflexive(a.drop_first());
    }
}

/// Lexicographic byte order is antisymmetric.
pub proof fn lemma_bytes_le_antisymmetric(a: Seq<u8>, b: Seq<u8>)
    requires
        bytes_le(a, b),
        bytes_le(b, a),
    ensures
        a == b,
    decreases a.len(),
{
    if a.len() > 0 && b.len() > 0 {
        lemma_bytes_le_antisymmetric(a.drop_first(), b.drop_first());
        assert(a =~= seq![a[0]] + a.drop_first());
        assert(b =~= seq![b[0]] + b.drop_first());
    } else {
        assert(a =~= b);
    }
}

/// Different character sequences have different UTF-8 encodings.
pub proof fn lemma_utf8_injective(a: Seq<char>, b: Seq<char>)
    requires
        utf8(a) == utf8(b),
    ensures
        a == b,
{
    broadcast use vstd::utf8::encode_utf8_decode_utf8;

    assert(vstd::utf8::decode_utf8(utf8(a)) == a);
    assert(vstd::utf8::decode_utf8(utf8(b)) == b);
}

/// `a` comes strictly before `b` in the byte order of their UTF-8
/// encodings, which is how Rust orders strings.
pub open spec fn str_lt(a: Seq<char>, b: Seq<char>) -> bool {
    !bytes_le(utf8(b), utf8(a))
}

/// String order is irreflexive.
pub proof fn lemma_str_lt_irreflexive(a: Seq<char>)
    ensures
        !str_lt(a, a),
{
    lemma_bytes_le_reflexive(utf8(a));
}

/// String order is transitive.
pub proof fn lemma_str_lt_transitive(a: Seq<char>, b: Seq<char>, c: Seq<char>)
    requires
        str_lt(a, b),
        str_lt(b, c),
    ensures
        str_lt(a, c),
{
    lemma_bytes_le_total(utf8(a), utf8(b));
    lemma_bytes_le_total(utf8(b), utf8(c));
    lemma_bytes_le_transitive(utf8(a), utf8(b), utf8(c));
    if bytes_le(utf8(c), utf8(a)) {
        lemma_bytes_le_antisymmetric(utf8(a), utf8(c));
    }
}

/// String order is total.
pub proof fn lemma_str_lt_total(a: Seq<char>, b: Seq<char>)
    ensures
        a == b || str_lt(a, b) || str_lt(b, a),
{
    if !str_lt(a, b) && !str_lt(b, a) {
        lemma_bytes_le_antisymmetric(utf8(a), utf8(b));
        lemma_utf8_injective(a, b);
    }
}

/// Whether `a` comes strictly before `b` in string order.
pub fn str_less(a: &str, b: &str) -> (r: bool)
    ensures
        r == str_lt(a@, b@),
{
    bytes_less(a.as_bytes(), b.as_bytes())
}

} // verus!
