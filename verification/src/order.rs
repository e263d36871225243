//! The order in which keys are listed: by the bytes of their names.

use vstd::prelude::*;
use vstd::relations::{
    antisymmetric, reflexive, sorted_by, strongly_connected, total_ordering, transitive,
};
use vstd::seq_lib::lemma_multiset_commutative;
use vstd::utf8::{encode_utf8, encode_utf8_decode_utf8};

verus! {

/// Byte strings in dictionary order: the first byte that differs decides, and a string comes
/// before every longer one that starts with it.
pub open spec fn bytes_in_order(a: Seq<u8>, b: Seq<u8>) -> bool
    decreases a.len(),
{
    if a.len() == 0 {
        true
    } else if b.len() == 0 {
        false
    } else if a[0] != b[0] {
        a[0] < b[0]
    } else {
        bytes_in_order(a.drop_first(), b.drop_first())
    }
}

/// Names in order: their UTF-8 bytes are in dictionary order.
pub open spec fn in_order(a: Seq<char>, b: Seq<char>) -> bool {
    bytes_in_order(encode_utf8(a), encode_utf8(b))
}

/// `in_order` as a relation.
pub open spec fn name_order() -> spec_fn(Seq<char>, Seq<char>) -> bool {
    |a: Seq<char>, b: Seq<char>| in_order(a, b)
}

/// What a list of names says.
pub open spec fn texts(names: Seq<String>) -> Seq<Seq<char>> {
    names.map_values(|name: String| name@)
}

proof fn lemma_bytes_reflexive(a: Seq<u8>)
    ensures
        bytes_in_order(a, a),
    decreases a.len(),
{
    if a.len() > 0 {
        lemma_bytes_reflexive(a.drop_first());
    }
}

proof fn lemma_bytes_antisymmetric(a: Seq<u8>, b: Seq<u8>)
    requires
        bytes_in_order(a, b),
        bytes_in_order(b, a),
    ensures
        a == b,
    decreases a.len(),
{
    if a.len() > 0 {
        lemma_bytes_antisymmetric(a.drop_first(), b.drop_first());
        assert(a =~= seq![a[0]] + a.drop_first());
        assert(b =~= seq![b[0]] + b.drop_first());
    } else {
        assert(a =~= b);
    }
}

proof fn lemma_bytes_transitive(a: Seq<u8>, b: Seq<u8>, c: Seq<u8>)
    requires
        bytes_in_order(a, b),
        bytes_in_order(b, c),
    ensures
        bytes_in_order(a, c),
    decreases a.len(),
{
    if a.len() > 0 && a[0] == b[0] && b[0] == c[0] {
        lemma_bytes_transitive(a.drop_first(), b.drop_first(), c.drop_first());
    }
}

proof fn lemma_bytes_total(a: Seq<u8>, b: Seq<u8>)
    ensures
        bytes_in_order(a, b) || bytes_in_order(b, a),
    decreases a.len(),
{
    if a.len() > 0 && b.len() > 0 && a[0] == b[0] {
        lemma_bytes_total(a.drop_first(), b.drop_first());
    }
}

/// The first byte that differs decides: of two byte strings that agree up to there, the one with
/// the smaller byte comes first, and the other does not.
pub proof fn the_first_difference_decides(a: Seq<u8>, b: Seq<u8>, n: int)
    requires
        0 <= n < a.len(),
        n < b.len(),
        forall|i: int| 0 <= i < n ==> #[trigger] a[i] == b[i],
        a[n] != b[n],
    ensures
        bytes_in_order(a, b) <==> a[n] < b[n],
    decreases n,
{
    if n > 0 {
        assert(a[0] == b[0]);
        assert forall|i: int| 0 <= i < n - 1 implies #[trigger] a.drop_first()[i]
            == b.drop_first()[i] by {
            assert(a[i + 1] == b[i + 1]);
        }
        the_first_difference_decides(a.drop_first(), b.drop_first(), n - 1);
    }
}

/// A byte string comes before every longer one that starts with it, and the longer one does not
/// come before it.
pub proof fn the_shorter_comes_first(a: Seq<u8>, b: Seq<u8>)
    requires
        a.len() < b.len(),
        forall|i: int| 0 <= i < a.len() ==> #[trigger] a[i] == b[i],
    ensures
        bytes_in_order(a, b),
        !bytes_in_order(b, a),
    decreases a.len(),
{
    if a.len() > 0 {
        assert(a[0] == b[0]);
        assert forall|i: int| 0 <= i < a.len() - 1 implies #[trigger] a.drop_first()[i]
            == b.drop_first()[i] by {
            assert(a[i + 1] == b[i + 1]);
        }
        the_shorter_comes_first(a.drop_first(), b.drop_first());
    }
}

/// Names are ordered by their UTF-8 bytes: where these agree up to some place and differ there, the
/// smaller byte comes first; and where the one name starts with the other, the shorter comes first.
pub proof fn names_are_ordered_by_their_bytes(a: Seq<char>, b: Seq<char>, n: int)
    requires
        0 <= n <= encode_utf8(a).len(),
        n <= encode_utf8(b).len(),
        forall|i: int| 0 <= i < n ==> #[trigger] encode_utf8(a)[i] == encode_utf8(b)[i],
    ensures
        n < encode_utf8(a).len() && n < encode_utf8(b).len() && encode_utf8(a)[n] != encode_utf8(
            b,
        )[n] ==> (name_order()(a, b) <==> encode_utf8(a)[n] < encode_utf8(b)[n]),
        n == encode_utf8(a).len() ==> name_order()(a, b),
        n == encode_utf8(b).len() && n < encode_utf8(a).len() ==> !name_order()(a, b),
        name_order()(a, b) <==> in_order(a, b),
{
    let x = encode_utf8(a);
    let y = encode_utf8(b);
    if n < x.len() && n < y.len() && x[n] != y[n] {
        the_first_difference_decides(x, y, n);
    }
    if n == x.len() {
        if n < y.len() {
            the_shorter_comes_first(x, y);
        } else {
            assert(x =~= y);
            lemma_bytes_reflexive(x);
        }
    } else if n == y.len() {
        the_shorter_comes_first(y, x);
    }
}

/// A list of names says each of its names, in its place, and nothing else.
pub proof fn texts_are_those_of_the_names(names: Seq<String>)
    ensures
        texts(names).len() == names.len(),
        forall|i: int| 0 <= i < names.len() ==> #[trigger] texts(names)[i] == names[i]@,
{
}

/// The order of names is total: any two names can be ordered, and only equal names are in order
/// both ways round.
pub proof fn name_order_is_total()
    ensures
        total_ordering(name_order()),
{
    let leq = name_order();
    assert(reflexive(leq)) by {
        assert forall|a: Seq<char>| #[trigger] leq(a, a) by {
            lemma_bytes_reflexive(encode_utf8(a));
        }
    }
    assert(antisymmetric(leq)) by {
        assert forall|a: Seq<char>, b: Seq<char>| #[trigger] leq(a, b) && #[trigger] leq(b, a)
            implies a == b by {
            lemma_bytes_antisymmetric(encode_utf8(a), encode_utf8(b));
            encode_utf8_decode_utf8(a);
            encode_utf8_decode_utf8(b);
        }
    }
    assert(transitive(leq)) by {
        assert forall|a: Seq<char>, b: Seq<char>, c: Seq<char>|
            #[trigger] leq(a, b) && #[trigger] leq(b, c) implies leq(a, c) by {
            lemma_bytes_transitive(encode_utf8(a), encode_utf8(b), encode_utf8(c));
        }
    }
    assert(strongly_connected(leq)) by {
        assert forall|a: Seq<char>, b: Seq<char>| #[trigger] leq(a, b) || #[trigger] leq(b, a) by {
            lemma_bytes_total(encode_utf8(a), encode_utf8(b));
        }
    }
}

/// Inserting an element anywhere in a sequence adds it to the elements.
proof fn lemma_insert_multiset<A>(s: Seq<A>, at: int, a: A)
    requires
        0 <= at <= s.len(),
    ensures
        s.insert(at, a).to_multiset() == s.to_multiset().insert(a),
{
    broadcast use vstd::seq_lib::group_to_multiset_ensures;

    let front = s.take(at);
    let back = s.skip(at);
    assert(s.insert(at, a) =~= front.push(a) + back);
    assert(s =~= front + back);
    lemma_multiset_commutative(front.push(a), back);
    lemma_multiset_commutative(front, back);
    assert(s.insert(at, a).to_multiset() =~= s.to_multiset().insert(a));
}

/// Whether two byte strings are in dictionary order.
fn compare_bytes(a: &[u8], b: &[u8]) -> (ordered: bool)
    ensures
        ordered == bytes_in_order(a@, b@),
{
    let mut i: usize = 0;
    assert(a@.skip(0) =~= a@);
    assert(b@.skip(0) =~= b@);
    while i < a.len() && i < b.len()
        invariant
            i <= a@.len(),
            i <= b@.len(),
            bytes_in_order(a@, b@) == bytes_in_order(a@.skip(i as int), b@.skip(i as int)),
        decreases a@.len() - i,
    {
        if a[i] != b[i] {
            return a[i] < b[i];
        }
        assert(a@.skip(i as int).drop_first() =~= a@.skip(i + 1));
        assert(b@.skip(i as int).drop_first() =~= b@.skip(i + 1));
        i = i + 1;
    }
    i == a.len()
}

/// Whether two names are in order.
pub(crate) fn names_in_order(a: &str, b: &str) -> (ordered: bool)
    ensures
        ordered == in_order(a@, b@),
{
    compare_bytes(a.as_bytes(), b.as_bytes())
}

/// Puts a name into its place among sorted names.
pub(crate) fn insert_in_order(names: &mut Vec<String>, name: String)
    requires
        sorted_by(texts(old(names)@), name_order()),
    ensures
        sorted_by(texts(final(names)@), name_order()),
        texts(final(names)@).to_multiset() == texts(old(names)@).to_multiset().insert(name@),
{
    let mut at: usize = names.len();
    let ghost before = texts(names@);
    while at > 0 && !names_in_order(names[at - 1].as_str(), name.as_str())
        invariant
            at <= names@.len(),
            before == texts(names@),
            forall|k: int| at <= k < before.len() ==> !#[trigger] in_order(before[k], name@),
        decreases at,
    {
        at = at - 1;
    }
    proof {
        name_order_is_total();
        let leq = name_order();
        let after = before.insert(at as int, name@);
        assert forall|i: int, j: int| 0 <= i < j < after.len() implies #[trigger] leq(
            after[i],
            after[j],
        ) by {
            if j < at {
                assert(leq(before[i], before[j]));
            } else if j == at {
                assert(leq(before[at - 1], name@));
                if i < at - 1 {
                    assert(leq(before[i], before[at - 1]));
                }
            } else if i < at {
                assert(leq(before[i], before[j - 1]));
            } else if i == at {
                assert(!leq(before[j - 1], name@));
                assert(leq(name@, before[j - 1]));
            } else {
                assert(leq(before[i - 1], before[j - 1]));
            }
        }
        lemma_insert_multiset(before, at as int, name@);
    }
    names.insert(at, name);
    assert(texts(names@) =~= before.insert(at as int, name@));
}

} // verus!
