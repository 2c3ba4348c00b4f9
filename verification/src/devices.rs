//! The device nodes of a directory.

use vstd::prelude::*;
use vstd::string::*;

use crate::text::starts_with;

verus! {

/// Whether a string of bytes stands before another in a dictionary, or equals it.
pub open spec fn bytes_in_order(a: Seq<u8>, b: Seq<u8>) -> bool
    decreases a.len(),
{
    if a.len() == 0 {
        true
    } else if b.len() == 0 {
        false
    } else if a[0] != b[0] {
        a[0] < b[0]
    } else {
        bytes_in_order(a.drop_first(), b.drop_first())
    }
}

/// Whether a name stands before another, or equals it: names are ordered by their bytes.
pub open spec fn in_order(a: Seq<char>, b: Seq<char>) -> bool {
    bytes_in_order(vstd::utf8::encode_utf8(a), vstd::utf8::encode_utf8(b))
}

/// Whether names follow each other in order.
pub open spec fn is_sorted(names: Seq<Seq<char>>) -> bool {
    forall|i: int, j: int| 0 <= i < j < names.len() ==> in_order(names[i], names[j])
}

/// The names that begin with a prefix.
pub open spec fn with_prefix(names: Seq<Seq<char>>, prefix: Seq<char>) -> Seq<Seq<char>> {
    names.filter(|name: Seq<char>| prefix.is_prefix_of(name))
}

proof fn lemma_order_is_total(a: Seq<u8>, b: Seq<u8>)
    ensures
        bytes_in_order(a, b) || bytes_in_order(b, a),
    decreases a.len(),
{
    if a.len() > 0 && b.len() > 0 {
        lemma_order_is_total(a.drop_first(), b.drop_first());
    }
}

proof fn lemma_order_is_transitive(a: Seq<u8>, b: Seq<u8>, c: Seq<u8>)
    requires
        bytes_in_order(a, b),
        bytes_in_order(b, c),
    ensures
        bytes_in_order(a, c),
    decreases a.len(),
{
    if a.len() > 0 && b.len() > 0 && c.len() > 0 && a[0] == b[0] && b[0] == c[0] {
        lemma_order_is_transitive(a.drop_first(), b.drop_first(), c.drop_first());
    }
}

proof fn lemma_order_is_antisymmetric(a: Seq<u8>, b: Seq<u8>)
    requires
        bytes_in_order(a, b),
        bytes_in_order(b, a),
    ensures
        a == b,
    decreases a.len(),
{
    if a.len() > 0 && b.len() > 0 {
        lemma_order_is_antisymmetric(a.drop_first(), b.drop_first());
        assert(a =~= seq![a[0]] + a.drop_first());
        assert(b =~= seq![b[0]] + b.drop_first());
    } else {
        assert(a =~= b);
    }
}

/// Whether a name stands before another, or equals it.
fn is_in_order(a: &str, b: &str) -> (result: bool)
    ensures
        result == in_order(a@, b@),
{
    let left = a.as_bytes();
    let right = b.as_bytes();
    let mut i: usize = 0;
    assert(left@.skip(0) =~= left@);
    assert(right@.skip(0) =~= right@);
    while i < left.len() && i < right.len() && left[i] == right[i]
        invariant
            i <= left@.len(),
            i <= right@.len(),
            bytes_in_order(left@, right@) == bytes_in_order(
                left@.skip(i as int),
                right@.skip(i as int),
            ),
        decreases left@.len() - i,
    {
        assert(left@.skip(i as int).drop_first() =~= left@.skip(i + 1));
        assert(right@.skip(i as int).drop_first() =~= right@.skip(i + 1));
        i = i + 1;
    }
    if i == left.len() {
        true
    } else if i == right.len() {
        false
    } else {
        left[i] < right[i]
    }
}

/// Adds a name to sorted names, at its place.
fn insert_sorted(names: &mut Vec<String>, name: String)
    requires
        is_sorted(crate::text::texts(old(names)@)),
    ensures
        is_sorted(crate::text::texts(final(names)@)),
        crate::text::texts(final(names)@).to_multiset() == crate::text::texts(
            old(names)@,
        ).to_multiset().insert(name@),
{
    let ghost before = crate::text::texts(names@);
    let mut at: usize = 0;
    while at < names.len() && is_in_order(names[at].as_str(), name.as_str())
        invariant
            at <= names@.len(),
            before == crate::text::texts(names@),
            forall|k: int| 0 <= k < at ==> in_order(#[trigger] before[k], name@),
        decreases names@.len() - at,
    {
        at = at + 1;
    }
    proof {
        assert forall|k: int| at <= k < before.len() implies in_order(
            name@,
            #[trigger] before[k],
        ) by {
            let first = vstd::utf8::encode_utf8(before[at as int]);
            lemma_order_is_total(first, vstd::utf8::encode_utf8(name@));
            if at < k {
                assert(in_order(before[at as int], before[k]));
                lemma_order_is_transitive(
                    vstd::utf8::encode_utf8(name@),
                    first,
                    vstd::utf8::encode_utf8(before[k]),
                );
            }
        }
    }
    let ghost added = name@;
    names.insert(at, name);
    proof {
        let after = crate::text::texts(names@);
        assert(after =~= before.insert(at as int, added));
        vstd::seq_lib::to_multiset_insert(before, at as int, added);
    }
}

/// The device nodes of a directory whose names begin with a prefix, in order.
pub fn device_nodes(names: &Vec<String>, prefix: &str) -> (nodes: Vec<String>)
    ensures
        is_sorted(crate::text::texts(nodes@)),
        crate::text::texts(nodes@).to_multiset() == with_prefix(
            crate::text::texts(names@),
            prefix@,
        ).to_multiset(),
{
    let ghost all = crate::text::texts(names@);
    let mut nodes: Vec<String> = Vec::new();
    proof {
        reveal(Seq::filter);
        assert(all.take(0) =~= Seq::empty());
        assert(crate::text::texts(nodes@) =~= with_prefix(all.take(0), prefix@));
    }
    for i in 0..names.len()
        invariant
            all == crate::text::texts(names@),
            is_sorted(crate::text::texts(nodes@)),
            crate::text::texts(nodes@).to_multiset() == with_prefix(
                all.take(i as int),
                prefix@,
            ).to_multiset(),
    {
        proof {
            reveal(Seq::filter);
            assert(all.take(i + 1).drop_last() =~= all.take(i as int));
            vstd::seq_lib::to_multiset_build(with_prefix(all.take(i as int), prefix@), all[i as int]);
        }
        if starts_with(names[i].as_str(), prefix) {
            insert_sorted(&mut nodes, names[i].clone());
        }
    }
    assert(all.take(all.len() as int) =~= all);
    nodes
}

/// Names are totally ordered.
pub proof fn law_names_are_ordered(a: Seq<char>, b: Seq<char>, c: Seq<char>)
    ensures
        in_order(a, b) || in_order(b, a),
        in_order(a, b) && in_order(b, a) ==> a == b,
        in_order(a, b) && in_order(b, c) ==> in_order(a, c),
{
    let (first, second, third) = (
        vstd::utf8::encode_utf8(a),
        vstd::utf8::encode_utf8(b),
        vstd::utf8::encode_utf8(c),
    );
    lemma_order_is_total(first, second);
    if in_order(a, b) && in_order(b, a) {
        lemma_order_is_antisymmetric(first, second);
        vstd::utf8::encode_utf8_decode_utf8(a);
        vstd::utf8::encode_utf8_decode_utf8(b);
    }
    if in_order(a, b) && in_order(b, c) {
        lemma_order_is_transitive(first, second, third);
    }
}

/// There is one way to sort a directory.
pub proof fn law_one_listing(a: Seq<Seq<char>>, b: Seq<Seq<char>>)
    requires
        is_sorted(a),
        is_sorted(b),
        a.to_multiset() == b.to_multiset(),
    ensures
        a == b,
{
    let leq = |x: Seq<char>, y: Seq<char>| in_order(x, y);
    assert forall|x: Seq<char>| #[trigger] leq(x, x) by {
        law_names_are_ordered(x, x, x);
    }
    assert forall|x: Seq<char>, y: Seq<char>| #[trigger] leq(x, y) && #[trigger] leq(y, x) implies x
        == y by {
        law_names_are_ordered(x, y, y);
    }
    assert forall|x: Seq<char>, y: Seq<char>| #[trigger] leq(x, y) || #[trigger] leq(y, x) by {
        law_names_are_ordered(x, y, y);
    }
    assert forall|x: Seq<char>, y: Seq<char>, z: Seq<char>| #[trigger]
        leq(x, y) && #[trigger] leq(y, z) implies leq(x, z) by {
        law_names_are_ordered(x, y, z);
    }
    vstd::seq_lib::lemma_sorted_unique(a, b, leq);
}

/// A name stands before every name that goes on behind it, and else the first byte in which two
/// names differ decides: the smaller one stands first.
pub proof fn law_first_difference_decides(
    common: Seq<u8>,
    a: u8,
    b: u8,
    rest: Seq<u8>,
    other: Seq<u8>,
)
    ensures
        bytes_in_order(common, common + rest),
        rest.len() > 0 ==> !bytes_in_order(common + rest, common),
        a != b ==> bytes_in_order(common + seq![a] + rest, common + seq![b] + other) == (a < b),
    decreases common.len(),
{
    if common.len() > 0 {
        let tail = common.drop_first();
        law_first_difference_decides(tail, a, b, rest, other);
        assert((common + rest).drop_first() =~= tail + rest);
        assert((common + seq![a] + rest).drop_first() =~= tail + seq![a] + rest);
        assert((common + seq![b] + other).drop_first() =~= tail + seq![b] + other);
    } else {
        assert(common + rest =~= rest);
    }
}

/// What is listed of a directory are its names that begin with the prefix.
pub proof fn law_listing_goes_by_the_prefix(
    names: Seq<Seq<char>>,
    prefix: Seq<char>,
    name: Seq<char>,
)
    ensures
        with_prefix(names, prefix).contains(name) <==> names.contains(name) && prefix.len()
            <= name.len() && name.take(prefix.len() as int) == prefix,
    decreases names.len(),
{
    reveal(Seq::filter);
    if names.len() > 0 {
        let before = names.drop_last();
        let last = names.last();
        law_listing_goes_by_the_prefix(before, prefix, name);
        let kept = with_prefix(before, prefix);
        assert(names =~= before.push(last));
        assert(prefix.is_prefix_of(last) <==> prefix.len() <= last.len() && last.take(
            prefix.len() as int,
        ) =~= prefix);
        assert(names.contains(name) <==> before.contains(name) || name == last) by {
            if before.contains(name) {
                let k = choose|k: int| 0 <= k < before.len() && before[k] == name;
                assert(names[k] == name);
            }
            if name == last {
                assert(names[names.len() - 1] == name);
            }
        }
        if prefix.is_prefix_of(last) {
            assert(with_prefix(names, prefix) == kept.push(last));
            if kept.contains(name) {
                let k = choose|k: int| 0 <= k < kept.len() && kept[k] == name;
                assert(kept.push(last)[k] == name);
            }
            assert(kept.push(last)[kept.len() as int] == last);
        }
    }
}

/// Names are compared by their UTF-8 bytes, and a name stands before those that go on behind it.
pub proof fn law_names_are_compared_by_bytes(a: Seq<char>, b: Seq<char>, more: Seq<char>)
    ensures
        in_order(a, b) == bytes_in_order(vstd::utf8::encode_utf8(a), vstd::utf8::encode_utf8(b)),
        in_order(a, a + more),
        more.len() > 0 ==> !in_order(a + more, a),
{
    let bytes = vstd::utf8::encode_utf8(a);
    let tail = vstd::utf8::encode_utf8(more);
    lemma_encode_joins(a, more);
    law_first_difference_decides(bytes, 0, 0, tail, tail);
    if more.len() > 0 && in_order(a + more, a) {
        law_names_are_ordered(a, a + more, a);
        assert((a + more).len() == a.len() + more.len());
    }
}

proof fn lemma_encode_joins(a: Seq<char>, more: Seq<char>)
    ensures
        vstd::utf8::encode_utf8(a + more) == vstd::utf8::encode_utf8(a) + vstd::utf8::encode_utf8(
            more,
        ),
    decreases a.len(),
{
    reveal_with_fuel(vstd::utf8::encode_utf8, 2);
    if a.len() == 0 {
        assert(a + more =~= more);
        assert(vstd::utf8::encode_utf8(a) =~= Seq::empty());
        assert(vstd::utf8::encode_utf8(a) + vstd::utf8::encode_utf8(more)
            =~= vstd::utf8::encode_utf8(more));
    } else {
        lemma_encode_joins(a.drop_first(), more);
        assert((a + more).drop_first() =~= a.drop_first() + more);
        assert(vstd::utf8::encode_utf8(a + more) =~= vstd::utf8::encode_utf8(a)
            + vstd::utf8::encode_utf8(more));
    }
}

} // verus!
