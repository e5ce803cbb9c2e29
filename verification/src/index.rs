//! Prefix-searchable sets of names, kept in finite-state transducers.

use fst::Automaton;
use fst::IntoStreamer;
use vstd::prelude::*;
use vstd::utf8::{encode_utf8, valid_utf8};
use crate::text::views;

verus! {

/// The set type of the `fst` crate: an immutable, ordered set of byte
/// strings. Its contents are opaque here and spoken of through `set_keys`.
#[verifier::external_type_specification]
#[verifier::external_body]
#[verifier::reject_recursive_types(D)]
pub struct ExFstSet<D>(fst::Set<D>);

/// The keys that a set holds.
pub uninterp spec fn set_keys(s: fst::Set<Vec<u8>>) -> Set<Seq<u8>>;

/// Lexicographic order on byte strings: `a` is at most `b`.
pub open spec fn bytes_le(a: Seq<u8>, b: Seq<u8>) -> bool
    decreases a.len(),
{
    if a.len() == 0 {
        true
    } else if b.len() == 0 {
        false
    } else if a[0] != b[0] {
        a[0] < b[0]
    } else {
        bytes_le(a.skip(1), b.skip(1))
    }
}

/// The UTF-8 encodings of the given names, as a set.
pub open spec fn encoded(names: Seq<Seq<char>>) -> Set<Seq<u8>> {
    Set::new(|k: Seq<u8>| exists|i: int| 0 <= i < names.len() && k == encode_utf8(#[trigger] names[i]))
}

/// Every name is at most each later one, by the bytes of their encodings.
pub open spec fn ascending(names: Seq<Seq<char>>) -> bool {
    forall|i: int, j: int|
        0 <= i < j < names.len() ==> bytes_le(
            encode_utf8(#[trigger] names[i]),
            encode_utf8(#[trigger] names[j]),
        )
}

/// Every name is at most its successor, by the bytes of their encodings.
pub open spec fn in_order(names: Seq<Seq<char>>) -> bool {
    forall|i: int|
        0 <= i < names.len() - 1 ==> bytes_le(
            encode_utf8(#[trigger] names[i]),
            encode_utf8(names[i + 1]),
        )
}

/// `out` lists exactly the keys that start with `prefix`, each once, in
/// strictly ascending byte order.
pub open spec fn is_listing(out: Seq<Seq<char>>, keys: Set<Seq<u8>>, prefix: Seq<u8>) -> bool {
    &&& forall|i: int|
        0 <= i < out.len() ==> keys.contains(encode_utf8(#[trigger] out[i])) && prefix.is_prefix_of(
            encode_utf8(out[i]),
        )
    &&& forall|k: Seq<u8>|
        #[trigger] keys.contains(k) && prefix.is_prefix_of(k) ==> exists|i: int|
            0 <= i < out.len() && encode_utf8(#[trigger] out[i]) == k
    &&& forall|i: int, j: int|
        0 <= i < j < out.len() ==> encode_utf8(#[trigger] out[i]) != encode_utf8(
            #[trigger] out[j],
        ) && bytes_le(encode_utf8(out[i]), encode_utf8(out[j]))
}

/// Every key that starts with `prefix` is well-formed UTF-8.
pub open spec fn matches_are_text(keys: Set<Seq<u8>>, prefix: Seq<u8>) -> bool {
    forall|k: Seq<u8>| #[trigger] keys.contains(k) && prefix.is_prefix_of(k) ==> valid_utf8(k)
}

/// Sorts the names by `sort` of slices, which orders `String`s by their
/// bytes and keeps every element: the result is a rearrangement of the
/// input in ascending order.
#[verifier::external_body]
fn sort_names(names: &mut Vec<String>)
    ensures
        views(final(names)@).to_multiset() == views(old(names)@).to_multiset(),
        ascending(views(final(names)@)),
{
    names.sort();
}

/// Builds a set by `fst::Set::from_iter`, which takes the keys in order and
/// fails exactly where a key is smaller than the one before it; equal
/// neighbours are taken once. The set holds the bytes of the names.
#[verifier::external_body]
fn build_set(names: &Vec<String>) -> (r: Option<fst::Set<Vec<u8>>>)
    ensures
        r.is_some() <==> in_order(views(names@)),
        r matches Some(s) ==> set_keys(s) == encoded(views(names@)),
{
    fst::Set::from_iter(names.iter()).ok()
}

/// Searches a set by `fst::Set::search` with the automaton
/// `Str::new(prefix).starts_with()` and collects the stream by `into_strs`:
/// the keys that start with the bytes of `prefix`, in ascending order, each
/// decoded as UTF-8. It fails exactly where one of these keys is no UTF-8.
#[verifier::external_body]
fn search_prefix(set: &fst::Set<Vec<u8>>, prefix: &str) -> (r: Option<Vec<String>>)
    ensures
        r.is_some() <==> matches_are_text(set_keys(*set), encode_utf8(prefix@)),
        r matches Some(v) ==> is_listing(views(v@), set_keys(*set), encode_utf8(prefix@)),
{
    set.search(fst::automaton::Str::new(prefix).starts_with()).into_stream().into_strs().ok()
}

/// Two sequences with the same elements have the same encodings.
pub proof fn lemma_encoded_of_rearranged(a: Seq<Seq<char>>, b: Seq<Seq<char>>)
    requires
        a.to_multiset() == b.to_multiset(),
    ensures
        encoded(a) == encoded(b),
{
    a.to_multiset_ensures();
    b.to_multiset_ensures();
    assert forall|k: Seq<u8>| encoded(a).contains(k) <==> encoded(b).contains(k) by {
        if encoded(a).contains(k) {
            let i = choose|i: int| 0 <= i < a.len() && k == encode_utf8(#[trigger] a[i]);
            assert(a.contains(a[i]));
            assert(a.to_multiset().count(a[i]) > 0);
            assert(b.to_multiset().count(a[i]) > 0);
            assert(b.contains(a[i]));
            let j = choose|j: int| 0 <= j < b.len() && b[j] == a[i];
            assert(k == encode_utf8(b[j]));
        }
        if encoded(b).contains(k) {
            let i = choose|i: int| 0 <= i < b.len() && k == encode_utf8(#[trigger] b[i]);
            assert(b.contains(b[i]));
            assert(b.to_multiset().count(b[i]) > 0);
            assert(a.to_multiset().count(b[i]) > 0);
            assert(a.contains(b[i]));
            let j = choose|j: int| 0 <= j < a.len() && a[j] == b[i];
            assert(k == encode_utf8(a[j]));
        }
    }
    assert(encoded(a) =~= encoded(b));
}

/// A set that holds exactly the given names. The names may come in any
/// order and may repeat.
pub fn make_index(names: Vec<String>) -> (r: Option<fst::Set<Vec<u8>>>)
    ensures
        r.is_some(),
        set_keys(r.unwrap()) == encoded(views(names@)),
{
    let mut sorted = names;
    sort_names(&mut sorted);
    proof {
        lemma_encoded_of_rearranged(views(sorted@), views(names@));
    }
    build_set(&sorted)
}

/// The names in `set` that start with `prefix`, in ascending byte order.
/// Where a matching key is no text, there are none.
pub fn names_with_prefix(set: &fst::Set<Vec<u8>>, prefix: &str) -> (out: Vec<String>)
    ensures
        matches_are_text(set_keys(*set), encode_utf8(prefix@)) ==> is_listing(
            views(out@),
            set_keys(*set),
            encode_utf8(prefix@),
        ),
        !matches_are_text(set_keys(*set), encode_utf8(prefix@)) ==> out@.len() == 0,
{
    match search_prefix(set, prefix) {
        Some(v) => v,
        None => Vec::new(),
    }
}

/// A set built from names holds text only.
pub proof fn lemma_encoded_is_text(names: Seq<Seq<char>>, prefix: Seq<u8>)
    ensures
        matches_are_text(encoded(names), prefix),
{
    assert forall|k: Seq<u8>| #[trigger]
        encoded(names).contains(k) && prefix.is_prefix_of(k) implies valid_utf8(k) by {
        let i = choose|i: int| 0 <= i < names.len() && k == encode_utf8(#[trigger] names[i]);
        vstd::utf8::encode_utf8_valid_utf8(names[i]);
    }
}

/// What a listing of a set built from names holds: only names of the set.
pub proof fn lemma_listing_within(out: Seq<Seq<char>>, names: Seq<Seq<char>>, prefix: Seq<u8>)
    requires
        is_listing(out, encoded(names), prefix),
    ensures
        forall|i: int| 0 <= i < out.len() ==> names.contains(#[trigger] out[i]),
{
    assert forall|i: int| 0 <= i < out.len() implies names.contains(#[trigger] out[i]) by {
        let k = encode_utf8(out[i]);
        assert(encoded(names).contains(k));
        let j = choose|j: int| 0 <= j < names.len() && k == encode_utf8(#[trigger] names[j]);
        vstd::utf8::encode_utf8_decode_utf8(out[i]);
        vstd::utf8::encode_utf8_decode_utf8(names[j]);
        assert(out[i] == names[j]);
    }
}

} // verus!
