//! What holds of the content of a mount and of its hash.

use crate::error::ErrorView;
use crate::fingerprint::{
    absorbed, chunks, content_hash, entry_chunks, started, surveyed, SurveyStepView, KEY_END,
};
use crate::mount::{
    as_text, internal, key_file, key_names, keys_are_the_visible_names_sorted, snapshot_dir,
    visible, DataEntryView,
};
use crate::order::{name_order, name_order_is_total};
use crate::path::{absolute, SEPARATOR};
use crate::text::lossy_text;
use std::collections::hash_map::DefaultHasher;
use vstd::bytes::{lemma_auto_spec_u64_to_from_le_bytes, spec_u64_to_le_bytes};
use vstd::prelude::*;
use vstd::seq_lib::{lemma_multiset_commutative, lemma_sorted_unique};
use vstd::std_specs::hash::DefaultHasherAdditionalSpecFns;
use vstd::utf8::{
    encode_utf8, encode_utf8_decode_utf8, encode_utf8_valid_utf8, pop_first_scalar, valid_utf8,
};

verus! {

/// The keys of a directory do not depend on the order in which it is listed.
pub proof fn keys_do_not_depend_on_the_listing_order(a: Seq<Seq<u8>>, b: Seq<Seq<u8>>)
    requires
        a.to_multiset() == b.to_multiset(),
    ensures
        key_names(a) == key_names(b),
{
    lemma_visible_multiset(a, b);
    keys_are_the_visible_names_sorted(as_text(a));
    keys_are_the_visible_names_sorted(as_text(b));
    name_order_is_total();
    lemma_sorted_unique(key_names(a), key_names(b), name_order());
}

/// Internal names are no content: the keys of a directory are those of its other entries alone.
pub proof fn keys_come_from_the_other_names_alone(names: Seq<Seq<u8>>)
    ensures
        key_names(names) == key_names(
            names.filter(|name: Seq<u8>| !internal(lossy_text(name))),
        ),
{
    lemma_visible_filter(names);
}

/// Adding names that read as internal to a listing, at any place, or removing them, leaves the
/// keys as they were.
pub proof fn internal_names_do_not_change_the_keys(
    front: Seq<Seq<u8>>,
    added: Seq<Seq<u8>>,
    back: Seq<Seq<u8>>,
)
    requires
        forall|i: int| 0 <= i < added.len() ==> internal(lossy_text(#[trigger] added[i])),
    ensures
        key_names(front + added + back) == key_names(front + back),
{
    lemma_nothing_visible(added);
    lemma_visible_concat(front + added, back);
    lemma_visible_concat(front, added);
    lemma_visible_concat(front, back);
    assert(visible(as_text(front)) + visible(as_text(added)) =~= visible(as_text(front)));
}

proof fn lemma_nothing_visible(names: Seq<Seq<u8>>)
    requires
        forall|i: int| 0 <= i < names.len() ==> internal(lossy_text(#[trigger] names[i])),
    ensures
        visible(as_text(names)) == Seq::<Seq<char>>::empty(),
    decreases names.len(),
{
    reveal(Seq::filter);
    if names.len() > 0 {
        lemma_nothing_visible(names.drop_last());
        assert(as_text(names).drop_last() =~= as_text(names.drop_last()));
        assert(as_text(names).last() == lossy_text(names.last()));
    }
}

proof fn lemma_visible_filter(names: Seq<Seq<u8>>)
    ensures
        visible(as_text(names)) == visible(
            as_text(names.filter(|name: Seq<u8>| !internal(lossy_text(name)))),
        ),
    decreases names.len(),
{
    reveal(Seq::filter);
    let other = |name: Seq<u8>| !internal(lossy_text(name));
    if names.len() == 0 {
        assert(names.filter(other) =~= names);
    } else {
        let init = names.drop_last();
        let last = seq![names.last()];
        lemma_visible_filter(init);
        assert(names =~= init + last);
        lemma_visible_concat(init, last);
        if other(names.last()) {
            assert(names.filter(other) =~= init.filter(other) + last);
            lemma_visible_concat(init.filter(other), last);
        } else {
            lemma_nothing_visible(last);
            assert(visible(as_text(names)) =~= visible(as_text(init)));
        }
    }
}

/// The visible names of a directory listed in two parts.
proof fn lemma_visible_concat(a: Seq<Seq<u8>>, b: Seq<Seq<u8>>)
    ensures
        visible(as_text(a + b)) == visible(as_text(a)) + visible(as_text(b)),
{
    let shown = |name: Seq<char>| !internal(name);
    assert(as_text(a + b) =~= as_text(a) + as_text(b));
    Seq::filter_distributes_over_add(as_text(a), as_text(b), shown);
}

proof fn lemma_visible_multiset(a: Seq<Seq<u8>>, b: Seq<Seq<u8>>)
    requires
        a.to_multiset() == b.to_multiset(),
    ensures
        visible(as_text(a)).to_multiset() == visible(as_text(b)).to_multiset(),
    decreases a.len(),
{
    broadcast use vstd::seq_lib::group_to_multiset_ensures;

    if a.len() == 0 {
        a.to_multiset_ensures();
        b.to_multiset_ensures();
        assert(a =~= b);
    } else {
        let name = a[0];
        assert(a.contains(name));
        assert(b.to_multiset().count(name) > 0);
        let at = b.index_of(name);
        let front = b.take(at);
        let back = b.skip(at + 1);
        let one = seq![name];
        assert(a =~= one + a.drop_first());
        assert(b =~= front + one + back);
        assert(a.remove(0) =~= a.drop_first());
        assert(b.remove(at) =~= front + back);
        lemma_visible_multiset(a.drop_first(), front + back);
        lemma_visible_concat(one, a.drop_first());
        lemma_visible_concat(front + one, back);
        lemma_visible_concat(front, one);
        lemma_visible_concat(front, back);
        lemma_multiset_commutative(visible(as_text(one)), visible(as_text(a.drop_first())));
        lemma_multiset_commutative(
            visible(as_text(front)) + visible(as_text(one)),
            visible(as_text(back)),
        );
        lemma_multiset_commutative(visible(as_text(front)), visible(as_text(one)));
        lemma_multiset_commutative(visible(as_text(front)), visible(as_text(back)));
        assert(visible(as_text(a)).to_multiset() =~= visible(as_text(b)).to_multiset());
    }
}

/// Where a survey stands after its files are read one after the other; what is read after its end
/// does not matter.
pub open spec fn read_on<E>(
    step: SurveyStepView<E>,
    found: Seq<Result<Seq<u8>, std::io::Error>>,
) -> SurveyStepView<E>
    decreases found.len(),
{
    if found.len() == 0 {
        step
    } else {
        match read_on(step, found.drop_last()) {
            SurveyStepView::Read(survey) => absorbed(survey, found.last()),
            ended => ended,
        }
    }
}

/// Reading files that hold the given values.
pub open spec fn all_read(values: Seq<Seq<u8>>) -> Seq<Result<Seq<u8>, std::io::Error>> {
    values.map_values(|value: Seq<u8>| Ok::<Seq<u8>, std::io::Error>(value))
}

/// A survey that is given the values of all its keys ends in their content hash, whatever the
/// directory.
pub proof fn a_whole_survey_gives_the_content_hash<E>(
    dir: Seq<u8>,
    keys: Seq<Seq<char>>,
    values: Seq<Seq<u8>>,
)
    requires
        values.len() == keys.len(),
    ensures
        read_on(started::<E>(dir, Ok(keys)), all_read(values)) == SurveyStepView::<E>::Done(
            content_hash(keys, values),
        ),
{
    lemma_read_on::<E>(dir, keys, values);
}

/// A survey ends at the first key that cannot be read, with that key; what could be read of the
/// others does not matter.
pub proof fn a_survey_fails_at_the_first_unreadable_key<E>(
    dir: Seq<u8>,
    keys: Seq<Seq<char>>,
    values: Seq<Seq<u8>>,
    source: std::io::Error,
    later: Seq<Result<Seq<u8>, std::io::Error>>,
)
    requires
        values.len() < keys.len(),
    ensures
        read_on(
            started::<E>(dir, Ok(keys)),
            all_read(values).push(Err(source)) + later,
        ) == SurveyStepView::<E>::Failed(
            ErrorView::Key { key: keys[values.len() as int], source },
        ),
    decreases later.len(),
{
    let found = all_read(values).push(Err(source));
    if later.len() == 0 {
        lemma_read_on::<E>(dir, keys, values);
        assert(found + later =~= found);
        assert(found.drop_last() =~= all_read(values));
    } else {
        a_survey_fails_at_the_first_unreadable_key::<E>(
            dir,
            keys,
            values,
            source,
            later.drop_last(),
        );
        assert((found + later).drop_last() =~= found + later.drop_last());
    }
}

/// Where a survey stands once some of its values are read.
proof fn lemma_read_on<E>(dir: Seq<u8>, keys: Seq<Seq<char>>, values: Seq<Seq<u8>>)
    requires
        values.len() <= keys.len(),
    ensures
        read_on(started::<E>(dir, Ok(keys)), all_read(values)) == surveyed::<E>(dir, keys, values),
    decreases values.len(),
{
    if values.len() == 0 {
        assert(values =~= Seq::empty());
    } else {
        lemma_read_on::<E>(dir, keys, values.drop_last());
        assert(all_read(values).drop_last() =~= all_read(values.drop_last()));
        assert(values.drop_last().push(values.last()) =~= values);
    }
}

/// The bytes that the hasher is fed for the given keys and values.
pub open spec fn hashed_bytes(keys: Seq<Seq<char>>, values: Seq<Seq<u8>>) -> Seq<u8> {
    chunks(keys, values).flatten()
}

/// The bytes that the hasher is fed for one key and its value.
spec fn entry_bytes(key: Seq<char>, value: Seq<u8>) -> Seq<u8> {
    encode_utf8(key) + seq![KEY_END] + spec_u64_to_le_bytes(value.len() as u64) + value
}

/// No two contents feed the hasher the same bytes: each key and each value, and where one ends
/// and the next begins, can be read off them.
pub proof fn different_content_is_hashed_from_different_bytes(
    keys: Seq<Seq<char>>,
    values: Seq<Seq<u8>>,
    other_keys: Seq<Seq<char>>,
    other_values: Seq<Seq<u8>>,
)
    requires
        keys.len() == values.len(),
        other_keys.len() == other_values.len(),
        forall|i: int| 0 <= i < values.len() ==> (#[trigger] values[i]).len() <= u64::MAX,
        forall|i: int|
            0 <= i < other_values.len() ==> (#[trigger] other_values[i]).len() <= u64::MAX,
        hashed_bytes(keys, values) == hashed_bytes(other_keys, other_values),
    ensures
        keys == other_keys,
        values == other_values,
    decreases values.len(),
{
    if values.len() > 0 {
        lemma_hashed_front(keys, values);
    }
    if other_values.len() > 0 {
        lemma_hashed_front(other_keys, other_values);
    }
    if values.len() == 0 || other_values.len() == 0 {
        assert(values =~= other_values && keys =~= other_keys) by {
            reveal_with_fuel(Seq::<_>::flatten, 1);
            assert(hashed_bytes(Seq::empty(), Seq::empty()).len() == 0);
        }
    } else {
        let rest = hashed_bytes(keys.drop_first(), values.drop_first());
        let other_rest = hashed_bytes(other_keys.drop_first(), other_values.drop_first());
        lemma_entry_bytes_are_prefix_free(
            keys[0],
            values[0],
            rest,
            other_keys[0],
            other_values[0],
            other_rest,
        );
        different_content_is_hashed_from_different_bytes(
            keys.drop_first(),
            values.drop_first(),
            other_keys.drop_first(),
            other_values.drop_first(),
        );
        assert(keys =~= seq![keys[0]] + keys.drop_first());
        assert(other_keys =~= seq![other_keys[0]] + other_keys.drop_first());
        assert(values =~= seq![values[0]] + values.drop_first());
        assert(other_values =~= seq![other_values[0]] + other_values.drop_first());
    }
}

/// What the hasher is fed: for each key in turn its name in UTF-8, the byte that ends it, the
/// length of the value in eight bytes, and the value; from this every key and every value can be
/// read off.
/// The content hash is what the hasher makes of exactly that, for any number of keys.
pub proof fn the_hash_is_taken_of_every_key_and_value(keys: Seq<Seq<char>>, values: Seq<Seq<u8>>)
    requires
        keys.len() == values.len(),
    ensures
        exists|fed: Seq<Seq<u8>>|
            {
                &&& content_hash(keys, values) == #[trigger] DefaultHasher::spec_finish(fed)
                &&& fed.len() == 4 * keys.len()
                &&& forall|i: int|
                    #![trigger keys[i]]
                    #![trigger values[i]]
                    0 <= i < keys.len() ==> {
                        &&& fed[4 * i] == encode_utf8(keys[i])
                        &&& fed[4 * i + 1] == seq![0xffu8]
                        &&& fed[4 * i + 2] == spec_u64_to_le_bytes(values[i].len() as u64)
                        &&& fed[4 * i + 3] == values[i]
                    }
            },
{
    let fed = chunks(keys, values);
    lemma_chunks(keys, values);
    assert(content_hash(keys, values) == DefaultHasher::spec_finish(fed));
}

proof fn lemma_chunks(keys: Seq<Seq<char>>, values: Seq<Seq<u8>>)
    requires
        values.len() <= keys.len(),
    ensures
        chunks(keys, values).len() == 4 * values.len(),
        forall|i: int|
            #![trigger keys[i]]
            #![trigger values[i]]
            0 <= i < values.len() ==> {
                &&& chunks(keys, values)[4 * i] == encode_utf8(keys[i])
                &&& chunks(keys, values)[4 * i + 1] == seq![0xffu8]
                &&& chunks(keys, values)[4 * i + 2] == spec_u64_to_le_bytes(
                    values[i].len() as u64,
                )
                &&& chunks(keys, values)[4 * i + 3] == values[i]
            },
    decreases values.len(),
{
    if values.len() > 0 {
        let earlier = values.drop_last();
        lemma_chunks(keys, earlier);
        assert forall|i: int|
            #![trigger keys[i]]
            #![trigger values[i]]
            0 <= i < values.len() implies {
            &&& chunks(keys, values)[4 * i] == encode_utf8(keys[i])
            &&& chunks(keys, values)[4 * i + 1] == seq![0xffu8]
            &&& chunks(keys, values)[4 * i + 2] == spec_u64_to_le_bytes(values[i].len() as u64)
            &&& chunks(keys, values)[4 * i + 3] == values[i]
        } by {
            if i < earlier.len() {
                assert(earlier[i] == values[i]);
            }
        }
    }
}

/// A survey of one content and a survey of another, whatever their directories, end in what the
/// hasher makes of two different byte strings: where any key or any value differs, only a collision
/// of the hasher hides it.
pub proof fn surveys_of_different_content_hash_different_bytes<E>(
    dir: Seq<u8>,
    keys: Seq<Seq<char>>,
    values: Seq<Seq<u8>>,
    other_dir: Seq<u8>,
    other_keys: Seq<Seq<char>>,
    other_values: Seq<Seq<u8>>,
)
    requires
        keys.len() == values.len(),
        other_keys.len() == other_values.len(),
        forall|i: int| 0 <= i < values.len() ==> (#[trigger] values[i]).len() <= u64::MAX,
        forall|i: int|
            0 <= i < other_values.len() ==> (#[trigger] other_values[i]).len() <= u64::MAX,
        keys != other_keys || values != other_values,
    ensures
        exists|fed: Seq<Seq<u8>>, other_fed: Seq<Seq<u8>>|
            {
                &&& read_on(started::<E>(dir, Ok(keys)), all_read(values)) == SurveyStepView::<
                    E,
                >::Done(#[trigger] DefaultHasher::spec_finish(fed))
                &&& read_on(started::<E>(other_dir, Ok(other_keys)), all_read(other_values))
                    == SurveyStepView::<E>::Done(#[trigger] DefaultHasher::spec_finish(other_fed))
                &&& fed.flatten() != other_fed.flatten()
            },
{
    a_whole_survey_gives_the_content_hash::<E>(dir, keys, values);
    a_whole_survey_gives_the_content_hash::<E>(other_dir, other_keys, other_values);
    if hashed_bytes(keys, values) == hashed_bytes(other_keys, other_values) {
        different_content_is_hashed_from_different_bytes(
            keys,
            values,
            other_keys,
            other_values,
        );
    }
    let fed = chunks(keys, values);
    let other_fed = chunks(other_keys, other_values);
    assert(content_hash(keys, values) == DefaultHasher::spec_finish(fed));
    assert(content_hash(other_keys, other_values) == DefaultHasher::spec_finish(other_fed));
    assert(fed.flatten() != other_fed.flatten());
}

/// A survey asks for the files of its keys one after the other: with the values of the first few
/// read, the next one, from its own directory.
pub proof fn a_survey_asks_for_each_key_in_turn<E>(
    dir: Seq<u8>,
    keys: Seq<Seq<char>>,
    values: Seq<Seq<u8>>,
)
    requires
        values.len() < keys.len(),
    ensures
        read_on(started::<E>(dir, Ok(keys)), all_read(values)) is Read,
        ({
            let survey = read_on(started::<E>(dir, Ok(keys)), all_read(values))->Read_0;
            &&& survey.wanted_file() == key_file(dir, keys[values.len() as int])
            &&& survey.wanted_key() == keys[values.len() as int]
        }),
{
    lemma_read_on::<E>(dir, keys, values);
}

/// A directory whose keys cannot be told is not surveyed: the failure is handed on.
pub proof fn a_survey_without_keys_to_go_by_fails<E>(
    dir: Seq<u8>,
    error: ErrorView<E>,
    found: Seq<Result<Seq<u8>, std::io::Error>>,
)
    ensures
        read_on(started::<E>(dir, Err(error)), found) == SurveyStepView::<E>::Failed(error),
    decreases found.len(),
{
    if found.len() > 0 {
        a_survey_without_keys_to_go_by_fails::<E>(dir, error, found.drop_last());
    }
}


/// Flattening two parts is flattening each.
proof fn lemma_flatten_concat(a: Seq<Seq<u8>>, b: Seq<Seq<u8>>)
    ensures
        (a + b).flatten() == a.flatten() + b.flatten(),
    decreases a.len(),
{
    if a.len() == 0 {
        assert(a + b =~= b);
        assert((a + b).flatten() =~= a.flatten() + b.flatten());
    } else {
        assert((a + b).drop_first() =~= a.drop_first() + b);
        lemma_flatten_concat(a.drop_first(), b);
        assert((a + b).flatten() =~= a.flatten() + b.flatten());
    }
}

proof fn lemma_entry_flatten(key: Seq<char>, value: Seq<u8>)
    ensures
        entry_chunks(key, value).flatten() == entry_bytes(key, value),
{
    let all = entry_chunks(key, value);
    assert(all.drop_first() =~= seq![
        seq![KEY_END],
        spec_u64_to_le_bytes(value.len() as u64),
        value,
    ]);
    assert(all.drop_first().drop_first() =~= seq![
        spec_u64_to_le_bytes(value.len() as u64),
        value,
    ]);
    assert(all.drop_first().drop_first().drop_first() =~= seq![value]);
    assert(all.drop_first().drop_first().drop_first().drop_first() =~= Seq::empty());
    reveal_with_fuel(Seq::<_>::flatten, 5);
    assert(all.flatten() =~= entry_bytes(key, value));
}

/// The bytes of the first key come first.
proof fn lemma_hashed_front(keys: Seq<Seq<char>>, values: Seq<Seq<u8>>)
    requires
        0 < values.len() <= keys.len(),
    ensures
        hashed_bytes(keys, values) == entry_bytes(keys[0], values[0]) + hashed_bytes(
            keys.drop_first(),
            values.drop_first(),
        ),
    decreases values.len(),
{
    let last = values.len() - 1;
    lemma_flatten_concat(
        chunks(keys, values.drop_last()),
        entry_chunks(keys[last], values.last()),
    );
    lemma_entry_flatten(keys[last], values.last());
    if values.len() == 1 {
        assert(values.drop_last() =~= Seq::empty());
        assert(values.drop_first() =~= Seq::empty());
        assert(hashed_bytes(keys, values) =~= entry_bytes(keys[0], values[0]) + hashed_bytes(
            keys.drop_first(),
            values.drop_first(),
        ));
    } else {
        lemma_hashed_front(keys, values.drop_last());
        let tail = values.drop_first();
        assert(values.drop_last().drop_first() =~= tail.drop_last());
        lemma_flatten_concat(
            chunks(keys.drop_first(), tail.drop_last()),
            entry_chunks(keys[last], values.last()),
        );
        assert(keys.drop_first()[tail.len() - 1] == keys[last]);
        assert(hashed_bytes(keys, values) =~= entry_bytes(keys[0], values[0]) + hashed_bytes(
            keys.drop_first(),
            values.drop_first(),
        ));
    }
}

/// The end mark occurs in no UTF-8 text.
proof fn lemma_no_end_mark(bytes: Seq<u8>)
    requires
        valid_utf8(bytes),
    ensures
        forall|i: int| 0 <= i < bytes.len() ==> #[trigger] bytes[i] != KEY_END,
    decreases bytes.len(),
{
    if bytes.len() > 0 {
        let rest = pop_first_scalar(bytes);
        let width = bytes.len() - rest.len();
        lemma_no_end_mark(rest);
        assert forall|i: int| 0 <= i < bytes.len() implies #[trigger] bytes[i] != KEY_END by {
            if i >= width {
                assert(bytes[i] == rest[i - width]);
            }
        }
    }
}

/// Two byte strings that are equal up to an end mark that neither part before it holds.
proof fn lemma_split_at_end_mark(a: Seq<u8>, x: Seq<u8>, b: Seq<u8>, y: Seq<u8>)
    requires
        a + seq![KEY_END] + x == b + seq![KEY_END] + y,
        forall|i: int| 0 <= i < a.len() ==> #[trigger] a[i] != KEY_END,
        forall|i: int| 0 <= i < b.len() ==> #[trigger] b[i] != KEY_END,
    ensures
        a == b,
        x == y,
{
    let s = a + seq![KEY_END] + x;
    let t = b + seq![KEY_END] + y;
    assert(s[a.len() as int] == KEY_END);
    assert(t[b.len() as int] == KEY_END);
    if a.len() < b.len() {
        assert(t[a.len() as int] == b[a.len() as int]);
        assert(false);
    }
    if b.len() < a.len() {
        assert(s[b.len() as int] == a[b.len() as int]);
        assert(false);
    }
    assert(a =~= s.take(a.len() as int));
    assert(b =~= t.take(b.len() as int));
    assert(x =~= s.skip(a.len() as int + 1));
    assert(y =~= t.skip(b.len() as int + 1));
}

proof fn lemma_entry_bytes_are_prefix_free(
    key: Seq<char>,
    value: Seq<u8>,
    rest: Seq<u8>,
    other_key: Seq<char>,
    other_value: Seq<u8>,
    other_rest: Seq<u8>,
)
    requires
        entry_bytes(key, value) + rest == entry_bytes(other_key, other_value) + other_rest,
        value.len() <= u64::MAX,
        other_value.len() <= u64::MAX,
    ensures
        key == other_key,
        value == other_value,
        rest == other_rest,
{
    let size = spec_u64_to_le_bytes(value.len() as u64);
    let other_size = spec_u64_to_le_bytes(other_value.len() as u64);
    let x = size + value + rest;
    let y = other_size + other_value + other_rest;
    encode_utf8_valid_utf8(key);
    encode_utf8_valid_utf8(other_key);
    lemma_no_end_mark(encode_utf8(key));
    lemma_no_end_mark(encode_utf8(other_key));
    assert(entry_bytes(key, value) + rest =~= encode_utf8(key) + seq![KEY_END] + x);
    assert(entry_bytes(other_key, other_value) + other_rest =~= encode_utf8(other_key) + seq![
        KEY_END,
    ] + y);
    lemma_split_at_end_mark(encode_utf8(key), x, encode_utf8(other_key), y);
    encode_utf8_decode_utf8(key);
    encode_utf8_decode_utf8(other_key);
    lemma_auto_spec_u64_to_from_le_bytes();
    assert(size =~= x.take(8));
    assert(other_size =~= y.take(8));
    assert(value.len() == other_value.len());
    let end = 8 + value.len() as int;
    assert(value =~= x.subrange(8, end));
    assert(other_value =~= y.subrange(8, end));
    assert(rest =~= x.skip(end));
    assert(other_rest =~= y.skip(end));
}

/// The paths of the key files of a snapshot all begin with its one directory: for a relative key,
/// the path is that of the directory, a separator where the directory does not end in one, and
/// the key. This is about the text of the paths: a key that itself climbs out of the directory,
/// such as `../other`, is not excluded.
pub proof fn key_paths_begin_with_the_snapshot_directory(dir: Seq<u8>, key: Seq<char>)
    requires
        !absolute(encode_utf8(key)),
    ensures
        key_file(dir, key) == if dir.len() == 0 || dir.last() == SEPARATOR {
            dir + encode_utf8(key)
        } else {
            dir + seq![SEPARATOR] + encode_utf8(key)
        },
        dir.is_prefix_of(key_file(dir, key)),
{
    assert(dir.push(SEPARATOR) =~= dir + seq![SEPARATOR]);
}

/// A snapshot of a Kubernetes mount is the directory that `..data` pointed at when the mount was
/// resolved. Two rotations have two targets, and no path of a key of the one snapshot is the path
/// of a key of the other, as text: one mount never names a key file by both targets. A key that
/// itself climbs out of the directory, such as `../other`, is not excluded.
pub proof fn snapshots_of_two_rotations_share_no_path(
    root: Seq<u8>,
    old_target: Seq<u8>,
    new_target: Seq<u8>,
    old_key: Seq<char>,
    new_key: Seq<char>,
)
    requires
        old_target.len() > 0,
        new_target.len() > 0,
        !old_target.contains(SEPARATOR),
        !new_target.contains(SEPARATOR),
        old_target != new_target,
        !absolute(encode_utf8(old_key)),
        !absolute(encode_utf8(new_key)),
    ensures
        key_file(snapshot_dir(root, DataEntryView::Link(old_target)), old_key) != key_file(
            snapshot_dir(root, DataEntryView::Link(new_target)),
            new_key,
        ),
{
    let base = if root.len() == 0 || root.last() == SEPARATOR {
        root
    } else {
        root.push(SEPARATOR)
    };
    let old_file = key_file(snapshot_dir(root, DataEntryView::Link(old_target)), old_key);
    let new_file = key_file(snapshot_dir(root, DataEntryView::Link(new_target)), new_key);
    assert(!absolute(old_target)) by {
        if absolute(old_target) {
            assert(old_target.contains(old_target[0]));
        }
    }
    assert(!absolute(new_target)) by {
        if absolute(new_target) {
            assert(new_target.contains(new_target[0]));
        }
    }
    assert(old_target.contains(old_target.last()));
    assert(new_target.contains(new_target.last()));
    let n = base.len() as int;
    assert(snapshot_dir(root, DataEntryView::Link(old_target)) =~= base + old_target);
    assert(snapshot_dir(root, DataEntryView::Link(new_target)) =~= base + new_target);
    assert(old_file =~= (base + old_target).push(SEPARATOR) + encode_utf8(old_key));
    assert(new_file =~= (base + new_target).push(SEPARATOR) + encode_utf8(new_key));
    if old_file == new_file {
        if old_target.len() < new_target.len() {
            assert(new_file[n + old_target.len()] == new_target[old_target.len() as int]);
            assert(old_file[n + old_target.len()] == SEPARATOR);
            assert(new_target.contains(new_target[old_target.len() as int]));
        } else if new_target.len() < old_target.len() {
            assert(old_file[n + new_target.len()] == old_target[new_target.len() as int]);
            assert(new_file[n + new_target.len()] == SEPARATOR);
            assert(old_target.contains(old_target[new_target.len() as int]));
        } else {
            assert(old_target =~= old_file.subrange(n, n + old_target.len()));
            assert(new_target =~= new_file.subrange(n, n + new_target.len()));
        }
    }
}

} // verus!
