//! What a mount resolves to, where its keys are read, and which keys it shows.

use crate::error::ErrorView;
use crate::mount::{
    as_text, data_path, first_failure, internal, key_file, key_names,
    keys_are_the_visible_names_sorted, listed_keys, snapshot_dir, sorted_keys, successes,
    valid_names_kept, visible, DataEntryView, ListingView,
};
use crate::order::{name_order, names_are_ordered_by_their_bytes};
use crate::path::{a_path_is_read_from_within_its_directory, joined};
use crate::text::lossy_text;
use vstd::prelude::*;
use vstd::utf8::{decode_utf8, encode_utf8, encode_utf8_decode_utf8, valid_utf8};

verus! {

/// Where nothing stands at `..data`, the keys are those of the root itself.
pub proof fn a_plain_directory_is_its_own_snapshot(root: Seq<u8>, key: Seq<char>)
    requires
        encode_utf8(key).len() == 0 || encode_utf8(key)[0] != 0x2f,
    ensures
        snapshot_dir(root, DataEntryView::Absent) == root,
        key_file(snapshot_dir(root, DataEntryView::Absent), key) == if root.len() == 0
            || root.last() == 0x2f {
            root + encode_utf8(key)
        } else {
            root + seq![0x2fu8] + encode_utf8(key)
        },
{
    lemma_below(root, encode_utf8(key));
}

/// A symlink at `..data` is followed once, from within the root: the snapshot is the root, one
/// slash where the root does not end in one, and the target, with nothing behind it. A target that
/// starts with a slash is the snapshot itself.
pub proof fn a_link_is_followed_once(root: Seq<u8>, target: Seq<u8>)
    ensures
        snapshot_dir(root, DataEntryView::Link(target)) == if target.len() > 0 && target[0]
            == 0x2f {
            target
        } else if root.len() == 0 || root.last() == 0x2f {
            root + target
        } else {
            root + seq![0x2fu8] + target
        },
{
    if target.len() > 0 && target[0] == 0x2f {
        a_path_is_read_from_within_its_directory(root, target);
    } else {
        lemma_below(root, target);
    }
}

/// The entry that is looked at is `..data` directly below the root, and where it is no symlink it
/// is the snapshot.
pub proof fn a_data_directory_is_the_snapshot(root: Seq<u8>)
    ensures
        ({
            let name = encode_utf8(seq!['.', '.', 'd', 'a', 't', 'a']);
            data_path(root) == if root.len() == 0 || root.last() == 0x2f {
                root + name
            } else {
                root + seq![0x2fu8] + name
            }
        }),
        snapshot_dir(root, DataEntryView::Directory) == data_path(root),
{
    reveal_strlit("..data");
    let name = seq!['.', '.', 'd', 'a', 't', 'a'];
    assert("..data"@ =~= name);
    reveal_with_fuel(encode_utf8, 2);
    let first = '.' as u32;
    assert(first == 0x2e);
    assert((0x2eu32 & 0x7F) as u8 == 0x2e) by (bit_vector);
    assert(encode_utf8(name)[0] != 0x2f);
    lemma_below(root, encode_utf8(name));
}

/// A key is read directly below its directory: the directory, one slash where it does not end in
/// one, and the key. A key that starts with a slash is a path of its own.
pub proof fn a_key_is_read_below_its_directory(dir: Seq<u8>, key: Seq<char>)
    ensures
        ({
            let name = encode_utf8(key);
            key_file(dir, key) == if name.len() > 0 && name[0] == 0x2f {
                name
            } else if dir.len() == 0 || dir.last() == 0x2f {
                dir + name
            } else {
                dir + seq![0x2fu8] + name
            }
        }),
{
    let name = encode_utf8(key);
    if name.len() > 0 && name[0] == 0x2f {
        a_path_is_read_from_within_its_directory(dir, name);
    } else {
        lemma_below(dir, name);
    }
}

/// Two keys of a snapshot are read from two files.
pub proof fn different_keys_are_read_from_different_files(
    dir: Seq<u8>,
    key: Seq<char>,
    other: Seq<char>,
)
    requires
        encode_utf8(key).len() == 0 || encode_utf8(key)[0] != 0x2f,
        encode_utf8(other).len() == 0 || encode_utf8(other)[0] != 0x2f,
        key != other,
    ensures
        key_file(dir, key) != key_file(dir, other),
{
    a_path_is_read_from_within_its_directory(dir, encode_utf8(key));
    a_path_is_read_from_within_its_directory(dir, encode_utf8(other));
    encode_utf8_decode_utf8(key);
    encode_utf8_decode_utf8(other);
    let start = dir.len() + if dir.len() == 0 || dir.last() == 0x2f {
        0int
    } else {
        1int
    };
    assert(key_file(dir, key).skip(start) == encode_utf8(key));
    assert(key_file(dir, other).skip(start) == encode_utf8(other));
}

proof fn lemma_below(base: Seq<u8>, part: Seq<u8>)
    requires
        part.len() == 0 || part[0] != 0x2f,
    ensures
        joined(base, part) == if base.len() == 0 || base.last() == 0x2f {
            base + part
        } else {
            base + seq![0x2fu8] + part
        },
{
    a_path_is_read_from_within_its_directory(base, part);
    let path = joined(base, part);
    let start = path.len() - part.len();
    assert(path =~= path.take(base.len() as int) + path.subrange(base.len() as int, start)
        + path.skip(start));
    if start > base.len() {
        assert(path[base.len() as int] == 0x2f);
        assert(path.subrange(base.len() as int, start) =~= seq![0x2fu8]);
    }
    assert(base + path.subrange(base.len() as int, start) + part =~= path);
}

/// A name is internal exactly when its first two characters are dots.
pub proof fn internal_names_start_with_two_dots(name: Seq<char>)
    ensures
        internal(name) <==> name.len() >= 2 && name[0] == '.' && name[1] == '.',
{
    reveal_strlit("..");
    if internal(name) {
        assert(name[0] == ".."@[0]);
        assert(name[1] == ".."@[1]);
    }
    if name.len() >= 2 && name[0] == '.' && name[1] == '.' {
        assert(".."@ =~= name.subrange(0, 2));
    }
}

/// The keys among some names: each name is there as often as it was given, except that those whose
/// first two characters are dots are not there at all.
pub proof fn every_name_without_two_dots_is_a_key(names: Seq<Seq<char>>, name: Seq<char>)
    ensures
        sorted_keys(names).to_multiset().count(name) == if name.len() >= 2 && name[0] == '.'
            && name[1] == '.' {
            0
        } else {
            names.to_multiset().count(name)
        },
{
    keys_are_the_visible_names_sorted(names);
    internal_names_start_with_two_dots(name);
    lemma_visible_count(names, name);
}

proof fn lemma_visible_count(names: Seq<Seq<char>>, name: Seq<char>)
    ensures
        visible(names).to_multiset().count(name) == if internal(name) {
            0
        } else {
            names.to_multiset().count(name)
        },
    decreases names.len(),
{
    broadcast use vstd::seq_lib::group_to_multiset_ensures;

    reveal(Seq::filter);
    if names.len() == 0 {
        assert(visible(names) =~= names);
    } else {
        lemma_visible_count(names.drop_last(), name);
        assert(names =~= names.drop_last().push(names.last()));
    }
}

/// Where names that are valid UTF-8 are said to be kept, each of them reads as the text that it
/// encodes.
pub proof fn kept_names_read_as_themselves(names: Seq<Seq<u8>>, i: int)
    requires
        0 <= i < names.len(),
    ensures
        valid_names_kept(names) && valid_utf8(names[i]) ==> lossy_text(names[i]) == decode_utf8(
            names[i],
        ),
{
}

/// The keys among some names come in the dictionary order of their UTF-8 bytes: of two keys, where
/// the bytes first differ, the earlier key has the smaller byte; and where the one starts with the
/// other, the earlier key is the shorter one.
pub proof fn keys_come_in_dictionary_order(names: Seq<Seq<char>>, i: int, j: int, n: int)
    requires
        0 <= i < j < sorted_keys(names).len(),
        0 <= n <= encode_utf8(sorted_keys(names)[i]).len(),
        n <= encode_utf8(sorted_keys(names)[j]).len(),
        forall|k: int|
            0 <= k < n ==> #[trigger] encode_utf8(sorted_keys(names)[i])[k] == encode_utf8(
                sorted_keys(names)[j],
            )[k],
    ensures
        ({
            let earlier = encode_utf8(sorted_keys(names)[i]);
            let later = encode_utf8(sorted_keys(names)[j]);
            &&& n < earlier.len() && n < later.len() ==> earlier[n] <= later[n]
            &&& n == later.len() ==> n == earlier.len()
        }),
{
    keys_are_the_visible_names_sorted(names);
    assert(name_order()(sorted_keys(names)[i], sorted_keys(names)[j]));
    names_are_ordered_by_their_bytes(sorted_keys(names)[i], sorted_keys(names)[j], n);
}

/// A directory that cannot be listed has no keys to show, but that failure, with its path.
pub proof fn an_unlisted_directory_is_told<E>(dir: Seq<u8>, source: std::io::Error)
    ensures
        listed_keys::<E>(dir, ListingView::Err(source)) == Err::<Seq<Seq<char>>, ErrorView<E>>(
            ErrorView::Mount { path: dir, source },
        ),
{
}

/// The first entry that cannot be read is told, with the path of the directory, whatever comes
/// behind it.
pub proof fn the_first_unreadable_entry_is_told<E>(
    dir: Seq<u8>,
    entries: Seq<Result<Seq<u8>, std::io::Error>>,
    i: int,
    source: std::io::Error,
)
    requires
        0 <= i < entries.len(),
        forall|k: int| 0 <= k < i ==> #[trigger] entries[k] is Ok,
        entries[i] == Err::<Seq<u8>, std::io::Error>(source),
    ensures
        listed_keys::<E>(dir, ListingView::Ok(entries)) == Err::<Seq<Seq<char>>, ErrorView<E>>(
            ErrorView::Mount { path: dir, source },
        ),
{
    lemma_first_failure(entries, i, source);
}

proof fn lemma_first_failure(
    entries: Seq<Result<Seq<u8>, std::io::Error>>,
    i: int,
    source: std::io::Error,
)
    requires
        0 <= i < entries.len(),
        forall|k: int| 0 <= k < i ==> #[trigger] entries[k] is Ok,
        entries[i] == Err::<Seq<u8>, std::io::Error>(source),
    ensures
        first_failure(entries) == Some(source),
    decreases i,
{
    if i > 0 {
        assert(entries[0] is Ok);
        assert forall|k: int| 0 <= k < i - 1 implies #[trigger] entries.drop_first()[k] is Ok by {
            assert(entries[k + 1] is Ok);
        }
        lemma_first_failure(entries.drop_first(), i - 1, source);
    }
}

proof fn lemma_no_failure(entries: Seq<Result<Seq<u8>, std::io::Error>>)
    requires
        forall|k: int| 0 <= k < entries.len() ==> #[trigger] entries[k] is Ok,
    ensures
        first_failure(entries) is None,
    decreases entries.len(),
{
    if entries.len() > 0 {
        assert(entries[0] is Ok);
        assert forall|k: int| 0 <= k < entries.len() - 1 implies
            #[trigger] entries.drop_first()[k] is Ok by {
            assert(entries[k + 1] is Ok);
        }
        lemma_no_failure(entries.drop_first());
    }
}

/// A directory that can be read shows its keys: each text that its names read as, as often as it
/// occurs, except those whose first two characters are dots; in the dictionary order of their
/// bytes.
pub proof fn a_readable_directory_shows_its_keys<E>(
    dir: Seq<u8>,
    entries: Seq<Result<Seq<u8>, std::io::Error>>,
)
    requires
        forall|k: int| 0 <= k < entries.len() ==> #[trigger] entries[k] is Ok,
    ensures
        listed_keys::<E>(dir, ListingView::Ok(entries)) is Ok,
        ({
            let keys = listed_keys::<E>(dir, ListingView::Ok(entries))->Ok_0;
            let read = Seq::new(entries.len(), |k: int| lossy_text(entries[k]->Ok_0));
            &&& forall|name: Seq<char>| #[trigger]
                keys.to_multiset().count(name) == if name.len() >= 2 && name[0] == '.' && name[1]
                    == '.' {
                    0
                } else {
                    read.to_multiset().count(name)
                }
            &&& forall|i: int, j: int, n: int|
                0 <= i < j < keys.len() && 0 <= n < encode_utf8(keys[i]).len() && n < encode_utf8(
                    keys[j],
                ).len() && (forall|k: int|
                    0 <= k < n ==> encode_utf8(keys[i])[k] == encode_utf8(keys[j])[k])
                    ==> #[trigger] encode_utf8(keys[i])[n] <= #[trigger] encode_utf8(keys[j])[n]
            &&& forall|i: int, j: int|
                0 <= i < j < keys.len() && encode_utf8(#[trigger] keys[j]).is_prefix_of(
                    encode_utf8(#[trigger] keys[i]),
                ) ==> keys[i] == keys[j]
        }),
{
    lemma_no_failure(entries);
    let names = successes(entries);
    let read = Seq::new(entries.len(), |k: int| lossy_text(entries[k]->Ok_0));
    let keys = sorted_keys(read);
    assert(as_text(names) =~= read);
    assert(key_names(names) == keys);
    assert forall|name: Seq<char>| #[trigger]
        keys.to_multiset().count(name) == if name.len() >= 2 && name[0] == '.' && name[1] == '.' {
            0
        } else {
            read.to_multiset().count(name)
        } by {
        every_name_without_two_dots_is_a_key(read, name);
    }
    assert forall|i: int, j: int, n: int|
        0 <= i < j < keys.len() && 0 <= n < encode_utf8(keys[i]).len() && n < encode_utf8(
            keys[j],
        ).len() && (forall|k: int|
            0 <= k < n ==> encode_utf8(keys[i])[k] == encode_utf8(keys[j])[k]) implies
        #[trigger] encode_utf8(keys[i])[n] <= #[trigger] encode_utf8(keys[j])[n] by {
        keys_come_in_dictionary_order(read, i, j, n);
    }
    assert forall|i: int, j: int|
        0 <= i < j < keys.len() && encode_utf8(#[trigger] keys[j]).is_prefix_of(
            encode_utf8(#[trigger] keys[i]),
        ) implies keys[i] == keys[j] by {
        let n = encode_utf8(keys[j]).len() as int;
        let a = encode_utf8(keys[i]);
        let b = encode_utf8(keys[j]);
        assert forall|k: int| 0 <= k < n implies #[trigger] a[k] == b[k] by {
            assert(a.subrange(0, n)[k] == b[k]);
        }
        keys_come_in_dictionary_order(read, i, j, n);
        assert(a =~= b);
        encode_utf8_decode_utf8(keys[i]);
        encode_utf8_decode_utf8(keys[j]);
    }
}

} // verus!
