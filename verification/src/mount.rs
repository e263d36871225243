//! The read side: one snapshot of a mounted volume.

use crate::error::{Error, ErrorView};
use crate::order::{insert_in_order, name_order, name_order_is_total, texts};
use crate::path::{joined, FilePath};
use crate::text::{lossy, lossy_text};
use vstd::prelude::*;
use vstd::relations::sorted_by;
use vstd::utf8::{decode_utf8, encode_utf8, valid_utf8};

verus! {

/// What stands at `<root>/..data`.
pub enum DataEntry {
    /// Nothing, or a symlink whose target does not exist.
    Absent,
    /// Something that is no symlink: a directory, as a rule.
    Directory,
    /// A symlink, as kubelet makes it, and its target.
    Link(FilePath),
}

/// What [`DataEntry`] says, with the target as a sequence.
pub enum DataEntryView {
    Absent,
    Directory,
    Link(Seq<u8>),
}

impl View for DataEntry {
    type V = DataEntryView;

    open spec fn view(&self) -> DataEntryView {
        match *self {
            DataEntry::Absent => DataEntryView::Absent,
            DataEntry::Directory => DataEntryView::Directory,
            DataEntry::Link(target) => DataEntryView::Link(target@),
        }
    }
}

/// What listing a directory gave: an error, or for each entry its name or an error.
pub type Listing = Result<Vec<Result<Vec<u8>, std::io::Error>>, std::io::Error>;

/// A [`Listing`] with the names as sequences.
pub type ListingView = Result<Seq<Result<Seq<u8>, std::io::Error>>, std::io::Error>;

/// One entry of a listing, with its name as a sequence.
pub open spec fn entry_view(entry: Result<Vec<u8>, std::io::Error>) -> Result<
    Seq<u8>,
    std::io::Error,
> {
    match entry {
        Ok(name) => Ok(name@),
        Err(source) => Err(source),
    }
}

/// What a listing says.
pub open spec fn listing_view(listing: Listing) -> ListingView {
    match listing {
        Ok(entries) => Ok(entries@.map_values(|entry| entry_view(entry))),
        Err(source) => Err(source),
    }
}

/// The path of the entry that kubelet swaps on every update.
pub open spec fn data_path(root: Seq<u8>) -> Seq<u8> {
    joined(root, encode_utf8("..data"@))
}

/// The directory that the keys of a mount live in.
pub open spec fn snapshot_dir(root: Seq<u8>, data: DataEntryView) -> Seq<u8> {
    match data {
        DataEntryView::Absent => root,
        DataEntryView::Directory => data_path(root),
        DataEntryView::Link(target) => joined(root, target),
    }
}

/// The file that holds a key of the snapshot in `dir`.
pub open spec fn key_file(dir: Seq<u8>, key: Seq<char>) -> Seq<u8> {
    joined(dir, encode_utf8(key))
}

/// The names that Kubernetes keeps for itself: `..data` and the `..<timestamp>` directories.
pub open spec fn internal(name: Seq<char>) -> bool {
    ".."@.is_prefix_of(name)
}

/// The names that are not internal, in the order given.
pub open spec fn visible(names: Seq<Seq<char>>) -> Seq<Seq<char>> {
    names.filter(|name: Seq<char>| !internal(name))
}

/// The names that are not internal, sorted.
pub open spec fn sorted_keys(names: Seq<Seq<char>>) -> Seq<Seq<char>> {
    visible(names).sort_by(name_order())
}

/// Names of directory entries as text.
pub open spec fn as_text(names: Seq<Seq<u8>>) -> Seq<Seq<char>> {
    names.map_values(|name: Seq<u8>| lossy_text(name))
}

/// Names that are valid UTF-8 read as the text that they encode.
pub open spec fn valid_names_kept(names: Seq<Seq<u8>>) -> bool {
    forall|i: int|
        0 <= i < names.len() && valid_utf8(#[trigger] names[i]) ==> lossy_text(names[i])
            == decode_utf8(names[i])
}

/// The keys among the names of a directory, sorted.
pub open spec fn key_names(names: Seq<Seq<u8>>) -> Seq<Seq<char>> {
    sorted_keys(as_text(names))
}

/// The first error in a list of outcomes.
pub open spec fn first_failure<A, X>(outcomes: Seq<Result<A, X>>) -> Option<X>
    decreases outcomes.len(),
{
    if outcomes.len() == 0 {
        None
    } else {
        match outcomes[0] {
            Ok(_) => first_failure(outcomes.drop_first()),
            Err(error) => Some(error),
        }
    }
}

/// The values of a list of outcomes that holds no error.
pub open spec fn successes<A, X>(outcomes: Seq<Result<A, X>>) -> Seq<A> {
    outcomes.map_values(|outcome: Result<A, X>| outcome->Ok_0)
}

/// The keys that a listing of the snapshot in `dir` shows: the sorted names that are not
/// internal, or, where the directory or any entry could not be read, that failure.
pub open spec fn listed_keys<E>(dir: Seq<u8>, listing: ListingView) -> Result<
    Seq<Seq<char>>,
    ErrorView<E>,
> {
    match listing {
        Err(source) => Err(ErrorView::Mount { path: dir, source }),
        Ok(entries) => match first_failure(entries) {
            Some(source) => Err(ErrorView::Mount { path: dir, source }),
            None => Ok(key_names(successes(entries))),
        },
    }
}

/// A consistent snapshot of a mounted volume's files.
///
/// The directory of a Kubernetes `Secret`, `ConfigMap` or `projected` volume carries a `..data`
/// symlink that kubelet swaps atomically on every update. A `Mount` resolves it once, when it is
/// made, and names every key file within that one directory, so a value parsed from several
/// files never mixes old and new ones. A plain directory without `..data` is used as it is.
#[derive(Debug)]
pub struct Mount {
    data_dir: FilePath,
}

impl View for Mount {
    type V = Seq<u8>;

    /// The directory that the keys live in.
    closed spec fn view(&self) -> Seq<u8> {
        self.data_dir@
    }
}

impl Clone for Mount {
    fn clone(&self) -> (copy: Mount)
        ensures
            copy@ == self@,
    {
        Mount { data_dir: self.data_dir.clone() }
    }
}

/// The path to look at before a mount is resolved: `<root>/..data`.
pub fn data_entry_path(root: &FilePath) -> (path: FilePath)
    ensures
        path@ == data_path(root@),
{
    root.join(&FilePath::from_text("..data"))
}

impl Mount {
    /// Resolves a mount root to its current data snapshot, given what stands at
    /// `<root>/..data`.
    pub fn resolve(root: &FilePath, data: DataEntry) -> (mount: Mount)
        ensures
            mount@ == snapshot_dir(root@, data@),
    {
        match data {
            DataEntry::Absent => Mount { data_dir: root.clone() },
            DataEntry::Directory => Mount { data_dir: data_entry_path(root) },
            DataEntry::Link(target) => Mount { data_dir: root.join(&target) },
        }
    }

    /// The directory that the keys live in.
    pub fn data_dir(&self) -> (dir: &FilePath)
        ensures
            dir@ == self@,
    {
        &self.data_dir
    }

    /// The file to read for a key. `key` is a file name within the mount, such as `uri` or
    /// `tls.crt`.
    pub fn key_path(&self, key: &str) -> (path: FilePath)
        ensures
            path@ == key_file(self@, key@),
    {
        self.data_dir.join(&FilePath::from_text(key))
    }

    /// A key's raw bytes, given what reading its file gave.
    pub fn read<E>(&self, key: &str, found: Result<Vec<u8>, std::io::Error>) -> (value: Result<
        Vec<u8>,
        Error<E>,
    >)
        ensures
            match found {
                Ok(bytes) => value == Ok::<Vec<u8>, Error<E>>(bytes),
                Err(source) => value matches Err(error) && error@ == (ErrorView::<E>::Key {
                    key: key@,
                    source,
                }),
            },
    {
        match found {
            Ok(bytes) => Ok(bytes),
            Err(source) => Err(Error::Key { key: key.to_owned(), source }),
        }
    }

    /// A key's bytes as text, given what reading its file gave. The text is returned exactly as
    /// it is stored, trailing newline included.
    pub fn read_str<E>(&self, key: &str, found: Result<Vec<u8>, std::io::Error>) -> (value: Result<
        String,
        Error<E>,
    >)
        ensures
            match found {
                Ok(bytes) => if valid_utf8(bytes@) {
                    value matches Ok(text) && text@ == decode_utf8(bytes@)
                } else {
                    value matches Err(error) && error@ == (ErrorView::<E>::Utf8 { key: key@ })
                },
                Err(source) => value matches Err(error) && error@ == (ErrorView::<E>::Key {
                    key: key@,
                    source,
                }),
            },
    {
        let bytes = match self.read(key, found) {
            Ok(bytes) => bytes,
            Err(error) => return Err(error),
        };
        match String::from_utf8(bytes) {
            Ok(text) => Ok(text),
            Err(_) => Err(Error::Utf8 { key: key.to_owned() }),
        }
    }
}

/// The keys that listing gave, with their names as sequences.
pub open spec fn keys_view<E>(keys: Result<Vec<String>, Error<E>>) -> Result<
    Seq<Seq<char>>,
    ErrorView<E>,
> {
    match keys {
        Ok(keys) => Ok(texts(keys@)),
        Err(error) => Err(error@),
    }
}

/// The keys among some names: sorted, and exactly the names that are not internal.
pub proof fn keys_are_the_visible_names_sorted(names: Seq<Seq<char>>)
    ensures
        sorted_by(sorted_keys(names), name_order()),
        sorted_keys(names).to_multiset() == visible(names).to_multiset(),
{
    name_order_is_total();
    visible(names).lemma_sort_by_ensures(name_order());
}

/// Whether a name is one that Kubernetes keeps for itself.
fn is_internal(name: &str) -> (answer: bool)
    ensures
        answer == internal(name@),
{
    proof {
        reveal_strlit("..");
    }
    if name.unicode_len() >= 2 && name.get_char(0) == '.' && name.get_char(1) == '.' {
        assert(".."@ =~= name@.subrange(0, 2));
        true
    } else {
        assert(internal(name@) ==> name@[0] == ".."@[0] && name@[1] == ".."@[1]);
        false
    }
}

/// Picks the keys among the names of a directory, and sorts them. The entries that Kubernetes
/// keeps for itself (`..data` and the `..<timestamp>` directories) are skipped.
pub fn select_keys(names: Vec<String>) -> (keys: Vec<String>)
    ensures
        texts(keys@) == sorted_keys(texts(names@)),
        sorted_by(texts(keys@), name_order()),
        texts(keys@).to_multiset() == visible(texts(names@)).to_multiset(),
{
    let ghost all = texts(names@);
    let mut keys: Vec<String> = Vec::new();
    reveal(Seq::filter);
    assert(texts(keys@) =~= visible(all.take(0)));
    for name in it: names
        invariant
            all == texts(it.seq()),
            sorted_by(texts(keys@), name_order()),
            texts(keys@).to_multiset() == visible(all.take(it.index() as int)).to_multiset(),
    {
        let ghost i = it.index() as int;
        proof {
            reveal(Seq::filter);
            broadcast use vstd::seq_lib::group_to_multiset_ensures;

            assert(all.take(i + 1).drop_last() =~= all.take(i));
            assert(all.take(i + 1).last() == name@);
        }
        if !is_internal(name.as_str()) {
            insert_in_order(&mut keys, name);
        }
    }
    proof {
        assert(all.take(all.len() as int) =~= all);
        keys_are_the_visible_names_sorted(all);
        name_order_is_total();
        vstd::seq_lib::lemma_sorted_unique(texts(keys@), sorted_keys(all), name_order());
    }
    keys
}

impl Mount {
    /// The keys present in the mount, sorted, given what listing [`Mount::data_dir`] gave. The
    /// entries that Kubernetes keeps for itself (`..data` and the `..<timestamp>` directories)
    /// are skipped.
    pub fn keys<E>(&self, listing: Listing) -> (keys: Result<Vec<String>, Error<E>>)
        ensures
            keys_view(keys) == listed_keys::<E>(self@, listing_view(listing)),
            keys matches Ok(keys) ==> {
                let names = successes(listing_view(listing)->Ok_0);
                &&& sorted_by(texts(keys@), name_order())
                &&& texts(keys@).to_multiset() == visible(as_text(names)).to_multiset()
                &&& valid_names_kept(names)
            },
    {
        let entries = match listing {
            Ok(entries) => entries,
            Err(source) => return Err(Error::Mount { path: self.data_dir.clone(), source }),
        };
        let ghost all = listing_view(listing)->Ok_0;
        let mut names: Vec<String> = Vec::new();
        assert(texts(names@) =~= as_text(successes(all.take(0))));
        assert(all.skip(0) =~= all);
        for entry in it: entries
            invariant
                all == it.seq().map_values(|entry| entry_view(entry)),
                first_failure(all) == first_failure(all.skip(it.index() as int)),
                texts(names@) == as_text(successes(all.take(it.index() as int))),
                forall|i: int|
                    0 <= i < it.index() && valid_utf8(#[trigger] successes(all)[i]) ==> lossy_text(
                        successes(all)[i],
                    ) == decode_utf8(successes(all)[i]),
                listing_view(listing) == ListingView::Ok(all),
        {
            let ghost i = it.index() as int;
            assert(all.skip(i)[0] == entry_view(entry));
            assert(all.skip(i).drop_first() =~= all.skip(i + 1));
            let name = match entry {
                Ok(name) => name,
                Err(source) => {
                    return Err(Error::Mount { path: self.data_dir.clone(), source });
                },
            };
            assert(successes(all)[i] == name@);
            assert(successes(all.take(i + 1)) =~= successes(all.take(i)).push(name@));
            let ghost before = texts(names@);
            names.push(lossy(name.as_slice()));
            assert(texts(names@) =~= before.push(lossy_text(name@)));
            assert(texts(names@) =~= as_text(successes(all.take(i + 1))));
        }
        assert(all.take(all.len() as int) =~= all);
        assert(all.skip(all.len() as int) =~= Seq::empty());
        Ok(select_keys(names))
    }
}

} // verus!
