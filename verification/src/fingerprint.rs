//! The change signal: a hash over every key and value of a mount.
//!
//! A survey asks for the key files one after the other, in the order of the sorted keys, and
//! hashes what it is given; the first file that cannot be read ends it.

use crate::error::{Error, ErrorView};
use crate::mount::{
    key_file, listed_keys, listing_view, successes, valid_names_kept, Listing, Mount,
};
use crate::order::texts;
use crate::path::FilePath;
use std::collections::hash_map::DefaultHasher;
use std::hash::Hasher;
use vstd::bytes::{spec_u64_to_le_bytes, u64_to_le_bytes};
use vstd::prelude::*;
use vstd::std_specs::hash::DefaultHasherAdditionalSpecFns;
use vstd::utf8::encode_utf8;

verus! {

/// The byte behind each key: it occurs in no UTF-8 text.
pub const KEY_END: u8 = 0xff;

/// What the hasher is fed for one key: its name, an end mark, the length of the value, and the
/// value.
pub open spec fn entry_chunks(key: Seq<char>, value: Seq<u8>) -> Seq<Seq<u8>> {
    seq![encode_utf8(key), seq![KEY_END], spec_u64_to_le_bytes(value.len() as u64), value]
}

/// What the hasher is fed for the first `values.len()` keys.
pub open spec fn chunks(keys: Seq<Seq<char>>, values: Seq<Seq<u8>>) -> Seq<Seq<u8>>
    decreases values.len(),
{
    if values.len() == 0 {
        Seq::empty()
    } else {
        chunks(keys, values.drop_last()) + entry_chunks(keys[values.len() - 1], values.last())
    }
}

/// The content hash of the given keys with the given values.
pub open spec fn content_hash(keys: Seq<Seq<char>>, values: Seq<Seq<u8>>) -> u64 {
    DefaultHasher::spec_finish(chunks(keys, values))
}

/// A survey of the snapshot in `dir` that has read the values of the first `values.len()` keys.
#[verifier::ext_equal]
pub struct SurveyView {
    pub dir: Seq<u8>,
    pub keys: Seq<Seq<char>>,
    pub values: Seq<Seq<u8>>,
}

impl SurveyView {
    /// The key whose file is read next.
    pub open spec fn wanted_key(self) -> Seq<char> {
        self.keys[self.values.len() as int]
    }

    /// The file that is read next.
    pub open spec fn wanted_file(self) -> Seq<u8> {
        key_file(self.dir, self.wanted_key())
    }
}

/// What [`SurveyStep`] says.
pub enum SurveyStepView<E> {
    Read(SurveyView),
    Done(u64),
    Failed(ErrorView<E>),
}

/// Where a survey stands once the given values are read: it reads on while there are keys left.
pub open spec fn surveyed<E>(
    dir: Seq<u8>,
    keys: Seq<Seq<char>>,
    values: Seq<Seq<u8>>,
) -> SurveyStepView<E> {
    if values.len() < keys.len() {
        SurveyStepView::Read(SurveyView { dir, keys, values })
    } else {
        SurveyStepView::Done(content_hash(keys, values))
    }
}

/// What comes of a survey when its next file is read.
pub open spec fn absorbed<E>(
    survey: SurveyView,
    found: Result<Seq<u8>, std::io::Error>,
) -> SurveyStepView<E> {
    match found {
        Ok(value) => surveyed(survey.dir, survey.keys, survey.values.push(value)),
        Err(source) => SurveyStepView::Failed(ErrorView::Key { key: survey.wanted_key(), source }),
    }
}

/// How a survey of the snapshot in `dir` begins.
pub open spec fn started<E>(
    dir: Seq<u8>,
    keys: Result<Seq<Seq<char>>, ErrorView<E>>,
) -> SurveyStepView<E> {
    match keys {
        Ok(keys) => surveyed(dir, keys, Seq::empty()),
        Err(error) => SurveyStepView::Failed(error),
    }
}

/// The bytes that reading a file gave, as a sequence.
pub open spec fn found_view(found: Result<Vec<u8>, std::io::Error>) -> Result<
    Seq<u8>,
    std::io::Error,
> {
    match found {
        Ok(bytes) => Ok(bytes@),
        Err(source) => Err(source),
    }
}

/// A survey of a mount with key files still to read.
pub struct Survey {
    mount: Mount,
    keys: Vec<String>,
    next: usize,
    hasher: DefaultHasher,
    values: Ghost<Seq<Seq<u8>>>,
}

/// Where a survey stands.
pub enum SurveyStep<E> {
    /// A file is to be read: see [`Survey::wanted`] and [`Survey::absorb`].
    Read(Survey),
    /// Every key is read; the content hash.
    Done(u64),
    /// The mount or one of its keys could not be read.
    Failed(Error<E>),
}

impl View for Survey {
    type V = SurveyView;

    closed spec fn view(&self) -> SurveyView {
        SurveyView { dir: self.mount@, keys: texts(self.keys@), values: self.values@ }
    }
}

impl<E> View for SurveyStep<E> {
    type V = SurveyStepView<E>;

    open spec fn view(&self) -> SurveyStepView<E> {
        match *self {
            SurveyStep::Read(survey) => SurveyStepView::Read(survey@),
            SurveyStep::Done(hash) => SurveyStepView::Done(hash),
            SurveyStep::Failed(error) => SurveyStepView::Failed(error@),
        }
    }
}

impl Mount {
    /// Begins to take a content hash over every key and value in the mount, given what listing
    /// [`Mount::data_dir`] gave.
    ///
    /// A reload happens only when this hash differs from the last one. It depends on the bytes
    /// alone, not on the target of the `..data` symlink or on file times, so that a re-sync with
    /// identical content wakes nobody.
    pub fn fingerprint<E>(&self, listing: Listing) -> (step: SurveyStep<E>)
        ensures
            step@ == started::<E>(self@, listed_keys::<E>(self@, listing_view(listing))),
            step !is Failed ==> valid_names_kept(successes(listing_view(listing)->Ok_0)),
    {
        match self.keys(listing) {
            Ok(keys) => Survey::resume(
                self.clone(),
                keys,
                0,
                DefaultHasher::new(),
                Ghost(Seq::empty()),
            ),
            Err(error) => SurveyStep::Failed(error),
        }
    }
}

impl Survey {
    #[verifier::type_invariant]
    spec fn consistent(self) -> bool {
        &&& self.next < self.keys@.len()
        &&& self.values@.len() == self.next
        &&& self.hasher@ == chunks(texts(self.keys@), self.values@)
    }

    /// Goes on with the next key, or finishes where none is left.
    fn resume<E>(
        mount: Mount,
        keys: Vec<String>,
        next: usize,
        hasher: DefaultHasher,
        values: Ghost<Seq<Seq<u8>>>,
    ) -> (step: SurveyStep<E>)
        requires
            next <= keys@.len(),
            values@.len() == next,
            hasher@ == chunks(texts(keys@), values@),
        ensures
            step@ == surveyed::<E>(mount@, texts(keys@), values@),
    {
        if next < keys.len() {
            SurveyStep::Read(Survey { mount, keys, next, hasher, values })
        } else {
            SurveyStep::Done(hasher.finish())
        }
    }

    /// The file to read next.
    pub fn wanted(&self) -> (path: FilePath)
        ensures
            self@.values.len() < self@.keys.len(),
            path@ == self@.wanted_file(),
    {
        proof {
            use_type_invariant(self);
        }
        self.mount.key_path(self.keys[self.next].as_str())
    }

    /// Takes what reading that file gave.
    pub fn absorb<E>(self, found: Result<Vec<u8>, std::io::Error>) -> (step: SurveyStep<E>)
        ensures
            step@ == absorbed::<E>(self@, found_view(found)),
    {
        proof {
            use_type_invariant(&self);
        }
        let Survey { mount, keys, next, hasher, values } = self;
        let value: Vec<u8> = match mount.read(keys[next].as_str(), found) {
            Ok(value) => value,
            Err(error) => return SurveyStep::Failed(error),
        };
        let mut hasher = hasher;
        let mark: Vec<u8> = vec![KEY_END];
        assert(mark@ =~= seq![KEY_END]);
        assert(next < keys.len());
        hasher.write(keys[next].as_str().as_bytes());
        hasher.write(mark.as_slice());
        hasher.write(u64_to_le_bytes(value.len() as u64).as_slice());
        hasher.write(value.as_slice());
        let ghost read = values@.push(value@);
        proof {
            assert(read.drop_last() =~= values@);
            assert(hasher@ =~= chunks(texts(keys@), read));
        }
        Survey::resume(mount, keys, next + 1, hasher, Ghost(read))
    }
}

} // verus!
