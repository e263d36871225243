//! The parts of the library, one by one.

use std::collections::hash_map::DefaultHasher;
use std::hash::{Hash, Hasher};
use std::io::{Error as IoError, ErrorKind};

use kunobi_reload::error::Error;
use kunobi_reload::fingerprint::SurveyStep;
use kunobi_reload::mount::{data_entry_path, select_keys, DataEntry, Mount};
use kunobi_reload::path::FilePath;
use kunobi_reload::watch::{
    drain_debounced, wait_for_change, watch, Interval, Trigger, Waited, Wake,
};

fn joined(base: &str, part: &str) -> Vec<u8> {
    FilePath::from_text(base)
        .join(&FilePath::from_text(part))
        .as_bytes()
        .to_vec()
}

fn plain(root: &str) -> Mount {
    Mount::resolve(&FilePath::from_text(root), DataEntry::Absent)
}

fn strings(names: &[&str]) -> Vec<String> {
    names.iter().map(|name| name.to_string()).collect()
}

/// The content hash of files whose names are listed in the order given.
fn hash_of(files: &[(&str, &[u8])]) -> Result<u64, Error<String>> {
    let mount = plain("/m");
    let listing = files
        .iter()
        .map(|(name, _)| Ok(name.as_bytes().to_vec()))
        .collect();
    let mut step: SurveyStep<String> = mount.fingerprint(Ok(listing));
    loop {
        step = match step {
            SurveyStep::Read(survey) => {
                let wanted = survey.wanted().as_bytes().to_vec();
                let file = files
                    .iter()
                    .find(|(name, _)| joined("/m", name) == wanted);
                survey.absorb(Ok(file.unwrap().1.to_vec()))
            }
            SurveyStep::Done(hash) => return Ok(hash),
            SurveyStep::Failed(error) => return Err(error),
        };
    }
}

#[test]
fn paths_are_joined() {
    assert_eq!(joined("/etc/app", "uri"), b"/etc/app/uri");
    assert_eq!(joined("/etc/app/", "uri"), b"/etc/app/uri");
    assert_eq!(joined("", "uri"), b"uri");
    assert_eq!(joined("/etc", "/other"), b"/other");
    assert_eq!(joined("/etc", ""), b"/etc/");
    for (base, part) in [
        ("/etc/app", "uri"),
        ("/etc/app/", "uri"),
        ("", "uri"),
        ("/etc", "/other"),
        ("/etc", ""),
        ("/", "..data"),
    ] {
        let path = std::path::Path::new(base).join(part);
        assert_eq!(joined(base, part), path.to_str().unwrap().as_bytes());
    }
}

#[test]
fn paths_need_not_be_text() {
    let path = FilePath::from_bytes(vec![0x2f, 0xff]);
    assert_eq!(path.as_bytes(), &[0x2f, 0xff]);
    assert_eq!(path.clone().as_bytes(), &[0x2f, 0xff]);
    assert_eq!(plain_of(path).key_path("k").as_bytes(), &[0x2f, 0xff, 0x2f, 0x6b]);
}

fn plain_of(root: FilePath) -> Mount {
    Mount::resolve(&root, DataEntry::Absent)
}

#[test]
fn a_mount_is_resolved_by_what_stands_at_data() {
    let root = FilePath::from_text("/m");
    assert_eq!(data_entry_path(&root).as_bytes(), b"/m/..data");
    let absent = Mount::resolve(&root, DataEntry::Absent);
    assert_eq!(absent.data_dir().as_bytes(), b"/m");
    let directory = Mount::resolve(&root, DataEntry::Directory);
    assert_eq!(directory.data_dir().as_bytes(), b"/m/..data");
    let link = Mount::resolve(&root, DataEntry::Link(FilePath::from_text("..2026_05_15")));
    assert_eq!(link.data_dir().as_bytes(), b"/m/..2026_05_15");
    assert_eq!(link.clone().key_path("uri").as_bytes(), b"/m/..2026_05_15/uri");
    let elsewhere = Mount::resolve(&root, DataEntry::Link(FilePath::from_text("/data/now")));
    assert_eq!(elsewhere.data_dir().as_bytes(), b"/data/now");
}

#[test]
fn a_key_is_read_as_it_is_stored() {
    let mount = plain("/m");
    let read: Result<Vec<u8>, Error<String>> = mount.read("k", Ok(vec![0, 255, 10]));
    assert_eq!(read.unwrap(), vec![0, 255, 10]);
    let text: Result<String, Error<String>> = mount.read_str("k", Ok(b"a\xc3\xa9\n".to_vec()));
    assert_eq!(text.unwrap(), "a\u{e9}\n");
}

#[test]
fn a_key_that_cannot_be_read_is_told_by_its_name() {
    let mount = plain("/m");
    let read: Result<Vec<u8>, Error<String>> =
        mount.read("tls.crt", Err(IoError::new(ErrorKind::NotFound, "gone")));
    assert!(matches!(
        read,
        Err(Error::Key { key, source }) if key == "tls.crt" && source.kind() == ErrorKind::NotFound
    ));
    let text: Result<String, Error<String>> =
        mount.read_str("tls.crt", Err(IoError::new(ErrorKind::NotFound, "gone")));
    assert!(matches!(text, Err(Error::Key { key, .. }) if key == "tls.crt"));
}

#[test]
fn bytes_that_are_no_text_are_refused() {
    let mount = plain("/m");
    for bytes in [
        vec![0xff],
        vec![0xc3],
        vec![0xc0, 0x80],
        vec![0xed, 0xa0, 0x80],
        vec![0xf4, 0x90, 0x80, 0x80],
    ] {
        let text: Result<String, Error<String>> = mount.read_str("k", Ok(bytes));
        assert!(matches!(text, Err(Error::Utf8 { key }) if key == "k"));
    }
}

#[test]
fn keys_are_ordered_by_their_bytes() {
    let sorted = strings(&[
        "", "Z", "a", "tls", "tls.crt", "z", "\u{e9}", "\u{ffff}", "\u{10000}",
    ]);
    let mut names = sorted.clone();
    names.reverse();
    assert_eq!(select_keys(names), sorted);
    let mut names = sorted.clone();
    names.sort();
    assert_eq!(names, sorted);
}

#[test]
fn keys_are_selected_and_sorted() {
    let names = strings(&["uri", "..data", ".hidden", "password", "..2026", ".", "..", "a..b"]);
    let mut expected = strings(&["uri", ".hidden", "password", ".", "a..b"]);
    expected.sort();
    assert_eq!(select_keys(names), expected);
    assert_eq!(select_keys(Vec::new()), strings(&[]));
    assert_eq!(select_keys(strings(&["x", "x"])), strings(&["x", "x"]));
}

#[test]
fn keys_of_names_that_are_no_text_are_shown_with_replacements() {
    let mount = plain("/m");
    let keys: Result<Vec<String>, Error<String>> =
        mount.keys(Ok(vec![Ok(b"\xffkey".to_vec()), Ok(b"caf\xc3\xa9".to_vec())]));
    assert_eq!(keys.unwrap(), strings(&["caf\u{e9}", "\u{fffd}key"]));
}

#[test]
fn a_directory_that_cannot_be_listed_is_told_by_its_path() {
    let mount = plain("/m");
    let keys: Result<Vec<String>, Error<String>> =
        mount.keys(Err(IoError::new(ErrorKind::NotFound, "gone")));
    assert!(matches!(
        keys,
        Err(Error::Mount { path, source })
            if path.as_bytes() == b"/m" && source.kind() == ErrorKind::NotFound
    ));
    let keys: Result<Vec<String>, Error<String>> = mount.keys(Ok(vec![
        Ok(b"uri".to_vec()),
        Err(IoError::new(ErrorKind::Interrupted, "first")),
        Err(IoError::new(ErrorKind::NotFound, "second")),
    ]));
    assert!(matches!(
        keys,
        Err(Error::Mount { source, .. }) if source.kind() == ErrorKind::Interrupted
    ));
}

#[test]
fn the_hash_is_that_of_the_sorted_keys_and_their_values() {
    let mut hasher = DefaultHasher::new();
    "password".to_string().hash(&mut hasher);
    b"secret".to_vec().hash(&mut hasher);
    "uri".to_string().hash(&mut hasher);
    b"postgres://a".to_vec().hash(&mut hasher);
    let files: &[(&str, &[u8])] = &[("uri", b"postgres://a"), ("password", b"secret")];
    assert_eq!(hash_of(files).unwrap(), hasher.finish());
    assert_eq!(hash_of(&[]).unwrap(), DefaultHasher::new().finish());
}

#[test]
fn the_hash_does_not_depend_on_the_listing_order() {
    let there: &[(&str, &[u8])] = &[("a", b"1"), ("b", b"2"), ("..data", b"x")];
    let back: &[(&str, &[u8])] = &[("..data", b"y"), ("b", b"2"), ("a", b"1")];
    assert_eq!(hash_of(there).unwrap(), hash_of(back).unwrap());
}

#[test]
fn the_hash_sees_where_keys_and_values_end() {
    let contents: &[&[(&str, &[u8])]] = &[
        &[("a", b"bc")],
        &[("ab", b"c")],
        &[("a", b""), ("b", b"c")],
        &[("a", b"b"), ("c", b"")],
        &[("a", b"")],
        &[],
    ];
    for (i, one) in contents.iter().enumerate() {
        for (j, other) in contents.iter().enumerate() {
            let same = hash_of(one).unwrap() == hash_of(other).unwrap();
            assert_eq!(same, i == j);
        }
    }
}

#[test]
fn a_survey_stops_at_the_first_key_that_cannot_be_read() {
    let mount = plain("/m");
    let step: SurveyStep<String> =
        mount.fingerprint(Ok(vec![Ok(b"b".to_vec()), Ok(b"a".to_vec())]));
    let survey = match step {
        SurveyStep::Read(survey) => survey,
        _ => panic!("there are keys to read"),
    };
    assert_eq!(survey.wanted().as_bytes(), b"/m/a");
    let step: SurveyStep<String> = survey.absorb(Ok(b"1".to_vec()));
    let survey = match step {
        SurveyStep::Read(survey) => survey,
        _ => panic!("there is a key left to read"),
    };
    assert_eq!(survey.wanted().as_bytes(), b"/m/b");
    let step: SurveyStep<String> =
        survey.absorb(Err(IoError::new(ErrorKind::PermissionDenied, "denied")));
    assert!(matches!(
        step,
        SurveyStep::Failed(Error::Key { key, source })
            if key == "b" && source.kind() == ErrorKind::PermissionDenied
    ));
    let step: SurveyStep<String> =
        mount.fingerprint(Err(IoError::new(ErrorKind::NotFound, "gone")));
    assert!(matches!(step, SurveyStep::Failed(Error::Mount { .. })));
}

#[test]
fn a_watch_is_configured() {
    let plan = watch(FilePath::from_text("/m"));
    assert_eq!(plan.dir().as_bytes(), b"/m");
    let five_minutes = Interval {
        secs: 300,
        nanos: 0,
    };
    assert_eq!(plan.clone().into_parts().1, Some(five_minutes));
    assert_eq!(plan.clone().fallback_poll(None).into_parts().1, None);
    let second = Interval { secs: 1, nanos: 5 };
    let (dir, cadence) = plan.fallback_poll(Some(second)).into_parts();
    assert_eq!(dir.as_bytes(), b"/m");
    assert_eq!(cadence, Some(second));
}

#[test]
fn wake_ups_are_decided() {
    let filesystem = Wake::Event(Trigger::Filesystem);
    let nudge = Wake::Event(Trigger::Nudge);
    assert_eq!(wait_for_change(filesystem), Waited::Drain);
    assert_eq!(wait_for_change(nudge), Waited::Check);
    assert_eq!(wait_for_change(Wake::Elapsed), Waited::Drain);
    assert_eq!(wait_for_change(Wake::Closed), Waited::Exit);
    assert_eq!(drain_debounced(filesystem), Waited::Drain);
    assert_eq!(drain_debounced(nudge), Waited::Check);
    assert_eq!(drain_debounced(Wake::Elapsed), Waited::Check);
    assert_eq!(drain_debounced(Wake::Closed), Waited::Check);
}
