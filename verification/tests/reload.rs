//! Whole watches, driven over a volume held in memory.

use std::collections::{BTreeMap, VecDeque};
use std::io::{Error as IoError, ErrorKind};
use std::sync::{Arc, Mutex};

use kunobi_reload::error::Error;
use kunobi_reload::fingerprint::SurveyStep;
use kunobi_reload::mount::{data_entry_path, DataEntry, Listing, Mount};
use kunobi_reload::path::FilePath;
use kunobi_reload::reloader::{Action, Event, Reloader, Report};
use kunobi_reload::watch::{watch, Interval, Trigger, Wake, Watch};

/// What stands at a path of a volume.
#[derive(Clone)]
enum Node {
    Dir,
    File(Vec<u8>),
    Link(String),
}

/// A file system in memory. Paths are absolute.
#[derive(Clone)]
struct Volume {
    nodes: BTreeMap<String, Node>,
    unreadable: Vec<String>,
}

impl Volume {
    fn new() -> Volume {
        Volume {
            nodes: BTreeMap::new(),
            unreadable: Vec::new(),
        }
    }

    fn mkdir(&mut self, path: &str) {
        self.nodes.insert(path.to_string(), Node::Dir);
    }

    fn write(&mut self, path: &str, value: &[u8]) {
        self.nodes
            .insert(path.to_string(), Node::File(value.to_vec()));
    }

    /// The path with every symlink followed, if something stands there.
    fn follow(&self, path: &str) -> Option<String> {
        let mut done = String::new();
        for part in path.split('/') {
            if part.is_empty() {
                continue;
            }
            let here = format!("{done}/{part}");
            done = match self.nodes.get(&here) {
                Some(Node::Link(target)) => self.follow(&format!("{done}/{target}"))?,
                Some(_) => here,
                None => return None,
            };
        }
        Some(done)
    }

    fn probe(&self, path: &FilePath) -> DataEntry {
        let path = text(path);
        if self.follow(&path).is_none() {
            return DataEntry::Absent;
        }
        match self.nodes.get(&path) {
            Some(Node::Link(target)) => DataEntry::Link(FilePath::from_text(target)),
            _ => DataEntry::Directory,
        }
    }

    fn list(&self, dir: &FilePath) -> Listing {
        let dir = match self.follow(&text(dir)) {
            Some(dir) => dir,
            None => return Err(IoError::new(ErrorKind::NotFound, "no such directory")),
        };
        let prefix = format!("{dir}/");
        let mut names: Vec<Result<Vec<u8>, IoError>> = Vec::new();
        for path in self.nodes.keys() {
            if let Some(name) = path.strip_prefix(&prefix) {
                if !name.contains('/') {
                    names.push(Ok(name.as_bytes().to_vec()));
                }
            }
        }
        // A directory is listed in no particular order.
        names.reverse();
        Ok(names)
    }

    fn read(&self, path: &FilePath) -> Result<Vec<u8>, IoError> {
        let path = text(path);
        let real = match self.follow(&path) {
            Some(real) => real,
            None => return Err(IoError::new(ErrorKind::NotFound, "no such file")),
        };
        if self.unreadable.contains(&real) {
            return Err(IoError::new(ErrorKind::PermissionDenied, "denied"));
        }
        match self.nodes.get(&real) {
            Some(Node::File(value)) => Ok(value.clone()),
            _ => Err(IoError::new(ErrorKind::Other, "is a directory")),
        }
    }

    fn resolve(&self, root: &str) -> Mount {
        let root = FilePath::from_text(root);
        let data = self.probe(&data_entry_path(&root));
        Mount::resolve(&root, data)
    }

    fn read_str(&self, mount: &Mount, key: &str) -> Result<String, Error<String>> {
        mount.read_str(key, self.read(&mount.key_path(key)))
    }

    fn keys(&self, mount: &Mount) -> Result<Vec<String>, Error<String>> {
        mount.keys(self.list(mount.data_dir()))
    }

    fn fingerprint(&self, mount: &Mount) -> Result<u64, Error<String>> {
        let mut step = mount.fingerprint(self.list(mount.data_dir()));
        loop {
            step = match step {
                SurveyStep::Read(survey) => {
                    let found = self.read(&survey.wanted());
                    survey.absorb(found)
                }
                SurveyStep::Done(hash) => return Ok(hash),
                SurveyStep::Failed(error) => return Err(error),
            };
        }
    }
}

fn text(path: &FilePath) -> String {
    String::from_utf8(path.as_bytes().to_vec()).unwrap()
}

/// Builds a Kubernetes-style mount layout under `root`: `..<version>/` with the data, a `..data`
/// symlink to it, and a top-level symlink per key.
fn write_k8s_mount(volume: &mut Volume, root: &str, version: &str, files: &[(&str, &str)]) {
    volume.mkdir(root);
    let data = format!("{root}/..{version}");
    volume.mkdir(&data);
    for (key, value) in files {
        volume.write(&format!("{data}/{key}"), value.as_bytes());
    }
    volume
        .nodes
        .insert(format!("{root}/..data"), Node::Link(format!("..{version}")));
    for (key, _) in files {
        volume
            .nodes
            .insert(format!("{root}/{key}"), Node::Link(format!("..data/{key}")));
    }
}

/// Reads the `uri` key of a mount.
fn uri(volume: &Volume, mount: &Mount) -> Result<String, String> {
    match volume.read_str(mount, "uri") {
        Ok(value) => Ok(value),
        Err(error) => Err(format!("{error:?}")),
    }
}

type Parser<T> = Box<dyn Fn(&Volume, &Mount) -> Result<T, String>>;

/// A watch and everything around it.
struct Rig<T> {
    volume: Volume,
    parse: Parser<T>,
    reloader: Option<Reloader<T>>,
    wakes: VecDeque<Wake>,
    published: Vec<Arc<T>>,
    parses: usize,
    waits: Vec<Option<Interval>>,
    watchers: usize,
    told: Vec<Report<String>>,
}

impl<T> Rig<T> {
    fn new(volume: Volume, plan: Watch, parse: Parser<T>) -> Rig<T> {
        Rig {
            volume,
            parse,
            reloader: Some(plan.spawn()),
            wakes: VecDeque::new(),
            published: Vec::new(),
            parses: 0,
            waits: Vec::new(),
            watchers: 0,
            told: Vec::new(),
        }
    }

    fn step(&mut self, event: Event<T, String>) {
        let (next, report) = self.reloader.take().unwrap().step(event);
        self.reloader = Some(next);
        match report {
            Report::Nothing => {}
            report => self.told.push(report),
        }
    }

    fn current(&self) -> Option<Arc<T>> {
        self.reloader.as_ref().unwrap().current().cloned()
    }

    fn pending(&self) -> Action {
        self.reloader.as_ref().unwrap().pending()
    }

    /// Does everything that is to be done until the watch waits for a trigger or is over.
    fn settle(&mut self) {
        loop {
            let event = match self.pending() {
                Action::StartWatcher(dir) => {
                    self.watchers += 1;
                    match self.volume.follow(&text(&dir)) {
                        Some(_) => Event::Watching(Ok(())),
                        None => Event::Watching(Err("no such directory".to_string())),
                    }
                }
                Action::Probe(path) => Event::Probed(self.volume.probe(&path)),
                Action::List(dir) => Event::Listed(self.volume.list(&dir)),
                Action::Read(path) => Event::Found(self.volume.read(&path)),
                Action::Parse(mount) => {
                    self.parses += 1;
                    Event::Parsed((self.parse)(&self.volume, &mount))
                }
                Action::Publish => {
                    self.published.push(self.current().unwrap());
                    Event::Published
                }
                Action::Wait(timeout) => match self.wakes.pop_front() {
                    Some(wake) => {
                        self.waits.push(timeout);
                        Event::Woken(wake)
                    }
                    None => return,
                },
                Action::Stop => return,
            };
            self.step(event);
        }
    }

    /// A burst of filesystem events, and quiet.
    fn rotate(&mut self) {
        for _ in 0..3 {
            self.wakes.push_back(Wake::Event(Trigger::Filesystem));
        }
        self.wakes.push_back(Wake::Elapsed);
        self.settle();
    }

    fn nudge(&mut self) {
        self.wakes.push_back(Wake::Event(Trigger::Nudge));
        self.settle();
    }
}

const DEBOUNCE: Interval = Interval {
    secs: 0,
    nanos: 200_000_000,
};

const FIVE_MINUTES: Interval = Interval {
    secs: 300,
    nanos: 0,
};

fn plan() -> Watch {
    watch(FilePath::from_text("/m"))
}

fn started(files: &[(&str, &str)]) -> Rig<String> {
    let mut volume = Volume::new();
    write_k8s_mount(&mut volume, "/m", "v1", files);
    let mut rig = Rig::new(volume, plan(), Box::new(uri));
    rig.settle();
    rig
}

#[test]
fn mount_reads_through_data_symlink() {
    let mut volume = Volume::new();
    write_k8s_mount(&mut volume, "/m", "v1", &[("uri", "postgres://a")]);

    let mount = volume.resolve("/m");
    assert_eq!(volume.read_str(&mount, "uri").unwrap(), "postgres://a");
}

#[test]
fn mount_reads_plain_directory() {
    let mut volume = Volume::new();
    volume.mkdir("/m");
    volume.write("/m/token", b"abc123");

    let mount = volume.resolve("/m");
    assert_eq!(volume.read_str(&mount, "token").unwrap(), "abc123");
}

#[test]
fn keys_skip_kubernetes_internal_entries() {
    let mut volume = Volume::new();
    write_k8s_mount(&mut volume, "/m", "v1", &[("uri", "x"), ("password", "y")]);

    let keys = volume.keys(&volume.resolve("/m")).unwrap();
    assert_eq!(keys, vec!["password".to_string(), "uri".to_string()]);

    // The mount root itself shows the internal entries next to the keys.
    let root = Mount::resolve(&FilePath::from_text("/m"), DataEntry::Absent);
    assert_eq!(
        volume.keys(&root).unwrap(),
        vec!["password".to_string(), "uri".to_string()]
    );
}

#[test]
fn fingerprint_tracks_content_not_the_data_target() {
    let mut volume = Volume::new();
    write_k8s_mount(&mut volume, "/m", "v1", &[("uri", "same")]);
    let fp1 = volume.fingerprint(&volume.resolve("/m")).unwrap();

    // New `..data` target, identical content.
    write_k8s_mount(&mut volume, "/m", "v2", &[("uri", "same")]);
    let fp2 = volume.fingerprint(&volume.resolve("/m")).unwrap();
    assert_eq!(fp1, fp2, "identical content must hash the same");

    // Same as above but content actually differs.
    write_k8s_mount(&mut volume, "/m", "v3", &[("uri", "different")]);
    let fp3 = volume.fingerprint(&volume.resolve("/m")).unwrap();
    assert_ne!(fp1, fp3, "changed content must hash differently");
}

#[test]
fn reloads_when_content_changes() {
    let mut rig = started(&[("uri", "old")]);
    assert_eq!(rig.current().unwrap().as_str(), "old");

    write_k8s_mount(&mut rig.volume, "/m", "v2", &[("uri", "new")]);
    rig.rotate();
    assert_eq!(rig.current().unwrap().as_str(), "new");
}

#[test]
fn no_reload_when_content_is_identical() {
    let mut rig = started(&[("uri", "stable")]);
    assert_eq!(rig.published.len(), 1);

    // Swap `..data` to a new directory with byte-identical content.
    write_k8s_mount(&mut rig.volume, "/m", "v2", &[("uri", "stable")]);
    rig.rotate();

    assert_eq!(
        rig.published.len(),
        1,
        "a content-identical swap must not wake subscribers",
    );
    assert_eq!(rig.parses, 1);
    assert_eq!(rig.current().unwrap().as_str(), "stable");
}

#[test]
fn internal_entries_are_no_content() {
    let mut volume = Volume::new();
    volume.mkdir("/m");
    volume.write("/m/uri", b"stable");
    let mut rig: Rig<String> = Rig::new(volume, plan(), Box::new(uri));
    rig.settle();
    assert_eq!(rig.current().unwrap().as_str(), "stable");

    rig.volume.write("/m/..scratch", b"anything");
    rig.rotate();
    assert_eq!(rig.parses, 1);
    assert_eq!(rig.published.len(), 1);

    rig.volume.write("/m/visible", b"anything");
    rig.rotate();
    assert_eq!(rig.parses, 2);
    assert_eq!(rig.published.len(), 2);
}

#[test]
fn subscription_is_pushed_the_new_value() {
    let mut rig = started(&[("uri", "old")]);

    write_k8s_mount(&mut rig.volume, "/m", "v2", &[("uri", "new")]);
    rig.rotate();

    let received = rig.published.get(1);
    assert_eq!(
        received.map(|value| value.as_str()),
        Some("new"),
        "subscription should be pushed the change"
    );
    assert_eq!(rig.published.len(), 2);
}

#[test]
fn keeps_previous_value_when_reparse_fails() {
    let mut volume = Volume::new();
    write_k8s_mount(&mut volume, "/m", "v1", &[("uri", "good")]);
    let mut rig: Rig<String> = Rig::new(
        volume,
        plan(),
        Box::new(|volume, mount| {
            let uri = uri(volume, mount)?;
            if uri.is_empty() {
                return Err("empty uri".to_string());
            }
            Ok(uri)
        }),
    );
    rig.settle();
    assert_eq!(rig.current().unwrap().as_str(), "good");

    write_k8s_mount(&mut rig.volume, "/m", "v2", &[("uri", "")]);
    rig.rotate();
    assert_eq!(
        rig.current().unwrap().as_str(),
        "good",
        "previous value must survive a failed re-parse",
    );
    assert!(matches!(rig.told.last(), Some(Report::KeptPrevious(error)) if error == "empty uri"));

    // The same content is tried again on the next trigger.
    assert_eq!(rig.parses, 2);
    rig.rotate();
    assert_eq!(rig.parses, 3);
    assert_eq!(rig.published.len(), 1);
}

#[test]
fn spawn_fails_when_mount_directory_is_missing() {
    let missing = watch(FilePath::from_text("/nonexistent/kunobi-reload/mount"));
    let mut rig: Rig<String> = Rig::new(Volume::new(), missing, Box::new(uri));
    rig.settle();
    assert!(
        matches!(
            rig.told.last(),
            Some(Report::Failed(Error::Watch(error))) if error == "no such directory"
        ),
        "spawn must fail on a missing mount"
    );
    assert!(matches!(rig.pending(), Action::Stop));
    assert!(rig.current().is_none());
    assert_eq!(rig.parses, 0);
}

#[test]
fn reload_nudge_forces_an_immediate_check() {
    let mut volume = Volume::new();
    write_k8s_mount(&mut volume, "/m", "v1", &[("uri", "old")]);

    // No filesystem events, no fallback poll: only an explicit nudge can advance the value.
    let mut rig: Rig<String> = Rig::new(volume, plan().fallback_poll(None), Box::new(uri));
    rig.settle();

    write_k8s_mount(&mut rig.volume, "/m", "v2", &[("uri", "new")]);
    rig.nudge();
    assert_eq!(rig.current().unwrap().as_str(), "new");
    // One wait, without a timeout, and none for quiet.
    assert_eq!(rig.waits, vec![None]);
}

#[test]
fn reloadable_via_from_mount_trait() {
    struct DbUri(String);

    fn from_mount(volume: &Volume, mount: &Mount) -> Result<DbUri, String> {
        Ok(DbUri(uri(volume, mount)?.trim().to_string()))
    }

    let mut volume = Volume::new();
    write_k8s_mount(&mut volume, "/m", "v1", &[("uri", "postgres://h\n")]);

    let mut rig: Rig<DbUri> = Rig::new(volume, plan(), Box::new(from_mount));
    rig.settle();
    assert_eq!(rig.current().unwrap().0, "postgres://h");
}

#[test]
fn drive_refreshes_a_client_in_place() {
    struct Client {
        token: Mutex<String>,
    }

    let mut volume = Volume::new();
    write_k8s_mount(&mut volume, "/m", "v1", &[("token", "tok-old")]);

    let client = Arc::new(Client {
        token: Mutex::new(String::new()),
    });
    let driven = Arc::clone(&client);
    let mut rig: Rig<()> = Rig::new(
        volume,
        plan(),
        Box::new(move |volume, mount| match volume.read_str(mount, "token") {
            Ok(token) => {
                *driven.token.lock().unwrap() = token;
                Ok(())
            }
            Err(error) => Err(format!("{error:?}")),
        }),
    );
    rig.settle();
    // The eager refresh ran before the watch began to wait.
    assert_eq!(client.token.lock().unwrap().as_str(), "tok-old");

    write_k8s_mount(&mut rig.volume, "/m", "v2", &[("token", "tok-new")]);
    rig.rotate();
    assert_eq!(
        client.token.lock().unwrap().as_str(),
        "tok-new",
        "the client must be refreshed in place — same Arc identity",
    );
}

#[test]
fn a_first_parse_that_fails_ends_the_watch() {
    let rig = started(&[("other", "x")]);
    assert!(matches!(
        rig.told.last(),
        Some(Report::Failed(Error::Parse(_)))
    ));
    assert!(matches!(rig.pending(), Action::Stop));
    assert!(rig.current().is_none());
    assert!(rig.published.is_empty());
}

#[test]
fn an_unreadable_mount_keeps_the_value_and_is_tried_again() {
    let mut rig = started(&[("uri", "old")]);
    write_k8s_mount(&mut rig.volume, "/m", "v2", &[("uri", "new")]);
    rig.volume.unreadable.push("/m/..v2/uri".to_string());
    rig.rotate();
    assert_eq!(rig.current().unwrap().as_str(), "old");
    assert!(matches!(
        rig.told.last(),
        Some(Report::Unreadable(Error::Key { key, source }))
            if key == "uri" && source.kind() == ErrorKind::PermissionDenied
    ));

    rig.volume.unreadable.clear();
    rig.rotate();
    assert_eq!(rig.current().unwrap().as_str(), "new");
    assert!(matches!(rig.told.last(), Some(Report::Reloaded)));
}

#[test]
fn a_mount_that_vanishes_keeps_the_value() {
    let mut rig = started(&[("uri", "old")]);
    rig.volume = Volume::new();
    rig.rotate();
    assert_eq!(rig.current().unwrap().as_str(), "old");
    assert!(matches!(
        rig.told.last(),
        Some(Report::Unreadable(Error::Mount { path, source }))
            if path.as_bytes() == b"/m" && source.kind() == ErrorKind::NotFound
    ));
}

#[test]
fn a_first_look_that_fails_does_not_fail_the_start() {
    let mut volume = Volume::new();
    write_k8s_mount(&mut volume, "/m", "v1", &[("uri", "x"), ("broken", "y")]);
    volume.unreadable.push("/m/..v1/broken".to_string());
    let mut rig = Rig::new(volume, plan(), Box::new(uri));
    rig.settle();
    assert_eq!(rig.current().unwrap().as_str(), "x");
    assert!(matches!(rig.told.as_slice(), [Report::Started]));

    // Nothing was hashed, so the next look that succeeds leads to a parse.
    rig.volume.unreadable.clear();
    rig.nudge();
    assert_eq!(rig.parses, 2);
    assert_eq!(rig.published.len(), 2);
    rig.nudge();
    assert_eq!(rig.parses, 2);
}

#[test]
fn a_rotation_between_the_first_look_and_the_first_parse_is_noticed() {
    let mut volume = Volume::new();
    write_k8s_mount(&mut volume, "/m", "v1", &[("uri", "old")]);
    let mut rig: Rig<String> = Rig::new(volume, plan(), Box::new(uri));
    // Up to the parse.
    for _ in 0..5 {
        let event = match rig.pending() {
            Action::StartWatcher(_) => Event::Watching(Ok(())),
            Action::Probe(path) => Event::Probed(rig.volume.probe(&path)),
            Action::List(dir) => Event::Listed(rig.volume.list(&dir)),
            Action::Read(path) => Event::Found(rig.volume.read(&path)),
            _ => panic!("the first look takes four steps, and a fifth finds the mount to parse"),
        };
        rig.step(event);
    }
    assert!(matches!(rig.pending(), Action::Parse(_)));
    write_k8s_mount(&mut rig.volume, "/m", "v2", &[("uri", "new")]);
    rig.settle();
    assert_eq!(rig.current().unwrap().as_str(), "old");
    rig.rotate();
    assert_eq!(rig.current().unwrap().as_str(), "new");
}

#[test]
fn a_burst_is_drained_before_one_look() {
    let mut rig = started(&[("uri", "old")]);
    write_k8s_mount(&mut rig.volume, "/m", "v2", &[("uri", "new")]);
    rig.rotate();
    assert_eq!(
        rig.waits,
        vec![
            Some(FIVE_MINUTES),
            Some(DEBOUNCE),
            Some(DEBOUNCE),
            Some(DEBOUNCE)
        ]
    );
    assert_eq!(rig.parses, 2);
    assert!(matches!(rig.pending(), Action::Wait(Some(FIVE_MINUTES))));
}

#[test]
fn a_nudge_cuts_the_debounce_short() {
    let mut rig = started(&[("uri", "old")]);
    write_k8s_mount(&mut rig.volume, "/m", "v2", &[("uri", "new")]);
    rig.wakes.push_back(Wake::Event(Trigger::Filesystem));
    rig.settle();
    assert!(matches!(rig.pending(), Action::Wait(Some(DEBOUNCE))));
    rig.nudge();
    assert_eq!(rig.current().unwrap().as_str(), "new");
}

#[test]
fn the_fallback_poll_finds_a_change_without_an_event() {
    let mut volume = Volume::new();
    write_k8s_mount(&mut volume, "/m", "v1", &[("uri", "old")]);
    let cadence = Interval {
        secs: 7,
        nanos: 500_000_000,
    };
    let mut rig: Rig<String> = Rig::new(volume, plan().fallback_poll(Some(cadence)), Box::new(uri));
    rig.settle();
    assert!(matches!(rig.pending(), Action::Wait(Some(timeout)) if timeout == cadence));

    write_k8s_mount(&mut rig.volume, "/m", "v2", &[("uri", "new")]);
    rig.wakes.push_back(Wake::Elapsed);
    rig.wakes.push_back(Wake::Elapsed);
    rig.settle();
    assert_eq!(rig.current().unwrap().as_str(), "new");
}

#[test]
fn a_watch_ends_when_no_trigger_can_come() {
    let mut rig = started(&[("uri", "old")]);
    write_k8s_mount(&mut rig.volume, "/m", "v2", &[("uri", "new")]);
    // While the burst is drained, the end still leads to a last look.
    rig.wakes.push_back(Wake::Event(Trigger::Filesystem));
    rig.wakes.push_back(Wake::Closed);
    rig.settle();
    assert_eq!(rig.current().unwrap().as_str(), "new");
    rig.wakes.push_back(Wake::Closed);
    rig.settle();
    assert!(matches!(rig.pending(), Action::Stop));

    rig.step(Event::Woken(Wake::Event(Trigger::Nudge)));
    assert!(matches!(rig.pending(), Action::Stop));
    assert_eq!(rig.published.len(), 2);
}

#[test]
fn the_current_value_is_the_last_published() {
    let mut rig = started(&[("uri", "a")]);
    for (version, value) in [("v2", "b"), ("v3", "b"), ("v4", "a"), ("v5", "c")] {
        write_k8s_mount(&mut rig.volume, "/m", version, &[("uri", value)]);
        rig.rotate();
        assert_eq!(rig.current().unwrap().as_str(), value);
        assert!(Arc::ptr_eq(&rig.current().unwrap(), rig.published.last().unwrap()));
    }
    let published: Vec<&str> = rig.published.iter().map(|value| value.as_str()).collect();
    assert_eq!(published, vec!["a", "b", "a", "c"]);
}

#[test]
fn the_watched_directory_stays_the_same() {
    let mut rig = started(&[("uri", "a")]);
    for _ in 0..3 {
        rig.step(Event::Woken(Wake::Event(Trigger::Nudge)));
        assert!(matches!(rig.pending(), Action::Probe(path) if path.as_bytes() == b"/m/..data"));
        rig.settle();
        assert!(matches!(rig.pending(), Action::Wait(Some(FIVE_MINUTES))));
    }
}

#[test]
fn a_watcher_is_started_before_anything_else() {
    let reloader: Reloader<String> = plan().spawn();
    assert!(matches!(reloader.pending(), Action::StartWatcher(dir) if dir.as_bytes() == b"/m"));
    assert!(reloader.current().is_none());
}

#[test]
fn a_watcher_is_asked_for_once() {
    let mut rig = started(&[("uri", "old")]);
    write_k8s_mount(&mut rig.volume, "/m", "v2", &[("uri", "new")]);
    rig.rotate();
    rig.nudge();
    rig.step(Event::Watching(Err("late".to_string())));
    rig.wakes.push_back(Wake::Closed);
    rig.settle();
    assert!(matches!(rig.pending(), Action::Stop));
    assert_eq!(rig.published.len(), 2);
    assert_eq!(rig.watchers, 1);
}

#[test]
fn an_event_that_answers_nothing_changes_nothing() {
    let mut rig = started(&[("uri", "old")]);
    rig.step(Event::Parsed(Ok("stray".to_string())));
    rig.step(Event::Published);
    assert_eq!(rig.current().unwrap().as_str(), "old");
    assert!(matches!(rig.pending(), Action::Wait(Some(FIVE_MINUTES))));
}

#[test]
fn a_look_and_a_parse_each_stay_in_one_snapshot() {
    let mut volume = Volume::new();
    write_k8s_mount(&mut volume, "/m", "v1", &[("crt", "1"), ("key", "2")]);
    let mut rig: Rig<String> = Rig::new(volume, plan(), Box::new(uri));
    rig.step(Event::Watching(Ok(())));
    assert!(matches!(rig.pending(), Action::Probe(path) if path.as_bytes() == b"/m/..data"));
    rig.step(Event::Probed(DataEntry::Link(FilePath::from_text("..v1"))));
    match rig.pending() {
        Action::List(dir) => {
            assert_eq!(dir.as_bytes(), b"/m/..v1");
            rig.step(Event::Listed(rig.volume.list(&dir)));
        }
        _ => panic!("the snapshot is to be listed"),
    }
    // A rotation: the look goes on in the directory that it resolved.
    write_k8s_mount(&mut rig.volume, "/m", "v2", &[("crt", "3"), ("key", "4")]);
    assert!(matches!(rig.pending(), Action::Read(path) if path.as_bytes() == b"/m/..v1/crt"));
    rig.step(Event::Found(Ok(b"1".to_vec())));
    assert!(matches!(rig.pending(), Action::Read(path) if path.as_bytes() == b"/m/..v1/key"));
    rig.step(Event::Found(Ok(b"2".to_vec())));
    // The parse resolves anew, and once.
    assert!(matches!(rig.pending(), Action::Probe(path) if path.as_bytes() == b"/m/..data"));
    rig.step(Event::Probed(DataEntry::Link(FilePath::from_text("..v2"))));
    rig.step(Event::Probed(DataEntry::Link(FilePath::from_text("..v3"))));
    assert!(matches!(
        rig.pending(),
        Action::Parse(mount) if mount.data_dir().as_bytes() == b"/m/..v2"
    ));
}

#[test]
fn a_snapshot_outlives_no_rotation() {
    let mut volume = Volume::new();
    write_k8s_mount(&mut volume, "/m", "v1", &[("crt", "old"), ("key", "old")]);
    let mount = volume.resolve("/m");
    assert_eq!(mount.key_path("crt").as_bytes(), b"/m/..v1/crt");
    assert_eq!(volume.read_str(&mount, "crt").unwrap(), "old");

    // A rotation between the two reads: the old file, or none, but never the new one.
    write_k8s_mount(&mut volume, "/m", "v2", &[("crt", "new"), ("key", "new")]);
    assert_eq!(volume.read_str(&mount, "key").unwrap(), "old");
    volume.nodes.remove("/m/..v1/key");
    assert!(matches!(
        volume.read_str(&mount, "key"),
        Err(Error::Key { key, .. }) if key == "key"
    ));
    assert_eq!(volume.read_str(&volume.resolve("/m"), "key").unwrap(), "new");
}
