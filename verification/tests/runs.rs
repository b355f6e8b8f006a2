//! Whole runs of the set-up against a scripted console and a file system
//! kept in memory.

use ed25519_dalek::{Keypair, PublicKey, SecretKey, Signer, Verifier};
use frauth_init::{init, secrets_file_text, Action, Error, Event, Paths, Stage, UserRecord, Wizard};

const DATA: &str = "/home/u/.local/share/frauth";
const CACHE: &str = "/home/u/.cache/frauth";
const SECRETS: &str = "/home/u/.local/share/frauth/user_info.toml";

fn paths() -> Paths {
    Paths {
        base_data: DATA.to_string(),
        base_cache: CACHE.to_string(),
        user_info: SECRETS.to_string(),
        permission_bits: true,
    }
}

/// What the scripted user answers, in order.
#[derive(Clone)]
enum Reply {
    Yes,
    No,
    Text(&'static str),
}

#[derive(Clone, Debug, PartialEq)]
struct File {
    path: String,
    mode: u32,
    content: String,
}

#[derive(Clone, Debug, PartialEq, Default)]
struct Disk {
    dirs: Vec<String>,
    files: Vec<File>,
}

impl Disk {
    fn file(&self, path: &str) -> Option<&File> {
        self.files.iter().find(|f| f.path == path)
    }
}

/// Encodes a record as the host does: a TOML document with the four keys.
fn encode(record: &UserRecord) -> String {
    let mut table = toml::value::Table::new();
    table.insert("name".to_string(), toml::Value::String(record.name.clone()));
    if let Some(status) = &record.status {
        table.insert("status".to_string(), toml::Value::String(status.clone()));
    }
    let bytes = record.keypair.to_bytes();
    let numbers = bytes.iter().map(|b| toml::Value::Integer(i64::from(*b))).collect();
    table.insert("keypair".to_string(), toml::Value::Array(numbers));
    let mut identities = toml::value::Table::new();
    for (label, value) in record.identities.to_pairs() {
        identities.insert(label, toml::Value::String(value));
    }
    table.insert("identities".to_string(), toml::Value::Table(identities));
    toml::to_string(&toml::Value::Table(table)).unwrap()
}

/// Performs every request of a run on `disk`, answering questions from
/// `replies`, and returns the final state with the kinds of the requests.
fn drive(replies: &[Reply], disk: &mut Disk) -> (Wizard, Vec<&'static str>, Result<(), Error>) {
    let mut replies = replies.iter();
    let mut kinds = Vec::new();
    let (mut wizard, mut request) = init(paths());
    loop {
        let event = match request.action {
            Action::Confirm { .. } => {
                kinds.push("confirm");
                match replies.next() {
                    Some(Reply::Yes) => Event::Answer(true),
                    Some(Reply::No) => Event::Answer(false),
                    _ => Event::Failed("no answer".to_string()),
                }
            }
            Action::Input { .. } => {
                kinds.push("input");
                match replies.next() {
                    Some(Reply::Text(text)) => Event::Line(text.to_string()),
                    _ => Event::Failed("no line".to_string()),
                }
            }
            Action::Probe { path } => {
                kinds.push("probe");
                Event::Exists(disk.file(&path).is_some())
            }
            Action::CreateDir { path } => {
                kinds.push("create_dir");
                if !disk.dirs.contains(&path) {
                    disk.dirs.push(path);
                }
                Event::Completed
            }
            Action::OpenSecrets { path, mode } => {
                kinds.push("open");
                match disk.files.iter_mut().find(|f| f.path == path) {
                    Some(file) => {
                        file.content.clear();
                        file.mode = mode;
                    }
                    None => disk.files.push(File { path, mode, content: String::new() }),
                }
                Event::Completed
            }
            Action::Encode { record } => {
                kinds.push("encode");
                Event::Encoded(encode(&record))
            }
            Action::Write { text } => {
                kinds.push("write");
                let file = disk.files.iter_mut().find(|f| f.path == SECRETS).unwrap();
                file.content.push_str(&text);
                Event::Completed
            }
            Action::Finish { result } => {
                kinds.push("finish");
                return (wizard, kinds, result);
            }
        };
        let next = wizard.step(event);
        wizard = next.0;
        request = next.1;
    }
}

fn decode(disk: &Disk) -> toml::value::Table {
    let file = disk.file(SECRETS).unwrap();
    match toml::from_str::<toml::Value>(&file.content).unwrap() {
        toml::Value::Table(table) => table,
        other => panic!("not a table: {:?}", other),
    }
}

fn decoded_keypair(table: &toml::value::Table) -> Keypair {
    let bytes: Vec<u8> = table["keypair"]
        .as_array()
        .unwrap()
        .iter()
        .map(|v| v.as_integer().unwrap() as u8)
        .collect();
    assert_eq!(bytes.len(), 64);
    Keypair::from_bytes(&bytes).unwrap()
}

fn decoded_identities(table: &toml::value::Table) -> Vec<(String, String)> {
    match table.get("identities") {
        Some(ids) => ids
            .as_table()
            .unwrap()
            .iter()
            .map(|(k, v)| (k.clone(), v.as_str().unwrap().to_string()))
            .collect(),
        None => Vec::new(),
    }
}

#[test]
fn scenario_alice_with_one_identity() {
    let mut disk = Disk::default();
    let replies = [
        Reply::Yes,
        Reply::Text("Alice"),
        Reply::Yes,
        Reply::Text("twitter"),
        Reply::Text("alice_t"),
        Reply::No,
        Reply::No,
    ];
    let (wizard, _, result) = drive(&replies, &mut disk);
    assert!(result.is_ok());
    assert_eq!(wizard.stage(), Stage::Done);
    let table = decode(&disk);
    assert_eq!(table["name"].as_str(), Some("Alice"));
    assert_eq!(
        decoded_identities(&table),
        vec![("twitter".to_string(), "alice_t".to_string())]
    );
    assert!(table.get("status").is_none());
    let keypair = decoded_keypair(&table);
    let message = b"arbitrary data";
    let signature = keypair.sign(message);
    assert!(keypair.public.verify(message, &signature).is_ok());
}

#[test]
fn scenario_same_label_twice_keeps_last() {
    let mut disk = Disk::default();
    let replies = [
        Reply::Yes,
        Reply::Text("Alice"),
        Reply::Yes,
        Reply::Text("email"),
        Reply::Text("a@x.com"),
        Reply::Yes,
        Reply::Text("email"),
        Reply::Text("b@x.com"),
        Reply::No,
        Reply::No,
    ];
    let (_, _, result) = drive(&replies, &mut disk);
    assert!(result.is_ok());
    let table = decode(&disk);
    assert_eq!(
        decoded_identities(&table),
        vec![("email".to_string(), "b@x.com".to_string())]
    );
    assert!(!disk.file(SECRETS).unwrap().content.contains("a@x.com"));
}

#[test]
fn declining_the_start_touches_nothing() {
    let mut disk = Disk::default();
    let (wizard, kinds, result) = drive(&[Reply::No], &mut disk);
    assert!(matches!(result, Err(Error::UserAborted)));
    assert_eq!(wizard.stage(), Stage::Failed);
    assert_eq!(kinds, vec!["confirm", "finish"]);
    assert_eq!(disk, Disk::default());
}

#[test]
fn declining_the_start_touches_nothing_on_a_used_disk() {
    let before = Disk {
        dirs: vec![DATA.to_string()],
        files: vec![File { path: SECRETS.to_string(), mode: 0o600, content: "old".to_string() }],
    };
    let mut disk = before.clone();
    let (_, _, result) = drive(&[Reply::No, Reply::Yes, Reply::Text("Eve")], &mut disk);
    assert!(matches!(result, Err(Error::UserAborted)));
    assert_eq!(disk, before);
}

#[test]
fn declining_reinit_keeps_the_file() {
    let before = Disk {
        dirs: Vec::new(),
        files: vec![File {
            path: SECRETS.to_string(),
            mode: 0o644,
            content: "name = \"Old\"\n".to_string(),
        }],
    };
    let mut disk = before.clone();
    let (wizard, kinds, result) = drive(&[Reply::Yes, Reply::No], &mut disk);
    assert!(matches!(result, Err(Error::UserAborted)));
    assert_eq!(wizard.stage(), Stage::Failed);
    assert_eq!(kinds, vec!["confirm", "probe", "confirm", "finish"]);
    assert_eq!(disk, before);
}

#[test]
fn completed_run_writes_what_was_entered() {
    let mut disk = Disk::default();
    let replies = [
        Reply::Yes,
        Reply::Text("Carol"),
        Reply::Yes,
        Reply::Text("email"),
        Reply::Text("carol@example.com"),
        Reply::Yes,
        Reply::Text("mobile"),
        Reply::Text("+4912345678901"),
        Reply::No,
        Reply::Yes,
        Reply::Text("out for lunch"),
    ];
    let (_, kinds, result) = drive(&replies, &mut disk);
    assert!(result.is_ok());
    assert_eq!(
        kinds,
        vec![
            "confirm", "probe", "create_dir", "create_dir", "open", "input", "confirm", "input",
            "input", "confirm", "input", "input", "confirm", "confirm", "input", "encode",
            "write", "finish"
        ]
    );
    assert_eq!(disk.dirs, vec![DATA.to_string(), CACHE.to_string()]);
    let file = disk.file(SECRETS).unwrap();
    assert_eq!(file.mode, 0o600);
    assert!(file.content.starts_with(&secrets_file_text(&String::new())));
    let table = decode(&disk);
    assert_eq!(table["name"].as_str(), Some("Carol"));
    assert_eq!(table["status"].as_str(), Some("out for lunch"));
    let mut identities = decoded_identities(&table);
    identities.sort();
    assert_eq!(
        identities,
        vec![
            ("email".to_string(), "carol@example.com".to_string()),
            ("mobile".to_string(), "+4912345678901".to_string()),
        ]
    );
}

#[test]
fn empty_name_is_accepted() {
    let mut disk = Disk::default();
    let (_, _, result) = drive(&[Reply::Yes, Reply::Text(""), Reply::No, Reply::No], &mut disk);
    assert!(result.is_ok());
    assert_eq!(decode(&disk)["name"].as_str(), Some(""));
}

#[test]
fn reinit_replaces_the_previous_record() {
    let mut disk = Disk::default();
    let first = [
        Reply::Yes,
        Reply::Text("Alice"),
        Reply::Yes,
        Reply::Text("twitter"),
        Reply::Text("alice_t"),
        Reply::No,
        Reply::Yes,
        Reply::Text("first status"),
    ];
    assert!(drive(&first, &mut disk).2.is_ok());
    let old_keys = decoded_keypair(&decode(&disk)).to_bytes();

    let second = [Reply::Yes, Reply::Yes, Reply::Text("Bob"), Reply::No, Reply::No];
    let (_, kinds, result) = drive(&second, &mut disk);
    assert!(result.is_ok());
    assert_eq!(kinds[..3], ["confirm", "probe", "confirm"]);

    let content = &disk.file(SECRETS).unwrap().content;
    assert!(!content.contains("Alice"));
    assert!(!content.contains("alice_t"));
    assert!(!content.contains("twitter"));
    assert!(!content.contains("first status"));
    let table = decode(&disk);
    assert_eq!(table["name"].as_str(), Some("Bob"));
    assert!(decoded_identities(&table).is_empty());
    assert!(table.get("status").is_none());
    assert_ne!(decoded_keypair(&table).to_bytes().to_vec(), old_keys.to_vec());
    assert_eq!(disk.files.len(), 1);
}

#[test]
fn reinit_over_a_widely_readable_file_makes_it_owner_only() {
    let mut disk = Disk {
        dirs: vec![DATA.to_string()],
        files: vec![
            File { path: SECRETS.to_string(), mode: 0o644, content: "name = \"Old\"\n".to_string() },
            File { path: "/home/u/notes".to_string(), mode: 0o644, content: "n".to_string() },
        ],
    };
    let replies = [Reply::Yes, Reply::Yes, Reply::Text("Bob"), Reply::No, Reply::No];
    let (wizard, kinds, result) = drive(&replies, &mut disk);
    assert!(result.is_ok());
    assert_eq!(wizard.stage(), Stage::Done);
    let open = kinds.iter().position(|k| *k == "open").unwrap();
    let write = kinds.iter().position(|k| *k == "write").unwrap();
    assert!(open < write);
    let file = disk.file(SECRETS).unwrap();
    assert_eq!(file.mode, 0o600);
    assert_eq!(file.mode & 0o077, 0);
    assert!(!file.content.contains("Old"));
    assert_eq!(decode(&disk)["name"].as_str(), Some("Bob"));
    let other = disk.file("/home/u/notes").unwrap();
    assert_eq!(other.mode, 0o644);
    assert_eq!(other.content, "n");
}

#[test]
fn failed_run_after_open_leaves_an_empty_owner_only_file() {
    let mut disk = Disk {
        dirs: Vec::new(),
        files: vec![File { path: SECRETS.to_string(), mode: 0o664, content: "old".to_string() }],
    };
    let (_, _, result) = drive(&[Reply::Yes, Reply::Yes], &mut disk);
    assert!(matches!(result, Err(Error::Interaction(_))));
    let file = disk.file(SECRETS).unwrap();
    assert_eq!(file.mode, 0o600);
    assert_eq!(file.content, "");
}

#[test]
fn generated_keypair_is_consistent_and_fresh() {
    let mut disk = Disk::default();
    let replies = [Reply::Yes, Reply::Text("Dan"), Reply::No, Reply::No];
    assert!(drive(&replies, &mut disk).2.is_ok());
    let one = decoded_keypair(&decode(&disk));
    let secret = SecretKey::from_bytes(one.secret.as_bytes()).unwrap();
    assert_eq!(PublicKey::from(&secret).to_bytes(), one.public.to_bytes());
    assert_ne!(one.secret.to_bytes(), [0u8; 32]);
    assert_ne!(one.secret.to_bytes(), one.public.to_bytes());

    let mut other_disk = Disk::default();
    assert!(drive(&replies, &mut other_disk).2.is_ok());
    let two = decoded_keypair(&decode(&other_disk));
    assert_ne!(one.to_bytes().to_vec(), two.to_bytes().to_vec());

    let message = [7u8; 100];
    let signature = two.sign(&message);
    assert!(two.public.verify(&message, &signature).is_ok());
    assert!(one.public.verify(&message, &signature).is_err());
}
