//! Journal keys, lines, and reading them back.

use std::cell::RefCell;

use codex_flow::journal::{
    journal_key, journal_path, new_run_id, separator, split_records, FileRead, Fnv1a, Journal,
    JournalEntry, KeyInput,
};

fn base() -> KeyInput<'static> {
    KeyInput {
        prompt: "do x",
        model: Some("gpt"),
        sandbox: Some("read-only"),
        schema: None,
        cwd: None,
        isolate: false,
    }
}

#[test]
fn journal_key_deterministic_and_field_sensitive() {
    let b = base();
    assert_eq!(journal_key(&b), journal_key(&b), "must be deterministic");
    // Every cache-relevant field flips the key.
    let mut p = b;
    p.prompt = "do y";
    assert_ne!(journal_key(&p), journal_key(&b));
    let mut m = b;
    m.model = Some("o3");
    assert_ne!(journal_key(&m), journal_key(&b));
    let mut s = b;
    s.schema = Some("{}");
    assert_ne!(journal_key(&s), journal_key(&b));
    let mut c = b;
    c.cwd = Some("/tmp");
    assert_ne!(journal_key(&c), journal_key(&b));
    let mut i = b;
    i.isolate = true;
    assert_ne!(journal_key(&i), journal_key(&b));
}

#[test]
fn none_and_empty_string_differ() {
    let none = KeyInput { schema: None, ..base() };
    let empty = KeyInput {
        schema: Some(""),
        ..base()
    };
    assert_ne!(
        journal_key(&none),
        journal_key(&empty),
        "None must not collide with Some(\"\")"
    );
}

#[test]
fn journal_key_no_field_boundary_collision() {
    // The classic concat bug: "a"+"b" must not collide with "ab"+"".
    let a = KeyInput {
        model: Some("a"),
        sandbox: Some("b"),
        ..base()
    };
    let c = KeyInput {
        model: Some("ab"),
        sandbox: Some(""),
        ..base()
    };
    assert_ne!(
        journal_key(&a),
        journal_key(&c),
        "NUL+name separators must prevent boundary collisions"
    );
}

/// The 64-bit FNV-1a hash, written out once more.
fn reference_hash(bytes: &[u8]) -> u64 {
    let mut h: u64 = 0xcbf2_9ce4_8422_2325;
    for b in bytes {
        h = (h ^ u64::from(*b)).wrapping_mul(0x100_0000_01b3);
    }
    h
}

#[test]
fn journal_key_is_the_hash_of_the_encoding() {
    let k = KeyInput {
        prompt: "héllo",
        model: Some("m"),
        sandbox: None,
        schema: Some(""),
        cwd: None,
        isolate: true,
    };
    let text = "prompt=héllo\0model+m\0sandbox-\0schema+\0cwd-\0isolate=1";
    assert_eq!(journal_key(&k), format!("{:016x}", reference_hash(text.as_bytes())));
    assert_eq!(journal_key(&k).len(), 16);
}

#[test]
fn fnv1a_known_values() {
    let mut h = Fnv1a::new();
    assert_eq!(h.finish(), 0xcbf2_9ce4_8422_2325);
    h.update(b"a");
    assert_eq!(h.finish(), 0xaf63_dc4c_8601_ec8c);
    let mut h = Fnv1a::new();
    h.update(b"foo");
    h.update(b"bar");
    assert_eq!(h.finish(), 0x8594_4171_f739_67e8);
}

fn decode(line: &str) -> Option<JournalEntry> {
    let v: serde_json::Value = serde_json::from_str(line).ok()?;
    let occ = match v.get("occ") {
        None => 0,
        Some(o) => u32::try_from(o.as_u64()?).ok()?,
    };
    Some(JournalEntry {
        key: v.get("key")?.as_str()?.to_string(),
        occ,
        result: v.get("result")?.as_str()?.to_string(),
    })
}

/// A journal file in memory.
struct File(RefCell<String>);

impl File {
    fn new(text: &str) -> Self {
        File(RefCell::new(text.to_string()))
    }

    fn append(&self, j: &mut Journal, key: &str, occ: u32, result: &str) {
        let out: Result<(), String> = j.append(key.into(), occ, result.into(), |line| {
            let last = self.0.borrow().as_bytes().last().copied();
            let mut f = self.0.borrow_mut();
            f.push_str(separator(last));
            f.push_str(line);
            Ok(())
        });
        out.unwrap();
    }

    fn load(&self) -> Journal {
        Journal::load(FileRead::Text(self.0.borrow().clone()), decode).unwrap()
    }
}

#[test]
fn journal_append_then_load_roundtrips_and_dedups() {
    let f = File::new("");
    let mut j = Journal::new();
    f.append(&mut j, "k1", 0, "r1");
    f.append(&mut j, "k2", 0, "{\"a\":1}");
    // Re-appending an existing (key, occ) is a no-op (resume hit must not duplicate).
    f.append(&mut j, "k1", 0, "DIFFERENT");
    // A later occurrence of the same key IS a distinct entry.
    f.append(&mut j, "k1", 1, "second sample");

    let loaded = f.load();
    assert_eq!(loaded.get("k1", 0), Some("r1"));
    assert_eq!(loaded.get("k1", 1), Some("second sample"));
    assert_eq!(loaded.get("k2", 0), Some("{\"a\":1}"));
    assert_eq!(loaded.get("missing", 0), None);
    // Exactly three physical lines: the duplicate (k1, 0) was not written.
    assert_eq!(f.0.borrow().lines().count(), 3);
}

#[test]
fn torn_tail_is_healed_on_append() {
    // A crashed run left a partial record with no trailing newline.
    let f = File::new("{\"key\":\"k0\",\"occ\":0,\"result\":\"trunc");
    let mut j = Journal::new();
    f.append(&mut j, "k1", 0, "good");
    let loaded = f.load();
    assert_eq!(loaded.get("k1", 0), Some("good"), "new record survives the torn tail");
    assert_eq!(loaded.get("k0", 0), None, "torn record skipped, not merged");
}

#[test]
fn occurrence_distinguishes_identical_calls() {
    let mut j = Journal::new();
    assert_eq!(j.occurrence("k"), 0);
    assert_eq!(j.occurrence("k"), 1, "second identical call gets occ 1");
    assert_eq!(j.occurrence("other"), 0);
    assert!(j.can_claim("k"));
}

#[test]
fn load_missing_file_is_empty() {
    let j = Journal::load(FileRead::Missing, decode).unwrap();
    assert_eq!(j.get("anything", 0), None);
}

#[test]
fn load_surfaces_other_read_errors() {
    match Journal::load(FileRead::Failed("permission denied".into()), decode) {
        Err(e) => assert_eq!(e, "permission denied"),
        Ok(_) => panic!("expected the error"),
    }
}

#[test]
fn load_skips_blank_and_malformed_lines_and_keeps_the_last() {
    let text = "\n  {\"key\":\"a\",\"result\":\"1\"}  \r\nnot json\n\t\n{\"key\":\"a\",\"occ\":0,\"result\":\"2\"}";
    let j = Journal::load(FileRead::Text(text.into()), decode).unwrap();
    assert_eq!(j.get("a", 0), Some("2"));
    assert_eq!(j.get("a", 1), None);
}

#[test]
fn record_line_is_exact_json() {
    let mut j = Journal::new();
    let out: Result<(), String> = j.append("k".into(), 7, "a\"b\\c\nd\u{1}é".into(), |line| {
        assert_eq!(
            line,
            "{\"key\":\"k\",\"occ\":7,\"result\":\"a\\\"b\\\\c\\nd\\u0001é\"}\n"
        );
        Ok(())
    });
    assert!(out.is_ok());
    assert_eq!(j.get("k", 7), Some("a\"b\\c\nd\u{1}é"));
}

#[test]
fn awkward_results_survive_the_file() {
    let f = File::new("");
    let mut j = Journal::default();
    for (i, r) in ["", " ", "a\r\nb", "\u{8}\u{c}\t", "\u{7f}\u{85}\u{2028}", "\"", "日本"]
        .iter()
        .enumerate()
    {
        f.append(&mut j, "k:1", i as u32, r);
        assert_eq!(f.load().get("k:1", i as u32), Some(*r));
    }
    assert_eq!(f.0.borrow().matches('\n').count(), 7, "one line each");
}

#[test]
fn failed_write_is_not_cached() {
    let mut j = Journal::new();
    let out = j.append("k".into(), 0, "r".into(), |_| Err("disk full".to_string()));
    assert_eq!(out, Err("disk full".to_string()));
    assert_eq!(j.get("k", 0), None);
}

#[test]
fn recorded_call_is_never_written_again() {
    let mut j = Journal::new();
    let first: Result<(), String> = j.append("k".into(), 0, "r".into(), |_| Ok(()));
    assert!(first.is_ok());
    let again: Result<(), String> =
        j.append("k".into(), 0, "other".into(), |_| panic!("must not be written"));
    assert!(again.is_ok());
    assert_eq!(j.get("k", 0), Some("r"));
}

#[test]
fn keys_and_occurrences_do_not_run_together() {
    let f = File::new("");
    let mut j = Journal::new();
    f.append(&mut j, "1:x", 2, "a");
    f.append(&mut j, "x", 21, "b");
    assert_eq!(j.get("1:x", 2), Some("a"));
    assert_eq!(j.get("x", 21), Some("b"));
    assert_eq!(j.get("x", 2), None);
    assert_eq!(j.get(":x", 21), None);
}

#[test]
fn separator_only_after_a_torn_line() {
    assert_eq!(separator(None), "");
    assert_eq!(separator(Some(b'\n')), "");
    assert_eq!(separator(Some(b'x')), "\n");
}

#[test]
fn records_are_trimmed_lines() {
    assert_eq!(split_records(""), Vec::<String>::new());
    assert_eq!(split_records("\n\n"), Vec::<String>::new());
    assert_eq!(split_records(" a \r\n\nb"), vec!["a", "b"]);
}

#[test]
fn run_ids_are_wellformed() {
    let id = new_run_id(1_700_000_000, 4242);
    let (secs, pid) = id.split_once('-').expect("secs-pid form");
    assert!(u64::from_str_radix(secs, 16).is_ok());
    assert!(u32::from_str_radix(pid, 16).is_ok());
    assert_eq!(id, format!("{:x}-{:x}", 1_700_000_000u64, 4242u32));
    assert_eq!(new_run_id(0, 0), "0-0");
    assert_eq!(new_run_id(u64::MAX, u32::MAX), "ffffffffffffffff-ffffffff");
}

#[test]
fn journal_path_is_directory_and_file() {
    assert_eq!(journal_path(None, "5f-1"), ("runs".to_string(), "5f-1.jsonl".to_string()));
    assert_eq!(
        journal_path(Some("/j".into()), "5f-1"),
        ("/j".to_string(), "5f-1.jsonl".to_string())
    );
}
