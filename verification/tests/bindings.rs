use penrose::wm::bindings::KeyCode;
use penrose::wm::key_bindings::{
    dispatch_key, parse_keybindings, KeyBindings, KeyDispatch, ParsedKeyBindings,
};
use penrose::Error;

fn key(code: u8) -> KeyCode {
    KeyCode { mask: 0, code }
}

/// Each key description is a single letter, mapping to its position in the alphabet.
/// Anything else fails to parse.
fn parse(k: &str) -> Result<KeyCode, Error> {
    match k.as_bytes() {
        [c @ b'a'..=b'z'] => Ok(key(c - b'a' + 1)),
        _ => Err(Error::UnknownKeyName { name: k.to_owned() }),
    }
}

/// Bindings that each run their own name as a tag.
fn parsed(patterns: &[&'static str]) -> ParsedKeyBindings<&'static str> {
    let raw: Vec<(String, &'static str)> = patterns.iter().map(|p| ((*p).to_string(), *p)).collect();
    parse_keybindings(raw, parse)
}

fn dropped(parsed: &ParsedKeyBindings<&'static str>) -> Vec<String> {
    let mut names: Vec<String> = parsed.errors.iter().map(|e| e.binding.clone()).collect();
    names.sort_unstable();
    names
}

#[test]
fn every_failure_is_reported_not_just_the_first() {
    assert_eq!(
        dropped(&parsed(&["a", "nope", "b", "also-nope"])),
        vec!["also-nope", "nope"]
    );
}

#[test]
fn bindings_that_parse_are_kept() {
    let parsed = parsed(&["a", "nope", "b"]);
    let mut kept: Vec<u8> = parsed.bindings.sequences().iter().map(|k| k[0].code).collect();
    kept.sort_unstable();
    assert_eq!(kept, vec![1, 2]);
}

#[test]
fn all_or_error_names_every_failure() {
    let err = parsed(&["a", "nope", "also-nope"])
        .into_result()
        .expect_err("failures to be reported");

    let msg = err.message();
    assert!(msg.contains("nope"), "{msg}");
    assert!(msg.contains("also-nope"), "{msg}");
    assert!(msg.contains("is not a known key name"), "{msg}");
}

#[test]
fn all_or_error_yields_the_bindings_when_everything_parses() {
    let bindings = parsed(&["a", "b"]).into_result().expect("no failures");
    assert_eq!(bindings.len(), 2);
}

#[test]
fn log_errors_keeps_what_parsed() {
    assert_eq!(parsed(&["a", "nope"]).log_errors().len(), 1);
}

#[test]
fn only_the_leading_key_of_a_chord_is_grabbed() {
    let parsed = parsed(&["a b", "a c", "z"]);
    let mut grabbed: Vec<u8> = parsed.bindings.leading_keys().iter().map(|k| k.code).collect();
    grabbed.sort_unstable();

    assert_eq!(grabbed, vec![1, 26]);
    assert!(parsed.errors.is_empty(), "{:?}", parsed.errors);
}

#[test]
fn a_chord_shadowed_by_a_shorter_binding_is_dropped() {
    let parsed = parsed(&["a", "a b"]);
    assert_eq!(dropped(&parsed), vec!["a b"]);
    assert_eq!(parsed.bindings.len(), 1);
}

#[test]
fn a_chord_shadowed_partway_through_is_dropped() {
    assert_eq!(dropped(&parsed(&["a b", "a b c"])), vec!["a b c"]);
}

#[test]
fn chords_can_be_any_length() {
    let parsed = parsed(&["a b c", "a b d"]);
    assert_eq!(parsed.bindings.len(), 2);
    assert_eq!(parsed.bindings.leading_keys().len(), 1);
    assert!(parsed.errors.is_empty(), "{:?}", parsed.errors);
}

#[test]
fn two_descriptions_of_one_key_sequence_keep_the_first_by_name() {
    let parsed = parsed(&["a", " a "]);
    assert_eq!(dropped(&parsed), vec![" a "]);
    assert_eq!(parsed.bindings.len(), 1);
}

#[test]
fn which_duplicate_is_dropped_does_not_depend_on_map_ordering() {
    for _ in 0..20 {
        let parsed = parsed(&["a", " a ", "a  "]);
        assert_eq!(dropped(&parsed), vec![" a ", "a  "]);
    }
}

#[test]
fn a_duplicate_names_the_binding_that_won() {
    let err = parsed(&["a", " a "])
        .into_result()
        .expect_err("duplicate to be reported");
    let msg = err.message();
    assert!(msg.contains("' a ': duplicate of 'a'"), "{msg}");
}

#[test]
fn duplicated_chords_are_reported_too() {
    assert_eq!(dropped(&parsed(&["a b", "a  b"])), vec!["a  b"]);
}

#[test]
fn a_config_without_chords_has_no_prefixes() {
    assert!(parsed(&["a", "b"]).bindings.prefixes.is_empty());
}

/// The state of a running window manager holding the given bindings.
struct Running {
    bindings: KeyBindings<&'static str>,
    pending: Vec<KeyCode>,
    captures: Vec<&'static str>,
    ran: Vec<&'static str>,
}

impl Running {
    fn new(patterns: &[&'static str]) -> Self {
        let bindings = parsed(patterns).into_result().expect("test bindings to parse");
        Self::with(bindings)
    }

    fn with(bindings: KeyBindings<&'static str>) -> Self {
        Self {
            bindings,
            pending: Vec::new(),
            captures: Vec::new(),
            ran: Vec::new(),
        }
    }

    /// Feed a key press through the same path the backend uses.
    fn press(&mut self, code: u8) {
        match dispatch_key(key(code), &self.bindings, &mut self.pending) {
            KeyDispatch::Capture => self.captures.push("capture"),
            KeyDispatch::Finished {
                cancel_capture,
                binding,
            } => {
                if cancel_capture {
                    self.captures.push("cancel");
                }
                if let Some(i) = binding {
                    self.ran.push(self.bindings.bindings[i].1);
                }
            }
        }
    }

    fn ran(&mut self) -> Vec<&'static str> {
        std::mem::take(&mut self.ran)
    }
}

#[test]
fn a_hand_built_map_resolves_shadowing_rather_than_hanging() {
    let bindings = KeyBindings::new(vec![(vec![key(1)], "a"), (vec![key(1), key(2)], "a b")]);
    let mut wm = Running::with(bindings);

    wm.press(1);
    assert_eq!(wm.ran(), vec!["a"]);
    assert!(wm.captures.is_empty());
}

#[test]
fn a_chord_runs_its_binding_once_completed() {
    let mut wm = Running::new(&["a b", "a c"]);

    wm.press(1);
    assert!(wm.ran().is_empty(), "the leading key runs nothing on its own");

    wm.press(3);
    assert_eq!(wm.ran(), vec!["a c"]);
    assert_eq!(wm.captures, vec!["capture", "cancel"]);
}

#[test]
fn a_key_that_continues_no_chord_abandons_it() {
    let mut wm = Running::new(&["a b", "z"]);

    wm.press(1);
    wm.press(26);

    assert!(wm.ran().is_empty());
    assert_eq!(wm.captures, vec!["capture", "cancel"]);

    wm.press(26);
    assert_eq!(wm.ran(), vec!["z"]);
}

#[test]
fn a_chord_only_claims_one_key_press() {
    let mut wm = Running::new(&["a b", "b"]);

    wm.press(1);
    wm.press(2);
    assert_eq!(wm.ran(), vec!["a b"]);

    wm.press(2);
    assert_eq!(wm.ran(), vec!["b"]);
}

#[test]
fn nested_chords_dispatch_a_level_at_a_time() {
    let mut wm = Running::new(&["a b c", "a b d"]);

    wm.press(1);
    wm.press(2);
    assert!(wm.ran().is_empty());
    assert_eq!(wm.captures, vec!["capture", "capture"]);

    wm.press(4);
    assert_eq!(wm.ran(), vec!["a b d"]);
}

#[test]
fn repeated_sequences_are_found() {
    let ok: Vec<(Vec<KeyCode>, u8)> = vec![(vec![key(1)], 0), (vec![key(1), key(2)], 1)];
    assert!(penrose::wm::key_bindings::sequences_distinct(&ok));
    let twice: Vec<(Vec<KeyCode>, u8)> = vec![(vec![key(1), key(2)], 0), (vec![key(3)], 1), (vec![key(1), key(2)], 2)];
    assert!(!penrose::wm::key_bindings::sequences_distinct(&twice));
}
