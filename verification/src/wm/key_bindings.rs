//! User key bindings: turning written bindings into key sequences, and running the
//! binding that a sequence of key presses completes.
//!
//! A written binding holding white space is a *sequence*: `"M-m M-l"` runs when `M-l`
//! is pressed after `M-m`, and neither key does anything on its own. Sequences may
//! be any length.
use vstd::prelude::*;
use vstd::utf8::encode_utf8;

use crate::wm::bindings::KeyCode;
use crate::wm::key_text::{binding_parse, parse_binding, split_words, texts, words, KeyCodeMap};
use crate::Error;
use vstd::string::StringExecFns;

verus! {

/// Whether the bytes `x` come before the bytes `y` of the same length: at the first
/// place where they differ, `x` has the smaller byte.
pub open spec fn bytes_before(x: Seq<u8>, y: Seq<u8>) -> bool {
    exists|i: int| 0 <= i < x.len() && i < y.len() && x.take(i) == y.take(i) && #[trigger] x[i] < y[i]
}

/// Whether the binding named `a` sorts before the one named `b`: shorter names (in
/// UTF-8 bytes) first, and names of one length by their bytes.
pub open spec fn name_before(a: Seq<char>, b: Seq<char>) -> bool {
    let x = encode_utf8(a);
    let y = encode_utf8(b);
    x.len() < y.len() || (x.len() == y.len() && bytes_before(x, y))
}

/// No name comes before itself.
pub proof fn lemma_name_before_irreflexive(a: Seq<char>)
    ensures
        !name_before(a, a),
{
}

/// Ordering of names is transitive.
pub proof fn lemma_name_before_transitive(a: Seq<char>, b: Seq<char>, c: Seq<char>)
    requires
        name_before(a, b),
        name_before(b, c),
    ensures
        name_before(a, c),
{
    let x = encode_utf8(a);
    let y = encode_utf8(b);
    let z = encode_utf8(c);
    if x.len() == y.len() && y.len() == z.len() {
        let i = choose|i: int| 0 <= i < x.len() && i < y.len() && x.take(i) == y.take(i) && #[trigger] x[i] < y[i];
        let j = choose|j: int| 0 <= j < y.len() && j < z.len() && y.take(j) == z.take(j) && #[trigger] y[j] < z[j];
        if i < j {
            assert(y.take(j).take(i) == y.take(i));
            assert(z.take(j).take(i) == z.take(i));
            assert(y[i] == y.take(j)[i]);
            assert(z[i] == z.take(j)[i]);
            assert(x[i] < z[i]);
        } else if j < i {
            assert(x.take(i).take(j) == x.take(j));
            assert(y.take(i).take(j) == y.take(j));
            assert(x[j] == x.take(i)[j]);
            assert(y[j] == y.take(i)[j]);
            assert(x[j] < z[j]);
        } else {
            assert(x[i] < z[i]);
        }
    }
}

/// Two different names of the same byte length are ordered one way or the other.
pub proof fn lemma_name_before_total(a: Seq<char>, b: Seq<char>)
    requires
        a != b,
    ensures
        name_before(a, b) || name_before(b, a),
{
    broadcast use vstd::utf8::encode_utf8_decode_utf8;

    let x = encode_utf8(a);
    let y = encode_utf8(b);
    if x.len() == y.len() {
        assert(x != y) by {
            if x == y {
                assert(vstd::utf8::decode_utf8(x) == vstd::utf8::decode_utf8(y));
            }
        }
        assert(x.take(0) =~= y.take(0));
        lemma_first_difference(x, y, 0);
    }
}

/// Bytes of one length that differ, and agree before `k`, differ first at `k` or later.
proof fn lemma_first_difference(x: Seq<u8>, y: Seq<u8>, k: int)
    requires
        x.len() == y.len(),
        x != y,
        0 <= k <= x.len(),
        x.take(k) == y.take(k),
    ensures
        bytes_before(x, y) || bytes_before(y, x),
    decreases x.len() - k,
{
    if k == x.len() {
        assert(x == x.take(k));
        assert(y == y.take(k));
    } else if x[k] == y[k] {
        assert(x.take(k + 1) =~= x.take(k).push(x[k]));
        assert(y.take(k + 1) =~= y.take(k).push(y[k]));
        lemma_first_difference(x, y, k + 1);
    } else if x[k] < y[k] {
        assert(bytes_before(x, y));
    } else {
        assert(bytes_before(y, x));
    }
}

/// Whether the binding named `a` sorts before the one named `b`; see [name_before].
pub fn names_in_order(a: &str, b: &str) -> (r: bool)
    ensures
        r == name_before(a@, b@),
{
    let x = a.as_bytes();
    let y = b.as_bytes();
    proof {
        assert(x@ == encode_utf8(a@));
        assert(y@ == encode_utf8(b@));
    }
    if x.len() != y.len() {
        return x.len() < y.len();
    }
    let mut i: usize = 0;
    while i < x.len()
        invariant
            x@ == encode_utf8(a@),
            y@ == encode_utf8(b@),
            x@.len() == y@.len(),
            i <= x@.len(),
            x@.take(i as int) == y@.take(i as int),
        decreases x.len() - i,
    {
        if x[i] != y[i] {
            proof {
                if x[i as int] < y[i as int] {
                    assert(bytes_before(x@, y@));
                } else {
                    assert forall|j: int| 0 <= j < x@.len() && x@.take(j) == y@.take(j) implies !(#[trigger] x@[j] < y@[j]) by {
                        if j < i {
                            assert(x@[j] == x@.take(i as int)[j]);
                            assert(y@[j] == y@.take(i as int)[j]);
                        } else if j > i {
                            assert(x@[i as int] == x@.take(j)[i as int]);
                            assert(y@[i as int] == y@.take(j)[i as int]);
                        }
                    }
                }
            }
            return x[i] < y[i];
        }
        proof {
            assert(x@.take(i + 1) =~= x@.take(i as int).push(x@[i as int]));
            assert(y@.take(i + 1) =~= y@.take(i as int).push(y@[i as int]));
        }
        i = i + 1;
    }
    proof {
        assert(x@ == x@.take(i as int));
        assert(y@ == y@.take(i as int));
    }
    false
}

/// The key sequence of each binding.
pub open spec fn sequences_of<H>(b: Seq<(Vec<KeyCode>, H)>) -> Seq<Seq<KeyCode>> {
    b.map_values(|e: (Vec<KeyCode>, H)| e.0@)
}

/// No sequence occurs twice.
pub open spec fn all_different(s: Seq<Seq<KeyCode>>) -> bool {
    forall|i: int, j: int| 0 <= i < j < s.len() ==> s[i] != s[j]
}

/// `p` is the start of `keys`, shorter than it and not empty.
pub open spec fn proper_prefix(p: Seq<KeyCode>, keys: Seq<KeyCode>) -> bool {
    1 <= p.len() < keys.len() && p == keys.take(p.len() as int)
}

/// The sequences that begin one of `s` without being one of `s`: after pressing
/// these, more keys are needed.
pub open spec fn prefix_set(s: Seq<Seq<KeyCode>>) -> Set<Seq<KeyCode>> {
    Set::new(
        |p: Seq<KeyCode>|
            (exists|i: int| 0 <= i < s.len() && proper_prefix(p, #[trigger] s[i])) && !s.contains(p),
    )
}

/// `p` begins one of the first `b` sequences of `seqs`, or begins sequence `b` and is
/// shorter than `n`.
pub open spec fn covers(p: Seq<KeyCode>, seqs: Seq<Seq<KeyCode>>, b: int, n: int) -> bool {
    ||| exists|i: int| 0 <= i < b && proper_prefix(p, #[trigger] seqs[i])
    ||| 0 <= b < seqs.len() && proper_prefix(p, seqs[b]) && p.len() < n
}

/// What a sequence holds once an item has been added to its end.
pub proof fn lemma_push_contains<A>(s: Seq<A>, a: A, b: A)
    ensures
        s.push(a).contains(b) <==> (s.contains(b) || a == b),
{
    if s.contains(b) {
        let i = choose|i: int| 0 <= i < s.len() && s[i] == b;
        assert(s.push(a)[i] == b);
    }
    if a == b {
        assert(s.push(a)[s.len() as int] == b);
    }
    if s.push(a).contains(b) {
        let i = choose|i: int| 0 <= i < s.push(a).len() && s.push(a)[i] == b;
        if i < s.len() {
            assert(s[i] == b);
        }
    }
}

/// The view of a list of key sequences.
pub open spec fn key_seqs(v: Seq<Vec<KeyCode>>) -> Seq<Seq<KeyCode>> {
    v.map_values(|k: Vec<KeyCode>| k@)
}

/// User defined key bindings, each with the sequence of key presses that runs it.
///
/// Built by [parse_keybindings], which is where a sequence bound twice, or shadowed
/// by a shorter one that it starts with, is reported and dropped.
#[derive(Debug)]
pub struct KeyBindings<H> {
    /// The key sequence of each binding, and what it runs
    pub bindings: Vec<(Vec<KeyCode>, H)>,
    /// Every sequence that begins a binding without being one itself
    pub prefixes: Vec<Vec<KeyCode>>,
}

impl<H> KeyBindings<H> {
    /// The bindings hold each sequence once, and `prefixes` lists each sequence that
    /// begins a binding without being one, once.
    pub open spec fn wf(&self) -> bool {
        &&& all_different(sequences_of(self.bindings@))
        &&& all_different(key_seqs(self.prefixes@))
        &&& key_seqs(self.prefixes@).to_set() == prefix_set(sequences_of(self.bindings@))
    }

    /// Index bindings for dispatch.
    ///
    /// A sequence that is both a binding and the start of a longer one can only ever
    /// run as the shorter of the two, so it is not a prefix and the longer one is
    /// unreachable.
    pub fn new(bindings: Vec<(Vec<KeyCode>, H)>) -> (r: Self)
        requires
            all_different(sequences_of(bindings@)),
        ensures
            r.bindings@ == bindings@,
            r.wf(),
    {
        let mut prefixes: Vec<Vec<KeyCode>> = Vec::new();
        let ghost seqs = sequences_of(bindings@);
        let mut b: usize = 0;
        while b < bindings.len()
            invariant
                seqs == sequences_of(bindings@),
                b <= bindings.len(),
                all_different(key_seqs(prefixes@)),
                forall|p: Seq<KeyCode>| #[trigger] key_seqs(prefixes@).contains(p) <==> (covers(p, seqs, b as int, 0)
                    && !seqs.contains(p)),
            decreases bindings.len() - b,
        {
            let keys = &bindings[b].0;
            let mut n: usize = 1;
            proof {
                assert forall|p: Seq<KeyCode>| covers(p, seqs, b as int, 1) == covers(p, seqs, b as int, 0) by {}
            }
            while n < keys.len()
                invariant
                    seqs == sequences_of(bindings@),
                    b < bindings.len(),
                    keys@ == seqs[b as int],
                    1 <= n,
                    all_different(key_seqs(prefixes@)),
                    forall|p: Seq<KeyCode>| #[trigger] key_seqs(prefixes@).contains(p) <==> (covers(
                        p,
                        seqs,
                        b as int,
                        n as int,
                    ) && !seqs.contains(p)),
                decreases keys.len() - n,
            {
                let p = copy_keys(keys, n);
                let found = position_of(&bindings, p.as_slice());
                let in_bindings = found.is_some();
                let in_prefixes = listed(&prefixes, p.as_slice());
                let ghost before = key_seqs(prefixes@);
                let ghost p0 = p@;
                assert(proper_prefix(p0, seqs[b as int]));
                proof {
                    match found {
                        Some(i) => {
                            assert(seqs[i as int] == p0);
                        },
                        None => {},
                    }
                    assert(in_bindings == seqs.contains(p0));
                }
                if !in_bindings && !in_prefixes {
                    prefixes.push(p);
                    proof {
                        assert(key_seqs(prefixes@) =~= before.push(p0));
                        assert forall|i: int, j: int| 0 <= i < j < key_seqs(prefixes@).len() implies key_seqs(
                            prefixes@,
                        )[i] != key_seqs(prefixes@)[j] by {
                            if j == key_seqs(prefixes@).len() - 1 {
                                assert(before[i] == key_seqs(prefixes@)[i]);
                            }
                        }
                    }
                }
                proof {
                    assert forall|q: Seq<KeyCode>| #[trigger] key_seqs(prefixes@).contains(q) <==> (covers(
                        q,
                        seqs,
                        b as int,
                        n + 1,
                    ) && !seqs.contains(q)) by {
                        lemma_push_contains(before, p0, q);
                        if q == p0 {
                            assert(covers(q, seqs, b as int, n + 1));
                            if in_prefixes {
                                assert(before.contains(p0));
                            }
                        } else {
                            if proper_prefix(q, seqs[b as int]) && q.len() < n + 1 {
                                assert(q.len() != n);
                            }
                            assert(covers(q, seqs, b as int, n + 1) == covers(q, seqs, b as int, n as int));
                            assert(before.contains(q) == key_seqs(prefixes@).contains(q));
                        }
                    }
                }
                n = n + 1;
            }
            proof {
                assert forall|q: Seq<KeyCode>| covers(q, seqs, b as int, n as int) ==> covers(q, seqs, b + 1, 0) by {
                    if b < seqs.len() && proper_prefix(q, seqs[b as int]) && q.len() < n {
                        assert(0 <= b < b + 1 && proper_prefix(q, seqs[b as int]));
                    }
                }
                assert forall|q: Seq<KeyCode>| covers(q, seqs, b + 1, 0) ==> covers(q, seqs, b as int, n as int) by {
                    if covers(q, seqs, b + 1, 0) {
                        let i = choose|i: int| 0 <= i < b + 1 && proper_prefix(q, #[trigger] seqs[i]);
                        if i == b {
                            assert(q.len() < keys@.len());
                        }
                    }
                }
            }
            b = b + 1;
        }
        proof {
            assert forall|q: Seq<KeyCode>| key_seqs(prefixes@).to_set().contains(q) <==> prefix_set(seqs).contains(q) by {
                assert(key_seqs(prefixes@).to_set().contains(q) == key_seqs(prefixes@).contains(q));
            }
            assert(key_seqs(prefixes@).to_set() =~= prefix_set(seqs));
        }
        KeyBindings { bindings, prefixes }
    }

    /// The number of bindings.
    pub fn len(&self) -> (r: usize)
        ensures
            r == self.bindings@.len(),
    {
        self.bindings.len()
    }

    /// Whether there are no bindings at all.
    pub fn is_empty(&self) -> (r: bool)
        ensures
            r == (self.bindings@.len() == 0),
    {
        self.bindings.len() == 0
    }

    /// The key sequence which runs each binding.
    pub fn sequences(&self) -> (r: Vec<Vec<KeyCode>>)
        ensures
            key_seqs(r@) == sequences_of(self.bindings@),
    {
        let mut out: Vec<Vec<KeyCode>> = Vec::new();
        let mut i: usize = 0;
        while i < self.bindings.len()
            invariant
                i <= self.bindings.len(),
                key_seqs(out@) == sequences_of(self.bindings@).take(i as int),
            decreases self.bindings.len() - i,
        {
            let keys = copy_keys(&self.bindings[i].0, self.bindings[i].0.len());
            let ghost before = out@;
            out.push(keys);
            proof {
                assert(self.bindings@[i as int].0@.take(self.bindings@[i as int].0@.len() as int)
                    == self.bindings@[i as int].0@);
                assert(key_seqs(out@) =~= key_seqs(before).push(self.bindings@[i as int].0@));
                assert(sequences_of(self.bindings@).take(i + 1) =~= sequences_of(self.bindings@).take(
                    i as int,
                ).push(self.bindings@[i as int].0@));
            }
            i = i + 1;
        }
        assert(sequences_of(self.bindings@).take(i as int) == sequences_of(self.bindings@));
        out
    }

    /// The keys that can begin a binding, each once: these are the ones to grab. The
    /// rest of a sequence arrives through a capture of the next key press.
    pub fn leading_keys(&self) -> (r: Vec<KeyCode>)
        ensures
            r@.no_duplicates(),
            forall|k: KeyCode| r@.contains(k) <==> exists|i: int|
                0 <= i < self.bindings@.len() && self.bindings@[i].0@.len() > 0
                    && #[trigger] self.bindings@[i].0@[0] == k,
    {
        let mut out: Vec<KeyCode> = Vec::new();
        let mut i: usize = 0;
        while i < self.bindings.len()
            invariant
                i <= self.bindings.len(),
                out@.no_duplicates(),
                forall|k: KeyCode| out@.contains(k) <==> exists|j: int|
                    0 <= j < i && self.bindings@[j].0@.len() > 0 && #[trigger] self.bindings@[j].0@[0] == k,
            decreases self.bindings.len() - i,
        {
            let keys = &self.bindings[i].0;
            if keys.len() > 0 {
                let first = keys[0];
                let mut seen = false;
                let mut j: usize = 0;
                while j < out.len()
                    invariant
                        j <= out.len(),
                        seen == exists|t: int| 0 <= t < j && out@[t] == first,
                    decreases out.len() - j,
                {
                    if out[j] == first {
                        seen = true;
                    }
                    j = j + 1;
                }
                let ghost before = out@;
                if !seen {
                    out.push(first);
                }
                proof {
                    assert(seen == before.contains(first));
                    assert forall|k: KeyCode| out@.contains(k) <==> exists|j: int|
                        0 <= j < i + 1 && self.bindings@[j].0@.len() > 0 && #[trigger] self.bindings@[j].0@[0]
                            == k by {
                        lemma_push_contains(before, first, k);
                        if exists|j: int|
                            0 <= j < i + 1 && self.bindings@[j].0@.len() > 0 && #[trigger] self.bindings@[j].0@[0]
                                == k {
                            let j = choose|j: int|
                                0 <= j < i + 1 && self.bindings@[j].0@.len() > 0 && #[trigger] self.bindings@[j].0@[0]
                                    == k;
                            if j < i {
                                assert(before.contains(k));
                            }
                        }
                        if k == first {
                            assert(self.bindings@[i as int].0@[0] == k);
                        }
                    }
                    if !seen {
                        assert forall|a: int, c: int| 0 <= a < out@.len() && 0 <= c < out@.len() && a != c implies out@[a] != out@[c] by {
                            if a == out@.len() - 1 {
                                assert(before[c] == out@[c]);
                            }
                            if c == out@.len() - 1 {
                                assert(before[a] == out@[a]);
                            }
                        }
                    }
                }
            } else {
                proof {
                    assert forall|k: KeyCode| out@.contains(k) <==> exists|j: int|
                        0 <= j < i + 1 && self.bindings@[j].0@.len() > 0 && #[trigger] self.bindings@[j].0@[0]
                            == k by {
                        if exists|j: int|
                            0 <= j < i + 1 && self.bindings@[j].0@.len() > 0 && #[trigger] self.bindings@[j].0@[0]
                                == k {
                            let j = choose|j: int|
                                0 <= j < i + 1 && self.bindings@[j].0@.len() > 0 && #[trigger] self.bindings@[j].0@[0]
                                    == k;
                            assert(j < i);
                        }
                    }
                }
            }
            i = i + 1;
        }
        out
    }

    /// Whether more keys are needed before `keys` can run anything.
    pub fn is_prefix(&self, keys: &[KeyCode]) -> (r: bool)
        requires
            self.wf(),
        ensures
            r == prefix_set(sequences_of(self.bindings@)).contains(keys@),
    {
        // Checked first so that a config with no sequences in it does no work here.
        if self.prefixes.len() == 0 {
            assert(key_seqs(self.prefixes@).to_set() =~= Set::empty());
            return false;
        }
        let r = listed(&self.prefixes, keys);
        proof {
            assert(key_seqs(self.prefixes@).to_set().contains(keys@) == key_seqs(self.prefixes@).contains(keys@));
        }
        r
    }

    /// The index of the binding that `keys` runs, if any.
    pub fn find(&self, keys: &[KeyCode]) -> (r: Option<usize>)
        ensures
            match r {
                Some(i) => i < self.bindings@.len() && self.bindings@[i as int].0@ == keys@,
                None => !sequences_of(self.bindings@).contains(keys@),
            },
    {
        position_of(&self.bindings, keys)
    }

    /// What `keys` runs, for modification.
    pub fn get_mut(&mut self, keys: &[KeyCode]) -> (r: Option<&mut H>)
        ensures
            final(self).prefixes == old(self).prefixes,
            match r {
                Some(h) => exists|i: int|
                    0 <= i < old(self).bindings@.len() && old(self).bindings@[i].0@ == keys@
                        && *h == old(self).bindings@[i].1 && #[trigger] final(self).bindings@ == old(
                        self,
                    ).bindings@.update(i, (old(self).bindings@[i].0, *final(h))),
                None => !sequences_of(old(self).bindings@).contains(keys@) && final(self).bindings@
                    == old(self).bindings@,
            },
    {
        match position_of(&self.bindings, keys) {
            Some(i) => {
                let entry = vec_item_mut(&mut self.bindings, i);
                Some(&mut entry.1)
            },
            None => None,
        }
    }
}

/// What to do after a key press.
#[derive(Debug, Clone, Copy, PartialEq, Eq, Structural)]
pub enum KeyDispatch {
    /// The keys pressed so far begin a longer binding: capture the next key press.
    Capture,
    /// The sequence in progress is over.
    Finished {
        /// Release the capture of the next key press: the sequence was longer than
        /// one key
        cancel_capture: bool,
        /// The index of the binding to run, if the sequence completed one
        binding: Option<usize>,
    },
}

/// Whether no key sequence of `bindings` occurs twice: what [KeyBindings::new] asks
/// of its bindings.
pub fn sequences_distinct<H>(bindings: &Vec<(Vec<KeyCode>, H)>) -> (r: bool)
    ensures
        r == all_different(sequences_of(bindings@)),
{
    let ghost s = sequences_of(bindings@);
    let mut j: usize = 0;
    while j < bindings.len()
        invariant
            s == sequences_of(bindings@),
            j <= bindings@.len(),
            forall|a: int, b: int| 0 <= a < b < j ==> s[a] != s[b],
        decreases bindings@.len() - j,
    {
        let mut i: usize = 0;
        while i < j
            invariant
                s == sequences_of(bindings@),
                i <= j < bindings@.len(),
                forall|a: int, b: int| 0 <= a < b < j ==> s[a] != s[b],
                forall|a: int| 0 <= a < i ==> s[a] != s[j as int],
            decreases j - i,
        {
            if same_keys(bindings[i].0.as_slice(), bindings[j].0.as_slice()) {
                assert(s[i as int] == s[j as int]);
                return false;
            }
            i = i + 1;
        }
        j = j + 1;
    }
    true
}

/// Handle a key press, given the keys pressed so far in the sequence in progress.
///
/// When the keys pressed so far begin a longer binding, they are kept and the next
/// key press is to be captured. Otherwise the sequence is over: it runs the binding
/// it completes, if any, and a key press that continues no binding abandons the
/// sequence in progress rather than leaving the user's bindings silently waiting.
pub fn dispatch_key<H>(key: KeyCode, bindings: &KeyBindings<H>, pending: &mut Vec<KeyCode>) -> (r:
    KeyDispatch)
    requires
        bindings.wf(),
    ensures
        ({
            let pressed = old(pending)@.push(key);
            let seqs = sequences_of(bindings.bindings@);
            if prefix_set(seqs).contains(pressed) {
                &&& final(pending)@ == pressed
                &&& r == KeyDispatch::Capture
            } else {
                &&& final(pending)@.len() == 0
                &&& r matches KeyDispatch::Finished { cancel_capture, binding }
                &&& cancel_capture == (pressed.len() > 1)
                &&& match binding {
                    Some(i) => i < seqs.len() && seqs[i as int] == pressed,
                    None => !seqs.contains(pressed),
                }
            }
        }),
{
    pending.push(key);
    if bindings.is_prefix(pending.as_slice()) {
        return KeyDispatch::Capture;
    }
    let mut keys: Vec<KeyCode> = Vec::new();
    std::mem::swap(&mut keys, pending);
    let binding = bindings.find(keys.as_slice());
    proof {
        match binding {
            Some(i) => {
                assert(sequences_of(bindings.bindings@)[i as int] == keys@);
            },
            None => {},
        }
    }
    KeyDispatch::Finished { cancel_capture: keys.len() > 1, binding }
}

/// Why a key binding could not be used.
#[derive(Debug)]
pub struct KeyBindingError {
    /// The binding as it was written, e.g. `"M-S-Retrun"`.
    pub binding: String,
    /// Why it could not be used.
    pub error: Error,
}

/// The key bindings that could be used, and why each of the others could not.
#[derive(Debug)]
pub struct ParsedKeyBindings<H> {
    /// The bindings that can be used
    pub bindings: KeyBindings<H>,
    /// Each binding that was dropped, ordered by its name
    pub errors: Vec<KeyBindingError>,
}

/// Why a binding that names no keys at all is dropped.
pub const NO_KEYS: &'static str = "no keys in binding";

/// Why a binding is dropped when the binding named `owner` has its key sequence.
pub open spec fn duplicate_message(owner: Seq<char>) -> Seq<char> {
    "duplicate of '"@ + owner + "'"@
}

/// Why a binding is dropped when a shorter binding named `by` starts it.
pub open spec fn shadow_message(by: Seq<char>) -> Seq<char> {
    "shadowed by '"@ + by + "'"@
}

/// A written binding parsed into keys that it can be bound to.
pub open spec fn usable<H>(e: (String, Result<Vec<KeyCode>, Error>, H)) -> bool {
    e.1 matches Ok(ks) && ks@.len() > 0
}

/// The keys that a written binding was parsed into.
pub open spec fn keys_of<H>(e: (String, Result<Vec<KeyCode>, Error>, H)) -> Seq<KeyCode> {
    match e.1 {
        Ok(ks) => ks@,
        Err(_) => Seq::empty(),
    }
}

/// Bindings `i` and `j` were both parsed into the same keys.
pub open spec fn same_sequence<H>(es: Seq<(String, Result<Vec<KeyCode>, Error>, H)>, i: int, j: int) -> bool {
    &&& 0 <= j < es.len()
    &&& usable(es[i])
    &&& usable(es[j])
    &&& keys_of(es[i]) == keys_of(es[j])
}

/// Another binding with the same keys has a name that sorts before that of binding `i`.
pub open spec fn is_duplicate<H>(es: Seq<(String, Result<Vec<KeyCode>, Error>, H)>, i: int) -> bool {
    &&& usable(es[i])
    &&& exists|j: int| #[trigger] same_sequence(es, i, j) && name_before(es[j].0@, es[i].0@)
}

/// Binding `j` is the one that claims the keys of binding `i`: the one with those keys
/// whose name sorts first.
pub open spec fn owns<H>(es: Seq<(String, Result<Vec<KeyCode>, Error>, H)>, i: int, j: int) -> bool {
    &&& same_sequence(es, i, j)
    &&& forall|k: int| #[trigger] same_sequence(es, i, k) ==> !name_before(es[k].0@, es[j].0@)
}

/// Binding `i` claims its keys.
pub open spec fn is_claimed<H>(es: Seq<(String, Result<Vec<KeyCode>, Error>, H)>, i: int) -> bool {
    usable(es[i]) && !is_duplicate(es, i)
}

/// The first `n` keys of binding `i` are the keys that binding `j` claims.
pub open spec fn shadows_at<H>(es: Seq<(String, Result<Vec<KeyCode>, Error>, H)>, i: int, n: int, j: int) -> bool {
    &&& 0 <= j < es.len()
    &&& is_claimed(es, j)
    &&& 1 <= n < keys_of(es[i]).len()
    &&& keys_of(es[j]) == keys_of(es[i]).take(n)
}

/// Binding `i` claims its keys, but a shorter claimed binding starts them: pressing
/// that one runs it at once, so binding `i` could never be reached.
pub open spec fn is_shadowed<H>(es: Seq<(String, Result<Vec<KeyCode>, Error>, H)>, i: int) -> bool {
    &&& is_claimed(es, i)
    &&& exists|n: int, j: int| #[trigger] shadows_at(es, i, n, j)
}

/// Binding `j` is the shortest claimed binding that starts binding `i`.
pub open spec fn shadowed_by<H>(es: Seq<(String, Result<Vec<KeyCode>, Error>, H)>, i: int, j: int) -> bool {
    exists|n: int|
        #[trigger] shadows_at(es, i, n, j) && forall|m: int, k: int| m < n ==> !#[trigger] shadows_at(es, i, m, k)
}

/// Binding `i` can be used.
pub open spec fn is_kept<H>(es: Seq<(String, Result<Vec<KeyCode>, Error>, H)>, i: int) -> bool {
    is_claimed(es, i) && !is_shadowed(es, i)
}

/// `e` says why binding `i` was dropped.
pub open spec fn reported_as<H>(es: Seq<(String, Result<Vec<KeyCode>, Error>, H)>, i: int, e: Error) -> bool {
    match es[i].1 {
        Err(x) => e == x,
        Ok(ks) => if ks@.len() == 0 {
            e matches Error::Custom(m) && m@ == NO_KEYS@
        } else if is_duplicate(es, i) {
            exists|j: int| #[trigger] owns(es, i, j) && (e matches Error::Custom(m) && m@ == duplicate_message(es[j].0@))
        } else if is_shadowed(es, i) {
            exists|j: int|
                #[trigger] shadowed_by(es, i, j) && (e matches Error::Custom(m) && m@ == shadow_message(es[j].0@))
        } else {
            false
        },
    }
}

/// No two written bindings have the same name.
pub open spec fn distinct_names<H>(es: Seq<(String, Result<Vec<KeyCode>, Error>, H)>) -> bool {
    forall|i: int, j: int| 0 <= i < j < es.len() ==> es[i].0@ != es[j].0@
}

/// Report `k` is about a dropped binding, and says why it was dropped.
pub open spec fn report_is_sound<H>(es: Seq<(String, Result<Vec<KeyCode>, Error>, H)>, errs: Seq<KeyBindingError>, k: int) -> bool {
    exists|i: int|
        #![trigger es[i]]
        0 <= i < es.len() && !is_kept(es, i) && errs[k].binding == es[i].0 && reported_as(es, i, errs[k].error)
}

/// Each report is about a dropped binding, and says why it was dropped.
pub open spec fn reports_are_dropped<H>(es: Seq<(String, Result<Vec<KeyCode>, Error>, H)>, errs: Seq<KeyBindingError>) -> bool {
    forall|k: int| 0 <= k < errs.len() ==> #[trigger] report_is_sound(es, errs, k)
}

/// Each dropped binding is reported.
pub open spec fn dropped_are_reported<H>(es: Seq<(String, Result<Vec<KeyCode>, Error>, H)>, errs: Seq<KeyBindingError>) -> bool {
    forall|i: int|
        #![trigger es[i]]
        0 <= i < es.len() && !is_kept(es, i) ==> exists|k: int|
            #![trigger errs[k]]
            0 <= k < errs.len() && errs[k].binding == es[i].0
}

/// The reports are ordered by binding name, each name once.
pub open spec fn reports_by_name(errs: Seq<KeyBindingError>) -> bool {
    forall|k1: int, k2: int| 0 <= k1 < k2 < errs.len() ==> name_before(errs[k1].binding@, errs[k2].binding@)
}

/// The binding `b` has the keys of the written binding `e` and runs what it runs.
pub open spec fn carries<H>(b: (Vec<KeyCode>, H), e: (String, Result<Vec<KeyCode>, Error>, H)) -> bool {
    b.0@ == keys_of(e) && b.1 == e.2
}

/// Binding `k` held is a binding that is kept, with its keys and what it runs.
pub open spec fn held_is_kept<H>(es: Seq<(String, Result<Vec<KeyCode>, Error>, H)>, b: Seq<(Vec<KeyCode>, H)>, k: int) -> bool {
    exists|i: int| #![trigger es[i]] 0 <= i < es.len() && is_kept(es, i) && carries(b[k], es[i])
}

/// Each binding held is a binding that is kept, with its keys and what it runs.
pub open spec fn held_are_kept<H>(es: Seq<(String, Result<Vec<KeyCode>, Error>, H)>, b: Seq<(Vec<KeyCode>, H)>) -> bool {
    forall|k: int| 0 <= k < b.len() ==> #[trigger] held_is_kept(es, b, k)
}

/// Each binding that is kept is held.
pub open spec fn kept_are_held<H>(es: Seq<(String, Result<Vec<KeyCode>, Error>, H)>, b: Seq<(Vec<KeyCode>, H)>) -> bool {
    forall|i: int|
        #![trigger es[i]]
        0 <= i < es.len() && is_kept(es, i) ==> exists|k: int|
            #![trigger b[k]]
            0 <= k < b.len() && carries(b[k], es[i])
}

/// `r` holds exactly the bindings of `es` that can be used, and reports each of the
/// others once, ordered by name, saying why it was dropped.
pub open spec fn resolves<H>(es: Seq<(String, Result<Vec<KeyCode>, Error>, H)>, r: ParsedKeyBindings<H>) -> bool {
    &&& r.bindings.wf()
    &&& reports_are_dropped(es, r.errors@)
    &&& dropped_are_reported(es, r.errors@)
    &&& reports_by_name(r.errors@)
    &&& held_are_kept(es, r.bindings.bindings@)
    &&& kept_are_held(es, r.bindings.bindings@)
}

/// Whether binding `t` of `entries` was parsed into keys, and they are `keys`.
fn has_keys<H>(entries: &Vec<(String, Result<Vec<KeyCode>, Error>, H)>, t: usize, keys: &Vec<KeyCode>) -> (r: bool)
    requires
        t < entries@.len(),
    ensures
        r == (usable(entries@[t as int]) && keys_of(entries@[t as int]) == keys@),
{
    match &entries[t].1 {
        Ok(ks) => ks.len() > 0 && same_keys(ks.as_slice(), keys.as_slice()),
        Err(_) => false,
    }
}

/// The binding that claims the keys of binding `i`.
fn find_owner<H>(entries: &Vec<(String, Result<Vec<KeyCode>, Error>, H)>, i: usize) -> (j: usize)
    requires
        i < entries@.len(),
        usable(entries@[i as int]),
    ensures
        owns(entries@, i as int, j as int),
        (j == i) == !is_duplicate(entries@, i as int),
{
    let ghost es = entries@;
    let keys = match &entries[i].1 {
        Ok(ks) => ks,
        Err(_) => {
            proof {
                assert(false);
            }
            return i;
        },
    };
    let mut best: usize = i;
    let mut t: usize = 0;
    while t < entries.len()
        invariant
            es == entries@,
            i < es.len(),
            usable(es[i as int]),
            keys@ == keys_of(es[i as int]),
            t <= es.len(),
            best < es.len(),
            same_sequence(es, i as int, best as int),
            best == i || name_before(es[best as int].0@, es[i as int].0@),
            forall|k: int| 0 <= k < t && #[trigger] same_sequence(es, i as int, k) ==> !name_before(es[k].0@, es[best as int].0@),
        decreases es.len() - t,
    {
        if has_keys(entries, t, keys) && names_in_order(entries[t].0.as_str(), entries[best].0.as_str()) {
            proof {
                assert forall|k: int| 0 <= k < t + 1 && #[trigger] same_sequence(es, i as int, k) implies !name_before(es[k].0@, es[t as int].0@) by {
                    if k < t && name_before(es[k].0@, es[t as int].0@) {
                        lemma_name_before_transitive(es[k].0@, es[t as int].0@, es[best as int].0@);
                    }
                    if k == t {
                        lemma_name_before_irreflexive(es[k].0@);
                    }
                }
                if best != i {
                    lemma_name_before_transitive(es[t as int].0@, es[best as int].0@, es[i as int].0@);
                }
            }
            best = t;
        } else {
            proof {
                if same_sequence(es, i as int, t as int) {
                    assert(!name_before(es[t as int].0@, es[best as int].0@));
                }
            }
        }
        t = t + 1;
    }
    proof {
        if best == i {
            assert forall|k: int| #[trigger] same_sequence(es, i as int, k) implies !name_before(es[k].0@, es[i as int].0@) by {}
        } else {
            assert(same_sequence(es, i as int, best as int) && name_before(es[best as int].0@, es[i as int].0@));
        }
    }
    best
}

/// Which bindings claim their keys.
fn claims<H>(entries: &Vec<(String, Result<Vec<KeyCode>, Error>, H)>) -> (r: Vec<bool>)
    ensures
        r@.len() == entries@.len(),
        forall|i: int| 0 <= i < r@.len() ==> r@[i] == is_claimed(entries@, i),
{
    let mut out: Vec<bool> = Vec::new();
    let mut i: usize = 0;
    while i < entries.len()
        invariant
            i <= entries@.len(),
            out@.len() == i,
            forall|t: int| 0 <= t < i ==> out@[t] == is_claimed(entries@, t),
        decreases entries@.len() - i,
    {
        let claimed = match &entries[i].1 {
            Ok(ks) => ks.len() > 0 && find_owner(entries, i) == i,
            Err(_) => false,
        };
        out.push(claimed);
        i = i + 1;
    }
    out
}

/// Whether `a` is the first `n` keys of `b`.
fn starts_with(a: &Vec<KeyCode>, b: &Vec<KeyCode>, n: usize) -> (r: bool)
    requires
        n <= b@.len(),
    ensures
        r == (a@ == b@.take(n as int)),
{
    if a.len() != n {
        return false;
    }
    let mut t: usize = 0;
    while t < n
        invariant
            a@.len() == n <= b@.len(),
            t <= n,
            forall|j: int| 0 <= j < t ==> a@[j] == b@[j],
        decreases n - t,
    {
        if a[t] != b[t] {
            return false;
        }
        t = t + 1;
    }
    assert(a@ =~= b@.take(n as int));
    true
}

/// The shortest claimed binding that starts binding `i`, if any.
fn find_shadower<H>(entries: &Vec<(String, Result<Vec<KeyCode>, Error>, H)>, claimed: &Vec<bool>, i: usize) -> (r:
    Option<usize>)
    requires
        i < entries@.len(),
        claimed@.len() == entries@.len(),
        forall|t: int| 0 <= t < claimed@.len() ==> claimed@[t] == is_claimed(entries@, t),
    ensures
        match r {
            Some(j) => shadowed_by(entries@, i as int, j as int),
            None => forall|n: int, j: int| !#[trigger] shadows_at(entries@, i as int, n, j),
        },
{
    let ghost es = entries@;
    let keys = match &entries[i].1 {
        Ok(ks) => ks,
        Err(_) => {
            assert forall|n: int, j: int| !#[trigger] shadows_at(es, i as int, n, j) by {}
            return None;
        },
    };
    let mut n: usize = 1;
    while n < keys.len()
        invariant
            es == entries@,
            i < es.len(),
            keys@ == keys_of(es[i as int]),
            claimed@.len() == es.len(),
            forall|t: int| 0 <= t < claimed@.len() ==> claimed@[t] == is_claimed(es, t),
            1 <= n,
            forall|m: int, k: int| m < n ==> !#[trigger] shadows_at(es, i as int, m, k),
        decreases keys.len() - n,
    {
        let mut j: usize = 0;
        while j < entries.len()
            invariant
                es == entries@,
                i < es.len(),
                keys@ == keys_of(es[i as int]),
                claimed@.len() == es.len(),
                forall|t: int| 0 <= t < claimed@.len() ==> claimed@[t] == is_claimed(es, t),
                1 <= n < keys@.len(),
                j <= es.len(),
                forall|m: int, k: int| m < n ==> !#[trigger] shadows_at(es, i as int, m, k),
                forall|k: int| 0 <= k < j ==> !#[trigger] shadows_at(es, i as int, n as int, k),
            decreases es.len() - j,
        {
            if claimed[j] {
                let matches = match &entries[j].1 {
                    Ok(ks) => starts_with(ks, keys, n),
                    Err(_) => false,
                };
                if matches {
                    assert(shadows_at(es, i as int, n as int, j as int));
                    return Some(j);
                }
            }
            j = j + 1;
        }
        n = n + 1;
    }
    proof {
        assert forall|m: int, k: int| !#[trigger] shadows_at(es, i as int, m, k) by {
            if m < n {
            }
        }
    }
    None
}

/// Two different bindings that both claim their keys have different keys.
pub proof fn lemma_claimed_keys_differ<H>(es: Seq<(String, Result<Vec<KeyCode>, Error>, H)>, a: int, b: int)
    requires
        distinct_names(es),
        0 <= a < es.len(),
        0 <= b < es.len(),
        a != b,
        is_claimed(es, a),
        is_claimed(es, b),
    ensures
        keys_of(es[a]) != keys_of(es[b]),
{
    if keys_of(es[a]) == keys_of(es[b]) {
        if a < b {
            assert(es[a].0@ != es[b].0@);
        } else {
            assert(es[b].0@ != es[a].0@);
        }
        lemma_name_before_total(es[a].0@, es[b].0@);
        if name_before(es[a].0@, es[b].0@) {
            assert(same_sequence(es, b, a));
        } else {
            assert(same_sequence(es, a, b));
        }
    }
}

/// The message for a binding whose keys the binding named `owner` claims.
fn duplicate_text(owner: &String) -> (r: String)
    ensures
        r@ == duplicate_message(owner@),
{
    "duplicate of '".to_owned().concat(owner.as_str()).concat("'")
}

/// The message for a binding that the shorter binding named `by` starts.
fn shadow_text(by: &String) -> (r: String)
    ensures
        r@ == shadow_message(by@),
{
    "shadowed by '".to_owned().concat(by.as_str()).concat("'")
}

/// Add `e` to errors ordered by binding name, where no error has its name yet;
/// returns where it went.
fn insert_by_name(errors: &mut Vec<KeyBindingError>, e: KeyBindingError) -> (p: usize)
    requires
        forall|k1: int, k2: int| 0 <= k1 < k2 < old(errors)@.len() ==> name_before(
            old(errors)@[k1].binding@,
            old(errors)@[k2].binding@,
        ),
        forall|k: int| 0 <= k < old(errors)@.len() ==> old(errors)@[k].binding@ != e.binding@,
    ensures
        p <= old(errors)@.len(),
        final(errors)@ == old(errors)@.insert(p as int, e),
        forall|k1: int, k2: int| 0 <= k1 < k2 < final(errors)@.len() ==> name_before(
            final(errors)@[k1].binding@,
            final(errors)@[k2].binding@,
        ),
{
    let mut p: usize = 0;
    while p < errors.len() && !names_in_order(e.binding.as_str(), errors[p].binding.as_str())
        invariant
            p <= errors@.len(),
            forall|k: int| 0 <= k < p ==> !name_before(e.binding@, errors@[k].binding@),
        decreases errors@.len() - p,
    {
        p = p + 1;
    }
    let ghost before = errors@;
    proof {
        assert forall|k: int| 0 <= k < p implies name_before(before[k].binding@, e.binding@) by {
            lemma_name_before_total(before[k].binding@, e.binding@);
        }
        assert forall|k: int| p <= k < before.len() implies name_before(e.binding@, before[k].binding@) by {
            if k > p {
                lemma_name_before_transitive(e.binding@, before[p as int].binding@, before[k].binding@);
            }
        }
    }
    errors.insert(p, e);
    proof {
        let after = errors@;
        assert forall|k1: int, k2: int| 0 <= k1 < k2 < after.len() implies name_before(
            after[k1].binding@,
            after[k2].binding@,
        ) by {
            if k1 < p && k2 < p {
            } else if k1 < p && k2 == p {
            } else if k1 < p && k2 > p {
                assert(after[k2] == before[k2 - 1]);
                lemma_name_before_transitive(after[k1].binding@, e.binding@, after[k2].binding@);
            } else if k1 == p {
                assert(after[k2] == before[k2 - 1]);
            } else {
                assert(after[k1] == before[k1 - 1]);
                assert(after[k2] == before[k2 - 1]);
            }
        }
    }
    p
}

/// Whether each binding is kept, and for each dropped binding that was parsed, why.
fn fates<H>(entries: &Vec<(String, Result<Vec<KeyCode>, Error>, H)>) -> (r: (Vec<bool>, Vec<Option<String>>))
    ensures
        r.0@.len() == entries@.len(),
        r.1@.len() == entries@.len(),
        forall|t: int| 0 <= t < entries@.len() ==> r.0@[t] == is_kept(entries@, t),
        forall|t: int|
            0 <= t < entries@.len() && !r.0@[t] && entries@[t].1 is Ok ==> (r.1@[t] matches Some(m)
                && reported_as(entries@, t, Error::Custom(m))),
{
    let ghost es = entries@;
    let n = entries.len();
    let claimed = claims(entries);
    let mut keep: Vec<bool> = Vec::new();
    let mut msgs: Vec<Option<String>> = Vec::new();
    let mut i: usize = 0;
    while i < n
        invariant
            es == entries@,
            n == es.len(),
            claimed@.len() == n,
            forall|t: int| 0 <= t < claimed@.len() ==> claimed@[t] == is_claimed(es, t),
            i <= n,
            keep@.len() == i,
            msgs@.len() == i,
            forall|t: int| 0 <= t < i ==> keep@[t] == is_kept(es, t),
            forall|t: int|
                0 <= t < i && !keep@[t] && es[t].1 is Ok ==> (msgs@[t] matches Some(m) && reported_as(
                    es,
                    t,
                    Error::Custom(m),
                )),
        decreases n - i,
    {
        let (k, m): (bool, Option<String>) = match &entries[i].1 {
            Err(_) => (false, None),
            Ok(ks) => {
                if ks.len() == 0 {
                    (false, Some(NO_KEYS.to_owned()))
                } else if !claimed[i] {
                    let j = find_owner(entries, i);
                    let text = duplicate_text(&entries[j].0);
                    proof {
                        assert(owns(es, i as int, j as int));
                    }
                    (false, Some(text))
                } else {
                    match find_shadower(entries, &claimed, i) {
                        Some(j) => {
                            let text = shadow_text(&entries[j].0);
                            proof {
                                let n0 = choose|n0: int|
                                    #[trigger] shadows_at(es, i as int, n0, j as int) && forall|m: int, k: int|
                                        m < n0 ==> !#[trigger] shadows_at(es, i as int, m, k);
                                assert(shadows_at(es, i as int, n0, j as int));
                                assert(is_shadowed(es, i as int));
                            }
                            (false, Some(text))
                        },
                        None => (true, None),
                    }
                }
            },
        };
        keep.push(k);
        msgs.push(m);
        i = i + 1;
    }
    (keep, msgs)
}

/// Which binding each report or kept binding came from.
pub open spec fn sorted_out<H>(
    es: Seq<(String, Result<Vec<KeyCode>, Error>, H)>,
    from: int,
    errors: Seq<KeyBindingError>,
    kept: Seq<(Vec<KeyCode>, H)>,
    eorig: Seq<int>,
    korig: Seq<int>,
) -> bool {
    &&& errors.len() == eorig.len()
    &&& forall|k: int|
        0 <= k < eorig.len() ==> from <= #[trigger] eorig[k] < es.len() && !is_kept(es, eorig[k])
            && errors[k].binding == es[eorig[k]].0 && reported_as(es, eorig[k], errors[k].error)
    &&& forall|t: int| from <= t < es.len() && !#[trigger] is_kept(es, t) ==> eorig.contains(t)
    &&& forall|k1: int, k2: int| 0 <= k1 < k2 < errors.len() ==> name_before(errors[k1].binding@, errors[k2].binding@)
    &&& kept.len() == korig.len()
    &&& forall|k: int|
        0 <= k < korig.len() ==> from <= #[trigger] korig[k] < es.len() && is_kept(es, korig[k]) && carries(kept[k], es[korig[k]])
    &&& forall|k1: int, k2: int| 0 <= k1 < k2 < korig.len() ==> korig[k1] != korig[k2]
    &&& forall|t: int| from <= t < es.len() && #[trigger] is_kept(es, t) ==> korig.contains(t)
}

/// Move each binding into the kept bindings or, with why it was dropped, into the
/// reports ordered by binding name.
fn sort_out<H>(
    entries: Vec<(String, Result<Vec<KeyCode>, Error>, H)>,
    keep: Vec<bool>,
    msgs: Vec<Option<String>>,
) -> (r: (Vec<KeyBindingError>, Vec<(Vec<KeyCode>, H)>, Ghost<Seq<int>>, Ghost<Seq<int>>))
    requires
        distinct_names(entries@),
        keep@.len() == entries@.len(),
        msgs@.len() == entries@.len(),
        forall|t: int| 0 <= t < entries@.len() ==> keep@[t] == is_kept(entries@, t),
        forall|t: int|
            0 <= t < entries@.len() && !keep@[t] && entries@[t].1 is Ok ==> (msgs@[t] matches Some(m)
                && reported_as(entries@, t, Error::Custom(m))),
    ensures
        sorted_out(entries@, 0, r.0@, r.1@, r.2@, r.3@),
{
    let ghost es = entries@;
    let ghost n = es.len();
    let ghost keep0 = keep@;
    let ghost msgs0 = msgs@;
    let mut entries = entries;
    let mut keep = keep;
    let mut msgs = msgs;
    let mut errors: Vec<KeyBindingError> = Vec::new();
    let mut kept: Vec<(Vec<KeyCode>, H)> = Vec::new();
    let ghost mut eorig: Seq<int> = Seq::empty();
    let ghost mut korig: Seq<int> = Seq::empty();
    while entries.len() > 0
        invariant
            distinct_names(es),
            n == es.len(),
            entries@.len() <= n,
            entries@ == es.take(entries@.len() as int),
            keep@ == keep0.take(entries@.len() as int),
            msgs@ == msgs0.take(entries@.len() as int),
            keep0.len() == n,
            msgs0.len() == n,
            forall|t: int| 0 <= t < n ==> keep0[t] == is_kept(es, t),
            forall|t: int|
                0 <= t < n && !keep0[t] && es[t].1 is Ok ==> (msgs0[t] matches Some(m) && reported_as(
                    es,
                    t,
                    Error::Custom(m),
                )),
            sorted_out(es, entries@.len() as int, errors@, kept@, eorig, korig),
        decreases entries@.len(),
    {
        let ghost t = entries@.len() - 1;
        let (name, res, h) = entries.pop().unwrap();
        let k = keep.pop().unwrap();
        let m = msgs.pop().unwrap();
        proof {
            assert(es[t] == (name, res, h));
            assert(keep0.take(t + 1)[t] == keep0[t]);
            assert(msgs0.take(t + 1)[t] == msgs0[t]);
            assert(entries@ =~= es.take(t));
            assert(keep@ =~= keep0.take(t));
            assert(msgs@ =~= msgs0.take(t));
        }
        if k {
            match res {
                Ok(ks) => {
                    let ghost before = korig;
                    kept.push((ks, h));
                    proof {
                        korig = korig.push(t);
                        assert(korig[korig.len() - 1] == t);
                        assert forall|u: int| t <= u < n && #[trigger] is_kept(es, u) implies korig.contains(u) by {
                            if u == t {
                                assert(korig[korig.len() - 1] == u);
                            } else {
                                let q = choose|q: int| 0 <= q < before.len() && before[q] == u;
                                assert(korig[q] == u);
                            }
                        }
                        assert forall|q: int| 0 <= q < eorig.len() implies t <= #[trigger] eorig[q] < n by {}
                        assert forall|u: int| t <= u < n && !#[trigger] is_kept(es, u) implies eorig.contains(u) by {
                            assert(u != t);
                        }
                    }
                },
                Err(_) => {
                    proof {
                        assert(false);
                    }
                },
            }
        } else {
            let error = match res {
                Err(e) => e,
                Ok(_) => match m {
                    Some(text) => Error::Custom(text),
                    None => {
                        proof {
                            assert(false);
                        }
                        Error::Custom(String::new())
                    },
                },
            };
            proof {
                assert(reported_as(es, t, error));
                assert forall|q: int| 0 <= q < errors@.len() implies errors@[q].binding@ != name@ by {
                    assert(es[eorig[q]].0@ != es[t].0@);
                }
            }
            let ghost before = eorig;
            let p = insert_by_name(&mut errors, KeyBindingError { binding: name, error });
            proof {
                eorig = eorig.insert(p as int, t);
                assert forall|q: int| 0 <= q < eorig.len() implies t <= #[trigger] eorig[q] < n && !is_kept(es, eorig[q])
                    && errors@[q].binding == es[eorig[q]].0 && reported_as(es, eorig[q], errors@[q].error) by {
                    if q < p {
                        assert(eorig[q] == before[q]);
                    } else if q > p {
                        assert(eorig[q] == before[q - 1]);
                    }
                }
                assert forall|u: int| t <= u < n && !#[trigger] is_kept(es, u) implies eorig.contains(u) by {
                    if u == t {
                        assert(eorig[p as int] == u);
                    } else {
                        let q = choose|q: int| 0 <= q < before.len() && before[q] == u;
                        if q < p {
                            assert(eorig[q] == u);
                        } else {
                            assert(eorig[q + 1] == u);
                        }
                    }
                }
                assert forall|q: int| 0 <= q < korig.len() implies t <= #[trigger] korig[q] < n by {}
                assert forall|u: int| t <= u < n && #[trigger] is_kept(es, u) implies korig.contains(u) by {
                    assert(u != t);
                }
            }
        }
    }
    (errors, kept, Ghost(eorig), Ghost(korig))
}

/// Sort out written bindings that have been parsed into keys.
///
/// A binding that failed to parse, or names no keys, is dropped. Of bindings with the
/// same keys, the one whose name sorts first (shorter names first, then by their
/// bytes) keeps them and the others are dropped as duplicates. A binding that a
/// shorter binding starts is dropped as shadowed: pressing the shorter one runs it
/// rather than waiting to see whether a longer one was meant. Each dropped binding
/// is reported once, and the reports are ordered by binding name.
pub fn resolve_key_sequences<H>(entries: Vec<(String, Result<Vec<KeyCode>, Error>, H)>) -> (r: ParsedKeyBindings<H>)
    requires
        distinct_names(entries@),
    ensures
        resolves(entries@, r),
{
    let ghost es = entries@;
    let (keep, msgs) = fates(&entries);
    let (errors, kept, Ghost(eorig), Ghost(korig)) = sort_out(entries, keep, msgs);
    proof {
        assert forall|k1: int, k2: int| 0 <= k1 < k2 < kept@.len() implies sequences_of(kept@)[k1] != sequences_of(
            kept@,
        )[k2] by {
            lemma_claimed_keys_differ(es, korig[k1], korig[k2]);
        }
    }
    let bindings = KeyBindings::new(kept);
    let r = ParsedKeyBindings { bindings, errors };
    proof {
        lemma_sorted_out_resolves(es, r, eorig, korig);
    }
    r
}

/// Sorting out every binding resolves them.
proof fn lemma_sorted_out_resolves<H>(
    es: Seq<(String, Result<Vec<KeyCode>, Error>, H)>,
    r: ParsedKeyBindings<H>,
    eorig: Seq<int>,
    korig: Seq<int>,
)
    requires
        r.bindings.wf(),
        sorted_out(es, 0, r.errors@, r.bindings.bindings@, eorig, korig),
    ensures
        resolves(es, r),
{
    lemma_reports(es, r.errors@, eorig);
    lemma_held(es, r.bindings.bindings@, korig);
}

/// Reports that each came from a dropped binding, covering them all, are the reports
/// of the dropped bindings.
proof fn lemma_reports<H>(es: Seq<(String, Result<Vec<KeyCode>, Error>, H)>, errs: Seq<KeyBindingError>, eorig: Seq<int>)
    requires
        errs.len() == eorig.len(),
        forall|k: int|
            0 <= k < eorig.len() ==> 0 <= #[trigger] eorig[k] < es.len() && !is_kept(es, eorig[k])
                && errs[k].binding == es[eorig[k]].0 && reported_as(es, eorig[k], errs[k].error),
        forall|t: int| 0 <= t < es.len() && !#[trigger] is_kept(es, t) ==> eorig.contains(t),
    ensures
        reports_are_dropped(es, errs),
        dropped_are_reported(es, errs),
{
    assert forall|k: int| 0 <= k < errs.len() implies #[trigger] report_is_sound(es, errs, k) by {
        let i = eorig[k];
        assert(es[i] == es[i]);
    }
    assert forall|i: int| #![trigger es[i]] 0 <= i < es.len() && !is_kept(es, i) implies exists|k: int|
        #![trigger errs[k]]
        0 <= k < errs.len() && errs[k].binding === es[i].0 by {
        let k = choose|k: int| 0 <= k < eorig.len() && eorig[k] == i;
        assert(0 <= eorig[k] < es.len());
        assert(errs[k].binding == es[i].0);
    }
}

/// Bindings that each came from a kept binding, covering them all, are the kept
/// bindings.
proof fn lemma_held<H>(es: Seq<(String, Result<Vec<KeyCode>, Error>, H)>, b: Seq<(Vec<KeyCode>, H)>, korig: Seq<int>)
    requires
        b.len() == korig.len(),
        forall|k: int|
            0 <= k < korig.len() ==> 0 <= #[trigger] korig[k] < es.len() && is_kept(es, korig[k]) && carries(
                b[k],
                es[korig[k]],
            ),
        forall|t: int| 0 <= t < es.len() && #[trigger] is_kept(es, t) ==> korig.contains(t),
    ensures
        held_are_kept(es, b),
        kept_are_held(es, b),
{
    assert forall|k: int| 0 <= k < b.len() implies #[trigger] held_is_kept(es, b, k) by {
        let i = korig[k];
        assert(es[i] == es[i]);
    }
    assert forall|i: int| #![trigger es[i]] 0 <= i < es.len() && is_kept(es, i) implies exists|k: int|
        #![trigger b[k]]
        0 <= k < b.len() && carries(b[k], es[i]) by {
        let k = choose|k: int| 0 <= k < korig.len() && korig[k] == i;
        assert(0 <= korig[k] < es.len());
        assert(carries(b[k], es[i]));
    }
}

/// `parse` can give `out` for a key written as `word`.
pub open spec fn parses_to<F: Fn(&str) -> Result<KeyCode, Error>>(parse: F, word: Seq<char>, out: Result<KeyCode, Error>) -> bool {
    exists|w: &str| w@ == word && #[trigger] call_ensures(parse, (w,), out)
}

/// `parse` can give a key for a key written as `word`.
pub open spec fn parses_ok(rel: spec_fn(Seq<char>, Result<KeyCode, Error>) -> bool, word: Seq<char>) -> bool {
    exists|k: KeyCode| #[trigger] rel(word, Ok(k))
}

/// `r` is what parsing each of `words` in turn can give, when parsing a single word
/// can give what `rel` relates to it: all the keys, or the first error.
pub open spec fn keys_parsed(
    rel: spec_fn(Seq<char>, Result<KeyCode, Error>) -> bool,
    words: Seq<Seq<char>>,
    r: Result<Vec<KeyCode>, Error>,
) -> bool {
    match r {
        Ok(ks) => ks@.len() == words.len() && forall|i: int|
            0 <= i < words.len() ==> #[trigger] rel(words[i], Ok(ks@[i])),
        Err(e) => exists|j: int|
            0 <= j < words.len() && #[trigger] rel(words[j], Err(e)) && forall|i: int|
                0 <= i < j ==> #[trigger] parses_ok(rel, words[i]),
    }
}

/// What the function `parse` can give for a key written as a word.
pub open spec fn parse_relation<F: Fn(&str) -> Result<KeyCode, Error>>(parse: F) -> spec_fn(
    Seq<char>,
    Result<KeyCode, Error>,
) -> bool {
    |word: Seq<char>, out: Result<KeyCode, Error>| parses_to(parse, word, out)
}

/// Each written binding of `es` is the one of `str_bindings` at the same place, with
/// what parsing its words can give, when parsing a single word can give what `rel`
/// relates to it.
pub open spec fn staged_from<H>(
    str_bindings: Seq<(String, H)>,
    rel: spec_fn(Seq<char>, Result<KeyCode, Error>) -> bool,
    es: Seq<(String, Result<Vec<KeyCode>, Error>, H)>,
) -> bool {
    &&& es.len() == str_bindings.len()
    &&& forall|i: int|
        0 <= i < es.len() ==> #[trigger] es[i].0 == str_bindings[i].0 && es[i].2 == str_bindings[i].1 && keys_parsed(
            rel,
            words(str_bindings[i].0@),
            es[i].1,
        )
}

/// No two written bindings have the same name.
pub open spec fn distinct_binding_names<H>(str_bindings: Seq<(String, H)>) -> bool {
    forall|i: int, j: int| 0 <= i < j < str_bindings.len() ==> str_bindings[i].0@ != str_bindings[j].0@
}

/// Parse written key bindings with `parse`, which reads a single key such as
/// `"M-S-Return"`, collecting every failure rather than stopping at the first.
///
/// The words of a binding (split at white space) are parsed in turn, stopping at the
/// first that fails; see [resolve_key_sequences] for what is kept and what is dropped.
pub fn parse_keybindings<H, F: Fn(&str) -> Result<KeyCode, Error>>(str_bindings: Vec<(String, H)>, parse: F) -> (r:
    ParsedKeyBindings<H>)
    requires
        distinct_binding_names(str_bindings@),
        forall|w: &str| call_requires(parse, (w,)),
    ensures
        exists|es: Seq<(String, Result<Vec<KeyCode>, Error>, H)>|
            #![trigger staged_from(str_bindings@, parse_relation(parse), es)]
            staged_from(str_bindings@, parse_relation(parse), es) && resolves(es, r),
{
    let ghost sb = str_bindings@;
    let mut rest = str_bindings;
    let mut reversed: Vec<(String, H)> = Vec::new();
    while rest.len() > 0
        invariant
            rest@.len() + reversed@.len() == sb.len(),
            rest@ == sb.take(rest@.len() as int),
            forall|i: int| 0 <= i < reversed@.len() ==> #[trigger] reversed@[i] == sb[sb.len() - 1 - i],
        decreases rest@.len(),
    {
        let ghost before = reversed@;
        let item = rest.pop().unwrap();
        reversed.push(item);
        proof {
            assert(rest@ =~= sb.take(rest@.len() as int));
            assert forall|i: int| 0 <= i < reversed@.len() implies #[trigger] reversed@[i] == sb[sb.len() - 1 - i] by {
                if i < before.len() {
                    assert(reversed@[i] == before[i]);
                }
            }
        }
    }
    let mut staged: Vec<(String, Result<Vec<KeyCode>, Error>, H)> = Vec::new();
    while reversed.len() > 0
        invariant
            forall|w: &str| call_requires(parse, (w,)),
            staged@.len() + reversed@.len() == sb.len(),
            forall|i: int| 0 <= i < reversed@.len() ==> #[trigger] reversed@[i] == sb[sb.len() - 1 - i],
            forall|i: int|
                0 <= i < staged@.len() ==> #[trigger] staged@[i].0 == sb[i].0 && staged@[i].2 == sb[i].1
                    && keys_parsed(parse_relation(parse), words(sb[i].0@), staged@[i].1),
        decreases reversed@.len(),
    {
        let ghost idx = staged@.len() as int;
        let (name, handler) = reversed.pop().unwrap();
        proof {
            assert(sb[idx] == (name, handler));
        }
        let ws = split_words(name.as_str());
        let mut keys: Vec<KeyCode> = Vec::new();
        let mut failure: Option<Error> = None;
        let mut i: usize = 0;
        while i < ws.len()
            invariant_except_break
                i <= ws@.len(),
                failure is None,
                keys@.len() == i,
                forall|j: int| 0 <= j < i ==> #[trigger] parse_relation(parse)(texts(ws@)[j], Ok(keys@[j])),
            invariant
                forall|w: &str| call_requires(parse, (w,)),
            ensures
                match failure {
                    Some(e) => keys_parsed(parse_relation(parse), texts(ws@), Err(e)),
                    None => keys_parsed(parse_relation(parse), texts(ws@), Ok(keys)),
                },
            decreases ws@.len() - i,
        {
            let w = ws[i];
            let out = parse(w);
            proof {
                assert(texts(ws@)[i as int] == w@);
                assert(parses_to(parse, texts(ws@)[i as int], out));
                assert(parse_relation(parse)(texts(ws@)[i as int], out));
            }
            match out {
                Ok(k) => {
                    keys.push(k);
                },
                Err(e) => {
                    proof {
                        assert forall|j: int| 0 <= j < i implies #[trigger] parses_ok(parse_relation(parse), texts(ws@)[j]) by {
                            assert(parse_relation(parse)(texts(ws@)[j], Ok(keys@[j])));
                        }
                        assert(keys_parsed(parse_relation(parse), texts(ws@), Err(e)));
                    }
                    failure = Some(e);
                    break;
                },
            }
            i = i + 1;
        }
        let result: Result<Vec<KeyCode>, Error> = match failure {
            Some(e) => Err(e),
            None => Ok(keys),
        };
        assert(keys_parsed(parse_relation(parse), words(name@), result));
        staged.push((name, result, handler));
    }
    proof {
        assert(staged_from(sb, parse_relation(parse), staged@));
        assert forall|i: int, j: int| 0 <= i < j < staged@.len() implies staged@[i].0@ != staged@[j].0@ by {
            assert(staged@[i].0 == sb[i].0);
            assert(staged@[j].0 == sb[j].0);
        }
    }
    let ghost es = staged@;
    let r = resolve_key_sequences(staged);
    assert(staged_from(sb, parse_relation(parse), es) && resolves(es, r));
    r
}

/// What parsing a key binding as a word can give with the key code table `codes`.
pub open spec fn code_relation(codes: Seq<(String, u8)>) -> spec_fn(Seq<char>, Result<KeyCode, Error>) -> bool {
    |word: Seq<char>, out: Result<KeyCode, Error>| binding_parse(word, codes, out)
}

/// What holds of the parse of some words under one relation holds under any relation
/// that allows at least as much.
pub proof fn lemma_keys_parsed_weaken(
    rel1: spec_fn(Seq<char>, Result<KeyCode, Error>) -> bool,
    rel2: spec_fn(Seq<char>, Result<KeyCode, Error>) -> bool,
    words: Seq<Seq<char>>,
    r: Result<Vec<KeyCode>, Error>,
)
    requires
        forall|w: Seq<char>, o: Result<KeyCode, Error>| #[trigger] rel1(w, o) ==> rel2(w, o),
        keys_parsed(rel1, words, r),
    ensures
        keys_parsed(rel2, words, r),
{
    match r {
        Ok(ks) => {
            assert forall|i: int| 0 <= i < words.len() implies #[trigger] rel2(words[i], Ok(ks@[i])) by {
                assert(rel1(words[i], Ok(ks@[i])));
            }
        },
        Err(e) => {
            let j = choose|j: int|
                0 <= j < words.len() && #[trigger] rel1(words[j], Err(e)) && forall|i: int|
                    0 <= i < j ==> #[trigger] parses_ok(rel1, words[i]);
            assert forall|i: int| 0 <= i < j implies #[trigger] parses_ok(rel2, words[i]) by {
                assert(parses_ok(rel1, words[i]));
                let k = choose|k: KeyCode| #[trigger] rel1(words[i], Ok(k));
                assert(rel2(words[i], Ok(k)));
            }
            assert(rel2(words[j], Err(e)));
        },
    }
}

/// Parse written key bindings, reading each key with [parse_binding] against the key
/// code table `known_codes`; see [parse_keybindings].
pub fn parse_keybindings_with_codes<H>(str_bindings: Vec<(String, H)>, known_codes: &KeyCodeMap) -> (r:
    ParsedKeyBindings<H>)
    requires
        distinct_binding_names(str_bindings@),
    ensures
        exists|es: Seq<(String, Result<Vec<KeyCode>, Error>, H)>|
            #![trigger staged_from(str_bindings@, code_relation(known_codes.entries@), es)]
            staged_from(str_bindings@, code_relation(known_codes.entries@), es) && resolves(es, r),
{
    let ghost sb = str_bindings@;
    let ghost codes = known_codes.entries@;
    let parse = |k: &str| -> (out: Result<KeyCode, Error>)
        ensures
            binding_parse(k@, known_codes.entries@, out),
        { parse_binding(k, known_codes) };
    let r = parse_keybindings(str_bindings, parse);
    proof {
        let es = choose|es: Seq<(String, Result<Vec<KeyCode>, Error>, H)>|
            #![trigger staged_from(sb, parse_relation(parse), es)]
            staged_from(sb, parse_relation(parse), es) && resolves(es, r);
        assert forall|w: Seq<char>, o: Result<KeyCode, Error>| #[trigger] parse_relation(parse)(w, o) implies code_relation(codes)(w, o) by {
            let x = choose|x: &str| x@ == w && #[trigger] call_ensures(parse, (x,), o);
            assert(binding_parse(x@, codes, o));
        }
        assert forall|i: int| 0 <= i < es.len() implies #[trigger] es[i].0 == sb[i].0 && es[i].2 == sb[i].1 && keys_parsed(
            code_relation(codes),
            words(sb[i].0@),
            es[i].1,
        ) by {
            lemma_keys_parsed_weaken(parse_relation(parse), code_relation(codes), words(sb[i].0@), es[i].1);
        }
        assert(staged_from(sb, code_relation(codes), es));
    }
    r
}

impl<H> ParsedKeyBindings<H> {
    /// The bindings, or an error naming every binding that was dropped.
    pub fn into_result(self) -> (r: Result<KeyBindings<H>, Error>)
        ensures
            self.errors@.len() == 0 ==> r == Ok::<KeyBindings<H>, Error>(self.bindings),
            self.errors@.len() > 0 ==> r == Err::<KeyBindings<H>, Error>(Error::InvalidKeyBindings { errors: self.errors }),
    {
        if self.errors.len() == 0 {
            return Ok(self.bindings);
        }
        Err(Error::InvalidKeyBindings { errors: self.errors })
    }

    /// The bindings that can be used; the reports of the dropped ones are discarded
    /// (a caller that logs them reads `errors` first).
    pub fn log_errors(self) -> (r: KeyBindings<H>)
        ensures
            r == self.bindings,
    {
        self.bindings
    }

    /// The bindings that can be used; see [ParsedKeyBindings::log_errors].
    pub fn log_err(self) -> (r: KeyBindings<H>)
        ensures
            r == self.bindings,
    {
        self.log_errors()
    }
}

/// A mutable reference to an item of a vector.
fn vec_item_mut<T>(v: &mut Vec<T>, i: usize) -> (r: &mut T)
    requires
        i < old(v)@.len(),
    ensures
        *r == old(v)@[i as int],
        final(v)@ == old(v)@.update(i as int, *final(r)),
{
    &mut v[i]
}

/// The first `n` keys of `keys`, as a new sequence.
fn copy_keys(keys: &Vec<KeyCode>, n: usize) -> (r: Vec<KeyCode>)
    requires
        n <= keys@.len(),
    ensures
        r@ == keys@.take(n as int),
{
    let mut out: Vec<KeyCode> = Vec::new();
    let mut i: usize = 0;
    while i < n
        invariant
            i <= n <= keys@.len(),
            out@ == keys@.take(i as int),
        decreases n - i,
    {
        out.push(keys[i]);
        assert(keys@.take(i + 1) =~= keys@.take(i as int).push(keys@[i as int]));
        i = i + 1;
    }
    out
}

/// Whether two key sequences are the same.
fn same_keys(a: &[KeyCode], b: &[KeyCode]) -> (r: bool)
    ensures
        r == (a@ == b@),
{
    if a.len() != b.len() {
        return false;
    }
    let mut i: usize = 0;
    while i < a.len()
        invariant
            a@.len() == b@.len(),
            i <= a@.len(),
            forall|j: int| 0 <= j < i ==> a@[j] == b@[j],
        decreases a.len() - i,
    {
        if a[i] != b[i] {
            return false;
        }
        i = i + 1;
    }
    assert(a@ =~= b@);
    true
}

/// Whether `keys` is one of `list`.
fn listed(list: &Vec<Vec<KeyCode>>, keys: &[KeyCode]) -> (r: bool)
    ensures
        r == key_seqs(list@).contains(keys@),
{
    let mut i: usize = 0;
    while i < list.len()
        invariant
            i <= list.len(),
            forall|j: int| 0 <= j < i ==> list@[j]@ != keys@,
        decreases list.len() - i,
    {
        if same_keys(list[i].as_slice(), keys) {
            assert(key_seqs(list@)[i as int] == keys@);
            return true;
        }
        i = i + 1;
    }
    proof {
        if key_seqs(list@).contains(keys@) {
            let j = choose|j: int| 0 <= j < key_seqs(list@).len() && key_seqs(list@)[j] == keys@;
            assert(list@[j]@ == keys@);
        }
    }
    false
}

/// The index of the first binding whose sequence is `keys`.
fn position_of<H>(bindings: &Vec<(Vec<KeyCode>, H)>, keys: &[KeyCode]) -> (r: Option<usize>)
    ensures
        match r {
            Some(i) => i < bindings@.len() && bindings@[i as int].0@ == keys@,
            None => !sequences_of(bindings@).contains(keys@),
        },
{
    let mut i: usize = 0;
    while i < bindings.len()
        invariant
            i <= bindings.len(),
            forall|j: int| 0 <= j < i ==> bindings@[j].0@ != keys@,
        decreases bindings.len() - i,
    {
        if same_keys(bindings[i].0.as_slice(), keys) {
            return Some(i);
        }
        i = i + 1;
    }
    proof {
        if sequences_of(bindings@).contains(keys@) {
            let j = choose|j: int| 0 <= j < sequences_of(bindings@).len() && sequences_of(bindings@)[j] == keys@;
            assert(bindings@[j].0@ == keys@);
        }
    }
    None
}

/// No sequence of `s` begins another, longer one.
pub open spec fn unambiguous(s: Seq<Seq<KeyCode>>) -> bool {
    forall|i: int, j: int| 0 <= i < s.len() && 0 <= j < s.len() ==> !proper_prefix(#[trigger] s[i], #[trigger] s[j])
}

/// Resolved key bindings are unambiguous: no binding that is held begins another one
/// that is held, so every held binding can be reached by pressing its keys.
pub proof fn lemma_resolved_bindings_unambiguous<H>(
    es: Seq<(String, Result<Vec<KeyCode>, Error>, H)>,
    r: ParsedKeyBindings<H>,
)
    requires
        resolves(es, r),
    ensures
        all_different(sequences_of(r.bindings.bindings@)),
        unambiguous(sequences_of(r.bindings.bindings@)),
{
    let b = r.bindings.bindings@;
    let seqs = sequences_of(b);
    assert forall|k1: int, k2: int| 0 <= k1 < seqs.len() && 0 <= k2 < seqs.len() implies !proper_prefix(
        #[trigger] seqs[k1],
        #[trigger] seqs[k2],
    ) by {
        assert(held_is_kept(es, b, k1));
        assert(held_is_kept(es, b, k2));
        let i1 = choose|i: int| 0 <= i < es.len() && is_kept(es, i) && carries(b[k1], #[trigger] es[i]);
        let i2 = choose|i: int| 0 <= i < es.len() && is_kept(es, i) && carries(b[k2], #[trigger] es[i]);
        if proper_prefix(seqs[k1], seqs[k2]) {
            let n = seqs[k1].len() as int;
            assert(shadows_at(es, i2, n, i1));
            assert(is_shadowed(es, i2));
        }
    }
}

/// A chord runs its binding once completed: in unambiguous bindings, each key pressed
/// short of the end of a binding's sequence begins a longer binding (so the next key is
/// awaited), and the whole sequence begins none (so it runs).
pub proof fn lemma_chord_completes<H>(b: KeyBindings<H>, i: int)
    requires
        b.wf(),
        unambiguous(sequences_of(b.bindings@)),
        0 <= i < b.bindings@.len(),
    ensures
        forall|m: int|
            1 <= m < sequences_of(b.bindings@)[i].len() ==> prefix_set(sequences_of(b.bindings@)).contains(
                #[trigger] sequences_of(b.bindings@)[i].take(m),
            ),
        !prefix_set(sequences_of(b.bindings@)).contains(sequences_of(b.bindings@)[i]),
{
    let seqs = sequences_of(b.bindings@);
    let s = seqs[i];
    assert forall|m: int| 1 <= m < s.len() implies prefix_set(seqs).contains(#[trigger] s.take(m)) by {
        assert(proper_prefix(s.take(m), s));
        if seqs.contains(s.take(m)) {
            let j = choose|j: int| 0 <= j < seqs.len() && seqs[j] == s.take(m);
            assert(proper_prefix(seqs[j], seqs[i]));
        }
    }
    assert(seqs.contains(s));
}

/// `es2` lists the written bindings of `es` in another order: its binding `k` is binding
/// `p(k)` of `es`, and `q` undoes `p`.
pub open spec fn reordered<H>(
    es: Seq<(String, Result<Vec<KeyCode>, Error>, H)>,
    es2: Seq<(String, Result<Vec<KeyCode>, Error>, H)>,
    p: spec_fn(int) -> int,
    q: spec_fn(int) -> int,
) -> bool {
    &&& es2.len() == es.len()
    &&& forall|k: int| 0 <= k < es.len() ==> 0 <= #[trigger] p(k) < es.len() && q(p(k)) == k && es2[k] == es[p(k)]
    &&& forall|i: int| 0 <= i < es.len() ==> 0 <= #[trigger] q(i) < es.len() && p(q(i)) == i
}

/// Which bindings are claimed does not depend on the order they are written in.
proof fn lemma_claimed_regardless_of_order<H>(
    es: Seq<(String, Result<Vec<KeyCode>, Error>, H)>,
    es2: Seq<(String, Result<Vec<KeyCode>, Error>, H)>,
    p: spec_fn(int) -> int,
    q: spec_fn(int) -> int,
)
    requires
        reordered(es, es2, p, q),
    ensures
        forall|k: int| 0 <= k < es.len() ==> #[trigger] is_claimed(es2, k) == is_claimed(es, p(k)),
{
    assert forall|k: int| 0 <= k < es.len() implies #[trigger] is_claimed(es2, k) == is_claimed(es, p(k)) by {
        assert(es2[k] == es[p(k)]);
        if is_duplicate(es2, k) {
            let j = choose|j: int| #[trigger] same_sequence(es2, k, j) && name_before(es2[j].0@, es2[k].0@);
            assert(es2[j] == es[p(j)]);
            assert(same_sequence(es, p(k), p(j)));
        }
        if is_duplicate(es, p(k)) {
            let j = choose|j: int| #[trigger] same_sequence(es, p(k), j) && name_before(es[j].0@, es[p(k)].0@);
            let j2 = q(j);
            assert(es2[j2] == es[j]);
            assert(same_sequence(es2, k, j2));
        }
    }
}

/// Which bindings are kept does not depend on the order they are written in (nor, so,
/// on the order a map hands them out): reordering the written bindings keeps the same
/// ones, and drops the others.
pub proof fn lemma_kept_regardless_of_order<H>(
    es: Seq<(String, Result<Vec<KeyCode>, Error>, H)>,
    es2: Seq<(String, Result<Vec<KeyCode>, Error>, H)>,
    p: spec_fn(int) -> int,
    q: spec_fn(int) -> int,
)
    requires
        reordered(es, es2, p, q),
    ensures
        forall|k: int| 0 <= k < es.len() ==> #[trigger] is_kept(es2, k) == is_kept(es, p(k)),
{
    lemma_claimed_regardless_of_order(es, es2, p, q);
    assert forall|k: int| 0 <= k < es.len() implies #[trigger] is_kept(es2, k) == is_kept(es, p(k)) by {
        assert(es2[k] == es[p(k)]);
        assert(is_claimed(es2, k) == is_claimed(es, p(k)));
        if is_shadowed(es2, k) {
            let (n, j) = choose|n: int, j: int| #[trigger] shadows_at(es2, k, n, j);
            assert(es2[j] == es[p(j)]);
            assert(is_claimed(es2, j) == is_claimed(es, p(j)));
            assert(shadows_at(es, p(k), n, p(j)));
        }
        if is_shadowed(es, p(k)) {
            let (n, j) = choose|n: int, j: int| #[trigger] shadows_at(es, p(k), n, j);
            let j2 = q(j);
            assert(es2[j2] == es[j]);
            assert(is_claimed(es2, j2) == is_claimed(es, p(j2)));
            assert(shadows_at(es2, k, n, j2));
        }
    }
}

} // verus!
