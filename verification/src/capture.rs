//! Capture files and their names.
//!
//! Every snapshot that passes the filter is written to a file of its own,
//! named by the snapshot's version key. The version key of a file is the stem
//! of its name: the name up to its final dot.

use crate::pilot::PilotData;
use crate::text::{
    comes_before, lemma_lex_le_total_order, lemma_lex_lt_irreflexive, lemma_lex_trichotomy, lex_le,
    lex_lt,
};
use vstd::prelude::*;

verus! {

/// The extension of a capture file.
pub const CAPTURE_EXTENSION: &'static str = ".json";

/// One capture file as it was read: its name within the capture directory and
/// the pilots it holds.
#[derive(Clone, Debug, PartialEq, Eq)]
pub struct CaptureFile {
    pub file_name: String,
    pub pilots: Vec<PilotData>,
}

/// The index of the last dot among the first `n` characters of `name`, or -1
/// if there is none.
pub open spec fn last_dot(name: Seq<char>, n: int) -> int
    decreases n,
{
    if n <= 0 {
        -1
    } else if name[n - 1] == '.' {
        n - 1
    } else {
        last_dot(name, n - 1)
    }
}

/// The stem of a file name: the part before its final dot. A name without a
/// dot, or whose only dot leads it, is its own stem.
pub open spec fn file_stem(name: Seq<char>) -> Seq<char> {
    let dot = last_dot(name, name.len() as int);
    if dot <= 0 {
        name
    } else {
        name.take(dot)
    }
}

/// The name of the capture file for a version key.
pub open spec fn capture_name(key: Seq<char>) -> Seq<char> {
    key + CAPTURE_EXTENSION@
}

/// `last_dot` finds a dot, and no dot follows it.
pub proof fn lemma_last_dot(name: Seq<char>, n: int)
    requires
        0 <= n <= name.len(),
    ensures
        -1 <= last_dot(name, n) < n,
        last_dot(name, n) >= 0 ==> name[last_dot(name, n)] == '.',
        forall|i: int| last_dot(name, n) < i < n ==> name[i] != '.',
    decreases n,
{
    if n > 0 && name[n - 1] != '.' {
        lemma_last_dot(name, n - 1);
    }
}

/// A file named after a version key has that key as its stem, unless the key
/// is empty: the stem of the bare extension is the extension.
pub proof fn lemma_stem_of_capture_name(key: Seq<char>)
    ensures
        key.len() > 0 ==> file_stem(capture_name(key)) == key,
        key.len() == 0 ==> file_stem(capture_name(key)) == CAPTURE_EXTENSION@,
{
    reveal_strlit(".json");
    let name = capture_name(key);
    let n = key.len() as int;
    assert(name.len() == n + 5);
    assert(name[n] == '.');
    assert(name[n + 1] == 'j' && name[n + 2] == 's' && name[n + 3] == 'o' && name[n + 4] == 'n');
    reveal_with_fuel(last_dot, 5);
    assert(last_dot(name, n + 5) == n);
    if n > 0 {
        assert(name.take(n) =~= key);
    } else {
        assert(name =~= CAPTURE_EXTENSION@);
    }
}

/// The version key of a capture file, from its name.
pub fn version_key(file_name: &str) -> (key: String)
    ensures
        key@ == file_stem(file_name@),
{
    let len = file_name.unicode_len();
    let mut n: usize = len;
    while n > 0 && file_name.get_char(n - 1) != '.'
        invariant
            len == file_name@.len(),
            n <= len,
            last_dot(file_name@, len as int) == last_dot(file_name@, n as int),
        decreases n,
    {
        n -= 1;
    }
    if n <= 1 {
        file_name.to_owned()
    } else {
        proof {
            assert(file_name@.subrange(0, n - 1) =~= file_name@.take(n - 1));
        }
        file_name.substring_char(0, n - 1).to_owned()
    }
}

/// The file name under which the snapshot with this version key is captured.
pub fn capture_file_name(key: &str) -> (name: String)
    ensures
        name@ == capture_name(key@),
{
    key.to_owned().concat(CAPTURE_EXTENSION)
}

/// The directory that holds the capture files of the event with this slug.
pub fn captures_dir(event_slug: &str) -> (dir: String)
    ensures
        dir@ == "./"@ + event_slug@ + "/captures"@,
{
    let mut dir = "./".to_owned();
    dir.append(event_slug);
    dir.append("/captures");
    dir
}

/// The path of the capture file for a version key within the capture
/// directory.
pub fn capture_path(captures_dir: &str, key: &str) -> (path: String)
    ensures
        path@ == captures_dir@ + "/"@ + capture_name(key@),
{
    let mut path = captures_dir.to_owned();
    path.append("/");
    path.append(key);
    path.append(CAPTURE_EXTENSION);
    proof {
        assert(path@ =~= captures_dir@ + "/"@ + capture_name(key@));
    }
    path
}

/// The path of the aggregate of the event with this slug: a file named after
/// the slug, beside the capture directory.
pub fn aggregate_path(event_slug: &str) -> (path: String)
    ensures
        path@ == "./"@ + event_slug@ + "/"@ + capture_name(event_slug@),
{
    let mut path = "./".to_owned();
    path.append(event_slug);
    path.append("/");
    path.append(event_slug);
    path.append(CAPTURE_EXTENSION);
    proof {
        assert(path@ =~= "./"@ + event_slug@ + "/"@ + capture_name(event_slug@));
    }
    path
}

/// The least and the greatest of a collection of version keys in dictionary
/// order; both absent while the collection is empty.
#[derive(Clone, Debug, PartialEq, Eq)]
pub struct KeyRange {
    pub first: Option<String>,
    pub last: Option<String>,
}

/// The texts of a list of strings.
pub open spec fn texts(keys: Seq<String>) -> Seq<Seq<char>> {
    Seq::new(keys.len(), |i: int| keys[i]@)
}

impl KeyRange {
    /// `self` is the range of `keys`: `first` is one of them and none comes
    /// before it, `last` is one of them and none comes after it.
    pub open spec fn spans(self, keys: Seq<Seq<char>>) -> bool {
        if keys.len() == 0 {
            self.first is None && self.last is None
        } else {
            &&& self.first is Some
            &&& self.last is Some
            &&& keys.contains(self.first.unwrap()@)
            &&& keys.contains(self.last.unwrap()@)
            &&& forall|i: int|
                0 <= i < keys.len() ==> lex_le(self.first.unwrap()@, #[trigger] keys[i])
            &&& forall|i: int|
                0 <= i < keys.len() ==> lex_le(#[trigger] keys[i], self.last.unwrap()@)
        }
    }

    /// The range of no keys.
    pub fn empty() -> (range: KeyRange)
        ensures
            range.first is None,
            range.last is None,
            range.spans(Seq::empty()),
    {
        KeyRange { first: None, last: None }
    }

    /// Widens the range to take in `key`: `key` becomes the first where there
    /// was none or `key` comes before it, and the last where there was none
    /// or `key` comes after it.
    pub fn widen(&mut self, key: &str)
        ensures
            final(self).first is Some,
            final(self).last is Some,
            final(self).first.unwrap()@ == (if old(self).first is None || lex_lt(
                key@,
                old(self).first.unwrap()@,
            ) {
                key@
            } else {
                old(self).first.unwrap()@
            }),
            final(self).last.unwrap()@ == (if old(self).last is None || lex_lt(
                old(self).last.unwrap()@,
                key@,
            ) {
                key@
            } else {
                old(self).last.unwrap()@
            }),
            forall|keys: Seq<Seq<char>>| #[trigger]
                old(self).spans(keys) ==> final(self).spans(keys.push(key@)),
    {
        let lower = match &self.first {
            None => true,
            Some(first) => comes_before(key, first.as_str()),
        };
        if lower {
            self.first = Some(key.to_owned());
        }
        let higher = match &self.last {
            None => true,
            Some(last) => comes_before(last.as_str(), key),
        };
        if higher {
            self.last = Some(key.to_owned());
        }
        proof {
            assert forall|keys: Seq<Seq<char>>| #[trigger]
                old(self).spans(keys) implies self.spans(keys.push(key@)) by {
                let grown = keys.push(key@);
                assert(grown[keys.len() as int] == key@);
                lemma_lex_lt_irreflexive(key@);
                assert forall|i: int| 0 <= i < grown.len() implies lex_le(
                    self.first.unwrap()@,
                    #[trigger] grown[i],
                ) && lex_le(grown[i], self.last.unwrap()@) by {
                    if i < keys.len() {
                        let low = old(self).first.unwrap()@;
                        let high = old(self).last.unwrap()@;
                        assert(grown[i] == keys[i]);
                        lemma_lex_trichotomy(key@, low);
                        lemma_lex_trichotomy(high, key@);
                        lemma_lex_le_total_order(key@, low, keys[i]);
                        lemma_lex_le_total_order(keys[i], high, key@);
                    }
                }
                if keys.len() > 0 {
                    let low = old(self).first.unwrap()@;
                    let high = old(self).last.unwrap()@;
                    let f = choose|i: int| 0 <= i < keys.len() && keys[i] == low;
                    assert(grown[f] == keys[f]);
                    let l = choose|i: int| 0 <= i < keys.len() && keys[i] == high;
                    assert(grown[l] == keys[l]);
                }
            }
        }
    }
}

/// A collection of keys has one range only.
pub proof fn lemma_range_is_unique(one: KeyRange, other: KeyRange, keys: Seq<Seq<char>>)
    requires
        one.spans(keys),
        other.spans(keys),
    ensures
        one.first is Some <==> other.first is Some,
        one.last is Some <==> other.last is Some,
        one.first is Some ==> one.first.unwrap()@ == other.first.unwrap()@,
        one.last is Some ==> one.last.unwrap()@ == other.last.unwrap()@,
{
    if keys.len() > 0 {
        let a = one.first.unwrap()@;
        let b = other.first.unwrap()@;
        let i = choose|i: int| 0 <= i < keys.len() && keys[i] == a;
        let j = choose|j: int| 0 <= j < keys.len() && keys[j] == b;
        assert(lex_le(b, keys[i]) && lex_le(a, keys[j]));
        lemma_lex_le_total_order(a, b, a);
        let c = one.last.unwrap()@;
        let d = other.last.unwrap()@;
        let k = choose|k: int| 0 <= k < keys.len() && keys[k] == c;
        let l = choose|l: int| 0 <= l < keys.len() && keys[l] == d;
        assert(lex_le(keys[k], d) && lex_le(keys[l], c));
        lemma_lex_le_total_order(c, d, c);
    }
}

/// The least and the greatest of `keys` in dictionary order.
pub fn key_range(keys: &Vec<String>) -> (range: KeyRange)
    ensures
        range.spans(texts(keys@)),
{
    let mut range = KeyRange::empty();
    let mut i: usize = 0;
    while i < keys.len()
        invariant
            i <= keys@.len(),
            range.spans(texts(keys@).take(i as int)),
        decreases keys@.len() - i,
    {
        range.widen(keys[i].as_str());
        proof {
            assert(texts(keys@).take(i as int).push(keys@[i as int]@) =~= texts(keys@).take(
                i + 1,
            ));
        }
        i += 1;
    }
    proof {
        assert(texts(keys@).take(keys@.len() as int) =~= texts(keys@));
    }
    range
}

} // verus!
