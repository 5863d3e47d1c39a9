use vstd::prelude::*;

use crate::text::{
    appears_in, chars_le, chars_of, contains_chars, contains_seq, eq_ignore_ascii_case,
    equal_ignoring_ascii_case, lemma_contains_seq_is_appearance, lemma_lex_le_total,
    lemma_lex_le_transitive, lex_le,
};

verus! {

/// One entry of the system media directory, as the directory listing gives it: the
/// media directory joined with the entry's file name.
pub struct MediaEntry {
    /// The entry's full path, or `None` where it is not valid UTF-8.
    pub path: Option<String>,
}

/// A system sound offered as an alarm: its display name and the file to play.
pub struct SystemSound {
    pub name: String,
    pub path: String,
}

impl View for MediaEntry {
    type V = Option<Seq<char>>;

    open spec fn view(&self) -> Option<Seq<char>> {
        match self.path {
            Some(p) => Some(p@),
            None => None,
        }
    }
}

impl View for SystemSound {
    type V = (Seq<char>, Seq<char>);

    open spec fn view(&self) -> (Seq<char>, Seq<char>) {
        (self.name@, self.path@)
    }
}

/// A path separator on Windows, where the system sounds live.
pub open spec fn is_separator(c: char) -> bool {
    c == '\\' || c == '/'
}

/// Index of the last path separator in `p`, or -1 where there is none.
pub open spec fn last_separator(p: Seq<char>) -> int
    decreases p.len(),
{
    if p.len() == 0 {
        -1
    } else if is_separator(p.last()) {
        p.len() - 1
    } else {
        last_separator(p.drop_last())
    }
}

/// The file name of a path: the part after its last separator (the whole path where
/// it has none), as `Path::file_name` gives it for a directory joined with a name.
pub open spec fn file_name_of(p: Seq<char>) -> Seq<char> {
    p.skip(last_separator(p) + 1)
}

/// Index of the last `.` in `f`, or -1 where there is none.
pub open spec fn last_dot(f: Seq<char>) -> int
    decreases f.len(),
{
    if f.len() == 0 {
        -1
    } else if f.last() == '.' {
        f.len() - 1
    } else {
        last_dot(f.drop_last())
    }
}

/// The stem of a file name, as `Path::file_stem` documents it: the whole name where
/// it has no `.` or only a leading one, else the part before the final `.`.
pub open spec fn stem_of(f: Seq<char>) -> Seq<char> {
    if last_dot(f) <= 0 {
        f
    } else {
        f.take(last_dot(f))
    }
}

/// The extension of a file name, as `Path::extension` documents it: none where the
/// name has no `.` or only a leading one, else the part after the final `.`.
pub open spec fn extension_of(f: Seq<char>) -> Option<Seq<char>> {
    if last_dot(f) <= 0 {
        None
    } else {
        Some(f.skip(last_dot(f) + 1))
    }
}

/// What `str::to_lowercase` returns for a string with these characters (Unicode
/// lowercase mapping, as std's tables give it).
pub uninterp spec fn lowercase(s: Seq<char>) -> Seq<char>;

/// ASCII lowercasing of one character: `A`..=`Z` become `a`..=`z`, all else stays.
pub open spec fn ascii_lower(c: char) -> char {
    if 'A' <= c && c <= 'Z' {
        ((c as u32) + 32) as char
    } else {
        c
    }
}

/// Every character is ASCII.
pub open spec fn all_ascii(s: Seq<char>) -> bool {
    forall|i: int| 0 <= i < s.len() ==> (s[i] as u32) < 128
}

/// A lowercased name that sounds like an alarm: it mentions "alarm" or "ring", but
/// not the call tones "ringin" and "ringout".
pub open spec fn is_alarm_name(lower: Seq<char>) -> bool {
    &&& (contains_seq(lower, seq!['a', 'l', 'a', 'r', 'm']) || contains_seq(lower, seq!['r', 'i', 'n', 'g']))
    &&& !contains_seq(lower, seq!['r', 'i', 'n', 'g', 'i', 'n'])
    &&& !contains_seq(lower, seq!['r', 'i', 'n', 'g', 'o', 'u', 't'])
}

/// An extension that is `wav` in any ASCII case.
pub open spec fn is_wav(ext: Option<Seq<char>>) -> bool {
    ext matches Some(e) && eq_ignore_ascii_case(e, seq!['w', 'a', 'v'])
}

/// A file name that is offered as an alarm sound.
pub open spec fn is_alarm_file(f: Seq<char>) -> bool {
    is_wav(extension_of(f)) && is_alarm_name(lowercase(stem_of(f)))
}

/// The sound that a directory entry offers, if any: its stem and its path.
pub open spec fn sound_of(e: Option<Seq<char>>) -> Option<(Seq<char>, Seq<char>)> {
    match e {
        Some(p) => if is_alarm_file(file_name_of(p)) {
            Some((stem_of(file_name_of(p)), p))
        } else {
            None
        },
        None => None,
    }
}

/// The sounds that the entries offer, in listing order.
pub open spec fn offered_sounds(entries: Seq<Option<Seq<char>>>) -> Seq<(Seq<char>, Seq<char>)>
    decreases entries.len(),
{
    if entries.len() == 0 {
        Seq::empty()
    } else {
        let rest = offered_sounds(entries.drop_last());
        match sound_of(entries.last()) {
            Some(s) => rest.push(s),
            None => rest,
        }
    }
}

/// Names in non-decreasing code point order.
pub open spec fn sorted_by_name(s: Seq<(Seq<char>, Seq<char>)>) -> bool {
    forall|i: int, j: int| 0 <= i < j < s.len() ==> lex_le(#[trigger] s[i].0, #[trigger] s[j].0)
}

/// Whether a sound has the given name.
pub open spec fn has_name(name: Seq<char>) -> spec_fn((Seq<char>, Seq<char>)) -> bool {
    |x: (Seq<char>, Seq<char>)| x.0 == name
}

/// The sounds with a given name, in order.
pub open spec fn named(s: Seq<(Seq<char>, Seq<char>)>, name: Seq<char>) -> Seq<(Seq<char>, Seq<char>)> {
    s.filter(has_name(name))
}

pub open spec fn entry_views(v: Seq<MediaEntry>) -> Seq<Option<Seq<char>>> {
    v.map_values(|e: MediaEntry| e@)
}

pub open spec fn sound_views(v: Seq<SystemSound>) -> Seq<(Seq<char>, Seq<char>)> {
    v.map_values(|s: SystemSound| s@)
}

/// A lowercased name is an alarm name exactly when "alarm" or "ring" appears in it
/// and neither "ringin" nor "ringout" does.
pub proof fn lemma_alarm_name_by_words(lower: Seq<char>)
    ensures
        is_alarm_name(lower) <==> ((appears_in(seq!['a', 'l', 'a', 'r', 'm'], lower) || appears_in(
            seq!['r', 'i', 'n', 'g'],
            lower,
        )) && !appears_in(seq!['r', 'i', 'n', 'g', 'i', 'n'], lower) && !appears_in(
            seq!['r', 'i', 'n', 'g', 'o', 'u', 't'],
            lower,
        )),
{
    lemma_contains_seq_is_appearance(lower, seq!['a', 'l', 'a', 'r', 'm']);
    lemma_contains_seq_is_appearance(lower, seq!['r', 'i', 'n', 'g']);
    lemma_contains_seq_is_appearance(lower, seq!['r', 'i', 'n', 'g', 'i', 'n']);
    lemma_contains_seq_is_appearance(lower, seq!['r', 'i', 'n', 'g', 'o', 'u', 't']);
}

/// An offered file is a `.wav` file whose lowercased stem has "alarm" or "ring" in it
/// and neither "ringin" nor "ringout"; every such file is offered.
pub proof fn lemma_alarm_file_by_words(f: Seq<char>)
    ensures
        is_alarm_file(f) <==> (is_wav(extension_of(f)) && (appears_in(
            seq!['a', 'l', 'a', 'r', 'm'],
            lowercase(stem_of(f)),
        ) || appears_in(seq!['r', 'i', 'n', 'g'], lowercase(stem_of(f))))
            && !appears_in(seq!['r', 'i', 'n', 'g', 'i', 'n'], lowercase(stem_of(f))) && !appears_in(
            seq!['r', 'i', 'n', 'g', 'o', 'u', 't'],
            lowercase(stem_of(f)),
        )),
{
    lemma_alarm_name_by_words(lowercase(stem_of(f)));
}

/// The extension is `wav` in some mix of cases exactly when it has three characters,
/// `w` or `W`, then `a` or `A`, then `v` or `V`.
pub proof fn lemma_wav_extension_by_letters(e: Seq<char>)
    ensures
        is_wav(Some(e)) <==> (e.len() == 3 && (e[0] == 'w' || e[0] == 'W') && (e[1] == 'a' || e[1] == 'A')
            && (e[2] == 'v' || e[2] == 'V')),
{
}

/// A name made of a stem, a `.` and an extension without dots, where the stem is
/// not empty, splits into exactly that stem and that extension; a name with no `.`
/// is all stem and has no extension.
pub proof fn lemma_split_of_joined_name(stem: Seq<char>, ext: Seq<char>)
    requires
        stem.len() > 0,
        forall|i: int| 0 <= i < ext.len() ==> ext[i] != '.',
    ensures
        stem_of(stem + seq!['.'] + ext) == stem,
        extension_of(stem + seq!['.'] + ext) == Some(ext),
        (forall|i: int| 0 <= i < stem.len() ==> stem[i] != '.') ==> stem_of(stem) == stem
            && extension_of(stem) is None,
{
    let f = stem + seq!['.'] + ext;
    lemma_last_dot_after(f, stem.len() as int);
    assert(f.take(stem.len() as int) =~= stem);
    assert(f.skip(stem.len() as int + 1) =~= ext);
    if forall|i: int| 0 <= i < stem.len() ==> stem[i] != '.' {
        lemma_no_dot(stem);
    }
}

proof fn lemma_no_dot(f: Seq<char>)
    requires
        forall|i: int| 0 <= i < f.len() ==> f[i] != '.',
    ensures
        last_dot(f) == -1,
    decreases f.len(),
{
    if f.len() > 0 {
        assert(f.last() == f[f.len() - 1]);
        lemma_no_dot(f.drop_last());
    }
}

proof fn lemma_last_dot_after(f: Seq<char>, k: int)
    requires
        0 <= k < f.len(),
        f[k] == '.',
        forall|i: int| k < i < f.len() ==> f[i] != '.',
    ensures
        last_dot(f) == k,
    decreases f.len(),
{
    if f.len() - 1 != k {
        assert(f.last() == f[f.len() - 1]);
        lemma_last_dot_after(f.drop_last(), k);
    }
}

proof fn lemma_last_separator_after(p: Seq<char>, k: int)
    requires
        0 <= k < p.len(),
        is_separator(p[k]),
        forall|i: int| k < i < p.len() ==> !is_separator(p[i]),
    ensures
        last_separator(p) == k,
    decreases p.len(),
{
    if p.len() - 1 != k {
        assert(p.last() == p[p.len() - 1]);
        lemma_last_separator_after(p.drop_last(), k);
    }
}

/// The file name of a directory joined with a name (by `\` or `/`) that holds no
/// separator is that name.
pub proof fn lemma_file_name_of_joined_path(dir: Seq<char>, sep: char, name: Seq<char>)
    requires
        sep == '\\' || sep == '/',
        forall|i: int| 0 <= i < name.len() ==> name[i] != '\\' && name[i] != '/',
    ensures
        file_name_of(dir + seq![sep] + name) == name,
{
    let p = dir + seq![sep] + name;
    lemma_last_separator_after(p, dir.len() as int);
    assert(p.skip(dir.len() as int + 1) =~= name);
}

/// Call tones are never offered as alarms: a file whose lowercased stem mentions
/// "ringin" or "ringout" is left out, whatever else its name says.
pub proof fn lemma_call_tones_never_offered(f: Seq<char>)
    requires
        contains_seq(lowercase(stem_of(f)), seq!['r', 'i', 'n', 'g', 'i', 'n']) || contains_seq(
            lowercase(stem_of(f)),
            seq!['r', 'i', 'n', 'g', 'o', 'u', 't'],
        ),
    ensures
        !is_alarm_file(f),
{
}

/// Only `.wav` files are offered, in any ASCII case of the extension.
pub proof fn lemma_only_wav_files_offered(f: Seq<char>)
    requires
        is_alarm_file(f),
    ensures
        extension_of(f) matches Some(e) && eq_ignore_ascii_case(e, seq!['w', 'a', 'v']),
{
}

/// The file name of an entry (empty where it has none).
pub open spec fn entry_file(e: Option<Seq<char>>) -> Seq<char> {
    match e {
        Some(p) => file_name_of(p),
        None => Seq::empty(),
    }
}

/// The path of an entry (empty where it has none).
pub open spec fn entry_path(e: Option<Seq<char>>) -> Seq<char> {
    match e {
        Some(p) => p,
        None => Seq::empty(),
    }
}

/// An entry whose file is offered as an alarm sound.
pub open spec fn is_alarm_entry(e: Option<Seq<char>>) -> bool {
    e is Some && is_alarm_file(entry_file(e))
}

/// The sound that an alarm entry stands for: its file's stem and its path.
pub open spec fn entry_sound(e: Option<Seq<char>>) -> (Seq<char>, Seq<char>) {
    (stem_of(entry_file(e)), entry_path(e))
}

/// The offered sounds are exactly the alarm files among the entries: each one is
/// the stem and path of an entry whose file is an alarm file, and each such entry
/// is offered.
pub proof fn lemma_offered_sounds_are_the_alarm_files(entries: Seq<Option<Seq<char>>>)
    ensures
        forall|i: int|
            0 <= i < offered_sounds(entries).len() ==> exists|j: int|
                0 <= j < entries.len() && is_alarm_entry(#[trigger] entries[j])
                    && #[trigger] offered_sounds(entries)[i] == entry_sound(entries[j]),
        forall|j: int|
            0 <= j < entries.len() && is_alarm_entry(#[trigger] entries[j])
                ==> offered_sounds(entries).contains(entry_sound(entries[j])),
    decreases entries.len(),
{
    if entries.len() > 0 {
        let rest = entries.drop_last();
        lemma_offered_sounds_are_the_alarm_files(rest);
        let last = entries.len() - 1;
        assert forall|i: int| 0 <= i < offered_sounds(entries).len() implies exists|j: int|
            0 <= j < entries.len() && is_alarm_entry(#[trigger] entries[j])
                && #[trigger] offered_sounds(entries)[i] == entry_sound(entries[j]) by {
            if i < offered_sounds(rest).len() {
                let j = choose|j: int|
                    0 <= j < rest.len() && is_alarm_entry(#[trigger] rest[j])
                        && offered_sounds(rest)[i] == entry_sound(rest[j]);
                assert(entries[j] == rest[j]);
            } else {
                assert(entries[last] == entries.last());
            }
        }
        assert forall|j: int| 0 <= j < entries.len() && is_alarm_entry(#[trigger] entries[j])
            implies offered_sounds(entries).contains(entry_sound(entries[j])) by {
            if j < last {
                assert(rest[j] == entries[j]);
                let k = choose|k: int| 0 <= k < offered_sounds(rest).len() && offered_sounds(rest)[k] == entry_sound(entries[j]);
                assert(offered_sounds(entries)[k] == offered_sounds(rest)[k]);
            } else {
                assert(entries[j] == entries.last());
                assert(offered_sounds(entries).last() == entry_sound(entries[j]));
            }
        }
    }
}

/// Calls `str::to_lowercase`. The contract claims that the result holds the
/// lowercase mapping of the argument's characters, named `lowercase`, and, for an
/// all-ASCII argument, that this mapping lowers `A`..=`Z` and keeps every other
/// character: the documentation of `str::to_ascii_lowercase`, which maps exactly
/// `A`..=`Z` to `a`..=`z`, sends callers to `to_lowercase` to lower ASCII characters
/// "in addition to" non-ASCII ones. What the mapping gives non-ASCII characters is
/// left to std's Unicode tables and not stated.
#[verifier::external_body]
fn to_lowercase(s: &str) -> (r: String)
    ensures
        r@ == lowercase(s@),
        all_ascii(s@) ==> r@ == s@.map_values(|c: char| ascii_lower(c)),
{
    s.to_lowercase()
}

proof fn lemma_last_dot_bounds(f: Seq<char>)
    ensures
        -1 <= last_dot(f) < f.len(),
        last_dot(f) >= 0 ==> f[last_dot(f)] == '.',
    decreases f.len(),
{
    if f.len() > 0 && f.last() != '.' {
        lemma_last_dot_bounds(f.drop_last());
    }
}

/// Splits a file name into its stem and its extension, as `Path::file_stem` and
/// `Path::extension` do.
pub fn split_file_name(f: &str) -> (r: (String, Option<String>))
    ensures
        r.0@ == stem_of(f@),
        match r.1 {
            Some(e) => extension_of(f@) == Some(e@),
            None => extension_of(f@) is None,
        },
{
    let n = f.unicode_len();
    let mut i: usize = n;
    assert(f@.take(n as int) =~= f@);
    while i > 0 && f.get_char(i - 1) != '.'
        invariant
            i <= n,
            n == f@.len(),
            last_dot(f@) == last_dot(f@.take(i as int)),
        decreases i,
    {
        assert(f@.take(i as int).drop_last() =~= f@.take(i - 1));
        i = i - 1;
    }
    // Here `i - 1` is the index of the last dot, where `i > 0`.
    if i > 0 {
        assert(f@.take(i as int).last() == '.');
    }
    if i <= 1 {
        (String::from_str(f), None)
    } else {
        let stem = f.substring_char(0, i - 1);
        let ext = f.substring_char(i, n);
        (String::from_str(stem), Some(String::from_str(ext)))
    }
}

/// The file name of a path (see `file_name_of`).
pub fn file_name_part(path: &str) -> (r: &str)
    ensures
        r@ == file_name_of(path@),
{
    let n = path.unicode_len();
    let mut i: usize = n;
    assert(path@.take(n as int) =~= path@);
    while i > 0 && path.get_char(i - 1) != '\\' && path.get_char(i - 1) != '/'
        invariant
            i <= n,
            n == path@.len(),
            last_separator(path@) == last_separator(path@.take(i as int)),
        decreases i,
    {
        assert(path@.take(i as int).drop_last() =~= path@.take(i - 1));
        i = i - 1;
    }
    if i > 0 {
        assert(path@.take(i as int).last() == path@[i - 1]);
    } else {
        assert(path@.take(0) =~= Seq::<char>::empty());
    }
    path.substring_char(i, n)
}

/// Whether a lowercased sound name is an alarm name (see `is_alarm_name`).
pub fn alarm_name_matches(lower: &str) -> (r: bool)
    ensures
        r == is_alarm_name(lower@),
{
    let s = chars_of(lower);
    let alarm: Vec<char> = vec!['a', 'l', 'a', 'r', 'm'];
    let ring: Vec<char> = vec!['r', 'i', 'n', 'g'];
    let ringin: Vec<char> = vec!['r', 'i', 'n', 'g', 'i', 'n'];
    let ringout: Vec<char> = vec!['r', 'i', 'n', 'g', 'o', 'u', 't'];
    assert(alarm@ =~= seq!['a', 'l', 'a', 'r', 'm']);
    assert(ring@ =~= seq!['r', 'i', 'n', 'g']);
    assert(ringin@ =~= seq!['r', 'i', 'n', 'g', 'i', 'n']);
    assert(ringout@ =~= seq!['r', 'i', 'n', 'g', 'o', 'u', 't']);
    let mentions = contains_chars(&s, &alarm) || contains_chars(&s, &ring);
    mentions && !contains_chars(&s, &ringin) && !contains_chars(&s, &ringout)
}

/// Whether a stem is an alarm name once lowercased.
pub fn is_alarm_stem(stem: &str) -> (r: bool)
    ensures
        r == is_alarm_name(lowercase(stem@)),
{
    let lower = to_lowercase(stem);
    alarm_name_matches(lower.as_str())
}

/// The sound that one directory entry offers, if any.
pub fn sound_from_entry(entry: &MediaEntry) -> (r: Option<SystemSound>)
    ensures
        match r {
            Some(s) => sound_of(entry@) == Some(s@),
            None => sound_of(entry@) is None,
        },
{
    match &entry.path {
        None => None,
        Some(p) => {
            let (stem, ext) = split_file_name(file_name_part(p.as_str()));
            let wav = match &ext {
                Some(e) => equal_ignoring_ascii_case(e.as_str(), "wav"),
                None => false,
            };
            proof {
                reveal_strlit("wav");
            }
            if wav && is_alarm_stem(stem.as_str()) {
                Some(SystemSound { name: stem, path: p.clone() })
            } else {
                None
            }
        },
    }
}

proof fn lemma_insert_to_multiset<A>(s: Seq<A>, p: int, x: A)
    requires
        0 <= p <= s.len(),
    ensures
        s.insert(p, x).to_multiset() =~= s.to_multiset().insert(x),
{
    broadcast use vstd::seq_lib::group_to_multiset_ensures;
    broadcast use vstd::multiset::group_multiset_axioms;

    let t = s.insert(p, x);
    assert(t.remove(p) =~= s);
    assert(t[p] == x);
    assert(t.contains(x));
    assert(t.to_multiset().remove(x) =~= s.to_multiset());
}

/// Inserting a sound at a position after which no sound shares its name puts it
/// last among the sounds with its name and leaves the other names' sounds alone.
pub proof fn lemma_named_insert(
    s: Seq<(Seq<char>, Seq<char>)>,
    p: int,
    x: (Seq<char>, Seq<char>),
    name: Seq<char>,
)
    requires
        0 <= p <= s.len(),
        forall|j: int| p <= j < s.len() ==> (#[trigger] s[j]).0 != x.0,
    ensures
        named(s.insert(p, x), name) == if name == x.0 {
            named(s, name).push(x)
        } else {
            named(s, name)
        },
{
    let pred = has_name(name);
    let front = s.take(p);
    let back = s.skip(p);
    assert(s.insert(p, x) =~= front.push(x) + back);
    assert(s =~= front + back);
    Seq::filter_distributes_over_add(front.push(x), back, pred);
    Seq::filter_distributes_over_add(front, back, pred);
    front.lemma_filter_push(x, pred);
    if name == x.0 {
        assert(back.all(|y: (Seq<char>, Seq<char>)| !pred(y)));
        back.lemma_all_neg_filter_empty(pred);
        assert(back.filter(pred) =~= Seq::<(Seq<char>, Seq<char>)>::empty());
        assert(named(s, name) =~= front.filter(pred));
        assert(named(s.insert(p, x), name) =~= front.filter(pred).push(x));
    } else {
        assert(named(s.insert(p, x), name) =~= front.filter(pred) + back.filter(pred));
    }
}

/// The alarm sounds among the entries of the system media directory, sorted by name.
pub fn select_alarm_sounds(entries: &Vec<MediaEntry>) -> (r: Vec<SystemSound>)
    ensures
        sorted_by_name(sound_views(r@)),
        sound_views(r@).to_multiset() == offered_sounds(entry_views(entries@)).to_multiset(),
        forall|name: Seq<char>|
            #[trigger] named(sound_views(r@), name) == named(offered_sounds(entry_views(entries@)), name),
{
    let mut out: Vec<SystemSound> = Vec::new();
    let mut keys: Vec<Vec<char>> = Vec::new();
    let n = entries.len();
    assert(entry_views(entries@).take(0) =~= Seq::<Option<Seq<char>>>::empty());
    assert(sound_views(out@) =~= offered_sounds(entry_views(entries@).take(0)));
    for i in 0..n
        invariant
            n == entries@.len(),
            keys@.len() == out@.len(),
            forall|j: int| 0 <= j < keys@.len() ==> #[trigger] keys@[j]@ == out@[j].name@,
            sorted_by_name(sound_views(out@)),
            sound_views(out@).to_multiset() == offered_sounds(
                entry_views(entries@).take(i as int),
            ).to_multiset(),
            forall|name: Seq<char>|
                #[trigger] named(sound_views(out@), name) == named(
                    offered_sounds(entry_views(entries@).take(i as int)),
                    name,
                ),
    {
        let ghost before = sound_views(out@);
        let ghost prefix = entry_views(entries@).take(i as int);
        assert(entry_views(entries@).take(i + 1).drop_last() =~= prefix);
        assert(entry_views(entries@).take(i + 1).last() == entries@[i as int]@);
        match sound_from_entry(&entries[i]) {
            None => {},
            Some(s) => {
                let key = chars_of(s.name.as_str());
                let mut p: usize = 0;
                while p < keys.len() && chars_le(&keys[p], &key)
                    invariant
                        p <= keys@.len(),
                        key@ == s.name@,
                        keys@.len() == out@.len(),
                        forall|j: int| 0 <= j < keys@.len() ==> #[trigger] keys@[j]@ == out@[j].name@,
                        forall|j: int| 0 <= j < p ==> lex_le(#[trigger] out@[j].name@, key@),
                    decreases keys@.len() - p,
                {
                    p = p + 1;
                }
                proof {
                    if p < keys@.len() {
                        lemma_lex_le_total(key@, out@[p as int].name@);
                    }
                    assert forall|j: int| p <= j < before.len() implies (#[trigger] before[j]).0 != key@ by {
                        if j > p && before[j].0 == key@ {
                            assert(lex_le(before[p as int].0, before[j].0));
                        }
                    }
                    assert forall|j: int| p <= j < out@.len() implies lex_le(key@, #[trigger] out@[j].name@) by {
                        lemma_lex_le_total(key@, out@[p as int].name@);
                        if j > p {
                            assert(lex_le(sound_views(out@)[p as int].0, sound_views(out@)[j].0));
                            lemma_lex_le_transitive(key@, out@[p as int].name@, out@[j].name@);
                        }
                    }
                }
                let ghost sv = s@;
                out.insert(p, s);
                keys.insert(p, key);
                proof {
                    assert(sound_views(out@) =~= before.insert(p as int, sv));
                    lemma_insert_to_multiset(before, p as int, sv);
                    assert(offered_sounds(entry_views(entries@).take(i + 1)) == offered_sounds(prefix).push(sv));
                    vstd::seq_lib::to_multiset_build(offered_sounds(prefix), sv);
                    assert forall|name: Seq<char>| #[trigger] named(sound_views(out@), name) == named(
                        offered_sounds(entry_views(entries@).take(i + 1)),
                        name,
                    ) by {
                        lemma_named_insert(before, p as int, sv, name);
                        offered_sounds(prefix).lemma_filter_push(sv, has_name(name));
                    }
                    assert forall|a: int, b: int| 0 <= a < b < out@.len() implies lex_le(
                        #[trigger] sound_views(out@)[a].0,
                        #[trigger] sound_views(out@)[b].0,
                    ) by {
                        if b < p {
                            assert(lex_le(before[a].0, before[b].0));
                        } else if b == p {
                        } else if a < p {
                            assert(lex_le(before[a].0, sv.0));
                            assert(lex_le(sv.0, before[b - 1].0));
                            lemma_lex_le_transitive(before[a].0, sv.0, before[b - 1].0);
                        } else if a == p {
                        } else {
                            assert(lex_le(before[a - 1].0, before[b - 1].0));
                        }
                    }
                }
            },
        }
    }
    assert(entry_views(entries@).take(n as int) =~= entry_views(entries@));
    out
}

/// The directory under which the system sounds lie: the `SystemRoot` that the
/// environment gives, or `C:\Windows` where it gives none.
pub fn system_root_or_default(system_root: Option<String>) -> (r: String)
    ensures
        match system_root {
            Some(s) => r@ == s@,
            None => r@ == "C:\\Windows"@,
        },
{
    match system_root {
        Some(s) => s,
        None => String::from_str("C:\\Windows"),
    }
}

} // verus!
