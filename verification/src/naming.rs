//! Output file names: how a file name splits into stem and extension, the
//! name wanted for each mode, the collision suffixes, and joining a name
//! onto a folder.
use vstd::prelude::*;
use vstd::string::StringExecFns;
use crate::text::{decimal, push_char, push_decimal, owned, join2};
use crate::job::Mode;

verus! {

/// Index of the last occurrence of `c` in `s`, or -1.
pub open spec fn last_index_of(s: Seq<char>, c: char) -> int
    decreases s.len(),
{
    if s.len() == 0 {
        -1
    } else if s.last() == c {
        s.len() - 1
    } else {
        last_index_of(s.drop_last(), c)
    }
}

/// The file stem of a single file name, as `Path::file_stem` gives it, with
/// the name itself where the path has no stem: the part before the last
/// dot, unless that part is empty or there is no dot.
pub open spec fn stem_of(name: Seq<char>) -> Seq<char> {
    let k = last_index_of(name, '.');
    if name == seq!['.', '.'] || k <= 0 {
        name
    } else {
        name.subrange(0, k)
    }
}

/// The extension of a single file name, as `Path::extension` gives it: the
/// part after the last dot, when a non-empty part precedes that dot.
pub open spec fn extension_of(name: Seq<char>) -> Option<Seq<char>> {
    let k = last_index_of(name, '.');
    if name == seq!['.', '.'] || k <= 0 {
        None
    } else {
        Some(name.subrange(k + 1, name.len() as int))
    }
}

/// `e` equals "age" when ASCII letters are compared without case.
pub open spec fn is_age_word(e: Seq<char>) -> bool {
    &&& e.len() == 3
    &&& (e[0] == 'a' || e[0] == 'A')
    &&& (e[1] == 'g' || e[1] == 'G')
    &&& (e[2] == 'e' || e[2] == 'E')
}

/// The name carries the `.age` extension, in any letter case.
pub open spec fn has_age_extension(name: Seq<char>) -> bool {
    extension_of(name) matches Some(e) && is_age_word(e)
}

/// The output name wanted for an input file name, before any collision
/// suffix: `.age` appended when encrypting; when decrypting, the `.age`
/// extension removed, or `.decrypted` appended to other names.
pub open spec fn wanted_name(name: Seq<char>, mode: Mode) -> Seq<char> {
    match mode {
        Mode::Encrypt => name + ".age"@,
        Mode::Decrypt => if has_age_extension(name) {
            stem_of(name)
        } else {
            name + ".decrypted"@
        },
    }
}

/// The word used in collision suffixes.
pub open spec fn action_word(mode: Mode) -> Seq<char> {
    match mode {
        Mode::Encrypt => "encrypted"@,
        Mode::Decrypt => "decrypted"@,
    }
}

/// Candidate number `k` for the wanted name: `k == 0` is the wanted name
/// itself; `k == 1` inserts " (encrypted)" (or " (decrypted)") between stem
/// and extension; larger `k` inserts " (encrypted k)".
pub open spec fn candidate_name(wanted: Seq<char>, mode: Mode, k: nat) -> Seq<char> {
    if k == 0 {
        wanted
    } else {
        let tag = if k == 1 {
            " ("@ + action_word(mode) + ")"@
        } else {
            " ("@ + action_word(mode) + " "@ + decimal(k) + ")"@
        };
        stem_of(wanted) + tag + match extension_of(wanted) {
            Some(e) => "."@ + e,
            None => Seq::<char>::empty(),
        }
    }
}

/// A path separator for the platform's path style.
pub open spec fn is_separator(c: char, windows: bool) -> bool {
    c == '/' || (windows && c == '\\')
}

/// The separator written between folder and name.
pub open spec fn main_separator(windows: bool) -> char {
    if windows { '\\' } else { '/' }
}

/// A plain file name joined onto a folder, as `Path::join` does it: a
/// separator is inserted unless the folder is empty or already ends in one.
pub open spec fn joined(folder: Seq<char>, name: Seq<char>, windows: bool) -> Seq<char> {
    if folder.len() == 0 || is_separator(folder.last(), windows) {
        folder + name
    } else {
        folder.push(main_separator(windows)) + name
    }
}

/// Length of one character in the unit that names are limited in: UTF-16
/// code units on Windows, UTF-8 bytes elsewhere.
pub open spec fn char_units(c: char, windows: bool) -> nat {
    if windows {
        if (c as u32) < 0x10000 { 1 } else { 2 }
    } else {
        if (c as u32) < 0x80 { 1 }
        else if (c as u32) < 0x800 { 2 }
        else if (c as u32) < 0x10000 { 3 }
        else { 4 }
    }
}

/// Length of a file name in the platform's units.
pub open spec fn name_units(name: Seq<char>, windows: bool) -> nat
    decreases name.len(),
{
    if name.len() == 0 {
        0
    } else {
        name_units(name.drop_last(), windows) + char_units(name.last(), windows)
    }
}

/// The most units a file name may have.
pub const MAX_NAME_UNITS: u64 = 255;

proof fn lemma_last_index_bounds(s: Seq<char>, c: char)
    ensures
        -1 <= last_index_of(s, c) < s.len(),
        last_index_of(s, c) >= 0 ==> s[last_index_of(s, c)] == c,
        forall|j: int| last_index_of(s, c) < j < s.len() ==> s[j] != c,
    decreases s.len(),
{
    if s.len() > 0 && s.last() != c {
        lemma_last_index_bounds(s.drop_last(), c);
        assert forall|j: int| last_index_of(s, c) < j < s.len() implies s[j] != c by {
            if j < s.len() - 1 {
                assert(s[j] == s.drop_last()[j]);
            }
        }
    }
}

proof fn lemma_last_index_from_scan(s: Seq<char>, c: char, k: int)
    requires
        -1 <= k < s.len(),
        k >= 0 ==> s[k] == c,
        forall|j: int| k < j < s.len() ==> s[j] != c,
    ensures
        last_index_of(s, c) == k,
    decreases s.len(),
{
    if s.len() > 0 && s.last() != c {
        lemma_last_index_from_scan(s.drop_last(), c, k);
    }
}

/// The wanted name is at most ten characters longer than the source name.
pub proof fn lemma_wanted_len(name: Seq<char>, mode: Mode)
    ensures
        wanted_name(name, mode).len() <= name.len() + 10,
{
    lemma_last_index_bounds(name, '.');
    reveal_strlit(".age");
    reveal_strlit(".decrypted");
}

/// Decrypting a file named as encryption names it gives back the original
/// name: `notes.txt` becomes `notes.txt.age`, which decrypts to `notes.txt`.
pub proof fn lemma_decrypt_restores_name(name: Seq<char>)
    requires
        name.len() > 0,
    ensures
        has_age_extension(wanted_name(name, Mode::Encrypt)),
        wanted_name(wanted_name(name, Mode::Encrypt), Mode::Decrypt) == name,
{
    reveal_strlit(".age");
    let full = name + ".age"@;
    let k = name.len() as int;
    assert(full[k] == '.');
    assert forall|j: int| k < j < full.len() implies full[j] != '.' by {
        assert(full[j] == ".age"@[j - k]);
    }
    lemma_last_index_from_scan(full, '.', k);
    assert(full.subrange(0, k) =~= name);
    assert(full.subrange(k + 1, full.len() as int) =~= "age"@) by {
        reveal_strlit("age");
    }
    assert(full != seq!['.', '.']) by {
        assert(full.len() >= 5);
    }
    reveal_strlit("age");
}

/// Position of the last dot in a name, if it has one.
fn last_dot(name: &str) -> (k: Option<usize>)
    ensures
        match k {
            Some(i) => i == last_index_of(name@, '.'),
            None => last_index_of(name@, '.') == -1,
        },
{
    let n = name.unicode_len();
    let mut i: usize = n;
    while i > 0
        invariant
            n == name@.len(),
            i <= n,
            forall|j: int| i <= j < n ==> name@[j] != '.',
        decreases i,
    {
        if name.get_char(i - 1) == '.' {
            proof {
                lemma_last_index_from_scan(name@, '.', i - 1);
            }
            return Some(i - 1);
        }
        i = i - 1;
    }
    proof {
        lemma_last_index_from_scan(name@, '.', -1);
    }
    None
}

fn is_dot_dot(name: &str) -> (r: bool)
    ensures
        r == (name@ == seq!['.', '.']),
{
    if name.unicode_len() != 2 {
        return false;
    }
    let r = name.get_char(0) == '.' && name.get_char(1) == '.';
    proof {
        if name@.len() == 2 && name@[0] == '.' && name@[1] == '.' {
            assert(name@ =~= seq!['.', '.']);
        }
    }
    r
}

/// Splits a file name into stem and extension.
pub fn split_name(name: &str) -> (r: (String, Option<String>))
    ensures
        r.0@ == stem_of(name@),
        match (r.1, extension_of(name@)) {
            (Some(a), Some(b)) => a@ == b,
            (None, None) => true,
            _ => false,
        },
{
    let dot_dot = is_dot_dot(name);
    match last_dot(name) {
        Some(k) if k > 0 && !dot_dot => {
            proof {
                lemma_last_index_bounds(name@, '.');
            }
            let n = name.unicode_len();
            let stem = owned(name.substring_char(0, k));
            let ext = owned(name.substring_char(k + 1, n));
            (stem, Some(ext))
        },
        _ => (owned(name), None),
    }
}

fn is_age_word_exec(e: &str) -> (r: bool)
    ensures
        r == is_age_word(e@),
{
    if e.unicode_len() != 3 {
        return false;
    }
    let a = e.get_char(0);
    let g = e.get_char(1);
    let x = e.get_char(2);
    (a == 'a' || a == 'A') && (g == 'g' || g == 'G') && (x == 'e' || x == 'E')
}

/// Whether a file name has the `.age` extension, in any letter case.
pub fn has_age_ext(name: &str) -> (r: bool)
    ensures
        r == has_age_extension(name@),
{
    let (_, ext) = split_name(name);
    match ext {
        Some(e) => is_age_word_exec(e.as_str()),
        None => false,
    }
}

/// The output name wanted for `name` in `mode`.
pub fn wanted_for(name: &str, mode: Mode) -> (r: String)
    ensures
        r@ == wanted_name(name@, mode),
{
    match mode {
        Mode::Encrypt => join2(name, ".age"),
        Mode::Decrypt => {
            if has_age_ext(name) {
                let (stem, _) = split_name(name);
                stem
            } else {
                join2(name, ".decrypted")
            }
        },
    }
}

fn action_for(mode: Mode) -> (r: &'static str)
    ensures
        r@ == action_word(mode),
{
    match mode {
        Mode::Encrypt => "encrypted",
        Mode::Decrypt => "decrypted",
    }
}

/// Candidate number `k` for the wanted name (see [`candidate_name`]).
pub fn candidate_for(wanted: &str, mode: Mode, k: u64) -> (r: String)
    ensures
        r@ == candidate_name(wanted@, mode, k as nat),
{
    if k == 0 {
        return owned(wanted);
    }
    let (stem, ext) = split_name(wanted);
    let mut r = stem;
    r.append(" (");
    r.append(action_for(mode));
    if k != 1 {
        r.append(" ");
        push_decimal(&mut r, k);
    }
    r.append(")");
    let ghost tagged = r@;
    match ext {
        Some(e) => {
            r.append(".");
            r.append(e.as_str());
        },
        None => {},
    }
    proof {
        let tag = if k == 1 {
            " ("@ + action_word(mode) + ")"@
        } else {
            " ("@ + action_word(mode) + " "@ + decimal(k as nat) + ")"@
        };
        assert(tagged =~= stem_of(wanted@) + tag);
        match extension_of(wanted@) {
            Some(e) => {
                assert(r@ =~= stem_of(wanted@) + tag + ("."@ + e));
            },
            None => {
                assert(r@ =~= stem_of(wanted@) + tag + Seq::<char>::empty());
            },
        }
    }
    r
}

/// `name` joined onto `folder` (see [`joined`]).
pub fn join_name(folder: &str, name: &str, windows: bool) -> (r: String)
    ensures
        r@ == joined(folder@, name@, windows),
{
    let n = folder.unicode_len();
    if n == 0 {
        return join2(folder, name);
    }
    let last = folder.get_char(n - 1);
    if last == '/' || (windows && last == '\\') {
        join2(folder, name)
    } else {
        let mut r = owned(folder);
        push_char(&mut r, if windows { '\\' } else { '/' });
        r.append(name);
        r
    }
}

proof fn lemma_units_prefix(name: Seq<char>, i: int, windows: bool)
    requires
        0 <= i < name.len(),
    ensures
        name_units(name.subrange(0, i + 1), windows) == name_units(name.subrange(0, i), windows)
            + char_units(name[i], windows),
{
    assert(name.subrange(0, i + 1).drop_last() =~= name.subrange(0, i));
}

proof fn lemma_units_monotone(name: Seq<char>, i: int, j: int, windows: bool)
    requires
        0 <= i <= j <= name.len(),
    ensures
        name_units(name.subrange(0, i), windows) <= name_units(name.subrange(0, j), windows),
    decreases j - i,
{
    if i < j {
        lemma_units_prefix(name, j - 1, windows);
        lemma_units_monotone(name, i, j - 1, windows);
    }
}

/// Whether a file name is longer than [`MAX_NAME_UNITS`] in the platform's
/// units (UTF-16 code units on Windows, UTF-8 bytes elsewhere).
pub fn name_too_long(name: &str, windows: bool) -> (r: bool)
    ensures
        r == (name_units(name@, windows) > MAX_NAME_UNITS),
{
    let n = name.unicode_len();
    let mut i: usize = 0;
    let mut total: u64 = 0;
    while i < n
        invariant
            n == name@.len(),
            i <= n,
            total == name_units(name@.subrange(0, i as int), windows),
            total <= MAX_NAME_UNITS,
        decreases n - i,
    {
        let c = name.get_char(i);
        let u = c as u32;
        let w: u64 = if windows {
            if u < 0x10000 { 1 } else { 2 }
        } else {
            if u < 0x80 { 1 } else if u < 0x800 { 2 } else if u < 0x10000 { 3 } else { 4 }
        };
        proof {
            lemma_units_prefix(name@, i as int, windows);
        }
        total = total + w;
        i = i + 1;
        if total > MAX_NAME_UNITS {
            proof {
                lemma_units_monotone(name@, i as int, n as int, windows);
                assert(name@.subrange(0, n as int) =~= name@);
            }
            return true;
        }
    }
    assert(name@.subrange(0, n as int) =~= name@);
    false
}

} // verus!
