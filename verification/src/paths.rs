//! Path handling over plain strings: locating the file name, extension and
//! stem of a path, and resolving the intermediate and final output paths of
//! a job. A '/' separates directories; the extension is what follows the
//! last '.' of the file name unless that dot is the name's first character.

use crate::text::{chars_of, string_of};
use crate::types::{OutputFormat, TranscriptionSettings};
use vstd::prelude::*;

verus! {

/// Index of the last occurrence of `c` in `s`, if any.
pub open spec fn rfind(s: Seq<char>, c: char) -> Option<int>
    decreases s.len(),
{
    if s.len() == 0 {
        None
    } else if s.last() == c {
        Some(s.len() - 1)
    } else {
        rfind(s.drop_last(), c)
    }
}

/// What `rfind` returns: the position holds `c` and nothing after it does;
/// `None` means `c` does not occur at all.
pub proof fn lemma_rfind(s: Seq<char>, c: char)
    ensures
        match rfind(s, c) {
            Some(i) => 0 <= i < s.len() && s[i] == c && (forall|j: int|
                i < j < s.len() ==> s[j] != c),
            None => forall|j: int| 0 <= j < s.len() ==> s[j] != c,
        },
    decreases s.len(),
{
    if s.len() > 0 && s.last() != c {
        lemma_rfind(s.drop_last(), c);
        assert forall|j: int| 0 <= j < s.len() - 1 implies s.drop_last()[j] == s[j] by {}
    }
}

/// A position that holds `c`, with no later occurrence, is what `rfind`
/// returns.
pub proof fn lemma_rfind_at(s: Seq<char>, c: char, i: int)
    requires
        0 <= i < s.len(),
        s[i] == c,
        forall|j: int| i < j < s.len() ==> s[j] != c,
    ensures
        rfind(s, c) == Some(i),
{
    lemma_rfind(s, c);
    match rfind(s, c) {
        Some(k) => {
            if k < i {
                assert(s[i] != c);
            } else if k > i {
                assert(s[k] != c);
            }
        },
        None => {
            assert(s[i] != c);
        },
    }
}

/// Index of the last occurrence of `c` in `v`, if any, matching `rfind`.
pub fn rfind_vec(v: &Vec<char>, c: char) -> (r: Option<usize>)
    ensures
        match r {
            Some(i) => rfind(v@, c) == Some(i as int),
            None => rfind(v@, c) is None,
        },
{
    let mut i: usize = v.len();
    loop
        invariant
            i <= v.len(),
            forall|j: int| i <= j < v@.len() ==> v@[j] != c,
        decreases i,
    {
        if i == 0 {
            proof {
                lemma_rfind(v@, c);
                if rfind(v@, c) is Some {
                    let k = rfind(v@, c)->0;
                    assert(v@[k] != c);
                }
            }
            return None;
        }
        i = i - 1;
        if v[i] == c {
            proof {
                lemma_rfind_at(v@, c, i as int);
            }
            return Some(i);
        }
    }
}

/// Copies `v[a..b]` into a fresh vector.
pub fn sub_vec(v: &Vec<char>, a: usize, b: usize) -> (r: Vec<char>)
    requires
        a <= b <= v@.len(),
    ensures
        r@ == v@.subrange(a as int, b as int),
{
    let mut out: Vec<char> = Vec::new();
    let mut i: usize = a;
    while i < b
        invariant
            a <= i <= b <= v@.len(),
            out@ == v@.subrange(a as int, i as int),
        decreases b - i,
    {
        out.push(v[i]);
        i = i + 1;
        assert(out@ =~= v@.subrange(a as int, i as int));
    }
    out
}

/// Index right after the last '/' of a path, or 0 when it has none. The
/// part before it is the directory prefix; the rest is the file name.
pub open spec fn name_start(p: Seq<char>) -> int {
    match rfind(p, '/') {
        Some(i) => i + 1,
        None => 0,
    }
}

pub open spec fn dir_prefix_of(p: Seq<char>) -> Seq<char> {
    p.subrange(0, name_start(p))
}

pub open spec fn file_name_of(p: Seq<char>) -> Seq<char> {
    p.subrange(name_start(p), p.len() as int)
}

/// The extension of a file name: what follows its last '.', unless that dot
/// is the first character (a leading dot marks a hidden file).
pub open spec fn extension_of_name(n: Seq<char>) -> Option<Seq<char>> {
    match rfind(n, '.') {
        Some(i) => if i > 0 {
            Some(n.subrange(i + 1, n.len() as int))
        } else {
            None
        },
        None => None,
    }
}

/// The file name without its extension (and without the dot).
pub open spec fn stem_of_name(n: Seq<char>) -> Seq<char> {
    match rfind(n, '.') {
        Some(i) => if i > 0 {
            n.subrange(0, i)
        } else {
            n
        },
        None => n,
    }
}

pub open spec fn extension_of_path(p: Seq<char>) -> Option<Seq<char>> {
    extension_of_name(file_name_of(p))
}

proof fn lemma_name_start_bounds(p: Seq<char>)
    ensures
        0 <= name_start(p) <= p.len(),
{
    lemma_rfind(p, '/');
}

/// The index where the file name of `cs` begins.
pub fn name_start_vec(cs: &Vec<char>) -> (ns: usize)
    ensures
        ns as int == name_start(cs@),
        ns <= cs@.len(),
{
    let n = cs.len();
    match rfind_vec(cs, '/') {
        Some(i) => {
            proof {
                lemma_rfind(cs@, '/');
            }
            assert(i < n);
            i + 1
        },
        None => 0,
    }
}

/// The file name of a path, as a vector.
pub fn file_name_vec(cs: &Vec<char>) -> (r: Vec<char>)
    ensures
        r@ == file_name_of(cs@),
{
    let ns = name_start_vec(cs);
    sub_vec(cs, ns, cs.len())
}

/// The extension of a path, as a vector, when it has one.
pub fn extension_vec(cs: &Vec<char>) -> (r: Option<Vec<char>>)
    ensures
        match r {
            Some(e) => extension_of_path(cs@) == Some(e@),
            None => extension_of_path(cs@) is None,
        },
{
    let name = file_name_vec(cs);
    let n = name.len();
    match rfind_vec(&name, '.') {
        Some(i) => {
            if i > 0 {
                proof {
                    lemma_rfind(name@, '.');
                }
                assert(i < n);
                Some(sub_vec(&name, i + 1, n))
            } else {
                None
            }
        },
        None => None,
    }
}

/// The stem of a file name, as a vector.
pub fn stem_vec(name: &Vec<char>) -> (r: Vec<char>)
    ensures
        r@ == stem_of_name(name@),
{
    match rfind_vec(name, '.') {
        Some(i) => {
            if i > 0 {
                proof {
                    lemma_rfind(name@, '.');
                }
                sub_vec(name, 0, i)
            } else {
                sub_vec(name, 0, name.len())
            }
        },
        None => sub_vec(name, 0, name.len()),
    }
}

/// Where the canonical PCM intermediate of an input file is written: the
/// input path with its extension replaced by "wav" (or ".wav" appended when
/// it has no extension).
pub open spec fn temp_wav_path_spec(p: Seq<char>) -> Seq<char> {
    dir_prefix_of(p) + stem_of_name(file_name_of(p)) + seq!['.'] + "wav"@
}

pub fn get_temp_wav_path(input_path: &str) -> (r: String)
    ensures
        r@ == temp_wav_path_spec(input_path@),
{
    let cs = chars_of(input_path);
    let ns = name_start_vec(&cs);
    let name = file_name_vec(&cs);
    let mut out = sub_vec(&cs, 0, ns);
    let mut stem = stem_vec(&name);
    out.append(&mut stem);
    out.push('.');
    let mut ext = chars_of("wav");
    out.append(&mut ext);
    assert(out@ =~= temp_wav_path_spec(input_path@));
    string_of(&out)
}

/// Where a finished transcript is written: the batch's output directory (or
/// the input's own directory when none is set), the input's stem, and the
/// extension of the chosen output format.
pub open spec fn output_path_spec(
    p: Seq<char>,
    output_dir: Option<Seq<char>>,
    format: OutputFormat,
) -> Seq<char> {
    let tail = stem_of_name(file_name_of(p)) + seq!['.'] + format.extension_spec();
    match output_dir {
        Some(d) => d + seq!['/'] + tail,
        None => dir_prefix_of(p) + tail,
    }
}

pub open spec fn settings_dir_view(settings: TranscriptionSettings) -> Option<Seq<char>> {
    match settings.output_dir {
        Some(d) => Some(d@),
        None => None,
    }
}

pub fn get_output_path(input_path: &str, settings: &TranscriptionSettings) -> (r: String)
    ensures
        r@ == output_path_spec(
            input_path@,
            settings_dir_view(*settings),
            settings.output_format,
        ),
{
    let cs = chars_of(input_path);
    proof {
        lemma_name_start_bounds(cs@);
    }
    let name = file_name_vec(&cs);
    let mut out: Vec<char>;
    match &settings.output_dir {
        Some(d) => {
            out = chars_of(d.as_str());
            out.push('/');
        },
        None => {
            let ns = name_start_vec(&cs);
            out = sub_vec(&cs, 0, ns);
        },
    }
    let mut stem = stem_vec(&name);
    out.append(&mut stem);
    out.push('.');
    let mut ext = chars_of(settings.output_format.extension());
    out.append(&mut ext);
    assert(out@ =~= output_path_spec(
        input_path@,
        settings_dir_view(*settings),
        settings.output_format,
    ));
    string_of(&out)
}

} // verus!
