//! Names of sources and outputs.

use crate::error::JobError;
use vstd::prelude::*;
use vstd::string::{StrSliceExecFns, StringExecFns};

verus! {

/// An ASCII capital as its small letter, any other character as it is.
pub open spec fn lower(c: char) -> char {
    match c {
        'A' => 'a',
        'B' => 'b',
        'C' => 'c',
        'D' => 'd',
        'E' => 'e',
        'F' => 'f',
        'G' => 'g',
        'H' => 'h',
        'I' => 'i',
        'J' => 'j',
        'K' => 'k',
        'L' => 'l',
        'M' => 'm',
        'N' => 'n',
        'O' => 'o',
        'P' => 'p',
        'Q' => 'q',
        'R' => 'r',
        'S' => 's',
        'T' => 't',
        'U' => 'u',
        'V' => 'v',
        'W' => 'w',
        'X' => 'x',
        'Y' => 'y',
        'Z' => 'z',
        _ => c,
    }
}

/// `str::to_ascii_lowercase`: the letters A to Z become a to z, every other
/// character stays.
#[verifier::external_body]
fn std_to_ascii_lowercase(s: &str) -> (r: String)
    ensures
        r@ == Seq::new(s@.len(), |i: int| lower(s@[i])),
{
    s.to_ascii_lowercase()
}

/// What follows the last `c`, or everything where there is none.
pub open spec fn after_last(s: Seq<char>, c: char) -> Seq<char> {
    match s.index_of_last(c) {
        Some(i) => s.subrange(i + 1, s.len() as int),
        None => s,
    }
}

/// What precedes the first `c`, or everything where there is none.
pub open spec fn before_first(s: Seq<char>, c: char) -> Seq<char> {
    match s.index_of_first(c) {
        Some(i) => s.subrange(0, i),
        None => s,
    }
}

/// The last path segment of a URI, without its query.
pub open spec fn file_part(uri: Seq<char>) -> Seq<char> {
    before_first(after_last(uri, '/'), '?')
}

/// What follows the last dot of the last path segment, in small letters.
pub open spec fn extension(uri: Seq<char>) -> Option<Seq<char>> {
    let file = file_part(uri);
    if file.contains('.') {
        let ext = after_last(file, '.');
        Some(Seq::new(ext.len(), |i: int| lower(ext[i])))
    } else {
        None
    }
}

fn find_last(s: &str, c: char) -> (r: Option<usize>)
    ensures
        match r {
            Some(i) => s@.index_of_last(c) == Some(i as int) && i < s@.len(),
            None => s@.index_of_last(c) is None,
        },
{
    let n: usize = s.unicode_len();
    let mut i: usize = n;
    proof {
        s@.index_of_last_ensures(c);
    }
    while i > 0
        invariant
            i <= n,
            n == s@.len(),
            forall|j: int| i <= j < n ==> s@[j] != c,
            match s@.index_of_last(c) {
                Some(index) => 0 <= index < n && s@[index] == c && forall|j: int|
                    index < j < n ==> s@[j] != c,
                None => !s@.contains(c),
            },
        decreases i,
    {
        if s.get_char(i - 1) == c {
            assert(s@.contains(c));
            return Some(i - 1);
        }
        i -= 1;
    }
    None
}

fn find_first(s: &str, c: char) -> (r: Option<usize>)
    ensures
        match r {
            Some(i) => s@.index_of_first(c) == Some(i as int) && i < s@.len(),
            None => s@.index_of_first(c) is None,
        },
{
    let n: usize = s.unicode_len();
    let mut i: usize = 0;
    proof {
        s@.index_of_first_ensures(c);
    }
    while i < n
        invariant
            i <= n,
            n == s@.len(),
            forall|j: int| 0 <= j < i ==> s@[j] != c,
            match s@.index_of_first(c) {
                Some(index) => 0 <= index < n && s@[index] == c && forall|j: int|
                    0 <= j < index ==> s@[j] != c,
                None => !s@.contains(c),
            },
        decreases n - i,
    {
        if s.get_char(i) == c {
            assert(s@.contains(c));
            return Some(i);
        }
        i += 1;
    }
    None
}

/// The extension that a URI's path carries, if any.
pub fn ext_from_uri(uri: &str) -> (r: Option<String>)
    ensures
        match r {
            Some(e) => extension(uri@) == Some(e@),
            None => extension(uri@) is None,
        },
{
    let n: usize = uri.unicode_len();
    let last: &str = match find_last(uri, '/') {
        Some(i) => uri.substring_char(i + 1, n),
        None => uri,
    };
    let file: &str = match find_first(last, '?') {
        Some(i) => last.substring_char(0, i),
        None => last,
    };
    proof {
        file@.index_of_last_ensures('.');
    }
    let m: usize = file.unicode_len();
    match find_last(file, '.') {
        Some(i) => Some(std_to_ascii_lowercase(file.substring_char(i + 1, m))),
        None => None,
    }
}

/// The sink names that stand for something else than a file or an alias.
pub open spec fn reserved(name: Seq<char>) -> bool {
    name == "@null"@ || name == "@display"@ || name == "@out"@
}

/// Whether a name is one of the reserved sinks.
pub fn is_reserved_sink(name: &String) -> (r: bool)
    ensures
        r == reserved(name@),
{
    *name == String::from_str("@null") || *name == String::from_str("@display") || *name
        == String::from_str("@out")
}

/// Where an output's sink comes from.
#[derive(Clone, Copy, Debug, PartialEq, Eq, Structural)]
pub enum SinkPlan {
    /// The sink that the caller installed under the output's name.
    Override,
    /// A sink that takes everything and keeps nothing.
    Null,
    /// A file of the output's name, with the muxer of its extension.
    File,
}

pub open spec fn sink_plan(name: String, has_override: bool) -> Result<SinkPlan, JobError> {
    if has_override {
        Ok(SinkPlan::Override)
    } else if name@ == "@null"@ {
        Ok(SinkPlan::Null)
    } else if name@.len() > 0 && name@[0] == '@' {
        if reserved(name@) {
            Err(JobError::ReservedSink { name })
        } else {
            Err(JobError::AliasSink { name })
        }
    } else {
        Ok(SinkPlan::File)
    }
}

/// Decides where the sink of an output comes from.
pub fn open_sink(name: &String, has_override: bool) -> (r: Result<SinkPlan, JobError>)
    ensures
        r == sink_plan(*name, has_override),
{
    if has_override {
        return Ok(SinkPlan::Override);
    }
    if *name == String::from_str("@null") {
        return Ok(SinkPlan::Null);
    }
    if name.as_str().unicode_len() > 0 && name.as_str().get_char(0) == '@' {
        if is_reserved_sink(name) {
            return Err(JobError::ReservedSink { name: name.clone() });
        }
        return Err(JobError::AliasSink { name: name.clone() });
    }
    Ok(SinkPlan::File)
}

/// Whether a text stands in a name, right after a dot.
pub open spec fn follows_a_dot(name: Seq<char>, ext: Seq<char>) -> bool {
    exists|i: int|
        0 < i && i + ext.len() <= name.len() && name[i - 1] == '.' && ext == #[trigger] name.subrange(
            i,
            i + ext.len(),
        )
}

/// A path whose last segment is its file name, wherever it is used: no character but
/// the slash can separate segments in it, it does not begin with two slashes, which may
/// name a server, and its last segment is there and is not the segment that stands for
/// its directory.
pub open spec fn ends_in_file_name(path: Seq<char>) -> bool {
    &&& !path.contains('\\')
    &&& !path.contains(':')
    &&& !(path.len() >= 2 && path[0] == '/' && path[1] == '/')
    &&& after_last(path, '/').len() > 0
    &&& after_last(path, '/') != "."@
}

/// The extension of a file name: what follows its last dot, unless that dot comes first;
/// the segment that stands for the directory above has none.
pub open spec fn file_extension(file: Seq<char>) -> Option<Seq<char>> {
    match file.index_of_last('.') {
        Some(i) => if i > 0 && file != ".."@ {
            Some(after_last(file, '.'))
        } else {
            None
        },
        None => None,
    }
}

pub open spec fn extension_text(ext: Option<String>) -> Option<Seq<char>> {
    match ext {
        Some(e) => Some(e@),
        None => None,
    }
}

/// What holds of the extension of a path, on whatever platform: where the last segment
/// is the file name, it is the extension of that name. Elsewhere, what the file name is
/// is the platform's rule; but the extension stands in the path after a dot, and holds
/// neither a dot nor a slash, and a path without a dot has none.
pub open spec fn may_be_extension(path: Seq<char>, ext: Option<String>) -> bool {
    &&& ends_in_file_name(path) ==> extension_text(ext) == file_extension(after_last(path, '/'))
    &&& match ext {
        Some(e) => follows_a_dot(path, e@) && !e@.contains('.') && !e@.contains('/'),
        None => true,
    }
}

/// `std::path::Path::extension`: the portion of the path's file name after its
/// last dot; none where there is no file name, where it holds no dot, and where its
/// only dot comes first. Segments are separated by slashes, on some platforms also by
/// backslashes, and some know prefixes with a colon or of two separators; a path that
/// ends in the segment for the directory above has no file name. Not said is what the
/// file name is where platforms differ.
#[verifier::external_body]
fn std_extension(path: &str) -> (r: Option<String>)
    ensures
        may_be_extension(path@, r),
        !path@.contains('.') ==> r is None,
{
    match std::path::Path::new(path).extension() {
        Some(e) => e.to_str().map(String::from),
        None => None,
    }
}

/// The extension of a file output's path.
pub fn output_extension(name: &String) -> (r: Option<String>)
    ensures
        may_be_extension(name@, r),
        !name@.contains('.') ==> r is None,
{
    std_extension(name.as_str())
}

/// The container format of a file output, from its path's extension and the
/// format registered for that extension.
pub fn file_format(name: &String, ext: Option<String>, registered: Option<String>) -> (r: Result<
    String,
    JobError,
>)
    ensures
        r == match (ext, registered) {
            (None, _) => Err::<String, JobError>(JobError::NoExtension { name: *name }),
            (Some(ext), None) => Err(JobError::NoMuxer { ext }),
            (Some(_), Some(format)) => Ok(format),
        },
{
    match ext {
        None => Err(JobError::NoExtension { name: name.clone() }),
        Some(ext) => match registered {
            None => Err(JobError::NoMuxer { ext }),
            Some(format) => Ok(format),
        },
    }
}

/// An extension never holds a separator: it comes from within one path segment,
/// and after its last dot.
pub proof fn extension_is_one_segment(uri: Seq<char>)
    ensures
        match extension(uri) {
            Some(e) => !e.contains('/') && !e.contains('?') && !e.contains('.'),
            None => true,
        },
{
    let seg = after_last(uri, '/');
    let file = file_part(uri);
    uri.index_of_last_ensures('/');
    seg.index_of_first_ensures('?');
    file.index_of_last_ensures('.');
    assert(!seg.contains('/'));
    assert(!file.contains('?'));
    assert forall|i: int| 0 <= i < file.len() implies file[i] != '/' by {
        assert(seg[i] == file[i]);
    }
    if file.contains('.') {
        let ext = after_last(file, '.');
        assert(!ext.contains('.'));
        let k = file.index_of_last('.')->0;
        assert forall|i: int| 0 <= i < ext.len() implies ext[i] != '/' && ext[i] != '?' by {
            assert(ext[i] == file[i + k + 1]);
        }
    }
}

/// An extension is what comes behind the last dot of the last segment before any query,
/// letter by letter in small letters: however a URI is put together from a directory, a
/// stem, an extension and a query, the extension is read back.
pub proof fn extension_is_read_back(
    dir: Seq<char>,
    stem: Seq<char>,
    ext: Seq<char>,
    query: Seq<char>,
)
    requires
        !stem.contains('/') && !stem.contains('?'),
        !ext.contains('/') && !ext.contains('?') && !ext.contains('.'),
        !query.contains('/'),
    ensures
        extension(dir + seq!['/'] + stem + seq!['.'] + ext + seq!['?'] + query) is Some,
        extension(dir + seq!['/'] + stem + seq!['.'] + ext + seq!['?'] + query)->0.len()
            == ext.len(),
        forall|i: int|
            0 <= i < ext.len() ==> #[trigger] extension(
                dir + seq!['/'] + stem + seq!['.'] + ext + seq!['?'] + query,
            )->0[i] == lower(ext[i]),
{
    let file = stem + seq!['.'] + ext;
    let last = file + seq!['?'] + query;
    let uri = dir + seq!['/'] + stem + seq!['.'] + ext + seq!['?'] + query;
    assert(uri =~= dir + seq!['/'] + last);
    assert forall|i: int| 0 <= i < file.len() implies file[i] != '/' && file[i] != '?' by {
        if i < stem.len() {
            assert(stem.contains(stem[i]));
        } else if i > stem.len() {
            assert(ext.contains(ext[i - stem.len() - 1]));
        }
    }
    assert forall|i: int| 0 <= i < last.len() implies last[i] != '/' by {
        if i < file.len() {
            assert(last[i] == file[i]);
        } else if i > file.len() {
            assert(query.contains(query[i - file.len() - 1]));
        }
    }
    uri.index_of_last_ensures('/');
    assert(uri[dir.len() as int] == '/');
    let k = uri.index_of_last('/')->0;
    if k > dir.len() {
        assert(uri[k] == last[k - dir.len() - 1]);
    }
    assert(after_last(uri, '/') =~= last);
    last.index_of_first_ensures('?');
    assert(last[file.len() as int] == '?');
    let q = last.index_of_first('?')->0;
    if q < file.len() {
        assert(last[q] == file[q]);
    }
    assert(file_part(uri) =~= file);
    file.index_of_last_ensures('.');
    assert(file[stem.len() as int] == '.');
    let p = file.index_of_last('.')->0;
    if p > stem.len() {
        assert(ext.contains(ext[p - stem.len() - 1]));
    }
    assert(file.contains('.'));
    assert(after_last(file, '.') =~= ext);
}

/// A URI without a dot carries no extension.
pub proof fn no_dot_no_extension(uri: Seq<char>)
    requires
        !uri.contains('.'),
    ensures
        extension(uri) is None,
{
    let seg = after_last(uri, '/');
    let file = file_part(uri);
    uri.index_of_last_ensures('/');
    seg.index_of_first_ensures('?');
    if file.contains('.') {
        let i = file.index_of('.');
        assert(seg[i] == '.');
        let k = uri.len() - seg.len();
        assert(uri[k + i] == '.');
    }
}

/// What the caller installed goes before everything; else the null sink keeps nothing, a
/// name that begins with an at sign is refused, as reserved or as an alias, and any other
/// name is a file's.
pub proof fn sink_follows_its_name(name: String)
    ensures
        sink_plan(name, true) is Ok && sink_plan(name, true)->Ok_0 is Override,
        ({
            let r = sink_plan(name, false);
            &&& r is Ok ==> r->Ok_0 is Null || r->Ok_0 is File
            &&& r is Ok && r->Ok_0 is Null <==> name@ == seq!['@', 'n', 'u', 'l', 'l']
            &&& r is Ok && r->Ok_0 is File <==> name@.len() == 0 || name@[0] != '@'
            &&& r is Err && r->Err_0 is ReservedSink <==> name@ == seq!['@', 'o', 'u', 't']
                || name@ == seq!['@', 'd', 'i', 's', 'p', 'l', 'a', 'y']
            &&& r is Err ==> r->Err_0 == (JobError::ReservedSink { name }) || r->Err_0 == (
            JobError::AliasSink { name })
        }),
{
    reveal_strlit("@null");
    reveal_strlit("@display");
    reveal_strlit("@out");
    assert("@null"@ =~= seq!['@', 'n', 'u', 'l', 'l']);
    assert("@display"@ =~= seq!['@', 'd', 'i', 's', 'p', 'l', 'a', 'y']);
    assert("@out"@ =~= seq!['@', 'o', 'u', 't']);
}

} // verus!
