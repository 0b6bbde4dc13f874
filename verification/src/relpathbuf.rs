//! Paths relative to a root directory: the identity of a document.
//!
//! The editor names a document by a URI, the daemon by a file name that may
//! be absolute or relative. Both are brought to a pair of root directory and
//! path below it, compared part by part, so that a line of the daemon's
//! report can be attributed to the document it is about.
//!
//! Paths are read as POSIX paths: parts are separated by `/`, empty parts and
//! `.` parts are skipped except for a `.` at the very start of a relative
//! path, and `..` is kept as it is. Nothing is looked up on the file system
//! and no link is resolved: two names for one file that differ in their parts
//! are different paths.

use crate::error::{Error, ErrorKind};
use crate::text::{lemma_spans_count, piece_at, same_text, split_on, split_spans, words};
use crate::uri::{file_path_of, uri_file_path};
use tower_lsp::lsp_types::Url;
use vstd::prelude::*;
use vstd::string::{StringExecFns, StringSliceAdditionalSpecFns};
use vstd::utf8::*;

verus! {

/// The byte that separates the parts of a path.
pub const SLASH: u8 = 47;

/// The byte `.`.
pub const DOT: u8 = 46;

/// The part `.`, which stands for the directory it is found in.
pub open spec fn dot() -> Seq<u8> {
    seq![DOT]
}

/// Whether a piece between separators names something: it is neither empty nor `.`.
pub open spec fn is_name(piece: Seq<u8>) -> bool {
    piece.len() > 0 && piece != dot()
}

/// A path as the sequence of its parts.
pub struct PathShape {
    /// Whether the path starts at the file system's root.
    pub rooted: bool,
    /// The parts of the path below its start, in order.
    pub parts: Seq<Seq<char>>,
}

/// The pieces of a path that are its parts: every name, and before them a
/// `.` if the path starts with one.
pub open spec fn kept_pieces(path: Seq<u8>) -> Seq<Seq<u8>> {
    let pieces = split_on(path, SLASH);
    let names = pieces.filter(|piece: Seq<u8>| is_name(piece));
    if pieces[0] == dot() {
        seq![dot()] + names
    } else {
        names
    }
}

/// The text of each piece, in order.
pub open spec fn texts_of(pieces: Seq<Seq<u8>>) -> Seq<Seq<char>> {
    pieces.map_values(|piece: Seq<u8>| decode_utf8(piece))
}

/// The parts of a path given as text.
pub open spec fn path_shape(path: Seq<char>) -> PathShape {
    let bytes = encode_utf8(path);
    PathShape { rooted: bytes.len() > 0 && bytes[0] == SLASH, parts: texts_of(kept_pieces(bytes)) }
}

/// A path taken apart.
#[derive(Clone, Debug)]
pub struct PathParts {
    pub rooted: bool,
    pub parts: Vec<String>,
}

impl View for PathParts {
    type V = PathShape;

    open spec fn view(&self) -> PathShape {
        PathShape { rooted: self.rooted, parts: words(self.parts@) }
    }
}

/// Takes a path apart.
pub fn parse_path(path: &str) -> (parsed: PathParts)
    ensures
        parsed@ == path_shape(path@),
{
    let bytes = path.as_bytes();
    let rooted = bytes.len() > 0 && bytes[0] == SLASH;
    let spans = split_spans(bytes, SLASH);
    let ghost pieces = split_on(bytes@, SLASH);
    let ghost named = |piece: Seq<u8>| is_name(piece);
    let mut parts: Vec<String> = Vec::new();
    let mut k: usize = 0;
    proof {
        lemma_spans_count(bytes@, SLASH, spans@);
        assert(pieces.take(0) =~= Seq::<Seq<u8>>::empty());
        assert(pieces.take(0).filter(named) =~= Seq::<Seq<u8>>::empty()) by {
            reveal(Seq::filter);
        }
        assert(words(parts@) =~= texts_of(Seq::<Seq<u8>>::empty()));
    }
    while k < spans.len()
        invariant
            k <= spans.len(),
            spans.len() == pieces.len(),
            bytes@ == path.spec_bytes(),
            pieces == split_on(bytes@, SLASH),
            named == (|piece: Seq<u8>| is_name(piece)),
            crate::text::spans_split(bytes@, SLASH, spans@),
            words(parts@) == texts_of(
                if k > 0 && pieces[0] == dot() {
                    seq![dot()] + pieces.take(k as int).filter(named)
                } else {
                    pieces.take(k as int).filter(named)
                },
            ),
        decreases spans.len() - k,
    {
        let piece = piece_at(path, &spans, k, SLASH);
        let piece_bytes = piece.as_bytes();
        let is_dot = piece_bytes.len() == 1 && piece_bytes[0] == DOT;
        let ghost before = pieces.take(k as int).filter(named);
        proof {
            assert(pieces.take(k + 1) =~= pieces.take(k as int).push(pieces[k as int]));
            pieces.take(k as int).lemma_filter_push(pieces[k as int], named);
            assert(is_dot <==> piece_bytes@ == dot()) by {
                if is_dot {
                    assert(piece_bytes@ =~= dot());
                }
            }
            encode_utf8_decode_utf8(piece@);
        }
        if piece_bytes.len() > 0 && (!is_dot || k == 0) {
            let part = piece.to_owned();
            proof {
                assert(words(parts@.push(part)) =~= words(parts@).push(part@));
                if is_dot {
                    assert(before =~= Seq::<Seq<u8>>::empty());
                    assert(texts_of(seq![dot()] + pieces.take(k + 1).filter(named)) =~= texts_of(
                        before,
                    ).push(decode_utf8(dot())));
                } else {
                    if pieces[0] == dot() && k > 0 {
                        assert(texts_of(seq![dot()] + before.push(pieces[k as int])) =~= texts_of(
                            seq![dot()] + before,
                        ).push(decode_utf8(pieces[k as int])));
                    } else {
                        assert(texts_of(before.push(pieces[k as int])) =~= texts_of(before).push(
                            decode_utf8(pieces[k as int]),
                        ));
                    }
                }
            }
            parts.push(part);
        }
        k += 1;
    }
    proof {
        assert(pieces.take(k as int) =~= pieces);
    }
    PathParts { rooted, parts }
}

/// Whether two lists of parts hold the same texts in the same order.
pub fn same_parts(a: &Vec<String>, b: &Vec<String>) -> (same: bool)
    ensures
        same == (words(a@) == words(b@)),
{
    if a.len() != b.len() {
        assert(words(a@).len() != words(b@).len());
        return false;
    }
    let same = starts_with_parts(a, b);
    proof {
        assert(words(a@) =~= words(a@).subrange(0, words(b@).len() as int));
    }
    same
}

/// Whether the parts in `prefix` are the first parts of `parts`.
pub fn starts_with_parts(parts: &Vec<String>, prefix: &Vec<String>) -> (found: bool)
    ensures
        found == words(prefix@).is_prefix_of(words(parts@)),
{
    if prefix.len() > parts.len() {
        return false;
    }
    let mut i: usize = 0;
    while i < prefix.len()
        invariant
            i <= prefix.len() <= parts.len(),
            words(prefix@).take(i as int) == words(parts@).take(i as int),
        decreases prefix.len() - i,
    {
        if prefix[i] != parts[i] {
            assert(words(prefix@)[i as int] != words(parts@).subrange(
                0,
                words(prefix@).len() as int,
            )[i as int]);
            return false;
        }
        proof {
            let p = words(prefix@);
            let q = words(parts@);
            assert(p.take(i + 1) =~= p.take(i as int).push(p[i as int]));
            assert(q.take(i + 1) =~= q.take(i as int).push(q[i as int]));
        }
        i += 1;
    }
    proof {
        assert(words(prefix@).take(i as int) =~= words(prefix@));
        assert(words(parts@).take(i as int) =~= words(parts@).subrange(0, i as int));
    }
    true
}

/// The parts of `path` below `root`, if `path` lies under `root`: both start
/// at the same place, and the parts of `root` are the first parts of `path`.
pub open spec fn strip_root(root: PathShape, path: PathShape) -> Option<Seq<Seq<char>>> {
    if root.rooted == path.rooted && root.parts.is_prefix_of(path.parts) {
        Some(path.parts.skip(root.parts.len() as int))
    } else {
        None
    }
}

/// The parts of `path` below `root`, if `path` lies under `root`.
pub fn strip_parts(root: &PathParts, path: &PathParts) -> (below: Option<Vec<String>>)
    ensures
        strip_root(root@, path@) is Some <==> below is Some,
        below is Some ==> words(below.unwrap()@) == strip_root(root@, path@).unwrap(),
{
    if root.rooted != path.rooted || !starts_with_parts(&path.parts, &root.parts) {
        return None;
    }
    let mut below: Vec<String> = Vec::new();
    let first: usize = root.parts.len();
    let mut i: usize = first;
    while i < path.parts.len()
        invariant
            first <= i <= path.parts.len(),
            words(below@) == words(path.parts@).subrange(first as int, i as int),
        decreases path.parts.len() - i,
    {
        let part = path.parts[i].clone();
        proof {
            let all = words(path.parts@);
            assert(words(below@.push(part)) =~= words(below@).push(part@));
            assert(all.subrange(first as int, i + 1) =~= all.subrange(first as int, i as int).push(
                all[i as int],
            ));
        }
        below.push(part);
        i += 1;
    }
    assert(words(below@) =~= words(path.parts@).skip(first as int));
    Some(below)
}

/// A root directory and a path below it.
pub struct RelPath {
    /// The root directory.
    pub root: PathShape,
    /// The parts of the path below the root, in order.
    pub parts: Seq<Seq<char>>,
}

/// The identity that a file name reported by the daemon has under `root`.
///
/// A relative name is taken as it stands. An absolute name must lie under
/// `root`, and stands for what is left of it below `root`.
pub open spec fn reconcile_filename(root: Seq<char>, filename: Seq<char>) -> Option<RelPath> {
    let name = path_shape(filename);
    if !name.rooted {
        Some(RelPath { root: path_shape(root), parts: name.parts })
    } else {
        reconcile_path(root, filename)
    }
}

/// The identity that a path on the file system has under `root`: the path
/// must lie under `root`, and stands for what is left of it below `root`.
pub open spec fn reconcile_path(root: Seq<char>, path: Seq<char>) -> Option<RelPath> {
    match strip_root(path_shape(root), path_shape(path)) {
        Some(parts) => Some(RelPath { root: path_shape(root), parts }),
        None => None,
    }
}

/// The identity that a document named by `uri` has under `root`.
pub open spec fn reconcile_uri(root: Seq<char>, uri: Url) -> Option<RelPath> {
    match file_path_of(uri) {
        Some(path) => reconcile_path(root, path),
        None => None,
    }
}

/// The parts of a path put together again, `sep` between each two.
pub open spec fn joined(parts: Seq<Seq<char>>, sep: Seq<char>) -> Seq<char>
    decreases parts.len(),
{
    if parts.len() == 0 {
        Seq::<char>::empty()
    } else if parts.len() == 1 {
        parts[0]
    } else {
        joined(parts.drop_last(), sep) + sep + parts.last()
    }
}

/// The text between the parts of a path.
pub open spec fn separator() -> Seq<char> {
    "/"@
}

/// A path as text: its parts joined by `/`, behind a `/` if the path starts
/// at the file system's root.
pub open spec fn shape_text(shape: PathShape) -> Seq<char> {
    if shape.rooted {
        separator() + joined(shape.parts, separator())
    } else {
        joined(shape.parts, separator())
    }
}

/// A path expressed relative to a root directory.
///
/// Two values are equal exactly when their root directories have the same
/// parts and their paths below the root have the same parts. The path below
/// the root never starts at the file system's root.
#[derive(Clone, Debug)]
pub struct RelPathBuf {
    root_dir: PathParts,
    path_buf: Vec<String>,
}

impl View for RelPathBuf {
    type V = RelPath;

    closed spec fn view(&self) -> RelPath {
        RelPath { root: self.root_dir@, parts: words(self.path_buf@) }
    }
}

impl RelPathBuf {
    /// The identity of a file that the daemon reports as `filename`.
    ///
    /// Fails with `NotUnderRoot` exactly when `filename` is absolute and
    /// does not lie under `root_dir`.
    pub fn from_filename(root_dir: &str, filename: &str) -> (result: Result<RelPathBuf, Error>)
        ensures
            match reconcile_filename(root_dir@, filename@) {
                Some(path) => result is Ok && result->Ok_0@ == path,
                None => result is Err && result->Err_0.kind == ErrorKind::NotUnderRoot,
            },
    {
        let name = parse_path(filename);
        if !name.rooted {
            Ok(RelPathBuf { root_dir: parse_path(root_dir), path_buf: name.parts })
        } else {
            let root = parse_path(root_dir);
            RelPathBuf::below_root(root, &name, "filename prefix could not be stripped")
        }
    }

    /// The identity of the file at `path`, which must lie under `root_dir`.
    ///
    /// Fails with `NotUnderRoot` exactly when it does not.
    pub fn from_path(root_dir: &str, path: &str) -> (result: Result<RelPathBuf, Error>)
        ensures
            match reconcile_path(root_dir@, path@) {
                Some(path) => result is Ok && result->Ok_0@ == path,
                None => result is Err && result->Err_0.kind == ErrorKind::NotUnderRoot,
            },
    {
        let root = parse_path(root_dir);
        RelPathBuf::below_root(root, &parse_path(path), "uri is not a child of root_dir")
    }

    /// The identity of the document that the editor names by `uri`.
    ///
    /// Fails with `NotAFilePath` exactly when the URI stands for no path on
    /// the file system, and with `NotUnderRoot` exactly when it stands for
    /// one that does not lie under `root_dir`.
    pub fn from_uri(root_dir: &str, uri: &Url) -> (result: Result<RelPathBuf, Error>)
        ensures
            match reconcile_uri(root_dir@, *uri) {
                Some(path) => result is Ok && result->Ok_0@ == path,
                None => result is Err && result->Err_0.kind == (if file_path_of(*uri) is None {
                    ErrorKind::NotAFilePath
                } else {
                    ErrorKind::NotUnderRoot
                }),
            },
    {
        match uri_file_path(uri) {
            Some(path) => RelPathBuf::from_path(root_dir, path.as_str()),
            None => Err(Error::with_kind(ErrorKind::NotAFilePath, "uri is not a file path")),
        }
    }

    fn below_root(root: PathParts, path: &PathParts, complaint: &str) -> (result: Result<
        RelPathBuf,
        Error,
    >)
        ensures
            match strip_root(root@, path@) {
                Some(parts) => result is Ok && result->Ok_0@ == (RelPath { root: root@, parts }),
                None => result is Err && result->Err_0.kind == ErrorKind::NotUnderRoot,
            },
    {
        match strip_parts(&root, path) {
            Some(below) => Ok(RelPathBuf { root_dir: root, path_buf: below }),
            None => Err(Error::with_kind(ErrorKind::NotUnderRoot, complaint)),
        }
    }

    /// The path below the root as text, its parts joined by `/`.
    pub fn relative(&self) -> (text: String)
        ensures
            text@ == joined(self@.parts, separator()),
    {
        join_parts(&self.path_buf, "/")
    }

    /// The root directory as text.
    pub fn root(&self) -> (text: String)
        ensures
            text@ == shape_text(self@.root),
    {
        let parts = join_parts(&self.root_dir.parts, "/");
        if self.root_dir.rooted {
            String::from_str("/").concat(parts.as_str())
        } else {
            parts
        }
    }

    /// The root directory and the path below it as one text, `/` between them.
    pub fn display(&self) -> (text: String)
        ensures
            text@ == shape_text(self@.root) + separator() + joined(self@.parts, separator()),
    {
        self.root().concat("/").concat(self.relative().as_str())
    }
}

/// The parts put together as text, `sep` between each two.
pub fn join_parts(parts: &Vec<String>, sep: &str) -> (text: String)
    ensures
        text@ == joined(words(parts@), sep@),
{
    let mut text = String::new();
    let mut i: usize = 0;
    while i < parts.len()
        invariant
            i <= parts.len(),
            text@ == joined(words(parts@).take(i as int), sep@),
        decreases parts.len() - i,
    {
        proof {
            let all = words(parts@);
            assert(all.take(i + 1).drop_last() =~= all.take(i as int));
            assert(all.take(i + 1).last() == parts@[i as int]@);
        }
        if i > 0 {
            text.append(sep);
        }
        text.append(parts[i].as_str());
        proof {
            if i == 0 {
                assert(text@ =~= parts@[i as int]@);
            }
        }
        i += 1;
    }
    assert(words(parts@).take(i as int) =~= words(parts@));
    text
}

/// The part `..`, which stands for the directory above.
pub open spec fn dot_dot() -> Seq<u8> {
    seq![DOT, DOT]
}

/// The extension of a file name: what follows its last `.`, unless the name
/// has no `.`, has its only `.` at the start, or is `..`.
pub open spec fn extension_of(name: Seq<u8>) -> Option<Seq<u8>> {
    let pieces = split_on(name, DOT);
    let last_dot = name.len() - pieces.last().len() - 1;
    if pieces.len() < 2 || last_dot == 0 || name == dot_dot() {
        None
    } else {
        Some(pieces.last())
    }
}

/// The extension of the file that a path ends in, as text.
pub open spec fn file_extension(parts: Seq<Seq<char>>) -> Option<Seq<char>> {
    if parts.len() == 0 {
        None
    } else {
        match extension_of(encode_utf8(parts.last())) {
            Some(extension) => Some(decode_utf8(extension)),
            None => None,
        }
    }
}

/// The extension of a file name.
pub fn name_extension(name: &str) -> (extension: Option<String>)
    ensures
        extension is Some <==> extension_of(name.spec_bytes()) is Some,
        extension is Some ==> extension.unwrap()@ == decode_utf8(
            extension_of(name.spec_bytes()).unwrap(),
        ),
{
    let bytes = name.as_bytes();
    let spans = split_spans(bytes, DOT);
    proof {
        lemma_spans_count(bytes@, DOT, spans@);
        reveal(crate::text::spans_split);
    }
    let last: usize = spans.len() - 1;
    let (start, end) = spans[last];
    if bytes.len() == 2 && bytes[0] == DOT && bytes[1] == DOT {
        assert(bytes@ =~= dot_dot());
        return None;
    }
    if last == 0 {
        return None;
    }
    proof {
        assert(spans@[last - 1].1 + 1 == spans@[last as int].0);
        assert(bytes@.subrange(start as int, end as int) == split_on(bytes@, DOT).last());
    }
    if start == 1 {
        return None;
    }
    let extension = piece_at(name, &spans, last, DOT);
    proof {
        encode_utf8_decode_utf8(extension@);
    }
    Some(extension.to_owned())
}

impl RelPathBuf {
    /// The extension of the file that the path ends in.
    pub fn extension(&self) -> (extension: Option<String>)
        ensures
            match file_extension(self@.parts) {
                Some(text) => extension is Some && extension.unwrap()@ == text,
                None => extension is None,
            },
    {
        if self.path_buf.len() == 0 {
            return None;
        }
        name_extension(self.path_buf[self.path_buf.len() - 1].as_str())
    }

    /// Whether the path ends in a file with the given extension.
    pub fn has_extension(&self, wanted: &str) -> (found: bool)
        ensures
            found == (file_extension(self@.parts) == Some(wanted@)),
    {
        match self.extension() {
            Some(extension) => same_text(extension.as_str(), wanted),
            None => false,
        }
    }
}

impl PartialEq for RelPathBuf {
    fn eq(&self, other: &RelPathBuf) -> (same: bool) {
        self.root_dir.rooted == other.root_dir.rooted && same_parts(
            &self.root_dir.parts,
            &other.root_dir.parts,
        ) && same_parts(&self.path_buf, &other.path_buf)
    }
}

impl Eq for RelPathBuf {

}

impl vstd::std_specs::cmp::PartialEqSpecImpl for RelPathBuf {
    open spec fn obeys_eq_spec() -> bool {
        true
    }

    open spec fn eq_spec(&self, other: &RelPathBuf) -> bool {
        self@ == other@
    }
}

/// An absolute file name and a URI that stands for a path with the same
/// parts have the same identity under every root; where the name lies under
/// the root, that identity exists.
pub proof fn lemma_filename_agrees_with_uri(root: Seq<char>, filename: Seq<char>, uri: Url)
    requires
        path_shape(filename).rooted,
        file_path_of(uri) is Some,
        path_shape(file_path_of(uri).unwrap()) == path_shape(filename),
    ensures
        reconcile_filename(root, filename) == reconcile_uri(root, uri),
        strip_root(path_shape(root), path_shape(filename)) is Some ==> reconcile_filename(
            root,
            filename,
        ) is Some,
{
}

/// An identity exists only for a path below the root, and its parts behind
/// those of the root are the parts of the path.
pub proof fn lemma_identity_lies_under_root(root: Seq<char>, path: Seq<char>)
    requires
        reconcile_path(root, path) is Some,
    ensures
        path_shape(root).rooted == path_shape(path).rooted,
        path_shape(path).parts == path_shape(root).parts + reconcile_path(
            root,
            path,
        ).unwrap().parts,
        reconcile_path(root, path).unwrap().root == path_shape(root),
{
    let r = path_shape(root).parts;
    let p = path_shape(path).parts;
    assert(p =~= r + p.skip(r.len() as int));
}

/// A relative file name is accepted under every root, with its own parts.
pub proof fn lemma_relative_filename_accepted(root: Seq<char>, filename: Seq<char>)
    requires
        !path_shape(filename).rooted,
    ensures
        reconcile_filename(root, filename) == Some(
            RelPath { root: path_shape(root), parts: path_shape(filename).parts },
        ),
{
}

} // verus!
