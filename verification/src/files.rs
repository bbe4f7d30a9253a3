//! The files that an analysis reads, held in memory: the caller reads them,
//! the library says which one it needs next.

use crate::error::{AnalysisError, AnalysisErrorView};
use crate::text::{
    concat, is_text, pieces_from, rfind_char, rfind_char_in, same_text, slice, split, views,
};
use vstd::prelude::*;

verus! {

/// A file that the caller has tried to read: its path, and its text or the
/// cause for which it could not be read.
#[derive(Debug)]
pub struct SourceFile {
    pub path: String,
    pub content: Result<String, String>,
}

/// A `SourceFile` over character sequences.
pub ghost struct SourceFileView {
    pub path: Seq<char>,
    pub content: Result<Seq<char>, Seq<char>>,
}

impl View for SourceFile {
    type V = SourceFileView;

    open spec fn view(&self) -> SourceFileView {
        SourceFileView {
            path: self.path@,
            content: match self.content {
                Ok(text) => Ok(text@),
                Err(cause) => Err(cause@),
            },
        }
    }
}

/// The views of a sequence of files.
pub open spec fn file_views(s: Seq<SourceFile>) -> Seq<SourceFileView> {
    Seq::new(s.len(), |i: int| s[i]@)
}

/// How a computation over files ended: with its result, for want of a file
/// that the caller has yet to read, for want of the parser's answer to a
/// requirement text, or with an error.
#[derive(Debug)]
pub enum Outcome<T> {
    Done(T),
    NeedsFile(String),
    NeedsRequirement(String),
    Failed(AnalysisError),
}

/// Why the reading of a manifest stopped: for want of the parser's answer
/// to a requirement text, or with an error.
#[derive(Debug)]
pub enum Halt {
    NeedsRequirement(String),
    Failed(AnalysisError),
}

/// A `Halt` over character sequences.
pub ghost enum HaltView {
    NeedsRequirement(Seq<char>),
    Failed(AnalysisErrorView),
}

impl View for Halt {
    type V = HaltView;

    open spec fn view(&self) -> HaltView {
        match *self {
            Halt::NeedsRequirement(text) => HaltView::NeedsRequirement(text@),
            Halt::Failed(e) => HaltView::Failed(e@),
        }
    }
}

/// The first index at or after `i` whose file has the path `path`, or the length.
pub open spec fn file_index(files: Seq<SourceFileView>, path: Seq<char>, i: int) -> int
    decreases files.len() - i,
{
    if 0 <= i < files.len() && files[i].path != path {
        file_index(files, path, i + 1)
    } else {
        i
    }
}

/// Whether a file with the path `path` is among `files`.
pub open spec fn has_file(files: Seq<SourceFileView>, path: Seq<char>) -> bool {
    0 <= file_index(files, path, 0) < files.len()
}

/// The first file with the path `path`.
pub open spec fn file_at(files: Seq<SourceFileView>, path: Seq<char>) -> SourceFileView {
    files[file_index(files, path, 0)]
}

/// The file that is found is the first with that path: none before it
/// has it, and without such a file the result is the length.
pub proof fn lemma_file_index_bounds(files: Seq<SourceFileView>, path: Seq<char>, i: int)
    requires
        0 <= i <= files.len(),
    ensures
        i <= file_index(files, path, i) <= files.len(),
        forall|k: int| i <= k < file_index(files, path, i) ==> files[k].path != path,
        file_index(files, path, i) < files.len() ==> files[file_index(files, path, i)].path == path,
    decreases files.len() - i,
{
    if i < files.len() && files[i].path != path {
        lemma_file_index_bounds(files, path, i + 1);
    }
}

/// The first file with the path `path`, if there is one.
pub fn find_file<'a>(files: &'a Vec<SourceFile>, path: &str) -> (r: Option<&'a SourceFile>)
    ensures
        match r {
            Some(file) => has_file(file_views(files@), path@) && file@ == file_at(
                file_views(files@),
                path@,
            ),
            None => !has_file(file_views(files@), path@),
        },
{
    let mut i: usize = 0;
    while i < files.len()
        invariant
            i <= files.len(),
            file_index(file_views(files@), path@, i as int) == file_index(
                file_views(files@),
                path@,
                0,
            ),
        decreases files.len() - i,
    {
        assert(file_views(files@)[i as int] == files@[i as int]@);
        if same_text(files[i].path.as_str(), path) {
            return Some(&files[i]);
        }
        i += 1;
    }
    None
}

/// The directory that holds `path`: what stands before its last `/`; the
/// root for a file in the root; nothing for a bare file name.
pub open spec fn directory_of(path: Seq<char>) -> Seq<char> {
    let k = rfind_char(path, '/', path.len() as int);
    if k < 0 {
        Seq::empty()
    } else if k == 0 {
        path.subrange(0, 1)
    } else {
        path.subrange(0, k)
    }
}

/// `relative` as seen from the directory `base`: itself where it begins with
/// `/` or `base` is empty, else `base`, a `/` where `base` does not end in
/// one, and `relative`.
pub open spec fn join_path(base: Seq<char>, relative: Seq<char>) -> Seq<char> {
    if relative.len() > 0 && relative[0] == '/' {
        relative
    } else if base.len() == 0 {
        relative
    } else if base.last() == '/' {
        base + relative
    } else {
        base + seq!['/'] + relative
    }
}

/// The directory that holds `path`.
pub fn parent_directory(path: &Vec<char>) -> (r: Vec<char>)
    ensures
        r@ == directory_of(path@),
{
    proof {
        crate::text::lemma_rfind_char_bounds(path@, '/', path.len() as int);
    }
    match rfind_char_in(path, '/') {
        None => Vec::new(),
        Some(k) => {
            if k == 0 {
                slice(path, 0, 1)
            } else {
                slice(path, 0, k)
            }
        },
    }
}

/// `relative` as seen from the directory `base`.
pub fn join(base: &Vec<char>, relative: &Vec<char>) -> (r: Vec<char>)
    ensures
        r@ == join_path(base@, relative@),
{
    if (relative.len() > 0 && relative[0] == '/') || base.len() == 0 {
        let r = slice(relative, 0, relative.len());
        proof {
            assert(relative@.subrange(0, relative.len() as int) == relative@);
        }
        r
    } else if base[base.len() - 1] == '/' {
        concat(base, relative)
    } else {
        let mut with_slash = slice(base, 0, base.len());
        proof {
            assert(base@.subrange(0, base.len() as int) == base@);
        }
        with_slash.push('/');
        concat(&with_slash, relative)
    }
}

/// The steps of a path once `piece` has followed `steps`: an empty piece
/// and `.` change nothing; `..` takes the last step back, unless there is
/// none to take back, where it stays in a relative path and falls away in an
/// absolute one; any other piece is one step more.
pub open spec fn step(steps: Seq<Seq<char>>, piece: Seq<char>, absolute: bool) -> Seq<Seq<char>> {
    if piece.len() == 0 || piece == "."@ {
        steps
    } else if piece == ".."@ {
        if steps.len() > 0 && steps.last() != ".."@ {
            steps.drop_last()
        } else if absolute {
            steps
        } else {
            steps.push(piece)
        }
    } else {
        steps.push(piece)
    }
}

/// The steps that the pieces of a path come to, taken in order.
pub open spec fn steps_of(pieces: Seq<Seq<char>>, absolute: bool) -> Seq<Seq<char>>
    decreases pieces.len(),
{
    if pieces.len() == 0 {
        Seq::empty()
    } else {
        step(steps_of(pieces.drop_last(), absolute), pieces.last(), absolute)
    }
}

/// The steps of a path, written with a `/` between them.
pub open spec fn written(steps: Seq<Seq<char>>) -> Seq<char>
    decreases steps.len(),
{
    if steps.len() == 0 {
        Seq::empty()
    } else if steps.len() == 1 {
        steps[0]
    } else {
        written(steps.drop_last()) + seq!['/'] + steps.last()
    }
}

/// Whether a path begins at the root.
pub open spec fn is_absolute(path: Seq<char>) -> bool {
    path.len() > 0 && path[0] == '/'
}

/// The canonical form of a path, by its text alone: without empty pieces
/// and `.`, each `..` taken together with the step before it, the root kept
/// in front of an absolute path. Two paths with one canonical form denote
/// one file.
pub open spec fn normalized(path: Seq<char>) -> Seq<char> {
    let body = written(steps_of(pieces_from(path, '/', 0), is_absolute(path)));
    if is_absolute(path) {
        seq!['/'] + body
    } else {
        body
    }
}

/// The canonical form of a path.
pub fn normalize(path: &Vec<char>) -> (r: Vec<char>)
    ensures
        r@ == normalized(path@),
{
    let absolute = path.len() > 0 && path[0] == '/';
    let pieces = split(path, '/');
    let mut steps: Vec<Vec<char>> = Vec::new();
    let mut i: usize = 0;
    proof {
        assert(views(pieces@).take(0) =~= Seq::empty());
        assert(views(steps@) =~= Seq::empty());
    }
    while i < pieces.len()
        invariant
            i <= pieces.len(),
            views(steps@) == steps_of(views(pieces@).take(i as int), absolute),
        decreases pieces.len() - i,
    {
        proof {
            assert(views(pieces@).take(i + 1).drop_last() == views(pieces@).take(i as int));
            assert(views(pieces@).take(i + 1).last() == pieces@[i as int]@);
        }
        let ghost before = views(steps@);
        let piece = &pieces[i];
        if piece.len() == 0 || is_text(piece, ".") {
        } else if is_text(piece, "..") {
            if steps.len() > 0 && !is_text(&steps[steps.len() - 1], "..") {
                assert(before.last() == steps@[steps.len() - 1]@);
                steps.pop();
                assert(views(steps@) =~= before.drop_last());
            } else if absolute {
                assert(steps.len() > 0 ==> before.last() == steps@[steps.len() - 1]@);
            } else {
                assert(steps.len() > 0 ==> before.last() == steps@[steps.len() - 1]@);
                steps.push(slice(piece, 0, piece.len()));
                assert(piece@.subrange(0, piece@.len() as int) == piece@);
                assert(views(steps@) =~= before.push(piece@));
            }
        } else {
            steps.push(slice(piece, 0, piece.len()));
            assert(piece@.subrange(0, piece@.len() as int) == piece@);
            assert(views(steps@) =~= before.push(piece@));
        }
        i += 1;
    }
    proof {
        assert(views(pieces@).take(pieces.len() as int) == views(pieces@));
    }
    let mut out: Vec<char> = Vec::new();
    if absolute {
        out.push('/');
    }
    let ghost front = out@;
    let mut k: usize = 0;
    proof {
        assert(views(steps@).take(0) =~= Seq::empty());
        assert(front + written(views(steps@).take(0)) == front);
    }
    while k < steps.len()
        invariant
            k <= steps.len(),
            out@ == front + written(views(steps@).take(k as int)),
        decreases steps.len() - k,
    {
        proof {
            assert(views(steps@).take(k + 1).drop_last() == views(steps@).take(k as int));
            assert(views(steps@).take(k + 1).last() == steps@[k as int]@);
        }
        if k > 0 {
            out.push('/');
        }
        let next = concat(&out, &steps[k]);
        proof {
            if k > 0 {
                assert(next@ == front + (written(views(steps@).take(k as int)) + seq!['/']
                    + steps@[k as int]@));
            } else {
                assert(written(views(steps@).take(0)) =~= Seq::empty());
            }
        }
        out = next;
        k += 1;
    }
    proof {
        assert(views(steps@).take(steps.len() as int) == views(steps@));
        if !absolute {
            assert(front + written(views(steps@)) == written(views(steps@)));
        }
    }
    out
}

} // verus!
