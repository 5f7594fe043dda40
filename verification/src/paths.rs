//! Where uploads are written and which paths an execution may read.
//!
//! Paths are handled as text (`String`), as the routes receive and answer
//! them. Path syntax is that of Unix, where the server runs.
use crate::error::{AppError, ErrorKind};
use crate::progress::opt_view;
use vstd::prelude::*;

verus! {

/// The name that an upload without a usable file name is stored under.
pub const DEFAULT_UPLOAD_NAME: &'static str = "upload.sql";

/// The text `.`, the current directory.
pub open spec fn dot() -> Seq<char> {
    seq!['.']
}

/// The text `..`, the parent directory.
pub open spec fn dot_dot() -> Seq<char> {
    seq!['.', '.']
}

/// The text after the last `/` of `p` (all of `p` when it has none).
pub open spec fn last_segment(p: Seq<char>) -> Seq<char>
    decreases p.len(),
{
    if p.len() == 0 {
        p
    } else if p.last() == '/' {
        Seq::empty()
    } else {
        last_segment(p.drop_last()).push(p.last())
    }
}

/// `p` is its text up to and including its last `/`, then its last segment.
pub proof fn lemma_last_segment(p: Seq<char>)
    ensures
        last_segment(p).len() <= p.len(),
        p == p.subrange(0, p.len() - last_segment(p).len()) + last_segment(p),
        !last_segment(p).contains('/'),
        p.len() - last_segment(p).len() > 0 ==> p[p.len() - last_segment(p).len() - 1] == '/',
    decreases p.len(),
{
    if p.len() == 0 {
        assert(p == p.subrange(0, 0) + p);
    } else if p.last() == '/' {
        assert(p.subrange(0, p.len() as int) + Seq::<char>::empty() =~= p);
    } else {
        let init = p.drop_last();
        lemma_last_segment(init);
        let s = last_segment(init);
        assert(last_segment(p) == s.push(p.last()));
        assert(p.subrange(0, p.len() - s.len() - 1) =~= init.subrange(0, init.len() - s.len()));
        let k = init.len() - s.len();
        assert(init == init.subrange(0, k) + s);
        assert(p =~= init.push(p.last()));
        assert(init.push(p.last()) =~= init.subrange(0, k) + s.push(p.last()));
        assert(p =~= p.subrange(0, p.len() - last_segment(p).len()) + last_segment(p));
        assert(!last_segment(p).contains('/')) by {
            if last_segment(p).contains('/') {
                let i = choose|i: int| 0 <= i < last_segment(p).len() && last_segment(p)[i] == '/';
                if i < s.len() {
                    assert(s[i] == '/');
                }
            }
        }
        if p.len() - last_segment(p).len() > 0 {
            assert(p[p.len() - last_segment(p).len() - 1] == init[init.len() - s.len() - 1]);
        }
    }
}

/// The last segment of `head + name`, where `head` is empty or ends in `/`
/// and `name` holds no `/`, is `name`.
pub proof fn lemma_last_segment_after_separator(head: Seq<char>, name: Seq<char>)
    requires
        head.len() == 0 || head.last() == '/',
        !name.contains('/'),
    ensures
        last_segment(head + name) == name,
    decreases name.len(),
{
    if name.len() == 0 {
        assert(head + name =~= head);
    } else {
        let init = name.drop_last();
        assert(!init.contains('/')) by {
            if init.contains('/') {
                let i = choose|i: int| 0 <= i < init.len() && init[i] == '/';
                assert(name[i] == '/');
            }
        }
        lemma_last_segment_after_separator(head, init);
        assert((head + name).drop_last() =~= head + init);
        assert(name[name.len() - 1] != '/');
        assert(init.push(name.last()) =~= name);
    }
}

/// The final component of `path` as `std::path::Path::file_name` finds it on
/// Unix: the last of its `/`-separated parts, where empty parts and `.`
/// parts are skipped, and `None` when no part is left or the last is `..`.
pub open spec fn final_component(path: Seq<char>) -> Option<Seq<char>>
    decreases path.len(),
{
    let s = last_segment(path);
    let head = path.subrange(0, path.len() - s.len());
    if s == dot_dot() {
        None
    } else if s.len() == 0 || s == dot() {
        if head.len() == 0 {
            None
        } else {
            proof {
                lemma_last_segment(path);
            }
            final_component(head.drop_last())
        }
    } else {
        Some(s)
    }
}

/// One plain path component: not empty, without a separator, and neither
/// `.` nor `..`.
pub open spec fn is_single_component(name: Seq<char>) -> bool {
    &&& name.len() > 0
    &&& !name.contains('/')
    &&& name != dot()
    &&& name != dot_dot()
}

/// What `final_component` finds is always one plain component.
pub proof fn lemma_final_component_is_single(path: Seq<char>)
    ensures
        final_component(path) matches Some(name) ==> is_single_component(name),
    decreases path.len(),
{
    lemma_last_segment(path);
    let s = last_segment(path);
    let head = path.subrange(0, path.len() - s.len());
    if s != dot_dot() && (s.len() == 0 || s == dot()) && head.len() > 0 {
        lemma_final_component_is_single(head.drop_last());
    }
}

/// A path that ends in a plain component `name` after a `/` (or that is
/// `name` alone) has `name` as its final component.
pub proof fn lemma_final_component_of_name(head: Seq<char>, name: Seq<char>)
    requires
        head.len() == 0 || head.last() == '/',
        is_single_component(name),
    ensures
        final_component(head + name) == Some(name),
{
    lemma_last_segment_after_separator(head, name);
}

/// Whether `p` is a resolved absolute path, as resolution on disk gives
/// them: it starts with `/`, has no empty, `.` or `..` part, and ends in `/`
/// only when it is the root.
pub open spec fn is_resolved_path(p: Seq<char>) -> bool {
    &&& p.len() > 0
    &&& p[0] == '/'
    &&& (p.len() == 1 || p.last() != '/')
    &&& forall|i: int| 0 <= i < p.len() - 1 && p[i] == '/' ==> #[trigger] p[i + 1] != '/'
    &&& forall|i: int|
        0 <= i < p.len() - 1 && p[i] == '/' && #[trigger] p[i + 1] == '.' ==> {
            &&& i + 2 < p.len()
            &&& p[i + 2] != '/'
            &&& p[i + 2] == '.' ==> (i + 3 < p.len() && p[i + 3] != '/')
        }
}

/// Component prefix for resolved paths: the same path, the root, or a path
/// that continues `base` after a `/`.
pub open spec fn resolved_prefix(path: Seq<char>, base: Seq<char>) -> bool {
    ||| path == base
    ||| base == seq!['/']
    ||| (path.len() > base.len() && path.subrange(0, base.len() as int) == base && path[base.len() as int]
        == '/')
}

/// Whether `base` is a prefix of `path` component by component, as
/// `std::path::Path::starts_with` decides it.
pub uninterp spec fn has_path_prefix(path: Seq<char>, base: Seq<char>) -> bool;

/// The path that `part` denotes relative to `base` (Unix rules): an absolute
/// `part` replaces `base`; otherwise a separator is put between the two unless
/// `base` is empty or already ends in one.
pub open spec fn joined_path(base: Seq<char>, part: Seq<char>) -> Seq<char> {
    if part.len() > 0 && part[0] == '/' {
        part
    } else if base.len() == 0 || base.last() == '/' {
        base + part
    } else {
        base + seq!['/'] + part
    }
}

/// `std::path::Path::join` on Unix: the contract states the documented rule
/// of `PathBuf::push` (an absolute argument replaces the path, otherwise a
/// separator is added where the path does not end in one). Both arguments
/// are valid UTF-8 and the call only adds a `/`, so the lossy conversion back
/// to a `String` changes nothing.
#[verifier::external_body]
fn join_path(base: &str, part: &str) -> (r: String)
    ensures
        r@ == joined_path(base@, part@),
{
    std::path::Path::new(base).join(part).to_string_lossy().into_owned()
}

/// `std::path::Path::file_name` on Unix. The contract states what its
/// documentation gives: the final component of the path's components, where
/// repeated separators and `.` parts are normalized away, and none when the
/// path is empty, the root, `.` alone, or ends in `..`. A component of a
/// valid UTF-8 path is valid UTF-8, so the conversion to `String` is exact.
#[verifier::external_body]
fn file_name_of(path: &str) -> (r: Option<String>)
    ensures
        opt_view(r) == final_component(path@),
{
    match std::path::Path::new(path).file_name() {
        Some(name) => Some(name.to_string_lossy().into_owned()),
        None => None,
    }
}

/// `std::path::Path::starts_with`: whole-component prefix test, named by
/// `has_path_prefix`. For two resolved absolute paths the components are the
/// root and the `/`-separated parts, so the test reduces to `resolved_prefix`.
#[verifier::external_body]
fn path_starts_with(path: &str, base: &str) -> (r: bool)
    ensures
        r == has_path_prefix(path@, base@),
        is_resolved_path(path@) && is_resolved_path(base@) ==> r == resolved_prefix(path@, base@),
{
    std::path::Path::new(path).starts_with(base)
}

/// The name an upload called `file_name` is stored under: the final
/// component of the name when there is one, else the default.
pub open spec fn upload_basename(file_name: Seq<char>) -> Seq<char> {
    match final_component(file_name) {
        Some(name) => if name.len() > 0 {
            name
        } else {
            DEFAULT_UPLOAD_NAME@
        },
        None => DEFAULT_UPLOAD_NAME@,
    }
}

/// The stored name of an upload is one plain component, and a name that is
/// already one plain component is stored under itself.
pub proof fn lemma_upload_basename(file_name: Seq<char>)
    ensures
        is_single_component(upload_basename(file_name)),
        is_single_component(file_name) ==> upload_basename(file_name) == file_name,
{
    reveal_strlit("upload.sql");
    assert(!DEFAULT_UPLOAD_NAME@.contains('/'));
    assert(DEFAULT_UPLOAD_NAME@.len() == 10);
    lemma_final_component_is_single(file_name);
    if is_single_component(file_name) {
        lemma_final_component_of_name(Seq::empty(), file_name);
        assert(Seq::<char>::empty() + file_name =~= file_name);
    }
}

/// The joined path of a plain `name` under `dir`: `dir`, a `/` unless `dir`
/// is empty or ends in one, then `name`.
pub proof fn lemma_join_plain_name(dir: Seq<char>, name: Seq<char>)
    requires
        is_single_component(name),
    ensures
        dir.len() == 0 || dir.last() == '/' ==> joined_path(dir, name) == dir + name,
        !(dir.len() == 0 || dir.last() == '/') ==> joined_path(dir, name) == dir + seq!['/'] + name,
        final_component(joined_path(dir, name)) == Some(name),
{
    assert(name[0] != '/') by {
        if name[0] == '/' {
            assert(name.contains('/'));
        }
    }
    if dir.len() == 0 || dir.last() == '/' {
        lemma_final_component_of_name(dir, name);
    } else {
        let head = dir + seq!['/'];
        assert(head + name =~= dir + seq!['/'] + name);
        lemma_final_component_of_name(head, name);
    }
}

/// The destination of an uploaded file inside `upload_dir`: only the final
/// component of the client's file name is used, so no name can lead out of
/// `upload_dir`; a plain name is kept as it is.
pub fn safe_uploaded_sql_path(upload_dir: &str, file_name: &str) -> (r: Result<String, AppError>)
    ensures
        r is Ok,
        r matches Ok(path) ==> path@ == joined_path(upload_dir@, upload_basename(file_name@)),
        is_single_component(upload_basename(file_name@)),
        is_single_component(file_name@) ==> upload_basename(file_name@) == file_name@,
        r matches Ok(path) ==> {
            ||| path@ == upload_dir@ + upload_basename(file_name@)
            ||| path@ == upload_dir@ + seq!['/'] + upload_basename(file_name@)
        },
        r matches Ok(path) ==> final_component(path@) == Some(upload_basename(file_name@)),
{
    proof {
        reveal_strlit("upload.sql");
        lemma_upload_basename(file_name@);
        lemma_join_plain_name(upload_dir@, upload_basename(file_name@));
    }
    let basename = match file_name_of(file_name) {
        Some(name) => if !name.as_str().is_empty() {
            name
        } else {
            String::from_str(DEFAULT_UPLOAD_NAME)
        },
        None => String::from_str(DEFAULT_UPLOAD_NAME),
    };
    proof {
        let b = upload_basename(file_name@);
        assert(basename@ == b);
        assert(b[0] != '/') by {
            if b[0] == '/' {
                assert(b.contains('/'));
            }
        }
    }
    Ok(join_path(upload_dir, basename.as_str()))
}

/// A stored upload keeps its place: storing it again under its own stored
/// name, in the same directory, gives the same path.
pub proof fn lemma_restore_under_stored_name(upload_dir: Seq<char>, file_name: Seq<char>)
    ensures
        ({
            let path = joined_path(upload_dir, upload_basename(file_name));
            &&& final_component(path) == Some(upload_basename(file_name))
            &&& joined_path(upload_dir, upload_basename(upload_basename(file_name))) == path
        }),
{
    lemma_upload_basename(file_name);
    lemma_upload_basename(upload_basename(file_name));
    lemma_join_plain_name(upload_dir, upload_basename(file_name));
}

/// The root of the upload tree, `data_dir/tmp`.
pub fn upload_tmp_root(data_dir: &str) -> (r: String)
    ensures
        r@ == joined_path(data_dir@, "tmp"@),
{
    join_path(data_dir, "tmp")
}

/// The directory of one upload, `tmp_root/upload_id`.
pub fn upload_dir_path(tmp_root: &str, upload_id: &str) -> (r: String)
    ensures
        r@ == joined_path(tmp_root@, upload_id@),
{
    join_path(tmp_root, upload_id)
}

/// The text of a random UUID as the `uuid` crate writes it: 36 characters,
/// lowercase hexadecimal digits and hyphens.
pub open spec fn is_uuid_text(s: Seq<char>) -> bool {
    &&& s.len() == 36
    &&& forall|i: int|
        0 <= i < s.len() ==> ('0' <= #[trigger] s[i] <= '9' || 'a' <= s[i] <= 'f' || s[i] == '-')
}

/// `uuid::Uuid::new_v4().to_string()`. The id is random; the contract states
/// what holds of every outcome, as the crate's formatting source shows: the
/// hyphenated form, 32 lowercase hex digits and 4 hyphens. (The call panics
/// only when the operating system cannot supply random bytes.)
#[verifier::external_body]
fn random_upload_id() -> (r: String)
    ensures
        is_uuid_text(r@),
{
    uuid::Uuid::new_v4().to_string()
}

/// A fresh upload directory: its random id and its path under the root.
#[derive(Debug)]
pub struct UploadDir {
    pub upload_id: String,
    pub path: String,
}

/// Picks a fresh random upload directory under `tmp_root`, so that two
/// uploads of the same name do not overwrite each other. The id is one
/// plain component, so the directory sits directly under `tmp_root`.
pub fn new_upload_dir(tmp_root: &str) -> (r: UploadDir)
    ensures
        is_uuid_text(r.upload_id@),
        is_single_component(r.upload_id@),
        r.path@ == joined_path(tmp_root@, r.upload_id@),
{
    let upload_id = random_upload_id();
    proof {
        let s = upload_id@;
        assert(!s.contains('/')) by {
            if s.contains('/') {
                let i = choose|i: int| 0 <= i < s.len() && s[i] == '/';
                assert('0' <= s[i] <= '9' || 'a' <= s[i] <= 'f' || s[i] == '-');
            }
        }
        assert(s != dot()) by { assert(s.len() != dot().len()); }
        assert(s != dot_dot()) by { assert(s.len() != dot_dot().len()); }
    }
    let path = join_path(tmp_root, upload_id.as_str());
    UploadDir { upload_id, path }
}

/// Uploads with different ids get different directories, and files in
/// them different paths, whatever their names.
pub proof fn lemma_distinct_upload_dirs(
    tmp_root: Seq<char>,
    id1: Seq<char>,
    id2: Seq<char>,
    name1: Seq<char>,
    name2: Seq<char>,
)
    requires
        is_single_component(id1),
        is_single_component(id2),
        id1 != id2,
    ensures
        joined_path(tmp_root, id1) != joined_path(tmp_root, id2),
        joined_path(joined_path(tmp_root, id1), upload_basename(name1)) != joined_path(
            joined_path(tmp_root, id2),
            upload_basename(name2),
        ),
{
    lemma_join_plain_name(tmp_root, id1);
    lemma_join_plain_name(tmp_root, id2);
    let d1 = joined_path(tmp_root, id1);
    let d2 = joined_path(tmp_root, id2);
    let h = if tmp_root.len() == 0 || tmp_root.last() == '/' { tmp_root } else { tmp_root + seq!['/'] };
    assert(d1 =~= h + id1);
    assert(d2 =~= h + id2);
    if d1 == d2 {
        assert(id1 =~= d1.subrange(h.len() as int, d1.len() as int));
        assert(id2 =~= d2.subrange(h.len() as int, d2.len() as int));
    }
    lemma_upload_basename(name1);
    lemma_upload_basename(name2);
    lemma_join_plain_name(d1, upload_basename(name1));
    lemma_join_plain_name(d2, upload_basename(name2));
    let p1 = joined_path(d1, upload_basename(name1));
    let p2 = joined_path(d2, upload_basename(name2));
    if p1 == p2 {
        // The final components agree, so the directories must too.
        assert(upload_basename(name1) == upload_basename(name2));
        let b = upload_basename(name1);
        assert(id1.last() != '/') by {
            if id1.last() == '/' {
                assert(id1.contains('/'));
            }
        }
        assert(id2.last() != '/') by {
            if id2.last() == '/' {
                assert(id2.contains('/'));
            }
        }
        assert(d1.last() == id1.last());
        assert(d2.last() == id2.last());
        assert(p1 =~= d1 + seq!['/'] + b);
        assert(p2 =~= d2 + seq!['/'] + b);
        assert(d1.len() == d2.len());
        assert(d1 =~= p1.subrange(0, d1.len() as int));
        assert(d2 =~= p2.subrange(0, d2.len() as int));
    }
}

/// An uploaded file sits two levels under the upload root: in the upload's
/// own directory, named by a plain upload id, under the stored name.
pub proof fn lemma_preview_path_two_levels(tmp_root: Seq<char>, upload_id: Seq<char>, file_name: Seq<char>)
    requires
        is_single_component(upload_id),
        tmp_root.len() > 0,
        tmp_root.last() != '/',
    ensures
        ({
            let dir = joined_path(tmp_root, upload_id);
            let path = joined_path(dir, upload_basename(file_name));
            &&& dir == tmp_root + seq!['/'] + upload_id
            &&& path == dir + seq!['/'] + upload_basename(file_name)
            &&& final_component(dir) == Some(upload_id)
            &&& final_component(path) == Some(upload_basename(file_name))
        }),
{
    lemma_join_plain_name(tmp_root, upload_id);
    lemma_upload_basename(file_name);
    let dir = joined_path(tmp_root, upload_id);
    assert(dir.last() == upload_id.last());
    assert(upload_id.last() != '/') by {
        if upload_id.last() == '/' {
            assert(upload_id.contains('/'));
        }
    }
    lemma_join_plain_name(dir, upload_basename(file_name));
}

/// Whether the path of an execution request may be read: both the path and
/// the upload root resolved on disk, the resolved path lies inside the
/// resolved root, and it is a regular file (not a directory, nor the root).
pub open spec fn path_validation(
    canonical_path: Result<Seq<char>, Seq<char>>,
    is_file: bool,
    canonical_tmp: Result<Seq<char>, Seq<char>>,
) -> Result<Seq<char>, (ErrorKind, Seq<char>)> {
    match canonical_path {
        Err(e) => Err((ErrorKind::Internal, e)),
        Ok(path) => match canonical_tmp {
            Err(e) => Err((ErrorKind::Internal, e)),
            Ok(tmp) => if !has_path_prefix(path, tmp) {
                Err((ErrorKind::Internal, "SQL file path is outside the upload directory"@))
            } else if !is_file {
                Err((ErrorKind::Internal, "SQL file path is not a file"@))
            } else {
                Ok(path)
            },
        },
    }
}

/// The view of a resolution outcome.
pub open spec fn resolution_view(r: Result<String, String>) -> Result<Seq<char>, Seq<char>> {
    match r {
        Ok(p) => Ok(p@),
        Err(e) => Err(e@),
    }
}

/// The view of a validation outcome.
pub open spec fn validation_view(r: Result<String, AppError>) -> Result<Seq<char>, (ErrorKind, Seq<char>)> {
    match r {
        Ok(p) => Ok(p@),
        Err(e) => Err((e.kind, e.message@)),
    }
}

/// Checks that a path given to the execute route is a file in the upload tree.
///
/// `canonical_path` is the outcome of resolving the requested path on disk,
/// `is_file` whether that resolved path is a regular file, and
/// `canonical_tmp` the outcome of resolving `data_dir/tmp` (the text of an
/// error on failure). The answer is the resolved path, or the first failure.
pub fn validated_uploaded_sql_path(
    canonical_path: &Result<String, String>,
    is_file: bool,
    canonical_tmp: &Result<String, String>,
) -> (r: Result<String, AppError>)
    ensures
        validation_view(r) == path_validation(
            resolution_view(*canonical_path),
            is_file,
            resolution_view(*canonical_tmp),
        ),
        canonical_path matches Ok(p) ==> canonical_tmp matches Ok(t) ==> is_resolved_path(p@)
            && is_resolved_path(t@) ==> has_path_prefix(p@, t@) == resolved_prefix(p@, t@),
        r matches Ok(accepted) ==> {
            &&& is_file
            &&& canonical_path matches Ok(p) && accepted@ == p@
            &&& canonical_tmp matches Ok(t) && has_path_prefix(accepted@, t@)
        },
        !is_file ==> r is Err,
        canonical_path is Err || canonical_tmp is Err ==> r is Err,
        canonical_path matches Ok(p) ==> canonical_tmp matches Ok(t) ==> is_file ==> has_path_prefix(
            p@,
            t@,
        ) ==> r is Ok,
{
    match canonical_path {
        Err(e) => Err(AppError::from_message(e.clone())),
        Ok(path) => match canonical_tmp {
            Err(e) => Err(AppError::from_message(e.clone())),
            Ok(tmp) => {
                if !path_starts_with(path.as_str(), tmp.as_str()) {
                    Err(
                        AppError::from_message(
                            String::from_str("SQL file path is outside the upload directory"),
                        ),
                    )
                } else if !is_file {
                    Err(AppError::from_message(String::from_str("SQL file path is not a file")))
                } else {
                    Ok(path.clone())
                }
            },
        },
    }
}

} // verus!
