//! Claiming uploaded SQL files before a batch runs.
//!
//! Each upload that was previewed has a pending clean-up that deletes it
//! after a while. A batch claims all its uploads at once: either every one is
//! claimed (its clean-up is taken out, to be cancelled) or, when one of them
//! is unavailable, none is.
use crate::error::{AppError, ErrorKind};
use crate::paths::{path_validation, resolution_view, validated_uploaded_sql_path};
use crate::progress::opt_view;
use crate::registry::Registry;
use vstd::prelude::*;

verus! {

/// The JSON text that `serde_json::to_string` makes of a list of strings, if
/// it makes one.
pub uninterp spec fn json_string_list(items: Seq<Seq<char>>) -> Option<Seq<char>>;

/// The characters of each string of a list.
pub open spec fn strings_view(items: Seq<String>) -> Seq<Seq<char>> {
    items.map_values(|s: String| s@)
}

/// Whether `t` occurs in `s` as a contiguous part.
pub open spec fn contains_text(s: Seq<char>, t: Seq<char>) -> bool {
    exists|i: int| 0 <= i && i + t.len() <= s.len() && #[trigger] s.subrange(i, i + t.len()) == t
}

/// A string that JSON writes without escapes: no control character, no `"`
/// and no `\`.
pub open spec fn is_plain_json_text(s: Seq<char>) -> bool {
    forall|i: int| 0 <= i < s.len() ==> (#[trigger] s[i] as u32) >= 32 && s[i] != '"' && s[i] != '\\'
}

/// `s` between double quotes.
pub open spec fn quoted(s: Seq<char>) -> Seq<char> {
    seq!['"'] + s + seq!['"']
}

/// `serde_json::to_string` on a list of strings, named by `json_string_list`.
/// The contract states what the serializer's source shows: writing strings
/// into a byte vector cannot fail, and each string is written between quotes
/// with only control characters, `"` and `\` escaped.
#[verifier::external_body]
fn to_json_string_list(items: &Vec<String>) -> (r: Option<String>)
    ensures
        opt_view(r) == json_string_list(strings_view(items@)),
        r is Some,
        r matches Some(json) ==> forall|i: int|
            0 <= i < items@.len() && is_plain_json_text(#[trigger] items@[i]@) ==> contains_text(
                json@,
                quoted(items@[i]@),
            ),
{
    match serde_json::to_string(items) {
        Ok(text) => Some(text),
        Err(_) => None,
    }
}

/// One upload that a batch asks to claim: its path as the client sent it,
/// and the outcome of resolving that path on disk.
#[derive(Debug)]
pub struct UploadCandidate {
    pub file_path: String,
    pub canonical_path: Result<String, String>,
    pub is_file: bool,
}

/// The view of a candidate: its path, its resolution, and whether the
/// resolved path is a regular file.
pub open spec fn candidate_view(c: UploadCandidate) -> (Seq<char>, Result<Seq<char>, Seq<char>>, bool) {
    (c.file_path@, resolution_view(c.canonical_path), c.is_file)
}

/// The views of a list of candidates.
pub open spec fn candidates_view(cs: Seq<UploadCandidate>) -> Seq<(Seq<char>, Result<Seq<char>, Seq<char>>, bool)> {
    cs.map_values(|c: UploadCandidate| candidate_view(c))
}

/// An upload cannot be claimed when it has no pending clean-up or its path
/// does not lie in the upload tree.
pub open spec fn is_unavailable<H>(
    pending: Map<Seq<char>, H>,
    candidate: (Seq<char>, Result<Seq<char>, Seq<char>>, bool),
    canonical_tmp: Result<Seq<char>, Seq<char>>,
) -> bool {
    !pending.contains_key(candidate.0) || path_validation(candidate.1, candidate.2, canonical_tmp) is Err
}

/// The paths of the unavailable candidates, in request order.
pub open spec fn unavailable_paths<H>(
    pending: Map<Seq<char>, H>,
    cs: Seq<(Seq<char>, Result<Seq<char>, Seq<char>>, bool)>,
    canonical_tmp: Result<Seq<char>, Seq<char>>,
) -> Seq<Seq<char>>
    decreases cs.len(),
{
    if cs.len() == 0 {
        Seq::empty()
    } else {
        let before = unavailable_paths(pending, cs.drop_last(), canonical_tmp);
        if is_unavailable(pending, cs.last(), canonical_tmp) {
            before.push(cs.last().0)
        } else {
            before
        }
    }
}

/// Every candidate that has no pending clean-up, or whose path is not a file
/// in the upload tree, is listed among the unavailable paths; so the list
/// is empty only when every candidate has a pending clean-up and a valid
/// path.
pub proof fn lemma_unavailable_paths<H>(
    pending: Map<Seq<char>, H>,
    cs: Seq<(Seq<char>, Result<Seq<char>, Seq<char>>, bool)>,
    canonical_tmp: Result<Seq<char>, Seq<char>>,
)
    ensures
        forall|i: int|
            0 <= i < cs.len() && (!pending.contains_key(#[trigger] cs[i].0) || path_validation(
                cs[i].1,
                cs[i].2,
                canonical_tmp,
            ) is Err) ==> unavailable_paths(pending, cs, canonical_tmp).contains(cs[i].0),
        unavailable_paths(pending, cs, canonical_tmp).len() == 0 ==> forall|i: int|
            0 <= i < cs.len() ==> pending.contains_key(#[trigger] cs[i].0) && path_validation(
                cs[i].1,
                cs[i].2,
                canonical_tmp,
            ) is Ok,
    decreases cs.len(),
{
    let u = unavailable_paths(pending, cs, canonical_tmp);
    if cs.len() > 0 {
        let init = cs.drop_last();
        lemma_unavailable_paths(pending, init, canonical_tmp);
        let ui = unavailable_paths(pending, init, canonical_tmp);
        assert forall|i: int|
            0 <= i < cs.len() && (!pending.contains_key(#[trigger] cs[i].0) || path_validation(
                cs[i].1,
                cs[i].2,
                canonical_tmp,
            ) is Err) implies u.contains(cs[i].0) by {
            if i < init.len() {
                assert(init[i] == cs[i]);
                let d = choose|d: int| 0 <= d < ui.len() && ui[d] == init[i].0;
                assert(u[d] == ui[d]);
            } else {
                assert(u[u.len() - 1] == cs[i].0);
            }
        }
    }
}

/// The pending clean-ups left after taking those of `paths` in order.
pub open spec fn remaining_after<H>(pending: Map<Seq<char>, H>, paths: Seq<Seq<char>>) -> Map<
    Seq<char>,
    H,
>
    decreases paths.len(),
{
    if paths.len() == 0 {
        pending
    } else {
        remaining_after(pending, paths.drop_last()).remove(paths.last())
    }
}

/// The clean-ups taken out when those of `paths` are taken in order (a path
/// that occurs twice gives its clean-up once).
pub open spec fn taken_from<H>(pending: Map<Seq<char>, H>, paths: Seq<Seq<char>>) -> Seq<H>
    decreases paths.len(),
{
    if paths.len() == 0 {
        Seq::empty()
    } else {
        let left = remaining_after(pending, paths.drop_last());
        let before = taken_from(pending, paths.drop_last());
        if left.contains_key(paths.last()) {
            before.push(left[paths.last()])
        } else {
            before
        }
    }
}

/// Taking the clean-ups of `paths` one after the other removes exactly the
/// keys that occur in `paths`.
pub proof fn lemma_remaining_after<H>(pending: Map<Seq<char>, H>, paths: Seq<Seq<char>>)
    ensures
        remaining_after(pending, paths) == pending.remove_keys(paths.to_set()),
    decreases paths.len(),
{
    if paths.len() == 0 {
        assert(paths.to_set() =~= Set::<Seq<char>>::empty());
        assert(pending.remove_keys(paths.to_set()) =~= pending);
    } else {
        let init = paths.drop_last();
        lemma_remaining_after(pending, init);
        assert(init.push(paths.last()) =~= paths);
        init.lemma_push_to_set_commute(paths.last());
        assert(remaining_after(pending, paths) =~= pending.remove_keys(paths.to_set()));
    }
}

/// "Unable to claim all SQL file uploads; unavailable paths: " followed by
/// the JSON list of the paths (nothing when the list could not be written).
pub open spec fn claim_failure_text(unavailable: Seq<Seq<char>>) -> Seq<char> {
    "Unable to claim all SQL file uploads; unavailable paths: "@ + match json_string_list(
        unavailable,
    ) {
        Some(json) => json,
        None => Seq::empty(),
    }
}

/// The result of a successful claim: how many paths the batch named, and
/// the pending clean-ups taken out (to be cancelled).
#[derive(Debug)]
pub struct ClaimedUploads<H> {
    pub claimed: usize,
    pub handles: Vec<H>,
}

/// The paths of the candidates, in order.
pub open spec fn candidate_paths(cs: Seq<UploadCandidate>) -> Seq<Seq<char>> {
    cs.map_values(|c: UploadCandidate| c.file_path@)
}

/// Claims all the uploads of a batch at once.
///
/// `canonical_tmp` is the outcome of resolving the upload root on disk. When
/// some candidate is unavailable, nothing is claimed and the answer is a
/// bad-request error that lists the unavailable paths; otherwise every
/// candidate's pending clean-up is taken out and handed back.
pub fn claim_sql_file_uploads<H>(
    pending: &mut Registry<H>,
    candidates: &Vec<UploadCandidate>,
    canonical_tmp: &Result<String, String>,
) -> (r: Result<ClaimedUploads<H>, AppError>)
    requires
        old(pending).wf(),
    ensures
        final(pending).wf(),
        ({
            let unavailable = unavailable_paths(
                old(pending)@,
                candidates_view(candidates@),
                resolution_view(*canonical_tmp),
            );
            &&& unavailable.len() > 0 ==> {
                &&& final(pending)@ == old(pending)@
                &&& json_string_list(unavailable) is Some
                &&& r matches Err(e) && e.kind == ErrorKind::BadRequest && e.message@
                    == claim_failure_text(unavailable)
                &&& r matches Err(e) && forall|d: int|
                    0 <= d < unavailable.len() && is_plain_json_text(#[trigger] unavailable[d])
                        ==> contains_text(e.message@, quoted(unavailable[d]))
            }
            &&& unavailable.len() == 0 ==> {
                &&& final(pending)@ == old(pending)@.remove_keys(candidate_paths(candidates@).to_set())
                &&& r matches Ok(c) && c.claimed == candidates@.len() && c.handles@ == taken_from(
                    old(pending)@,
                    candidate_paths(candidates@),
                )
            }
        }),
        forall|i: int|
            0 <= i < candidates@.len() && !old(pending)@.contains_key(
                (#[trigger] candidates@[i]).file_path@,
            ) ==> r is Err && final(pending)@ == old(pending)@,
        forall|i: int|
            0 <= i < candidates@.len() && path_validation(
                resolution_view((#[trigger] candidates@[i]).canonical_path),
                candidates@[i].is_file,
                resolution_view(*canonical_tmp),
            ) is Err ==> r is Err && final(pending)@ == old(pending)@,
        r is Ok ==> forall|i: int|
            0 <= i < candidates@.len() ==> old(pending)@.contains_key(
                (#[trigger] candidates@[i]).file_path@,
            ) && path_validation(
                resolution_view(candidates@[i].canonical_path),
                candidates@[i].is_file,
                resolution_view(*canonical_tmp),
            ) is Ok,
{
    let ghost cs = candidates_view(candidates@);
    let ghost tmp = resolution_view(*canonical_tmp);
    let ghost start = pending@;
    proof {
        lemma_unavailable_paths(start, cs, tmp);
        assert forall|i: int| 0 <= i < candidates@.len() implies #[trigger] cs[i] == candidate_view(
            candidates@[i],
        ) by {}
        let u = unavailable_paths(start, cs, tmp);
        assert forall|i: int| 0 <= i < candidates@.len() && (!start.contains_key(
            (#[trigger] candidates@[i]).file_path@,
        ) || path_validation(
            resolution_view(candidates@[i].canonical_path),
            candidates@[i].is_file,
            tmp,
        ) is Err) implies u.len() > 0 by {
            assert(cs[i] == candidate_view(candidates@[i]));
            assert(u.contains(cs[i].0));
        }
    }
    let n = candidates.len();
    let mut unavailable: Vec<String> = Vec::new();
    let mut i: usize = 0;
    while i < n
        invariant
            n == candidates@.len(),
            i <= n,
            pending.wf(),
            pending@ == start,
            cs == candidates_view(candidates@),
            tmp == resolution_view(*canonical_tmp),
            strings_view(unavailable@) == unavailable_paths(start, cs.take(i as int), tmp),
        decreases n - i,
    {
        let candidate = &candidates[i];
        let missing = !pending.contains_key(&candidate.file_path);
        let rejected = missing || validated_uploaded_sql_path(
            &candidate.canonical_path,
            candidate.is_file,
            canonical_tmp,
        ).is_err();
        proof {
            assert(cs.take(i + 1).drop_last() =~= cs.take(i as int));
            assert(cs.take(i + 1).last() == candidate_view(*candidate));
            assert(rejected == is_unavailable(start, cs.take(i + 1).last(), tmp));
        }
        if rejected {
            unavailable.push(candidate.file_path.clone());
        }
        proof {
            assert(strings_view(unavailable@) =~= unavailable_paths(start, cs.take(i + 1), tmp));
        }
        i = i + 1;
    }
    proof {
        assert(cs.take(n as int) =~= cs);
    }
    if unavailable.len() > 0 {
        let mut message = String::from_str("Unable to claim all SQL file uploads; unavailable paths: ");
        let ghost prefix = message@;
        match to_json_string_list(&unavailable) {
            Some(json) => {
                message.append(json.as_str());
                proof {
                    assert forall|d: int|
                        0 <= d < unavailable@.len() && is_plain_json_text(
                            #[trigger] strings_view(unavailable@)[d],
                        ) implies contains_text(message@, quoted(strings_view(unavailable@)[d])) by {
                        let t = quoted(unavailable@[d]@);
                        assert(is_plain_json_text(unavailable@[d]@));
                        let i = choose|i: int|
                            0 <= i && i + t.len() <= json@.len() && #[trigger] json@.subrange(i, i + t.len()) == t;
                        assert(message@.subrange(prefix.len() + i, prefix.len() + i + t.len()) =~= json@.subrange(
                            i,
                            i + t.len(),
                        ));
                    }
                }
            },
            None => {},
        }
        return Err(AppError::bad_request(message));
    }
    let ghost paths = candidate_paths(candidates@);
    let mut handles: Vec<H> = Vec::new();
    let mut j: usize = 0;
    while j < n
        invariant
            n == candidates@.len(),
            j <= n,
            pending.wf(),
            paths == candidate_paths(candidates@),
            pending@ == remaining_after(start, paths.take(j as int)),
            handles@ == taken_from(start, paths.take(j as int)),
        decreases n - j,
    {
        proof {
            assert(paths.take(j + 1).drop_last() =~= paths.take(j as int));
            assert(paths.take(j + 1).last() == candidates@[j as int].file_path@);
        }
        match pending.remove(&candidates[j].file_path) {
            Some(handle) => handles.push(handle),
            None => {},
        }
        j = j + 1;
    }
    proof {
        assert(paths.take(n as int) =~= paths);
        lemma_remaining_after(start, paths);
    }
    Ok(ClaimedUploads { claimed: n, handles })
}

/// The clean-up of an upload comes due: it takes its own entry out and
/// answers whether the upload is still to be deleted, which is the case only
/// when no execution or batch has claimed it meanwhile.
pub fn expire_upload<H>(pending: &mut Registry<H>, file_path: &String) -> (delete: bool)
    requires
        old(pending).wf(),
    ensures
        final(pending).wf(),
        final(pending)@ == old(pending)@.remove(file_path@),
        delete == old(pending)@.contains_key(file_path@),
{
    pending.remove(file_path).is_some()
}

/// What releasing an upload does: the pending clean-up taken out (to be
/// cancelled) and the resolved path to delete, if the path lies in the
/// upload tree.
#[derive(Debug)]
pub struct Release<H> {
    pub cleanup: Option<H>,
    pub delete_path: Option<String>,
}

/// Releases an upload that was previewed but will not be executed.
///
/// `canonical_path` and `canonical_tmp` are the outcomes of resolving the
/// path and the upload root on disk. A path that was already released, or
/// never uploaded, leaves the pending clean-ups as they are.
pub fn release_sql_file_upload<H>(
    pending: &mut Registry<H>,
    file_path: &String,
    canonical_path: &Result<String, String>,
    is_file: bool,
    canonical_tmp: &Result<String, String>,
) -> (r: Release<H>)
    requires
        old(pending).wf(),
    ensures
        final(pending).wf(),
        final(pending)@ == old(pending)@.remove(file_path@),
        match r.cleanup {
            Some(h) => old(pending)@.contains_key(file_path@) && h == old(pending)@[file_path@],
            None => !old(pending)@.contains_key(file_path@),
        },
        opt_view(r.delete_path) == match path_validation(
            resolution_view(*canonical_path),
            is_file,
            resolution_view(*canonical_tmp),
        ) {
            Ok(p) => Some(p),
            Err(_) => None,
        },
{
    let cleanup = pending.remove(file_path);
    let delete_path = match validated_uploaded_sql_path(canonical_path, is_file, canonical_tmp) {
        Ok(path) => Some(path),
        Err(_) => None,
    };
    Release { cleanup, delete_path }
}

/// A previewed upload can be claimed while its clean-up is pending: once its
/// clean-up is registered under its path, and its path is a file in the
/// upload tree, a batch of that upload alone finds nothing unavailable.
pub proof fn lemma_registered_upload_is_claimable<H>(
    pending: Map<Seq<char>, H>,
    cleanup: H,
    candidate: (Seq<char>, Result<Seq<char>, Seq<char>>, bool),
    canonical_tmp: Result<Seq<char>, Seq<char>>,
)
    requires
        path_validation(candidate.1, candidate.2, canonical_tmp) is Ok,
    ensures
        unavailable_paths(pending.insert(candidate.0, cleanup), seq![candidate], canonical_tmp).len()
            == 0,
{
    let cs = seq![candidate];
    assert(cs.drop_last() =~= Seq::<(Seq<char>, Result<Seq<char>, Seq<char>>, bool)>::empty());
    assert(unavailable_paths(pending.insert(candidate.0, cleanup), cs.drop_last(), canonical_tmp).len()
        == 0);
}

/// Releasing is idempotent: a second release of the same path takes nothing
/// out and leaves the pending clean-ups as the first left them.
pub proof fn lemma_release_idempotent<H>(pending: Map<Seq<char>, H>, file_path: Seq<char>)
    ensures
        !pending.remove(file_path).contains_key(file_path),
        pending.remove(file_path).remove(file_path) == pending.remove(file_path),
{
    assert(pending.remove(file_path).remove(file_path) =~= pending.remove(file_path));
}

/// A claimed upload is not deleted by its clean-up: once an execution or a
/// batch has taken the clean-up out, the clean-up finds no entry and
/// answers that nothing is to be deleted.
pub proof fn lemma_claimed_upload_survives_expiry<H>(
    pending: Map<Seq<char>, H>,
    claimed: Seq<Seq<char>>,
    file_path: Seq<char>,
)
    requires
        claimed.contains(file_path),
    ensures
        !pending.remove_keys(claimed.to_set()).contains_key(file_path),
        !pending.remove(file_path).contains_key(file_path),
{
}

} // verus!
