//! Multipart uploads.

use vstd::prelude::*;
use vstd::string::*;

use crate::api::types::{
    CompletedMultipartUpload, CompletedPart, CreateMultipartUploadResponse, NarInfoCreate,
};
use crate::crypto;

verus! {

/// The parts of the given size that data is cut into. The last one may be shorter.
pub open spec fn chunks(data: Seq<u8>, size: nat) -> Seq<Seq<u8>>
    decreases data.len(),
{
    if data.len() == 0 || size == 0 {
        Seq::empty()
    } else if data.len() <= size {
        seq![data]
    } else {
        seq![data.take(size as int)] + chunks(data.skip(size as int), size)
    }
}

/// The Content-MD5 header of a part: its MD5 digest in base64.
pub open spec fn content_md5_text(data: Seq<u8>) -> Seq<char> {
    crypto::base64_text(crypto::md5_digest(data))
}

/// A part to upload.
#[derive(Debug, Clone)]
pub struct UploadPart {
    pub part_number: u32,
    pub data: Vec<u8>,
    pub content_md5: String,
}

/// Computes `content_md5_text`.
pub fn content_md5(data: &[u8]) -> (r: String)
    ensures
        r@ == content_md5_text(data@),
        r@ == crypto::base64_text(crypto::md5_digest(data@)),
{
    let digest = crypto::md5(data);
    crypto::base64_encode(digest.as_slice())
}

/// The bytes from `from` up to `to`.
fn bytes_between(data: &[u8], from: usize, to: usize) -> (r: Vec<u8>)
    requires
        from <= to <= data@.len(),
    ensures
        r@ == data@.subrange(from as int, to as int),
{
    let mut out: Vec<u8> = Vec::new();
    for i in from..to
        invariant
            to <= data@.len(),
            out@ == data@.subrange(from as int, i as int),
    {
        out.push(data[i]);
        assert(out@ == data@.subrange(from as int, i + 1));
    }
    out
}

/// The parts that data is uploaded in, numbered from 1.
pub fn upload_parts(data: &[u8], chunk_size: usize) -> (r: Vec<UploadPart>)
    requires
        chunk_size > 0,
    ensures
        ({
            let parts = chunks(data@, chunk_size as nat);
            &&& r@.len() == parts.len()
            &&& forall|i: int|
                0 <= i < parts.len() ==> {
                    &&& (#[trigger] r@[i]).part_number == (i + 1) as u32
                    &&& r@[i].data@ == parts[i]
                    &&& r@[i].content_md5@ == content_md5_text(parts[i])
                }
        }),
{
    let ghost parts = chunks(data@, chunk_size as nat);
    let ghost size = chunk_size as nat;
    let mut out: Vec<UploadPart> = Vec::new();
    let mut at: usize = 0;
    assert(data@.skip(0) == data@);
    assert(parts.skip(0) == parts);
    while at < data.len()
        invariant
            chunk_size > 0,
            size == chunk_size,
            at <= data@.len(),
            out@.len() <= at,
            out@.len() <= parts.len(),
            parts.skip(out@.len() as int) == chunks(data@.skip(at as int), size),
            forall|i: int|
                0 <= i < out@.len() ==> {
                    &&& (#[trigger] out@[i]).part_number == (i + 1) as u32
                    &&& out@[i].data@ == parts[i]
                    &&& out@[i].content_md5@ == content_md5_text(parts[i])
                },
        decreases data@.len() - at,
    {
        let rest: usize = data.len() - at;
        let end: usize = if rest <= chunk_size {
            data.len()
        } else {
            at + chunk_size
        };
        let ghost tail = data@.skip(at as int);
        let ghost n = out@.len() as int;
        let chunk = bytes_between(data, at, end);
        proof {
            let later = chunks(tail, size);
            assert(later.len() > 0);
            assert(parts[n] == parts.skip(n)[0]);
            if rest <= chunk_size {
                assert(chunk@ == tail);
                assert(later == seq![tail]);
                assert(data@.skip(end as int) == Seq::<u8>::empty());
                assert(parts.skip(n + 1) == later.skip(1));
                assert(parts.skip(n + 1) == chunks(data@.skip(end as int), size));
            } else {
                assert(chunk@ == tail.take(size as int));
                assert(tail.skip(size as int) == data@.skip(end as int));
                assert(parts.skip(n + 1) == later.skip(1));
                assert(later.skip(1) == chunks(tail.skip(size as int), size));
            }
            assert(chunk@ == parts[n]);
        }
        let content_md5 = content_md5(chunk.as_slice());
        out.push(UploadPart { part_number: (out.len() + 1) as u32, data: chunk, content_md5 });
        at = end;
    }
    assert(data@.skip(at as int) == Seq::<u8>::empty());
    out
}

/// The parts put together again are the data, and none of them is empty or longer
/// than the given size.
pub proof fn chunks_make_the_data(data: Seq<u8>, size: nat)
    requires
        size > 0,
    ensures
        chunks(data, size).flatten() == data,
        forall|i: int|
            0 <= i < chunks(data, size).len() ==> 0 < (#[trigger] chunks(data, size)[i]).len()
                <= size,
    decreases data.len(),
{
    let parts = chunks(data, size);
    if data.len() == 0 {
    } else if data.len() <= size {
        assert(parts.drop_first() == Seq::<Seq<u8>>::empty());
        assert(parts.drop_first().flatten() == Seq::<u8>::empty());
        assert(parts.flatten() == parts.first() + parts.drop_first().flatten());
    } else {
        let rest = chunks(data.skip(size as int), size);
        chunks_make_the_data(data.skip(size as int), size);
        assert(parts.drop_first() == rest);
        assert(parts.flatten() == parts.first() + rest.flatten());
        assert(data.take(size as int) + data.skip(size as int) == data);
        assert forall|i: int| 0 <= i < parts.len() implies 0 < (#[trigger] parts[i]).len()
            <= size by {
            if i > 0 {
                assert(parts[i] == rest[i - 1]);
            }
        }
    }
}

/// All parts but the last have the given size.
pub proof fn chunks_are_full(data: Seq<u8>, size: nat, i: int)
    requires
        0 <= i < chunks(data, size).len() - 1,
    ensures
        chunks(data, size)[i].len() == size,
    decreases data.len(),
{
    let rest = chunks(data.skip(size as int), size);
    if i > 0 {
        chunks_are_full(data.skip(size as int), size, i - 1);
        assert(chunks(data, size)[i] == rest[i - 1]);
    }
}

/// `parts` with one more, behind those whose number is not greater.
pub open spec fn with_part(parts: Seq<(u32, Seq<char>)>, part: (u32, Seq<char>)) -> Seq<
    (u32, Seq<char>),
>
    decreases parts.len(),
{
    if parts.len() == 0 || parts.last().0 <= part.0 {
        parts.push(part)
    } else {
        with_part(parts.drop_last(), part).push(parts.last())
    }
}

/// The parts by ascending number. Parts of the same number keep their order.
pub open spec fn by_number(parts: Seq<(u32, Seq<char>)>) -> Seq<(u32, Seq<char>)>
    decreases parts.len(),
{
    if parts.len() == 0 {
        parts
    } else {
        with_part(by_number(parts.drop_last()), parts.last())
    }
}

/// The numbers and tags of completed parts.
pub open spec fn part_views(parts: Seq<CompletedPart>) -> Seq<(u32, Seq<char>)> {
    parts.map_values(|p: CompletedPart| p@)
}

proof fn lemma_with_part_at(parts: Seq<(u32, Seq<char>)>, part: (u32, Seq<char>), n: int)
    requires
        0 <= n <= parts.len(),
        n > 0 ==> parts[n - 1].0 <= part.0,
        forall|i: int| n <= i < parts.len() ==> (#[trigger] parts[i]).0 > part.0,
    ensures
        with_part(parts, part) == parts.insert(n, part),
    decreases parts.len(),
{
    if n == parts.len() {
        assert(parts.insert(n, part) == parts.push(part));
    } else {
        let init = parts.drop_last();
        assert(parts[parts.len() - 1].0 > part.0);
        assert forall|i: int| n <= i < init.len() implies (#[trigger] init[i]).0 > part.0 by {
            assert(init[i] == parts[i]);
        }
        lemma_with_part_at(init, part, n);
        assert(parts.insert(n, part) == init.insert(n, part).push(parts.last()));
    }
}

/// The parts by ascending number.
fn sorted_by_number(parts: &Vec<CompletedPart>) -> (r: Vec<CompletedPart>)
    ensures
        part_views(r@) == by_number(part_views(parts@)),
        r@.len() == parts@.len(),
{
    let ghost all = part_views(parts@);
    let mut out: Vec<CompletedPart> = Vec::new();
    let mut i: usize = 0;
    assert(part_views(out@) == by_number(all.take(0)));
    while i < parts.len()
        invariant
            i <= parts@.len(),
            all == part_views(parts@),
            out@.len() == i,
            part_views(out@) == by_number(all.take(i as int)),
        decreases parts@.len() - i,
    {
        let number: u32 = parts[i].part_number;
        let mut n: usize = out.len();
        while n > 0 && out[n - 1].part_number > number
            invariant
                n <= out@.len(),
                forall|j: int|
                    n <= j < out@.len() ==> (#[trigger] part_views(out@)[j]).0 > number,
            decreases n,
        {
            n = n - 1;
            assert(part_views(out@)[n as int].0 > number);
        }
        let ghost before = part_views(out@);
        let ghost part = parts@[i as int]@;
        proof {
            lemma_with_part_at(before, part, n as int);
            assert(all.take(i + 1).drop_last() == all.take(i as int));
            assert(all.take(i + 1).last() == part);
        }
        out.insert(n, CompletedPart { part_number: number, e_tag: parts[i].e_tag.clone() });
        assert(part_views(out@) == before.insert(n as int, part));
        i = i + 1;
    }
    assert(all.take(i as int) == all);
    out
}

/// Whether the upload of each part gave a tag.
pub open spec fn all_tagged(tags: Seq<Option<String>>) -> bool {
    forall|i: int| 0 <= i < tags.len() ==> (#[trigger] tags[i]) is Some
}

/// The completed parts, from the parts and the tag that the upload of each gave, if it
/// succeeded. A part that is missing leaves nothing to complete.
pub fn completed_parts(parts: &[UploadPart], tags: &[Option<String>]) -> (r: Option<
    Vec<CompletedPart>,
>)
    requires
        tags@.len() == parts@.len(),
    ensures
        r is Some <==> all_tagged(tags@),
        r is None <==> exists|i: int| 0 <= i < tags@.len() && (#[trigger] tags@[i]) is None,
        r matches Some(completed) ==> {
            &&& completed@.len() == parts@.len()
            &&& forall|i: int|
                0 <= i < parts@.len() ==> (#[trigger] completed@[i])@ == (
                    parts@[i].part_number,
                    tags@[i]->0@,
                )
        },
{
    let mut completed: Vec<CompletedPart> = Vec::new();
    let mut i: usize = 0;
    while i < parts.len()
        invariant
            i <= parts@.len(),
            tags@.len() == parts@.len(),
            completed@.len() == i,
            forall|j: int| 0 <= j < i ==> (#[trigger] tags@[j]) is Some,
            forall|j: int|
                0 <= j < i ==> (#[trigger] completed@[j])@ == (
                    parts@[j].part_number,
                    tags@[j]->0@,
                ),
        decreases parts@.len() - i,
    {
        match &tags[i] {
            Some(tag) => {
                completed.push(
                    CompletedPart { part_number: parts[i].part_number, e_tag: tag.clone() },
                );
            },
            None => {
                assert(tags@[i as int] is None);
                return None;
            },
        }
        i = i + 1;
    }
    Some(completed)
}

/// The request that completes an upload of the given parts.
pub fn completion(parts: Vec<CompletedPart>, nar_info_create: NarInfoCreate) -> (r:
    CompletedMultipartUpload)
    ensures
        r.nar_info_create == nar_info_create,
        match r.parts {
            None => parts@.len() == 0,
            Some(sorted) => parts@.len() > 0 && part_views(sorted@) == by_number(
                part_views(parts@),
            ),
        },
{
    let sorted = sorted_by_number(&parts);
    CompletedMultipartUpload {
        parts: if sorted.len() == 0 {
            None
        } else {
            Some(sorted)
        },
        nar_info_create,
    }
}

/// Whether the numbers of parts ascend.
pub open spec fn ascends(parts: Seq<(u32, Seq<char>)>) -> bool {
    forall|i: int, j: int|
        0 <= i <= j < parts.len() ==> (#[trigger] parts[i]).0 <= (#[trigger] parts[j]).0
}

proof fn lemma_with_part(parts: Seq<(u32, Seq<char>)>, part: (u32, Seq<char>))
    requires
        ascends(parts),
    ensures
        ascends(with_part(parts, part)),
        with_part(parts, part).to_multiset() == parts.to_multiset().insert(part),
        forall|i: int|
            0 <= i < with_part(parts, part).len() ==> {
                let p = #[trigger] with_part(parts, part)[i];
                p == part || parts.contains(p)
            },
    decreases parts.len(),
{
    broadcast use vstd::seq_lib::group_to_multiset_ensures;
    let all = with_part(parts, part);
    if parts.len() == 0 || parts.last().0 <= part.0 {
        assert forall|i: int, j: int| 0 <= i <= j < all.len() implies (#[trigger] all[i]).0 <= (
        #[trigger] all[j]).0 by {
            if j == parts.len() && i < j {
                assert(parts[i].0 <= parts[parts.len() - 1].0);
            }
        }
        assert forall|i: int| 0 <= i < all.len() implies {
            let p = #[trigger] all[i];
            p == part || parts.contains(p)
        } by {
            if i < parts.len() {
                assert(parts[i] == all[i]);
            }
        }
    } else {
        let init = parts.drop_last();
        let last = parts.last();
        assert(ascends(init)) by {
            assert forall|i: int, j: int| 0 <= i <= j < init.len() implies (#[trigger] init[i]).0
                <= (#[trigger] init[j]).0 by {
                assert(parts[i] == init[i] && parts[j] == init[j]);
            }
        }
        lemma_with_part(init, part);
        let earlier = with_part(init, part);
        assert(parts == init.push(last));
        assert(all.to_multiset() == earlier.to_multiset().insert(last));
        assert(parts.to_multiset() == init.to_multiset().insert(last));
        assert(all.to_multiset() == parts.to_multiset().insert(part));
        assert forall|i: int| 0 <= i < earlier.len() implies (#[trigger] earlier[i]).0 <= last.0 by {
            let p = earlier[i];
            if p != part {
                let k = choose|k: int| 0 <= k < init.len() && init[k] == p;
                assert(parts[k].0 <= parts[parts.len() - 1].0);
            }
        }
        assert forall|i: int, j: int| 0 <= i <= j < all.len() implies (#[trigger] all[i]).0 <= (
        #[trigger] all[j]).0 by {
            if j < earlier.len() {
                assert(earlier[i].0 <= earlier[j].0);
            } else if i < earlier.len() {
                assert(earlier[i].0 <= last.0);
            }
        }
        assert forall|i: int| 0 <= i < all.len() implies {
            let p = #[trigger] all[i];
            p == part || parts.contains(p)
        } by {
            if i < earlier.len() {
                let p = earlier[i];
                if p != part {
                    let k = choose|k: int| 0 <= k < init.len() && init[k] == p;
                    assert(parts[k] == p);
                }
            } else {
                assert(parts[parts.len() - 1] == last);
            }
        }
    }
}

/// The parts of a completed upload are those that were uploaded, and their numbers
/// ascend.
pub proof fn completed_parts_ascend(parts: Seq<(u32, Seq<char>)>)
    ensures
        ascends(by_number(parts)),
        by_number(parts).to_multiset() == parts.to_multiset(),
    decreases parts.len(),
{
    broadcast use vstd::seq_lib::group_to_multiset_ensures;
    if parts.len() > 0 {
        completed_parts_ascend(parts.drop_last());
        lemma_with_part(by_number(parts.drop_last()), parts.last());
        assert(parts == parts.drop_last().push(parts.last()));
    }
}

/// Parts whose numbers ascend are completed in the order that they have.
pub proof fn ascending_parts_stay(parts: Seq<(u32, Seq<char>)>)
    requires
        ascends(parts),
    ensures
        by_number(parts) == parts,
    decreases parts.len(),
{
    if parts.len() > 0 {
        let init = parts.drop_last();
        assert forall|i: int, j: int| 0 <= i <= j < init.len() implies (#[trigger] init[i]).0 <= (
        #[trigger] init[j]).0 by {
            assert(parts[i] == init[i] && parts[j] == init[j]);
        }
        ascending_parts_stay(init);
        if init.len() > 0 {
            assert(parts[init.len() - 1].0 <= parts[parts.len() - 1].0);
        }
        assert(parts == init.push(parts.last()));
    }
}

/// Tags beside the numbers of their parts, which are numbered from 1.
pub open spec fn numbered(tags: Seq<Seq<char>>) -> Seq<(u32, Seq<char>)> {
    Seq::new(tags.len(), |i: int| ((i + 1) as u32, tags[i]))
}

/// Parts that are numbered from 1 are completed in the order of the data, each with its
/// own tag, where their number fits a part number.
pub proof fn numbered_parts_stay(tags: Seq<Seq<char>>)
    requires
        tags.len() <= u32::MAX,
    ensures
        by_number(numbered(tags)) == numbered(tags),
{
    ascending_parts_stay(numbered(tags));
}

/// How far a multipart upload has come. The states name what is to be done next.
#[derive(Debug)]
pub enum UploadState {
    /// The upload is to be created.
    Creating,
    /// Its parts are to be uploaded.
    Uploading(CreateMultipartUploadResponse),
    /// It is to be completed with these parts.
    Completing(CreateMultipartUploadResponse, Vec<CompletedPart>),
    /// It is to be given up.
    Aborting(CreateMultipartUploadResponse),
    /// It is over.
    Succeeded,
    Failed,
}

/// What became of the last request of a multipart upload.
#[derive(Debug)]
pub enum UploadEvent {
    Created(CreateMultipartUploadResponse),
    /// The uploads of the parts are over, with all of them completed, or with one missing.
    PartsUploaded(Option<Vec<CompletedPart>>),
    Completed,
    Aborted,
    RequestFailed,
}

/// The next state of an upload. An upload that was created is given up when one of
/// its requests fails or a part is missing, and fails whether or not it could be given up.
pub open spec fn next_state(state: UploadState, event: UploadEvent) -> UploadState {
    match (state, event) {
        (UploadState::Creating, UploadEvent::Created(upload)) => UploadState::Uploading(upload),
        (UploadState::Creating, UploadEvent::RequestFailed) => UploadState::Failed,
        (UploadState::Uploading(upload), UploadEvent::PartsUploaded(Some(parts))) =>
            UploadState::Completing(upload, parts),
        (UploadState::Uploading(upload), UploadEvent::PartsUploaded(None)) =>
            UploadState::Aborting(upload),
        (UploadState::Uploading(upload), UploadEvent::RequestFailed) => UploadState::Aborting(
            upload,
        ),
        (UploadState::Completing(_, _), UploadEvent::Completed) => UploadState::Succeeded,
        (UploadState::Completing(upload, _), UploadEvent::RequestFailed) => UploadState::Aborting(
            upload,
        ),
        (UploadState::Aborting(_), UploadEvent::Aborted) => UploadState::Failed,
        (UploadState::Aborting(_), UploadEvent::RequestFailed) => UploadState::Failed,
        (state, _) => state,
    }
}

/// Computes `next_state`.
pub fn do_multipart_upload(state: UploadState, event: UploadEvent) -> (r: UploadState)
    ensures
        r == next_state(state, event),
{
    match (state, event) {
        (UploadState::Creating, UploadEvent::Created(upload)) => UploadState::Uploading(upload),
        (UploadState::Creating, UploadEvent::RequestFailed) => UploadState::Failed,
        (UploadState::Uploading(upload), UploadEvent::PartsUploaded(Some(parts))) =>
            UploadState::Completing(upload, parts),
        (UploadState::Uploading(upload), UploadEvent::PartsUploaded(None)) =>
            UploadState::Aborting(upload),
        (UploadState::Uploading(upload), UploadEvent::RequestFailed) => UploadState::Aborting(
            upload,
        ),
        (UploadState::Completing(_, _), UploadEvent::Completed) => UploadState::Succeeded,
        (UploadState::Completing(upload, _), UploadEvent::RequestFailed) => UploadState::Aborting(
            upload,
        ),
        (UploadState::Aborting(_), UploadEvent::Aborted) => UploadState::Failed,
        (UploadState::Aborting(_), UploadEvent::RequestFailed) => UploadState::Failed,
        (state, _) => state,
    }
}

/// The state of an upload after the given events.
pub open spec fn after(events: Seq<UploadEvent>) -> UploadState
    decreases events.len(),
{
    if events.len() == 0 {
        UploadState::Creating
    } else {
        next_state(after(events.drop_last()), events.last())
    }
}

/// The upload that was created, in a state in which it is not over.
pub open spec fn upload_of(state: UploadState) -> Option<CreateMultipartUploadResponse> {
    match state {
        UploadState::Uploading(upload) => Some(upload),
        UploadState::Completing(upload, _) => Some(upload),
        UploadState::Aborting(upload) => Some(upload),
        _ => None,
    }
}

/// An upload that was created and failed was to be given up before it failed.
pub proof fn failed_upload_was_aborted(events: Seq<UploadEvent>, n: int)
    requires
        0 <= n <= events.len(),
        upload_of(after(events.take(n))) is Some,
        after(events) is Failed,
    ensures
        exists|k: int|
            n <= k < events.len() && #[trigger] after(events.take(k)) == UploadState::Aborting(
                upload_of(after(events.take(n)))->0,
            ),
    decreases events.len(),
{
    let init = events.drop_last();
    assert(events.take(events.len() as int) == events);
    assert(init.take(n) == events.take(n));
    let upload = upload_of(after(events.take(n)))->0;
    if after(init) is Failed {
        failed_upload_was_aborted(init, n);
        let k = choose|k: int|
            n <= k < init.len() && #[trigger] after(init.take(k)) == UploadState::Aborting(upload);
        assert(init.take(k) == events.take(k));
        assert(after(events.take(k)) == UploadState::Aborting(upload));
    } else {
        lemma_upload_stays(events, n, init.len() as int);
        assert(events.take(init.len() as int) == init);
        assert(after(events.take(init.len() as int)) == UploadState::Aborting(upload));
    }
}

/// The requests of an upload are all for the upload that was created.
proof fn lemma_upload_stays(events: Seq<UploadEvent>, n: int, k: int)
    requires
        0 <= n <= k <= events.len(),
        upload_of(after(events.take(n))) is Some,
    ensures
        match after(events.take(k)) {
            UploadState::Creating => false,
            UploadState::Succeeded => true,
            UploadState::Failed => true,
            state => upload_of(state) == upload_of(after(events.take(n))),
        },
    decreases k - n,
{
    if n < k {
        lemma_upload_stays(events, n, k - 1);
        assert(events.take(k).drop_last() == events.take(k - 1));
    }
}

/// An upload that succeeded was never to be given up.
pub proof fn succeeded_upload_was_not_aborted(events: Seq<UploadEvent>, k: int)
    requires
        0 <= k <= events.len(),
        after(events) is Succeeded,
    ensures
        !(after(events.take(k)) is Aborting),
    decreases events.len(),
{
    assert(events.take(events.len() as int) == events);
    if k < events.len() {
        let init = events.drop_last();
        assert(init.take(k) == events.take(k));
        if after(init) is Succeeded {
            succeeded_upload_was_not_aborted(init, k);
        } else if after(events.take(k)) is Aborting {
            lemma_aborting_fails(init, k);
        }
    }
}

/// An upload that is to be given up can only fail.
proof fn lemma_aborting_fails(events: Seq<UploadEvent>, k: int)
    requires
        0 <= k <= events.len(),
        after(events.take(k)) is Aborting,
    ensures
        after(events) is Aborting || after(events) is Failed,
    decreases events.len(),
{
    assert(events.take(events.len() as int) == events);
    if k < events.len() {
        let init = events.drop_last();
        assert(init.take(k) == events.take(k));
        lemma_aborting_fails(init, k);
    }
}

/// An upload is completed only with the parts that its uploads gave, and never where one
/// of them is missing.
pub proof fn completed_upload_has_its_parts(events: Seq<UploadEvent>)
    requires
        after(events) is Completing,
    ensures
        exists|k: int|
            0 <= k < events.len() && #[trigger] events[k] == UploadEvent::PartsUploaded(
                Some(after(events)->Completing_1),
            ) && after(events.take(k)) == UploadState::Uploading(after(events)->Completing_0),
    decreases events.len(),
{
    let init = events.drop_last();
    let parts = after(events)->Completing_1;
    if after(init) is Completing {
        completed_upload_has_its_parts(init);
        let k = choose|k: int|
            0 <= k < init.len() && #[trigger] init[k] == UploadEvent::PartsUploaded(Some(parts))
                && after(init.take(k)) == UploadState::Uploading(after(init)->Completing_0);
        assert(events[k] == init[k]);
        assert(events.take(k) == init.take(k));
    } else {
        let k = events.len() - 1;
        assert(events.take(k) == init);
        assert(events[k] == UploadEvent::PartsUploaded(Some(parts)));
    }
}

/// An upload that succeeded was to be completed before.
pub proof fn succeeded_upload_was_completed(events: Seq<UploadEvent>)
    requires
        after(events) is Succeeded,
    ensures
        exists|k: int| 0 <= k < events.len() && #[trigger] after(events.take(k)) is Completing,
    decreases events.len(),
{
    let init = events.drop_last();
    if after(init) is Succeeded {
        succeeded_upload_was_completed(init);
        let k = choose|k: int| 0 <= k < init.len() && #[trigger] after(init.take(k)) is Completing;
        assert(events.take(k) == init.take(k));
        assert(after(events.take(k)) is Completing);
    } else {
        let k = events.len() - 1;
        assert(events.take(k) == init);
        assert(after(events.take(k)) is Completing);
    }
}

/// An upload that nothing goes wrong with succeeds, whatever its parts are: it is created,
/// its parts are uploaded, and it is completed with just these parts.
pub proof fn sound_upload_succeeds(
    upload: CreateMultipartUploadResponse,
    parts: Vec<CompletedPart>,
)
    ensures
        after(seq![]) is Creating,
        after(seq![UploadEvent::Created(upload)]) == UploadState::Uploading(upload),
        after(seq![UploadEvent::Created(upload), UploadEvent::PartsUploaded(Some(parts))])
            == UploadState::Completing(upload, parts),
        after(
            seq![
                UploadEvent::Created(upload),
                UploadEvent::PartsUploaded(Some(parts)),
                UploadEvent::Completed,
            ],
        ) is Succeeded,
{
    let first = UploadEvent::Created(upload);
    let second = UploadEvent::PartsUploaded(Some(parts));
    let one = seq![first];
    let two = seq![first, second];
    let three = seq![first, second, UploadEvent::Completed];
    assert(one.drop_last() == Seq::<UploadEvent>::empty());
    assert(two.drop_last() == one);
    assert(three.drop_last() == two);
}

/// An upload is given up or fails only where a request failed or a part is missing.
pub proof fn only_a_mishap_ends_an_upload(events: Seq<UploadEvent>)
    requires
        after(events) is Aborting || after(events) is Failed,
    ensures
        exists|k: int|
            0 <= k < events.len() && (#[trigger] events[k] == UploadEvent::RequestFailed
                || events[k] == UploadEvent::PartsUploaded(None)),
    decreases events.len(),
{
    let init = events.drop_last();
    if after(init) is Aborting || after(init) is Failed {
        only_a_mishap_ends_an_upload(init);
        let k = choose|k: int|
            0 <= k < init.len() && (#[trigger] init[k] == UploadEvent::RequestFailed || init[k]
                == UploadEvent::PartsUploaded(None));
        assert(events[k] == init[k]);
    } else {
        assert(events[events.len() - 1] == events.last());
    }
}

/// An upload that was created is given up, by its own name, when a request fails or a part
/// is missing before it is over; where it could not be created there is nothing to give up.
/// It has then failed, whatever came of giving it up.
pub proof fn mishap_ends_an_upload(events: Seq<UploadEvent>, event: UploadEvent)
    ensures
        after(events) is Creating ==> after(events.push(UploadEvent::RequestFailed)) is Failed,
        after(events) matches UploadState::Uploading(upload) ==> {
            &&& after(events.push(UploadEvent::RequestFailed)) == UploadState::Aborting(upload)
            &&& after(events.push(UploadEvent::PartsUploaded(None))) == UploadState::Aborting(
                upload,
            )
        },
        after(events) matches UploadState::Completing(upload, _) ==> after(
            events.push(UploadEvent::RequestFailed),
        ) == UploadState::Aborting(upload),
        after(events) is Aborting ==> after(events.push(UploadEvent::Aborted)) is Failed && after(
            events.push(UploadEvent::RequestFailed),
        ) is Failed,
        after(events) is Succeeded ==> after(events.push(event)) is Succeeded,
        after(events) is Failed ==> after(events.push(event)) is Failed,
{
    assert(events.push(event).drop_last() == events);
    assert(events.push(UploadEvent::RequestFailed).drop_last() == events);
    assert(events.push(UploadEvent::PartsUploaded(None)).drop_last() == events);
    assert(events.push(UploadEvent::Aborted).drop_last() == events);
}

/// From each state an upload goes on as soon as what is to be done is done.
pub proof fn upload_goes_on(
    events: Seq<UploadEvent>,
    created: CreateMultipartUploadResponse,
    parts: Vec<CompletedPart>,
)
    ensures
        after(events) is Creating ==> after(events.push(UploadEvent::Created(created)))
            == UploadState::Uploading(created),
        after(events) matches UploadState::Uploading(upload) ==> after(
            events.push(UploadEvent::PartsUploaded(Some(parts))),
        ) == UploadState::Completing(upload, parts),
        after(events) is Completing ==> after(events.push(UploadEvent::Completed)) is Succeeded,
{
    assert(events.push(UploadEvent::Created(created)).drop_last() == events);
    assert(events.push(UploadEvent::PartsUploaded(Some(parts))).drop_last() == events);
    assert(events.push(UploadEvent::Completed).drop_last() == events);
}

/// The Content-MD5 header of a part is the MD5 digest of all its data in base64.
pub proof fn content_md5_is_of_the_data(data: Seq<u8>)
    ensures
        content_md5_text(data) == crypto::base64_text(crypto::md5_digest(data)),
{
}

/// Parts of the same number are completed in the order in which they were uploaded.
pub proof fn parts_of_a_number_keep_their_order(parts: Seq<(u32, Seq<char>)>, n: u32)
    ensures
        by_number(parts).filter(|part: (u32, Seq<char>)| part.0 == n) == parts.filter(
            |part: (u32, Seq<char>)| part.0 == n,
        ),
    decreases parts.len(),
{
    let same = |part: (u32, Seq<char>)| part.0 == n;
    reveal(Seq::filter);
    if parts.len() > 0 {
        let init = parts.drop_last();
        parts_of_a_number_keep_their_order(init, n);
        completed_parts_ascend(init);
        lemma_with_part_filtered(by_number(init), parts.last(), n);
    }
}

proof fn lemma_with_part_filtered(
    parts: Seq<(u32, Seq<char>)>,
    part: (u32, Seq<char>),
    n: u32,
)
    requires
        ascends(parts),
    ensures
        with_part(parts, part).filter(|part: (u32, Seq<char>)| part.0 == n) == if part.0 == n {
            parts.filter(|part: (u32, Seq<char>)| part.0 == n).push(part)
        } else {
            parts.filter(|part: (u32, Seq<char>)| part.0 == n)
        },
    decreases parts.len(),
{
    let same = |part: (u32, Seq<char>)| part.0 == n;
    reveal(Seq::filter);
    let all = with_part(parts, part);
    if parts.len() == 0 || parts.last().0 <= part.0 {
        assert(all.drop_last() == parts);
        assert(all.last() == part);
    } else {
        let init = parts.drop_last();
        assert(ascends(init)) by {
            assert forall|i: int, j: int| 0 <= i <= j < init.len() implies (#[trigger] init[i]).0
                <= (#[trigger] init[j]).0 by {
                assert(parts[i] == init[i] && parts[j] == init[j]);
            }
        }
        lemma_with_part_filtered(init, part, n);
        assert(all.drop_last() == with_part(init, part));
        assert(all.last() == parts.last());
    }
}

/// Completed parts are known by their numbers and tags, each in its place.
pub proof fn parts_have_their_tags(parts: Seq<CompletedPart>, i: int)
    requires
        0 <= i < parts.len(),
    ensures
        part_views(parts).len() == parts.len(),
        part_views(parts)[i] == (parts[i].part_number, parts[i].e_tag@),
{
}

/// An upload that is to be completed has a tag of each part.
pub proof fn all_parts_have_tags(tags: Seq<Option<String>>)
    ensures
        all_tagged(tags) <==> !exists|i: int| 0 <= i < tags.len() && (#[trigger] tags[i]) is None,
{
}

/// An event that does not answer what is to be done changes nothing.
pub proof fn other_events_leave_an_upload(events: Seq<UploadEvent>, event: UploadEvent)
    requires
        after(events) is Creating ==> !(event is Created) && !(event is RequestFailed),
        after(events) is Uploading ==> !(event is PartsUploaded) && !(event is RequestFailed),
        after(events) is Completing ==> !(event is Completed) && !(event is RequestFailed),
        after(events) is Aborting ==> !(event is Aborted) && !(event is RequestFailed),
    ensures
        after(events.push(event)) == after(events),
{
    assert(events.push(event).drop_last() == events);
}

}
