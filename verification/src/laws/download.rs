//! Laws of downloads.

use crate::client::{museum_blob_step, storage_blob_step, ApiFault, BlobStepView, Peer, ReplyView};
use crate::crypto::{base64_bytes, stream_plain, stream_pull, stream_start, CryptoFault};
use crate::files::{blob_plain, ImageView};
use crate::laws::boxes::{
    damaged_stream_is_refused, first_of_flattened, stream_goes_on_behind_a_chunk, stream_joins_all_chunks, ChunkRun,
};
use crate::laws::readings::piece_ends_at_the_first_occurrence;
use dryoc::classic::crypto_secretstream_xchacha20poly1305::State;
use vstd::prelude::*;

verus! {

/// A file whose header and key can decrypt a stream that starts in `state`.
pub open spec fn opens_in(file: ImageView, header: Seq<u8>, state: State) -> bool {
    &&& base64_bytes(file.decryption_header) == Ok::<Seq<u8>, CryptoFault>(header)
    &&& header.len() == 24
    &&& file.key.len() == 32
    &&& state == stream_start(header, file.key)
}

/// A download gives the whole file: all the messages of its blob, joined in the
/// order of the chunks.
pub proof fn download_gives_the_whole_file(
    file: ImageView,
    header: Seq<u8>,
    state: State,
    run: ChunkRun,
)
    requires
        opens_in(file, header, state),
        run.starts(state),
    ensures
        blob_plain(file, run.chunks.flatten()) == Ok::<Seq<u8>, ApiFault>(run.messages.flatten()),
{
    stream_joins_all_chunks(state, run);
}

/// A download goes on behind a full chunk that is not tagged as the last: what the
/// chunk holds is followed by the plaintext of the rest under the next state, and a
/// rest that does not decrypt makes the download fail.
pub proof fn download_goes_on_behind_a_chunk(
    file: ImageView,
    header: Seq<u8>,
    state: State,
    chunk: Seq<u8>,
    message: Seq<u8>,
    tag: u8,
    next: State,
    rest: Seq<u8>,
)
    requires
        opens_in(file, header, state),
        chunk.len() == 4 * 1024 * 1024 + 17,
        stream_pull(state, chunk) == Some((message, tag, next)),
        tag != 3,
    ensures
        match stream_plain(next, rest) {
            Some(more) => blob_plain(file, chunk + rest) == Ok::<Seq<u8>, ApiFault>(message + more),
            None => blob_plain(file, chunk + rest) is Err,
        },
{
    stream_goes_on_behind_a_chunk(state, chunk, message, tag, next, rest);
}

/// A blob that is one chunk gives what that chunk holds; one that does not match
/// gives an error.
pub proof fn download_of_one_chunk(
    file: ImageView,
    header: Seq<u8>,
    state: State,
    chunk: Seq<u8>,
)
    requires
        opens_in(file, header, state),
        17 <= chunk.len() <= 4 * 1024 * 1024 + 17,
    ensures
        match stream_pull(state, chunk) {
            Some((message, _, _)) => blob_plain(file, chunk) == Ok::<Seq<u8>, ApiFault>(message),
            None => blob_plain(file, chunk) == Err::<Seq<u8>, ApiFault>(
                ApiFault::Decode("crypto operation failed"@),
            ),
        },
{
    assert(chunk.subrange(0, chunk.len() as int) =~= chunk);
    match stream_pull(state, chunk) {
        Some((message, tag, next)) => {
            let run = ChunkRun {
                chunks: seq![chunk],
                messages: seq![message],
                tags: seq![tag],
                states: seq![state, next],
            };
            assert(run.starts(state));
            download_gives_the_whole_file(file, header, state, run);
            first_of_flattened(run.chunks);
            first_of_flattened(run.messages);
            assert(run.chunks.drop_first() =~= Seq::empty());
            assert(run.messages.drop_first() =~= Seq::empty());
            assert(run.chunks.flatten() =~= chunk);
            assert(run.messages.flatten() =~= message);
        },
        None => damaged_stream_is_refused(state, chunk),
    }
}

/// A file whose header is no base64 of 24 bytes, or whose key has not 32 bytes, is
/// never given out.
pub proof fn download_needs_header_and_key(file: ImageView, encrypted: Seq<u8>)
    requires
        file.key.len() != 32 || (base64_bytes(file.decryption_header) matches Ok(header)
            ==> header.len() != 24),
    ensures
        blob_plain(file, encrypted) is Err,
{
}

/// A blob comes from the museum where it answers with a success, and from where it
/// redirects to otherwise; whatever else it answers is an error with its status and
/// its text.
pub proof fn blob_comes_from_museum_or_storage(reply: ReplyView)
    ensures
        200 <= reply.status <= 299 <==> museum_blob_step(Ok(reply)) is Open,
        300 <= reply.status <= 399 ==> (match reply.location {
            Some(to) => museum_blob_step(Ok(reply)) matches BlobStepView::Ask(request, location)
                && location == to && request.url == to && request.peer == Peer::Storage,
            None => museum_blob_step(Ok(reply)) matches BlobStepView::Failed(e) && e.code() == 502,
        }),
        reply.status < 200 || reply.status >= 400 ==> museum_blob_step(Ok(reply))
            == BlobStepView::Failed(ApiFault::Status(reply.status, reply.text)),
{
}

/// A museum or a storage backend that cannot be reached is told apart, and a refusal
/// of the storage backend shows where it came from, without the query of the URL.
pub proof fn failed_downloads_are_told(
    url: Seq<char>,
    query: Seq<char>,
    reply: ReplyView,
    e: Seq<char>,
)
    requires
        !url.contains('?'),
    ensures
        museum_blob_step(Err(e)) == BlobStepView::Failed(
            ApiFault::Transport("cannot reach museum instance: "@ + e),
        ),
        storage_blob_step(url, Err(e)) == BlobStepView::Failed(
            ApiFault::Transport("cannot reach file storage: "@ + e),
        ),
        !(200 <= reply.status <= 299) ==> storage_blob_step(
            url + seq!['?'] + query,
            Ok(reply),
        ) == BlobStepView::Failed(
            ApiFault::Status(
                reply.status,
                "storage backend rejected request ("@ + url + "): "@ + reply.text,
            ),
        ),
{
    piece_ends_at_the_first_occurrence(url, '?', query);
}

/// The storage backend's answer is the blob exactly where it is a success.
pub proof fn storage_gives_the_blob(
    location: Seq<char>,
    sent: Result<ReplyView, Seq<char>>,
)
    ensures
        storage_blob_step(location, sent) is Open <==> (sent matches Ok(reply) && 200
            <= reply.status <= 299),
        sent matches Ok(reply) ==> (storage_blob_step(location, sent) matches BlobStepView::Failed(
            e,
        ) ==> e.code() == reply.status),
        sent is Err ==> (storage_blob_step(location, sent) matches BlobStepView::Failed(e)
            && e is Transport),
        !(storage_blob_step(location, sent) is Ask),
{
}

} // verus!
