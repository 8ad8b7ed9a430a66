//! Laws of the settings and of the requests to the museum.

use crate::account::{attributes_request, totp_request};
use crate::client::{
    empty_answer, json_answer, ApiFault, ClientView, Method, Peer, ReplyView, RequestView,
};
use crate::config::{env_flag, env_number, env_text, env_value, says_yes, Settings};
use crate::doc::DocTree;
use crate::faces::mldata_request;
use crate::files::{collections_request, diff_request, trash_request};
use crate::json::{parsed_json, JsonTree};
use crate::laws::readings::trim_end_drops_one_character;
use crate::people::{entity_diff_request, entity_key_request};
use crate::text::{decimal, lowercase, parsed_within, trimmed};
use vstd::prelude::*;

verus! {

// ---------------------------------- requests -------------------------------

/// Whether a request goes to the museum with a client's headers: what it is, what it
/// accepts, and the token of the session where there is one.
pub open spec fn goes_to_museum(request: RequestView, client: ClientView, path: Seq<char>) -> bool {
    &&& request.peer == Peer::Museum
    &&& request.url == client.base_url + path
    &&& request.headers.len() == (if client.token is Some {
        3int
    } else {
        2int
    })
    &&& request.headers[0] == ("X-Client-Package"@, "io.ente.photos"@)
    &&& request.headers[1] == ("Accept"@, "application/json"@)
    &&& client.token matches Some(token) ==> request.headers[2] == ("X-Auth-Token"@, token)
}

/// Whether a request reads a path with query parameters.
pub open spec fn reads(
    request: RequestView,
    client: ClientView,
    path: Seq<char>,
    query: Seq<(Seq<char>, Seq<char>)>,
) -> bool {
    &&& goes_to_museum(request, client, path)
    &&& request.method == Method::Get
    &&& request.query == query
    &&& request.body is None
}

/// Whether a request sends fields to a path.
pub open spec fn sends(
    request: RequestView,
    client: ClientView,
    path: Seq<char>,
    fields: Seq<(Seq<char>, DocTree)>,
) -> bool {
    &&& goes_to_museum(request, client, path)
    &&& request.method == Method::Post
    &&& request.query.len() == 0
    &&& request.body matches Some(DocTree::Fields(sent))
    &&& sent == fields
}

/// A GET asks the museum for the path and the parameters it is given; a POST sends
/// the document it is given.
pub proof fn requests_say_what_they_are_given(
    client: ClientView,
    path: Seq<char>,
    params: Seq<(Seq<char>, Seq<char>)>,
    fields: Seq<(Seq<char>, DocTree)>,
)
    ensures
        reads(client.get(path, params), client, path, params),
        sends(client.post(path, DocTree::Fields(fields)), client, path, fields),
{
}

/// A blob is asked for at its own URL, with the headers of the client.
pub proof fn blobs_are_asked_for_with_the_token(client: ClientView, url: Seq<char>)
    ensures
        client.get_blob(url).url == url,
        client.get_blob(url).peer == Peer::Museum,
        client.get_blob(url).method == Method::Get,
        client.get_blob(url).body is None,
        client.get_blob(url).query.len() == 0,
        client.get_blob(url).headers == client.get(Seq::empty(), Seq::empty()).headers,
{
}

/// A synchronisation asks for all albums, and for the changes of one album after a
/// time.
pub proof fn albums_and_changes_are_asked_for(client: ClientView, album: i64, since: i64)
    ensures
        reads(
            collections_request(client),
            client,
            "/collections/v2"@,
            seq![("sinceTime"@, "0"@)],
        ),
        reads(
            diff_request(client, album, since),
            client,
            "/collections/v2/diff"@,
            seq![
                ("collectionID"@, decimal(album as int)),
                ("sinceTime"@, decimal(since as int)),
            ],
        ),
{
}

/// People are asked for with their key, then page by page after a time.
pub proof fn people_are_asked_for(client: ClientView, since: i64)
    ensures
        reads(
            entity_key_request(client),
            client,
            "/user-entity/key"@,
            seq![("type"@, "cgroup"@)],
        ),
        reads(
            entity_diff_request(client, since),
            client,
            "/user-entity/entity/diff"@,
            seq![
                ("type"@, "cgroup"@),
                ("sinceTime"@, decimal(since as int)),
                ("limit"@, decimal(500)),
            ],
        ),
{
}

/// Face data is asked for by the ids of its files, all of them and in their order.
pub proof fn face_data_is_asked_for_by_id(client: ClientView, ids: Seq<i64>)
    ensures
        goes_to_museum(mldata_request(client, ids), client, "/files/data/fetch"@),
        mldata_request(client, ids).method == Method::Post,
        mldata_request(client, ids).body matches Some(DocTree::Fields(fields)) && {
            &&& fields.len() == 2
            &&& fields[0] == ("type"@, DocTree::Text("mldata"@))
            &&& fields[1].0 == "fileIDs"@
            &&& fields[1].1 matches DocTree::List(items)
            &&& items.len() == ids.len()
            &&& forall|i: int| 0 <= i < ids.len() ==> #[trigger] items[i] == DocTree::Int(ids[i])
        },
{
}

/// Exactly one file is trashed, in its album.
pub proof fn one_file_is_trashed(client: ClientView, file: i64, album: i64)
    ensures
        goes_to_museum(trash_request(client, file, album), client, "/files/trash"@),
        trash_request(client, file, album).method == Method::Post,
        trash_request(client, file, album).body matches Some(DocTree::Fields(fields)) && {
            &&& fields.len() == 1
            &&& fields[0].0 == "items"@
            &&& fields[0].1 matches DocTree::List(items)
            &&& items.len() == 1
            &&& items[0] matches DocTree::Fields(item)
            &&& item.len() == 2
            &&& item[0] == ("fileID"@, DocTree::Int(file))
            &&& item[1] == ("collectionID"@, DocTree::Int(album))
        },
{
}

/// A login asks for the attributes of the account with the e-mail address.
pub proof fn attributes_are_asked_for_by_address(client: ClientView, email: Seq<char>)
    ensures
        reads(
            attributes_request(client, email),
            client,
            "/users/srp/attributes"@,
            seq![("email"@, email)],
        ),
{
}

/// A code is sent with the session that waits for it.
pub proof fn code_is_sent_with_its_session(client: ClientView, session: Seq<char>, code: Seq<char>)
    ensures
        sends(
            totp_request(client, session, code),
            client,
            "/users/two-factor/verify"@,
            seq![("sessionID"@, DocTree::Text(session)), ("code"@, DocTree::Text(code))],
        ),
{
}

// ----------------------------------- answers -------------------------------

/// The answer to an API call is the document in its body where its status is a
/// success. Any other status is an error with that status and its text, and an
/// answer that never came is an error of the transport.
pub proof fn answer_is_the_document_of_a_success(
    reply: ReplyView,
    bytes: Seq<u8>,
    tree: JsonTree,
    e: Seq<char>,
)
    ensures
        200 <= reply.status <= 299 && reply.bytes == Ok::<Seq<u8>, Seq<char>>(bytes) && parsed_json(
            bytes,
        ) == Some(tree) ==> json_answer(Ok(reply)) == Ok::<JsonTree, ApiFault>(tree),
        200 <= reply.status <= 299 && reply.bytes == Ok::<Seq<u8>, Seq<char>>(bytes) && parsed_json(
            bytes,
        ) is None ==> (json_answer(Ok(reply)) matches Err(fault) && fault is Decode),
        200 <= reply.status <= 299 && reply.bytes is Err ==> (json_answer(Ok(reply)) matches Err(
            fault,
        ) && fault is Decode),
        !(200 <= reply.status <= 299) ==> json_answer(Ok(reply)) == Err::<JsonTree, ApiFault>(
            ApiFault::Status(reply.status, reply.text),
        ),
        json_answer(Err(e)) == Err::<JsonTree, ApiFault>(ApiFault::Transport(e)),
{
}

/// A call without content went well where its status is a success.
pub proof fn empty_answer_is_a_success(reply: ReplyView, e: Seq<char>)
    ensures
        empty_answer(Ok(reply)) is Ok <==> 200 <= reply.status <= 299,
        !(200 <= reply.status <= 299) ==> empty_answer(Ok(reply)) == Err::<(), ApiFault>(
            ApiFault::Status(reply.status, reply.text),
        ),
        empty_answer(Err(e)) == Err::<(), ApiFault>(ApiFault::Transport(e)),
{
}

/// A fault amounts to the status that the museum answered, and to 502 where there was
/// no answer that could be used.
pub proof fn faults_have_a_status(code: u16, m: Seq<char>)
    ensures
        ApiFault::Status(code, m).code() == code,
        ApiFault::Transport(m).code() == 502,
        ApiFault::Decode(m).code() == 502,
        ApiFault::Status(code, m).words() == "museum returned "@ + decimal(code as int) + ": "@ + m,
        ApiFault::Transport(m).words() == "cannot reach museum instance: "@ + m,
        ApiFault::Decode(m).words() == "unexpected response: "@ + m,
{
}

// ---------------------------------- settings -------------------------------

/// Slashes at the end of the configured URLs make no difference: the blob of a file
/// is found behind the base URL, or behind the blob host where there is one.
pub proof fn blob_is_found_behind_its_host(
    settings: Settings,
    host: Seq<char>,
    slashes: nat,
    id: i64,
)
    requires
        host.len() > 0 ==> host.last() != '/',
    ensures
        settings.ente_api_url@ == host + Seq::new(slashes, |i: int| '/') ==> settings.base()
            == host,
        settings.ente_api_url@ == host + Seq::new(slashes, |i: int| '/')
            && settings.ente_download_url@.len() == 0 ==> settings.blob_url(id) == host
            + "/files/download/"@ + decimal(id as int),
        settings.ente_download_url@ == host + Seq::new(slashes, |i: int| '/')
            && settings.ente_download_url@.len() > 0 ==> settings.blob_url(id) == host + "/"@ + decimal(id as int),
{
    trim_end_drops_one_character(host, '/', slashes);
}

/// Whether some variable has a name.
pub open spec fn is_set(vars: Seq<(String, String)>, key: Seq<char>) -> bool {
    exists|i: int| 0 <= i < vars.len() && (#[trigger] vars[i]).0@ == key
}

/// A variable that is not set has no value; one that is set has the value that stands
/// first.
pub proof fn variable_has_its_first_value(vars: Seq<(String, String)>, key: Seq<char>, i: int)
    ensures
        env_value(vars, key) is Some <==> is_set(vars, key),
        0 <= i < vars.len() && vars[i].0@ == key && (forall|j: int|
            0 <= j < i ==> (#[trigger] vars[j]).0@ != key) ==> env_value(vars, key) == Some(
            vars[i].1@,
        ),
    decreases vars.len(),
{
    if vars.len() > 0 {
        let rest = vars.drop_first();
        variable_has_its_first_value(rest, key, i - 1);
        if is_set(rest, key) {
            let j = choose|j: int| 0 <= j < rest.len() && (#[trigger] rest[j]).0@ == key;
            assert(vars[j + 1].0@ == key);
        }
        if is_set(vars, key) && vars[0].0@ != key {
            let j = choose|j: int| 0 <= j < vars.len() && (#[trigger] vars[j]).0@ == key;
            assert(rest[j - 1].0@ == key);
        }
        if vars[0].0@ == key {
            assert(is_set(vars, key));
        }
        if 0 <= i < vars.len() && vars[i].0@ == key && (forall|j: int|
            0 <= j < i ==> (#[trigger] vars[j]).0@ != key) {
            if i > 0 {
                assert(vars[0].0@ != key);
                assert(rest[i - 1] == vars[i]);
                assert forall|j: int| 0 <= j < i - 1 implies (#[trigger] rest[j]).0@ != key by {
                    assert(rest[j] == vars[j + 1]);
                }
            }
        }
    }
}

/// A setting has the value of its variable, and its default where the variable is not
/// set or holds no number in range.
pub proof fn setting_has_its_value_or_default(
    vars: Seq<(String, String)>,
    key: Seq<char>,
    default: Seq<char>,
    max: int,
    number: int,
    flag: bool,
)
    ensures
        env_value(vars, key) is None ==> {
            &&& env_text(vars, key, default) == default
            &&& env_number(vars, key, max, number) == number
            &&& env_flag(vars, key, flag) == flag
        },
        env_value(vars, key) matches Some(v) ==> {
            &&& env_text(vars, key, default) == v
            &&& parsed_within(v, false, 0, max) is None ==> env_number(vars, key, max, number)
                == number
            &&& parsed_within(v, false, 0, max) matches Some(n) ==> env_number(
                vars,
                key,
                max,
                number,
            ) == n
            &&& env_flag(vars, key, flag) == says_yes(v)
        },
{
}

/// The words that switch something on, in any case and with white space around them.
pub proof fn words_that_switch_on(v: Seq<char>)
    ensures
        says_yes(v) <==> lowercase(trimmed(v)) == "1"@ || lowercase(trimmed(v)) == "true"@
            || lowercase(trimmed(v)) == "yes"@ || lowercase(trimmed(v)) == "on"@,
{
}

} // verus!
