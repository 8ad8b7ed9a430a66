//! Laws of listings: which files a filter lets through, in which order they come,
//! and what a page shows.

use crate::api::{clamped_limit, images_fields, lists_images, page_of};
use crate::config::Settings;
use crate::doc::DocTree;
use crate::faces::FaceView;
use crate::files::{
    found_in, is_listing, names_are_distinct_and_complete, names_in, no_filter, shows_files,
    text_docs, wanted, FilterView, ImageFile, ImageView,
};
use crate::float::less;
use crate::text::{has_part, lowercase, stands_at};
use vstd::prelude::*;

verus! {

// ----------------------------------- texts ---------------------------------

/// Whether `whole` is made of something, `part` and something.
pub open spec fn surrounds(whole: Seq<char>, part: Seq<char>) -> bool {
    exists|a: Seq<char>, b: Seq<char>| whole == #[trigger] (a + part + b)
}

/// A text has a part exactly where it is made of something, the part and
/// something: whatever stands before or behind it makes no difference.
pub proof fn part_stands_anywhere(whole: Seq<char>, part: Seq<char>)
    ensures
        has_part(whole, part) <==> surrounds(whole, part),
{
    if has_part(whole, part) {
        let at = choose|at: int| stands_at(whole, part, at);
        let a = whole.take(at);
        let b = whole.skip(at + part.len());
        assert(whole =~= a + part + b);
    }
    if surrounds(whole, part) {
        let (a, b) = choose|a: Seq<char>, b: Seq<char>| whole == #[trigger] (a + part + b);
        assert(whole.subrange(a.len() as int, (a.len() + part.len()) as int) =~= part);
        assert(stands_at(whole, part, a.len() as int));
    }
}

/// A part is found in a text whatever surrounds it there, in upper or lower case.
pub proof fn part_is_found_in_any_case(whole: Seq<char>, part: Seq<char>)
    ensures
        found_in(whole, part) <==> surrounds(lowercase(whole), lowercase(part)),
{
    part_stands_anywhere(lowercase(whole), lowercase(part));
}

// ---------------------------- single restrictions --------------------------

/// A file name lists the files that are not deleted and have the name as a part of
/// their title, wherever it stands there and in whatever case.
pub proof fn filename_matches_a_part_of_the_title(part: Seq<char>, file: ImageView)
    ensures
        wanted(FilterView { filename: Some(part), ..no_filter() }, file) <==> {
            &&& !file.is_deleted
            &&& file.title matches Some(title)
            &&& surrounds(lowercase(title), lowercase(part))
        },
{
    if let Some(title) = file.title {
        part_is_found_in_any_case(title, part);
    }
}

/// An album lists the files of the albums that have the text as a part of their
/// name.
pub proof fn album_matches_a_part_of_the_name(part: Seq<char>, file: ImageView)
    ensures
        wanted(FilterView { album: Some(part), ..no_filter() }, file) <==> {
            &&& !file.is_deleted
            &&& surrounds(lowercase(file.album_name), lowercase(part))
        },
{
    part_is_found_in_any_case(file.album_name, part);
}

/// Whether a face belongs to someone whose name has a part.
pub open spec fn face_of_someone(face: FaceView, part: Seq<char>) -> bool {
    face.person_name matches Some(name) && surrounds(lowercase(name), lowercase(part))
}

/// A person lists the files on which at least one face belongs to someone with the
/// text as a part of their name.
pub proof fn person_matches_a_part_of_a_name(part: Seq<char>, file: ImageView)
    ensures
        wanted(FilterView { person: Some(part), ..no_filter() }, file) <==> {
            &&& !file.is_deleted
            &&& exists|i: int|
                0 <= i < file.faces.len() && face_of_someone(#[trigger] file.faces[i], part)
        },
{
    let f = FilterView { person: Some(part), ..no_filter() };
    if wanted(f, file) {
        let i = choose|i: int|
            0 <= i < file.faces.len() && #[trigger] file.faces[i].person_name is Some && found_in(
                file.faces[i].person_name->0,
                part,
            );
        part_is_found_in_any_case(file.faces[i].person_name->0, part);
        assert(face_of_someone(file.faces[i], part));
    }
    if exists|i: int| 0 <= i < file.faces.len() && face_of_someone(#[trigger] file.faces[i], part) {
        let i = choose|i: int|
            0 <= i < file.faces.len() && face_of_someone(#[trigger] file.faces[i], part);
        part_is_found_in_any_case(file.faces[i].person_name->0, part);
        assert(file.faces[i].person_name is Some);
    }
}

/// A media type lists the files of that type; its name may be written in any case.
pub proof fn media_type_is_matched_by_name(name: Seq<char>, file: ImageView)
    ensures
        ({
            let listed = wanted(FilterView { media_type: Some(name), ..no_filter() }, file);
            &&& file.is_deleted ==> !listed
            &&& !file.is_deleted && file.file_type == 0 ==> (listed <==> lowercase(name)
                == "image"@)
            &&& !file.is_deleted && file.file_type == 1 ==> (listed <==> lowercase(name)
                == "video"@)
            &&& !file.is_deleted && file.file_type == 2 ==> (listed <==> lowercase(name)
                == "live_photo"@)
            &&& !file.is_deleted && !(0 <= file.file_type <= 2) ==> (listed <==> lowercase(name)
                == "unknown"@)
        }),
{
}

/// Bounds on the time list the files that were taken within them, the bounds
/// included; a file without a time is within none.
pub proof fn time_bounds_are_inclusive(from: i64, to: i64, file: ImageView)
    ensures
        wanted(FilterView { time_from: Some(from), ..no_filter() }, file) <==> {
            &&& !file.is_deleted
            &&& file.creation_time matches Some(t)
            &&& from <= t
        },
        wanted(FilterView { time_to: Some(to), ..no_filter() }, file) <==> {
            &&& !file.is_deleted
            &&& file.creation_time matches Some(t)
            &&& t <= to
        },
        wanted(FilterView { time_from: Some(from), time_to: Some(to), ..no_filter() }, file) <==> {
            &&& !file.is_deleted
            &&& file.creation_time matches Some(t)
            &&& from <= t <= to
        },
{
}

/// A file has a location where it has both coordinates.
pub proof fn location_means_both_coordinates(file: ImageView)
    ensures
        wanted(FilterView { has_location: Some(true), ..no_filter() }, file) <==> !file.is_deleted
            && file.latitude is Some && file.longitude is Some,
        wanted(FilterView { has_location: Some(false), ..no_filter() }, file) <==> !file.is_deleted
            && (file.latitude is None || file.longitude is None),
{
}

/// A bounding box lists the files that have a place and are not outside: none that
/// lies below its least or above its greatest latitude or longitude.
pub proof fn box_lists_what_is_not_outside(bound: u64, file: ImageView)
    ensures
        wanted(FilterView { min_lat: Some(bound), ..no_filter() }, file) <==> {
            &&& !file.is_deleted
            &&& file.longitude is Some
            &&& file.latitude matches Some(lat)
            &&& !less(lat, bound)
        },
        wanted(FilterView { max_lat: Some(bound), ..no_filter() }, file) <==> {
            &&& !file.is_deleted
            &&& file.longitude is Some
            &&& file.latitude matches Some(lat)
            &&& !less(bound, lat)
        },
        wanted(FilterView { min_lon: Some(bound), ..no_filter() }, file) <==> {
            &&& !file.is_deleted
            &&& file.latitude is Some
            &&& file.longitude matches Some(lon)
            &&& !less(lon, bound)
        },
        wanted(FilterView { max_lon: Some(bound), ..no_filter() }, file) <==> {
            &&& !file.is_deleted
            &&& file.latitude is Some
            &&& file.longitude matches Some(lon)
            &&& !less(bound, lon)
        },
{
}

/// Doubles are compared by their values: by their bits where both are positive, the
/// other way round where both are negative; a negative one is less than a positive
/// one unless both are zero, and what is not a number is less than nothing and
/// nothing is less than it.
pub proof fn doubles_are_compared_by_value(a: u64, b: u64)
    ensures
        a < 0x8000_0000_0000_0000 && b < 0x8000_0000_0000_0000 && a <= 0x7ff0_0000_0000_0000 && b
            <= 0x7ff0_0000_0000_0000 ==> (less(a, b) <==> a < b),
        0x8000_0000_0000_0000 <= a <= 0xfff0_0000_0000_0000 && 0x8000_0000_0000_0000 <= b
            <= 0xfff0_0000_0000_0000 ==> (less(a, b) <==> b < a),
        0x8000_0000_0000_0000 <= a <= 0xfff0_0000_0000_0000 && b <= 0x7ff0_0000_0000_0000 ==> (less(
            a,
            b,
        ) <==> a != 0x8000_0000_0000_0000 || b != 0),
        a <= 0x7ff0_0000_0000_0000 && 0x8000_0000_0000_0000 <= b ==> !less(a, b),
        0x7ff0_0000_0000_0000 < a < 0x8000_0000_0000_0000 || a > 0xfff0_0000_0000_0000 ==> !less(
            a,
            b,
        ) && !less(b, a),
{
}

/// Faces are counted: a file has faces where it has at least one, and a least number
/// lists the files with that many or more.
pub proof fn faces_are_counted(least: usize, file: ImageView)
    ensures
        wanted(FilterView { has_faces: Some(true), ..no_filter() }, file) <==> !file.is_deleted
            && file.faces.len() > 0,
        wanted(FilterView { has_faces: Some(false), ..no_filter() }, file) <==> !file.is_deleted
            && file.faces.len() == 0,
        wanted(FilterView { min_faces: Some(least), ..no_filter() }, file) <==> !file.is_deleted
            && file.faces.len() >= least,
{
}

/// A filter lists what each of its restrictions lists on its own, and nothing else.
pub proof fn restrictions_combine(f: FilterView, file: ImageView)
    ensures
        wanted(f, file) <==> {
            &&& wanted(FilterView { album: f.album, ..no_filter() }, file)
            &&& wanted(FilterView { media_type: f.media_type, ..no_filter() }, file)
            &&& wanted(FilterView { time_from: f.time_from, ..no_filter() }, file)
            &&& wanted(FilterView { time_to: f.time_to, ..no_filter() }, file)
            &&& wanted(FilterView { has_location: f.has_location, ..no_filter() }, file)
            &&& wanted(FilterView { min_lat: f.min_lat, ..no_filter() }, file)
            &&& wanted(FilterView { max_lat: f.max_lat, ..no_filter() }, file)
            &&& wanted(FilterView { min_lon: f.min_lon, ..no_filter() }, file)
            &&& wanted(FilterView { max_lon: f.max_lon, ..no_filter() }, file)
            &&& wanted(FilterView { filename: f.filename, ..no_filter() }, file)
            &&& wanted(FilterView { has_faces: f.has_faces, ..no_filter() }, file)
            &&& wanted(FilterView { min_faces: f.min_faces, ..no_filter() }, file)
            &&& wanted(FilterView { person: f.person, ..no_filter() }, file)
        },
{
}

// ---------------------------------- listings -------------------------------

/// A listing has every file that the filter lets through, once, and no other; a file
/// that was taken later comes first, and a file without a time counts as taken at 0.
pub proof fn listing_is_complete_and_newest_first(
    files: Map<i64, ImageView>,
    f: FilterView,
    keys: Seq<i64>,
    i: int,
    j: int,
    k: i64,
)
    requires
        is_listing(files, f, keys),
        0 <= i < keys.len(),
        0 <= j < keys.len(),
        files.contains_key(k),
    ensures
        files.contains_key(keys[i]) && wanted(f, files[keys[i]]),
        wanted(f, files[k]) <==> exists|n: int| 0 <= n < keys.len() && #[trigger] keys[n] == k,
        i != j ==> keys[i] != keys[j],
        files[keys[i]].creation_time matches Some(s) ==> (files[keys[j]].creation_time matches Some(
            t,
        ) ==> (s > t ==> i < j)),
        files[keys[i]].creation_time matches Some(s) ==> (files[keys[j]].creation_time is None ==> (
        s > 0 ==> i < j) && (s < 0 ==> j < i)),
{
    assert(keys.contains(keys[i]));
    assert(keys.contains(k) <==> wanted(f, files[k]));
}

/// A listing by file name has exactly the files that are not deleted and whose title
/// is made of something, the name and something, letter case left aside.
pub proof fn filename_lists_the_matching_files(
    files: Map<i64, ImageView>,
    part: Seq<char>,
    keys: Seq<i64>,
    k: i64,
)
    requires
        is_listing(files, FilterView { filename: Some(part), ..no_filter() }, keys),
    ensures
        keys.contains(k) <==> {
            &&& files.contains_key(k)
            &&& !files[k].is_deleted
            &&& files[k].title matches Some(title)
            &&& exists|a: Seq<char>, b: Seq<char>|
                lowercase(title) == #[trigger] (a + lowercase(part) + b)
        },
{
    if files.contains_key(k) {
        filename_matches_a_part_of_the_title(part, files[k]);
    }
}

/// Whatever a listing shows is the file under the key, as it stands in the library.
pub proof fn listing_shows_the_files(
    files: Map<i64, ImageView>,
    keys: Seq<i64>,
    listed: Seq<&ImageFile>,
    i: int,
)
    requires
        shows_files(files, keys, listed),
        0 <= i < listed.len(),
    ensures
        listed.len() == keys.len(),
        listed[i]@ == files[keys[i]],
{
}

// ----------------------------------- pages ---------------------------------

/// A page shows its part of a listing: from the offset on, in the order of the
/// listing, as many as the limit allows and as there are.
pub proof fn page_shows_its_part<T>(items: Seq<T>, offset: int, limit: int, i: int)
    requires
        0 <= offset,
        0 <= limit,
    ensures
        offset >= items.len() ==> page_of(items, offset, limit).len() == 0,
        offset < items.len() && items.len() - offset <= limit ==> page_of(
            items,
            offset,
            limit,
        ).len() == items.len() - offset,
        offset < items.len() && items.len() - offset > limit ==> page_of(
            items,
            offset,
            limit,
        ).len() == limit,
        0 <= i < page_of(items, offset, limit).len() ==> page_of(items, offset, limit)[i]
            == items[offset + i],
{
}

/// A page holds what was asked for, at least one and at most ten thousand.
pub proof fn limit_is_kept_within_bounds(limit: usize)
    ensures
        1 <= limit <= 10000 ==> clamped_limit(limit) == limit,
        limit == 0 ==> clamped_limit(limit) == 1,
        limit > 10000 ==> clamped_limit(limit) == 10000,
{
}

/// The number nearest to `n` that is neither below `least` nor above `most`.
pub open spec fn within(n: usize, least: int, most: int) -> int {
    if n < least {
        least
    } else if n > most {
        most
    } else {
        n as int
    }
}

/// Whether `docs` show the files of a listing from `offset` on, at most `limit`.
pub open spec fn shows_page(
    settings: Settings,
    files: Map<i64, ImageView>,
    keys: Seq<i64>,
    limit: int,
    offset: int,
    docs: Seq<DocTree>,
) -> bool {
    &&& docs.len() <= limit
    &&& docs.len() < limit ==> docs.len() == (if offset < keys.len() {
        keys.len() - offset
    } else {
        0
    })
    &&& docs.len() == limit ==> offset + limit <= keys.len()
    &&& forall|i: int|
        0 <= i < docs.len() ==> #[trigger] docs[i] == files[keys[offset + i]].doc(
            settings.blob_url(files[keys[offset + i]].id),
        )
}

/// The answer to a request for images counts the whole listing and shows one page
/// of it.
pub proof fn answer_counts_all_and_shows_a_page(
    settings: Settings,
    files: Map<i64, ImageView>,
    f: FilterView,
    limit: usize,
    offset: usize,
    doc: DocTree,
)
    requires
        lists_images(settings, files, f, limit, offset, doc),
    ensures
        exists|keys: Seq<i64>, docs: Seq<DocTree>|
            {
                &&& #[trigger] is_listing(files, f, keys)
                &&& #[trigger] shows_page(
                    settings,
                    files,
                    keys,
                    within(limit, 1, 10000),
                    offset as int,
                    docs,
                )
                &&& doc == DocTree::Fields(
                    seq![
                        ("count"@, DocTree::Count(keys.len() as usize)),
                        ("images"@, DocTree::List(docs)),
                    ],
                )
            },
{
    let keys = choose|keys: Seq<i64>|
        #![trigger is_listing(files, f, keys)]
        is_listing(files, f, keys) && keys.len() <= usize::MAX && doc == DocTree::Fields(
            images_fields(settings, files, keys, limit, offset),
        );
    let fields = images_fields(settings, files, keys, limit, offset);
    let docs = fields[1].1->List_0;
    let most = within(limit, 1, 10000);
    let page = page_of(keys, offset as int, most);
    assert forall|i: int| 0 <= i < docs.len() implies #[trigger] docs[i] == files[keys[offset
        + i]].doc(settings.blob_url(files[keys[offset + i]].id)) by {
        assert(page[i] == keys[offset + i]);
    }
    assert(shows_page(settings, files, keys, most, offset as int, docs));
    assert(fields =~= seq![
        ("count"@, DocTree::Count(keys.len() as usize)),
        ("images"@, DocTree::List(docs)),
    ]);
}

/// The document of an image tells what the file is.
pub proof fn image_document_tells_the_file(file: ImageView, url: Seq<char>)
    ensures
        file.doc(url) matches DocTree::Fields(fields) && {
            &&& fields.len() == 16
            &&& fields[0] == ("id"@, DocTree::Int(file.id))
            &&& fields[1] == ("title"@, match file.title {
                Some(t) => DocTree::Text(t),
                None => DocTree::Null,
            })
            &&& fields[2] == ("album"@, DocTree::Text(file.album_name))
            &&& fields[3] == ("collectionId"@, DocTree::Int(file.collection_id))
            &&& fields[4].0 == "mediaType"@
            &&& file.file_type == 0 ==> fields[4].1 == DocTree::Text("image"@)
            &&& file.file_type == 1 ==> fields[4].1 == DocTree::Text("video"@)
            &&& file.file_type == 2 ==> fields[4].1 == DocTree::Text("live_photo"@)
            &&& !(0 <= file.file_type <= 2) ==> fields[4].1 == DocTree::Text("unknown"@)
            &&& fields[5] == ("fileSize"@, match file.file_size {
                Some(n) => DocTree::Int(n),
                None => DocTree::Null,
            })
            &&& fields[6] == ("creationTime"@, match file.creation_time {
                Some(t) => DocTree::Int(t),
                None => DocTree::Null,
            })
            &&& fields[7] == ("modificationTime"@, match file.modification_time {
                Some(t) => DocTree::Int(t),
                None => DocTree::Null,
            })
            &&& fields[8] == ("latitude"@, match file.latitude {
                Some(bits) => DocTree::Double(bits),
                None => DocTree::Null,
            })
            &&& fields[9] == ("longitude"@, match file.longitude {
                Some(bits) => DocTree::Double(bits),
                None => DocTree::Null,
            })
            &&& fields[10] == ("hash"@, match file.file_hash {
                Some(h) => DocTree::Text(h),
                None => DocTree::Null,
            })
            &&& fields[11] == ("downloadUrl"@, DocTree::Text(url))
            &&& fields[12].0 == "faces"@
            &&& fields[12].1 matches DocTree::List(faces)
            &&& faces.len() == file.faces.len()
            &&& forall|i: int| 0 <= i < faces.len() ==> #[trigger] faces[i] == file.faces[i].doc()
            &&& fields[13].0 == "people"@
            &&& fields[14] == ("faceImageWidth"@, match file.face_image_width {
                Some(n) => DocTree::Int(n),
                None => DocTree::Null,
            })
            &&& fields[15] == ("faceImageHeight"@, match file.face_image_height {
                Some(n) => DocTree::Int(n),
                None => DocTree::Null,
            })
        },
{
}

/// Names stand in the order in which they first occur: whatever faces follow, the
/// names so far stay in front.
pub proof fn names_stand_in_the_order_of_faces(faces: Seq<FaceView>, more: Seq<FaceView>)
    ensures
        names_in(faces).len() <= names_in(faces + more).len(),
        names_in(faces + more).take(names_in(faces).len() as int) == names_in(faces),
    decreases more.len(),
{
    if more.len() == 0 {
        assert(faces + more =~= faces);
        assert(names_in(faces).take(names_in(faces).len() as int) =~= names_in(faces));
    } else {
        let earlier = more.drop_last();
        names_stand_in_the_order_of_faces(faces, earlier);
        assert((faces + more).drop_last() =~= faces + earlier);
        assert(names_in(faces + more).take(names_in(faces).len() as int) =~= names_in(
            faces + earlier,
        ).take(names_in(faces).len() as int));
    }
}

/// The people in the document of an image are the distinct names of its faces.
pub proof fn image_document_names_the_people(file: ImageView, url: Seq<char>, name: Seq<char>)
    ensures
        file.doc(url) matches DocTree::Fields(fields) && (fields[13].1 matches DocTree::List(people)
            && (people.contains(DocTree::Text(name)) <==> exists|i: int|
            0 <= i < file.faces.len() && (#[trigger] file.faces[i]).person_name == Some(name))
            && people.no_duplicates()),
{
    let names = names_in(file.faces);
    let people = text_docs(names);
    names_are_distinct_and_complete(file.faces);
    if people.contains(DocTree::Text(name)) {
        let i = choose|i: int| 0 <= i < people.len() && people[i] == DocTree::Text(name);
        assert(names[i] == name);
        assert(names.contains(name));
    }
    if names.contains(name) {
        let i = choose|i: int| 0 <= i < names.len() && names[i] == name;
        assert(people[i] == DocTree::Text(name));
    }
    assert(file.doc_fields(url)[13].1 == DocTree::List(people));
}

/// The document of a face tells where it is, how sure that is and whose it is.
pub proof fn face_document_tells_the_face(face: FaceView)
    ensures
        face.doc() matches DocTree::Fields(fields) && {
            &&& fields.len() == 6
            &&& fields[0] == ("faceId"@, DocTree::Text(face.face_id))
            &&& fields[1].0 == "box"@
            &&& fields[1].1 matches DocTree::Fields(sides)
            &&& sides.len() == 4
            &&& sides[0] == ("x"@, DocTree::Double(face.x))
            &&& sides[1] == ("y"@, DocTree::Double(face.y))
            &&& sides[2] == ("width"@, DocTree::Double(face.width))
            &&& sides[3] == ("height"@, DocTree::Double(face.height))
            &&& fields[2] == ("score"@, DocTree::Double(face.score))
            &&& fields[3] == ("blur"@, DocTree::Double(face.blur))
            &&& fields[4] == ("personId"@, match face.person_id {
                Some(id) => DocTree::Text(id),
                None => DocTree::Null,
            })
            &&& fields[5] == ("personName"@, match face.person_name {
                Some(name) => DocTree::Text(name),
                None => DocTree::Null,
            })
        },
{
}

} // verus!
