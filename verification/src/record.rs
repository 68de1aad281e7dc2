//! Per-record conversion: extracting and validating the five required fields
//! of one raw record, merging its tags with the run's extra tags, and
//! producing one typed bookmark or one attributable failure.

use vstd::prelude::*;
use crate::codec::rfc3339_epoch;
use crate::codec::to_epoch;
use crate::json::JsonValue;
use crate::json::get_field;
use crate::json::spec_get_field;

verus! {

/// Why one record could not be converted: exactly one required field, and
/// whether it was absent, of the wrong shape, or (for the timestamp) not
/// parseable.
#[derive(Debug, Clone, Copy, PartialEq, Eq, Structural)]
pub enum ConvertError {
    MissingCreatedAt,
    CreatedAtNotAString,
    CreatedAtNotATimestamp,
    MissingTitle,
    TitleNotAString,
    MissingUrl,
    UrlNotAString,
    MissingIsArchived,
    IsArchivedNotAnInt,
    MissingTags,
    TagsNotAnArray,
    TagNotAString,
}

impl ConvertError {
    /// The cause, described: which field failed, and whether it was absent,
    /// of the wrong shape, or not parseable.
    pub open spec fn spec_message(self) -> Seq<char> {
        match self {
            ConvertError::MissingCreatedAt => "created_at does not exist"@,
            ConvertError::CreatedAtNotAString => "created_at is not a string"@,
            ConvertError::CreatedAtNotATimestamp => "created_at is not a valid RFC 3339 date-time"@,
            ConvertError::MissingTitle => "title does not exist"@,
            ConvertError::TitleNotAString => "title is not a string"@,
            ConvertError::MissingUrl => "url does not exist"@,
            ConvertError::UrlNotAString => "url is not a string"@,
            ConvertError::MissingIsArchived => "is_archived does not exist"@,
            ConvertError::IsArchivedNotAnInt => "is_archived is not an int"@,
            ConvertError::MissingTags => "tags does not exist"@,
            ConvertError::TagsNotAnArray => "tags is not an array"@,
            ConvertError::TagNotAString => "tags has an element that is not a string"@,
        }
    }

    /// The human-readable description of the cause.
    pub fn message(&self) -> (r: String)
        ensures
            r@ == self.spec_message(),
    {
        match self {
            ConvertError::MissingCreatedAt => "created_at does not exist".to_owned(),
            ConvertError::CreatedAtNotAString => "created_at is not a string".to_owned(),
            ConvertError::CreatedAtNotATimestamp => "created_at is not a valid RFC 3339 date-time".to_owned(),
            ConvertError::MissingTitle => "title does not exist".to_owned(),
            ConvertError::TitleNotAString => "title is not a string".to_owned(),
            ConvertError::MissingUrl => "url does not exist".to_owned(),
            ConvertError::UrlNotAString => "url is not a string".to_owned(),
            ConvertError::MissingIsArchived => "is_archived does not exist".to_owned(),
            ConvertError::IsArchivedNotAnInt => "is_archived is not an int".to_owned(),
            ConvertError::MissingTags => "tags does not exist".to_owned(),
            ConvertError::TagsNotAnArray => "tags is not an array".to_owned(),
            ConvertError::TagNotAString => "tags has an element that is not a string".to_owned(),
        }
    }
}

/// The constant `type` of every converted record's content object.
pub const LINK_CONTENT_TYPE: &'static str = "link";

/// The tagged content object of a converted record: always a link.
#[derive(Debug)]
pub struct Content {
    pub typ: String,
    pub url: String,
}

/// One converted record, ready for the output document.
#[derive(Debug)]
pub struct Bookmark {
    pub created_at: i64,
    pub title: String,
    pub tags: Vec<String>,
    pub content: Content,
    pub archived: bool,
    pub note: Option<String>,
}

/// The mathematical value of a converted record.
pub struct BookmarkModel {
    pub created_at: int,
    pub title: Seq<char>,
    pub url: Seq<char>,
    pub tags: Seq<Seq<char>>,
    pub archived: bool,
    pub note: Option<Seq<char>>,
}

impl View for Bookmark {
    type V = BookmarkModel;

    open spec fn view(&self) -> BookmarkModel {
        BookmarkModel {
            created_at: self.created_at as int,
            title: self.title@,
            url: self.content.url@,
            tags: self.tags@.map_values(|t: String| t@),
            archived: self.archived,
            note: match self.note {
                Some(s) => Some(s@),
                None => None,
            },
        }
    }
}

impl Bookmark {
    /// A well-formed bookmark's content is tagged as a link.
    pub open spec fn wf(self) -> bool {
        self.content.typ@ == LINK_CONTENT_TYPE@
    }
}

/// The views of a sequence of strings.
pub open spec fn tag_views(ts: Seq<String>) -> Seq<Seq<char>> {
    ts.map_values(|t: String| t@)
}

/// The `created_at` field as Unix epoch seconds: present, a string, and an
/// RFC 3339 date-time, or the first applicable failure.
pub open spec fn spec_created_at(v: JsonValue) -> Result<int, ConvertError> {
    match spec_get_field(v, "created_at"@) {
        None => Err(ConvertError::MissingCreatedAt),
        Some(f) => match f {
            JsonValue::Str(s) => match rfc3339_epoch(s@) {
                Some(t) => Ok(t),
                None => Err(ConvertError::CreatedAtNotATimestamp),
            },
            _ => Err(ConvertError::CreatedAtNotAString),
        },
    }
}

/// The `title` field: present and a string.
pub open spec fn spec_title(v: JsonValue) -> Result<Seq<char>, ConvertError> {
    match spec_get_field(v, "title"@) {
        None => Err(ConvertError::MissingTitle),
        Some(f) => match f {
            JsonValue::Str(s) => Ok(s@),
            _ => Err(ConvertError::TitleNotAString),
        },
    }
}

/// The `url` field: present and a string.
pub open spec fn spec_url(v: JsonValue) -> Result<Seq<char>, ConvertError> {
    match spec_get_field(v, "url"@) {
        None => Err(ConvertError::MissingUrl),
        Some(f) => match f {
            JsonValue::Str(s) => Ok(s@),
            _ => Err(ConvertError::UrlNotAString),
        },
    }
}

/// The `is_archived` field: present and an integer.
pub open spec fn spec_is_archived(v: JsonValue) -> Result<int, ConvertError> {
    match spec_get_field(v, "is_archived"@) {
        None => Err(ConvertError::MissingIsArchived),
        Some(f) => match f {
            JsonValue::Int(i) => Ok(i as int),
            _ => Err(ConvertError::IsArchivedNotAnInt),
        },
    }
}

/// True when every element of the sequence is a string node.
pub open spec fn all_strings(xs: Seq<JsonValue>) -> bool {
    forall|i: int| 0 <= i < xs.len() ==> xs[i] is Str
}

/// The string contents of a sequence of string nodes.
pub open spec fn str_views(xs: Seq<JsonValue>) -> Seq<Seq<char>> {
    xs.map_values(
        |x: JsonValue|
            match x {
                JsonValue::Str(s) => s@,
                _ => Seq::<char>::empty(),
            },
    )
}

/// The record's own `tags` field: present, an array, every element a string.
pub open spec fn spec_own_tags(v: JsonValue) -> Result<Seq<Seq<char>>, ConvertError> {
    match spec_get_field(v, "tags"@) {
        None => Err(ConvertError::MissingTags),
        Some(f) => match f {
            JsonValue::Arr(xs) => if all_strings(xs@) {
                Ok(str_views(xs@))
            } else {
                Err(ConvertError::TagNotAString)
            },
            _ => Err(ConvertError::TagsNotAnArray),
        },
    }
}

/// Appends to `acc`, left to right, each element of `xs` not already
/// present.
pub open spec fn spec_add_new(acc: Seq<Seq<char>>, xs: Seq<Seq<char>>) -> Seq<Seq<char>>
    decreases xs.len(),
{
    if xs.len() == 0 {
        acc
    } else {
        let acc2 = if acc.contains(xs[0]) {
            acc
        } else {
            acc.push(xs[0])
        };
        spec_add_new(acc2, xs.drop_first())
    }
}

/// The merged tag sequence of one record: its own tags first, in first-use
/// order, then the extra tags that are new, each distinct tag exactly once.
pub open spec fn spec_tag_union(own: Seq<Seq<char>>, extra: Seq<Seq<char>>) -> Seq<Seq<char>> {
    spec_add_new(spec_add_new(Seq::empty(), own), extra)
}

/// The conversion of one raw record under the extra tags `extra`: the typed
/// record on success, or the failure of the first failing field in the fixed
/// order `created_at`, `title`, `url`, `is_archived`, `tags`.
pub open spec fn spec_convert_item(v: JsonValue, extra: Seq<Seq<char>>) -> Result<
    BookmarkModel,
    ConvertError,
> {
    match spec_created_at(v) {
        Err(e) => Err(e),
        Ok(created_at) => match spec_title(v) {
            Err(e) => Err(e),
            Ok(title) => match spec_url(v) {
                Err(e) => Err(e),
                Ok(url) => match spec_is_archived(v) {
                    Err(e) => Err(e),
                    Ok(a) => match spec_own_tags(v) {
                        Err(e) => Err(e),
                        Ok(own) => Ok(
                            BookmarkModel {
                                created_at,
                                title,
                                url,
                                tags: spec_tag_union(own, extra),
                                archived: a != 0,
                                note: None,
                            },
                        ),
                    },
                },
            },
        },
    }
}

/// A record is valid when all five required fields are present with the
/// right shapes and its timestamp is a parseable RFC 3339 date-time.
pub open spec fn record_valid(v: JsonValue) -> bool {
    &&& spec_created_at(v) is Ok
    &&& spec_title(v) is Ok
    &&& spec_url(v) is Ok
    &&& spec_is_archived(v) is Ok
    &&& spec_own_tags(v) is Ok
}

/// Every valid record converts, and the converted record carries the parsed
/// epoch seconds, the title and URL as given, `archived` exactly when
/// `is_archived` is non-zero, the merged tags, and no note.
pub proof fn lemma_valid_record_converts(v: JsonValue, extra: Seq<Seq<char>>)
    requires
        record_valid(v),
    ensures
        spec_convert_item(v, extra) matches Ok(m) && m.created_at == spec_created_at(v)->Ok_0
            && m.title == spec_title(v)->Ok_0 && m.url == spec_url(v)->Ok_0 && m.archived == (
        spec_is_archived(v)->Ok_0 != 0) && m.tags == spec_tag_union(spec_own_tags(v)->Ok_0, extra)
            && m.note is None,
{
}

/// A record with any required field absent, of the wrong shape, or with an
/// unparseable timestamp does not convert.
pub proof fn lemma_invalid_record_fails(v: JsonValue, extra: Seq<Seq<char>>)
    requires
        !record_valid(v),
    ensures
        spec_convert_item(v, extra) is Err,
{
}

/// The set of elements added by `spec_add_new`, and its freedom from
/// duplicates.
proof fn lemma_add_new(acc: Seq<Seq<char>>, xs: Seq<Seq<char>>)
    ensures
        spec_add_new(acc, xs).to_set() == acc.to_set().union(xs.to_set()),
        acc.no_duplicates() ==> spec_add_new(acc, xs).no_duplicates(),
    decreases xs.len(),
{
    if xs.len() == 0 {
        assert(xs.to_set() =~= Set::<Seq<char>>::empty());
        assert(acc.to_set().union(xs.to_set()) =~= acc.to_set());
    } else {
        let x = xs[0];
        let rest = xs.drop_first();
        if acc.contains(x) {
            lemma_add_new(acc, rest);
            assert(acc.to_set().union(rest.to_set()) =~= acc.to_set().union(xs.to_set())) by {
                assert(forall|a: Seq<char>| #[trigger] xs.contains(a) <==> a == x || rest.contains(
                    a,
                )) by {
                    assert(forall|a: Seq<char>| #[trigger] rest.contains(a) ==> xs.contains(a));
                    assert(forall|a: Seq<char>|
                        xs.contains(a) ==> a == x || rest.contains(a)) by {
                        assert(forall|i: int|
                            1 <= i < xs.len() ==> rest[i - 1] == #[trigger] xs[i]);
                    }
                }
            }
        } else {
            let acc2 = acc.push(x);
            lemma_add_new(acc2, rest);
            assert(acc2.to_set() =~= acc.to_set().insert(x)) by {
                assert(forall|a: Seq<char>| #[trigger] acc2.contains(a) <==> acc.contains(a) || a
                    == x) by {
                    assert(forall|i: int| 0 <= i < acc.len() ==> acc2[i] == #[trigger] acc[i]);
                    assert(acc2[acc.len() as int] == x);
                    assert(forall|i: int|
                        0 <= i < acc2.len() && acc2[i] != x ==> acc.contains(acc2[i]));
                }
            }
            assert(acc2.to_set().union(rest.to_set()) =~= acc.to_set().union(xs.to_set())) by {
                assert(forall|a: Seq<char>| #[trigger] xs.contains(a) <==> a == x || rest.contains(
                    a,
                )) by {
                    assert(forall|a: Seq<char>| #[trigger] rest.contains(a) ==> xs.contains(a));
                    assert(xs.contains(x));
                    assert(forall|a: Seq<char>|
                        xs.contains(a) ==> a == x || rest.contains(a)) by {
                        assert(forall|i: int|
                            1 <= i < xs.len() ==> rest[i - 1] == #[trigger] xs[i]);
                    }
                }
            }
            if acc.no_duplicates() {
                assert(acc2.no_duplicates()) by {
                    assert(forall|i: int| 0 <= i < acc.len() ==> acc2[i] == #[trigger] acc[i]);
                    assert(forall|i: int|
                        0 <= i < acc.len() ==> #[trigger] acc2[i] != acc2[acc.len() as int]) by {
                        assert(forall|i: int|
                            0 <= i < acc.len() ==> acc.contains(#[trigger] acc[i]));
                    }
                }
            }
        }
    }
}

/// Tag union law: for any record tags and extra tags, the merged tag
/// sequence holds exactly the union of the two sets, each distinct tag
/// exactly once, whatever order either side lists its tags in.
pub proof fn lemma_tag_union(own: Seq<Seq<char>>, extra: Seq<Seq<char>>)
    ensures
        spec_tag_union(own, extra).to_set() == own.to_set().union(extra.to_set()),
        spec_tag_union(own, extra).no_duplicates(),
{
    let empty = Seq::<Seq<char>>::empty();
    assert(empty.to_set() =~= Set::<Seq<char>>::empty());
    assert(empty.no_duplicates());
    lemma_add_new(empty, own);
    lemma_add_new(spec_add_new(empty, own), extra);
    assert(spec_tag_union(own, extra).to_set() =~= own.to_set().union(extra.to_set()));
}

/// True when some element of `ts` has the contents `s`.
fn contains_string(ts: &Vec<String>, s: &String) -> (r: bool)
    ensures
        r == tag_views(ts@).contains(s@),
{
    let n: usize = ts.len();
    let mut i: usize = 0;
    while i < n
        invariant
            i <= n,
            n == ts@.len(),
            forall|j: int| 0 <= j < i ==> ts@[j]@ != s@,
        decreases n - i,
    {
        if ts[i] == *s {
            proof {
                assert(tag_views(ts@)[i as int] == s@);
            }
            return true;
        }
        i = i + 1;
    }
    proof {
        assert(forall|j: int| 0 <= j < ts@.len() ==> tag_views(ts@)[j] == ts@[j]@);
    }
    false
}

/// Appends to `acc` each element of `xs` that is not already present,
/// left to right.
fn add_new(acc: &mut Vec<String>, xs: &Vec<String>)
    ensures
        tag_views(final(acc)@) == spec_add_new(tag_views(old(acc)@), tag_views(xs@)),
{
    let ghost tv: Seq<Seq<char>> = tag_views(xs@);
    let n: usize = xs.len();
    let mut i: usize = 0;
    proof {
        assert(tv.skip(0) =~= tv);
    }
    while i < n
        invariant
            i <= n,
            n == xs@.len(),
            tv == tag_views(xs@),
            spec_add_new(tag_views(acc@), tv.skip(i as int)) == spec_add_new(
                tag_views(old(acc)@),
                tv,
            ),
        decreases n - i,
    {
        proof {
            assert(tv.skip(i as int)[0] == tv[i as int]);
            assert(tv[i as int] == xs@[i as int]@);
            assert(tv.skip(i as int).drop_first() =~= tv.skip(i as int + 1));
        }
        if !contains_string(acc, &xs[i]) {
            let ghost before: Seq<Seq<char>> = tag_views(acc@);
            acc.push(xs[i].clone());
            proof {
                assert(tag_views(acc@) =~= before.push(xs@[i as int]@));
            }
        }
        i = i + 1;
    }
    proof {
        assert(tv.skip(n as int).len() == 0);
    }
}

/// The merged tags of one record: its own tags and the extra tags, each
/// distinct tag exactly once, own tags first in first-use order.
pub fn union_tags(own: &Vec<String>, extra: &Vec<String>) -> (r: Vec<String>)
    ensures
        tag_views(r@) == spec_tag_union(tag_views(own@), tag_views(extra@)),
{
    let mut acc: Vec<String> = Vec::new();
    proof {
        assert(tag_views(acc@) =~= Seq::<Seq<char>>::empty());
    }
    add_new(&mut acc, own);
    add_new(&mut acc, extra);
    acc
}

/// The string contents of an array's elements, or the tag failure at its
/// first element that is not a string.
fn str_items(xs: &Vec<JsonValue>) -> (r: Result<Vec<String>, ConvertError>)
    ensures
        all_strings(xs@) ==> (r matches Ok(ts) && tag_views(ts@) == str_views(xs@)),
        !all_strings(xs@) ==> (r matches Err(e) && e == ConvertError::TagNotAString),
{
    let n: usize = xs.len();
    let mut ts: Vec<String> = Vec::new();
    let mut i: usize = 0;
    while i < n
        invariant
            i <= n,
            n == xs@.len(),
            ts@.len() == i,
            forall|j: int| 0 <= j < i ==> xs@[j] is Str,
            forall|j: int| 0 <= j < i ==> ts@[j]@ == str_views(xs@)[j],
        decreases n - i,
    {
        match &xs[i] {
            JsonValue::Str(s) => {
                ts.push(s.clone());
                proof {
                    assert(str_views(xs@)[i as int] == s@);
                }
            },
            _ => {
                proof {
                    assert(xs@[i as int] !is Str);
                }
                return Err(ConvertError::TagNotAString);
            },
        }
        i = i + 1;
    }
    proof {
        assert(tag_views(ts@) =~= str_views(xs@));
    }
    Ok(ts)
}

/// Converts one raw record under the run's extra tags: all five required
/// fields extracted and validated in the fixed order, tags merged, or the
/// first applicable failure. A pure function of its two inputs.
pub fn convert_item(v: &JsonValue, extra_tags: &Vec<String>) -> (r: Result<Bookmark, ConvertError>)
    ensures
        match spec_convert_item(*v, tag_views(extra_tags@)) {
            Ok(m) => r matches Ok(b) && b@ == m && b.wf(),
            Err(e) => r matches Err(e2) && e2 == e,
        },
{
    let created_at: i64 = match get_field(v, "created_at") {
        None => { return Err(ConvertError::MissingCreatedAt) },
        Some(f) => match f {
            JsonValue::Str(s) => match to_epoch(s.as_str()) {
                Some(t) => t,
                None => { return Err(ConvertError::CreatedAtNotATimestamp) },
            },
            _ => { return Err(ConvertError::CreatedAtNotAString) },
        },
    };
    let title: String = match get_field(v, "title") {
        None => { return Err(ConvertError::MissingTitle) },
        Some(f) => match f {
            JsonValue::Str(s) => s.clone(),
            _ => { return Err(ConvertError::TitleNotAString) },
        },
    };
    let url: String = match get_field(v, "url") {
        None => { return Err(ConvertError::MissingUrl) },
        Some(f) => match f {
            JsonValue::Str(s) => s.clone(),
            _ => { return Err(ConvertError::UrlNotAString) },
        },
    };
    let archived: bool = match get_field(v, "is_archived") {
        None => { return Err(ConvertError::MissingIsArchived) },
        Some(f) => match f {
            JsonValue::Int(i) => *i != 0,
            _ => { return Err(ConvertError::IsArchivedNotAnInt) },
        },
    };
    let own_tags: Vec<String> = match get_field(v, "tags") {
        None => { return Err(ConvertError::MissingTags) },
        Some(f) => match f {
            JsonValue::Arr(xs) => match str_items(xs) {
                Ok(ts) => ts,
                Err(e) => { return Err(e) },
            },
            _ => { return Err(ConvertError::TagsNotAnArray) },
        },
    };
    let tags: Vec<String> = union_tags(&own_tags, extra_tags);
    Ok(
        Bookmark {
            created_at,
            title,
            tags,
            content: Content { typ: LINK_CONTENT_TYPE.to_owned(), url },
            archived,
            note: None,
        },
    )
}

} // verus!
